//! Byte stuffing for command frames.
//!
//! A frame is the payload with every reserved byte replaced by a two-byte
//! escape, followed by one delimiter. The delimiter therefore occurs in a
//! frame exactly once, as its last byte, and the payload can be recovered
//! from the frame without loss.

use vstd::prelude::*;
use crate::error::LinkError;

verus! {

/// Marks the end of a frame.
pub const END: u8 = 0xC0;

/// Introduces a two-byte escape.
pub const ESC: u8 = 0xDB;

/// Follows `ESC` to stand for a payload byte equal to `END`.
pub const ESC_END: u8 = 0xDC;

/// Follows `ESC` to stand for a payload byte equal to `ESC`.
pub const ESC_ESC: u8 = 0xDD;

/// The longest payload whose frame is certain to fit in memory: a frame is at
/// most twice as long as its payload, plus the delimiter.
pub open spec fn max_payload_len() -> int {
    (usize::MAX - 1) / 2
}

/// What one payload byte becomes on the wire.
pub open spec fn escaped(b: u8) -> Seq<u8> {
    if b == END {
        seq![ESC, ESC_END]
    } else if b == ESC {
        seq![ESC, ESC_ESC]
    } else {
        seq![b]
    }
}

/// The payload with every byte escaped, in order.
pub open spec fn stuffed(payload: Seq<u8>) -> Seq<u8>
    decreases payload.len(),
{
    if payload.len() == 0 {
        Seq::<u8>::empty()
    } else {
        escaped(payload[0]) + stuffed(payload.skip(1))
    }
}

/// The frame of a payload: its stuffed bytes and the closing delimiter.
pub open spec fn framed(payload: Seq<u8>) -> Seq<u8> {
    stuffed(payload).push(END)
}

/// The payload that a stuffed byte sequence stands for, or `None` where the
/// sequence holds a bare delimiter, an escape that is cut short, or an escape
/// followed by a byte other than `ESC_END` and `ESC_ESC`.
pub open spec fn unstuffed(body: Seq<u8>) -> Option<Seq<u8>>
    decreases body.len(),
{
    if body.len() == 0 {
        Some(Seq::<u8>::empty())
    } else if body[0] == END {
        None
    } else if body[0] == ESC {
        if body.len() < 2 {
            None
        } else if body[1] == ESC_END {
            match unstuffed(body.skip(2)) {
                Some(rest) => Some(seq![END] + rest),
                None => None,
            }
        } else if body[1] == ESC_ESC {
            match unstuffed(body.skip(2)) {
                Some(rest) => Some(seq![ESC] + rest),
                None => None,
            }
        } else {
            None
        }
    } else {
        match unstuffed(body.skip(1)) {
            Some(rest) => Some(seq![body[0]] + rest),
            None => None,
        }
    }
}

/// The payload of a frame, or `None` where the bytes are no frame: they must
/// end in the delimiter, and what precedes it must be validly stuffed.
pub open spec fn unframed(frame: Seq<u8>) -> Option<Seq<u8>> {
    if frame.len() == 0 || frame.last() != END {
        None
    } else {
        unstuffed(frame.drop_last())
    }
}

/// Stuffing distributes over the first byte of a payload and the rest.
proof fn lemma_stuffed_step(payload: Seq<u8>, i: int)
    requires
        0 <= i < payload.len(),
    ensures
        stuffed(payload.skip(i)) == escaped(payload[i]) + stuffed(payload.skip(i + 1)),
{
    assert(payload.skip(i).skip(1) =~= payload.skip(i + 1));
}

/// A stuffed payload is at least as long as the payload and at most twice as
/// long: no byte is dropped, and none takes more than two.
pub proof fn lemma_stuffed_len(payload: Seq<u8>)
    ensures
        payload.len() <= stuffed(payload).len() <= 2 * payload.len(),
    decreases payload.len(),
{
    if payload.len() > 0 {
        lemma_stuffed_len(payload.skip(1));
    }
}

/// The delimiter never occurs inside a stuffed payload, so in a frame it
/// occurs only as the last byte.
pub proof fn lemma_delimiter_closes_frame(payload: Seq<u8>)
    ensures
        forall|i: int| 0 <= i < stuffed(payload).len() ==> stuffed(payload)[i] != END,
        framed(payload).len() == stuffed(payload).len() + 1,
        framed(payload).last() == END,
        forall|i: int| 0 <= i < framed(payload).len() - 1 ==> framed(payload)[i] != END,
    decreases payload.len(),
{
    if payload.len() > 0 {
        lemma_delimiter_closes_frame(payload.skip(1));
    }
}

/// Unstuffing undoes stuffing.
pub proof fn lemma_unstuff_stuffed(payload: Seq<u8>)
    ensures
        unstuffed(stuffed(payload)) == Some(payload),
    decreases payload.len(),
{
    if payload.len() > 0 {
        let head = payload[0];
        let tail = payload.skip(1);
        let wire = stuffed(payload);
        lemma_unstuff_stuffed(tail);
        if head == END || head == ESC {
            assert(wire.skip(2) =~= stuffed(tail));
        } else {
            assert(wire.skip(1) =~= stuffed(tail));
        }
        assert(seq![head] + tail =~= payload);
    } else {
        assert(payload =~= Seq::<u8>::empty());
    }
}

/// Framing loses nothing: taking the payload out of the frame of a payload
/// gives that payload back, whatever bytes it holds.
pub proof fn lemma_frame_round_trip(payload: Seq<u8>)
    ensures
        unframed(framed(payload)) == Some(payload),
{
    lemma_unstuff_stuffed(payload);
    assert(framed(payload).drop_last() =~= stuffed(payload));
}

/// Two payloads with the same frame are the same payload.
pub proof fn lemma_frame_injective(a: Seq<u8>, b: Seq<u8>)
    requires
        framed(a) == framed(b),
    ensures
        a == b,
{
    lemma_frame_round_trip(a);
    lemma_frame_round_trip(b);
}

/// Frames a payload for the wire.
///
/// Fails with `EncodingError` exactly when the payload is so long that its
/// frame might not be addressable; every shorter payload is framed.
pub fn frame(payload: &[u8]) -> (result: Result<Vec<u8>, LinkError>)
    ensures
        payload@.len() <= max_payload_len() ==> result.is_ok() && result.unwrap()@ == framed(
            payload@,
        ),
        payload@.len() > max_payload_len() ==> result == Err::<Vec<u8>, LinkError>(
            LinkError::EncodingError,
        ),
{
    if payload.len() > (usize::MAX - 1) / 2 {
        return Err(LinkError::EncodingError);
    }
    let mut out: Vec<u8> = Vec::new();
    let mut i: usize = 0;
    proof {
        assert(payload@.skip(0) =~= payload@);
        assert(out@ + stuffed(payload@) =~= stuffed(payload@));
    }
    while i < payload.len()
        invariant
            0 <= i <= payload.len(),
            out@ + stuffed(payload@.skip(i as int)) == stuffed(payload@),
        decreases payload.len() - i,
    {
        let b: u8 = payload[i];
        let ghost before = out@;
        proof {
            lemma_stuffed_step(payload@, i as int);
        }
        if b == END {
            out.push(ESC);
            out.push(ESC_END);
        } else if b == ESC {
            out.push(ESC);
            out.push(ESC_ESC);
        } else {
            out.push(b);
        }
        proof {
            assert(out@ =~= before + escaped(b));
            assert(out@ + stuffed(payload@.skip(i + 1)) =~= before + (escaped(b) + stuffed(
                payload@.skip(i + 1),
            )));
        }
        i = i + 1;
    }
    proof {
        assert(payload@.skip(i as int) =~= Seq::<u8>::empty());
        assert(out@ + Seq::<u8>::empty() =~= out@);
    }
    out.push(END);
    Ok(out)
}

/// Takes the payload out of a frame.
///
/// Succeeds exactly on the byte sequences that `unframed` accepts, and fails
/// with `EncodingError` on every other.
pub fn unframe(frame: &[u8]) -> (result: Result<Vec<u8>, LinkError>)
    ensures
        match unframed(frame@) {
            Some(payload) => result.is_ok() && result.unwrap()@ == payload,
            None => result == Err::<Vec<u8>, LinkError>(LinkError::EncodingError),
        },
{
    let n: usize = frame.len();
    if n == 0 {
        return Err(LinkError::EncodingError);
    }
    if frame[n - 1] != END {
        return Err(LinkError::EncodingError);
    }
    let body_len: usize = n - 1;
    let ghost body = frame@.drop_last();
    let mut out: Vec<u8> = Vec::new();
    let mut i: usize = 0;
    proof {
        assert(body.skip(0) =~= body);
        if unstuffed(body).is_some() {
            assert(out@ + unstuffed(body).unwrap() =~= unstuffed(body).unwrap());
        }
    }
    while i < body_len
        invariant
            0 <= i <= body_len,
            body_len == body.len(),
            body_len + 1 == frame@.len(),
            body == frame@.drop_last(),
            unstuffed(body) == match unstuffed(body.skip(i as int)) {
                Some(rest) => Some(out@ + rest),
                None => None,
            },
        decreases body_len - i,
    {
        let b: u8 = frame[i];
        let ghost before = out@;
        let ghost here = body.skip(i as int);
        proof {
            assert(here[0] == b);
            assert(here.len() == body_len - i);
        }
        if b == END {
            return Err(LinkError::EncodingError);
        } else if b == ESC {
            if i + 1 >= body_len {
                return Err(LinkError::EncodingError);
            }
            let c: u8 = frame[i + 1];
            proof {
                assert(here[1] == c);
                assert(here.skip(2) =~= body.skip(i + 2));
            }
            if c == ESC_END {
                out.push(END);
            } else if c == ESC_ESC {
                out.push(ESC);
            } else {
                return Err(LinkError::EncodingError);
            }
            proof {
                let rest = unstuffed(body.skip(i + 2));
                if rest.is_some() {
                    assert(before + (seq![out@.last()] + rest.unwrap()) =~= out@ + rest.unwrap());
                }
            }
            i = i + 2;
        } else {
            out.push(b);
            proof {
                assert(here.skip(1) =~= body.skip(i + 1));
                let rest = unstuffed(body.skip(i + 1));
                if rest.is_some() {
                    assert(before + (seq![b] + rest.unwrap()) =~= out@ + rest.unwrap());
                }
            }
            i = i + 1;
        }
    }
    proof {
        assert(body.skip(i as int) =~= Seq::<u8>::empty());
        assert(out@ + Seq::<u8>::empty() =~= out@);
    }
    Ok(out)
}

} // verus!
