//! Reading the command line: a verb and the path of the serial device.

use vstd::prelude::*;

verus! {

/// What a command line asks for.
#[derive(Clone, Copy, Debug, PartialEq, Eq, Structural)]
pub enum Invocation {
    /// Too few arguments: show how the program is used.
    Usage,
    /// Read the device's flash into the local file.
    Dump,
    /// Write the local file to the device's flash.
    Flash,
    /// The verb is not one that the program knows.
    Unknown,
}

/// What a command line asks for, by the text of its arguments: the
/// program's name first, then the verb, then the device path.
pub open spec fn invocation_of(args: Seq<Seq<char>>) -> Invocation {
    if args.len() < 3 {
        Invocation::Usage
    } else if args[1] == "dump"@ {
        Invocation::Dump
    } else if args[1] == "flash"@ {
        Invocation::Flash
    } else {
        Invocation::Unknown
    }
}

/// The status with which the program exits after an invocation that starts
/// no operation: zero after showing usage, one after an unknown verb.
pub open spec fn exit_status_of(invocation: Invocation) -> Option<i32> {
    match invocation {
        Invocation::Usage => Some(0i32),
        Invocation::Unknown => Some(1i32),
        _ => None,
    }
}

/// Reads the command line.
///
/// With fewer than three arguments, the program's name included, the answer
/// is `Usage`. Otherwise the second argument decides: `dump`, `flash`, or
/// `Unknown` for anything else.
pub fn dispatch(args: &Vec<String>) -> (invocation: Invocation)
    ensures
        invocation == invocation_of(args@.map_values(|s: String| s@)),
{
    proof {
        let texts = args@.map_values(|s: String| s@);
        assert(texts.len() == args@.len());
        if args@.len() >= 3 {
            assert(texts[1] == args@[1]@);
        }
    }
    if args.len() < 3 {
        return Invocation::Usage;
    }
    let dump: String = "dump".to_owned();
    let flash: String = "flash".to_owned();
    if args[1] == dump {
        Invocation::Dump
    } else if args[1] == flash {
        Invocation::Flash
    } else {
        Invocation::Unknown
    }
}

/// The device path of a command line that names an operation.
pub fn device_path(args: &Vec<String>) -> (path: Option<String>)
    ensures
        args@.len() < 3 ==> path.is_none(),
        args@.len() >= 3 ==> path.is_some() && path.unwrap()@ == args@[2]@,
{
    if args.len() < 3 {
        None
    } else {
        Some(args[2].clone())
    }
}

/// The exit status after an invocation that starts no operation; `None` for
/// `Dump` and `Flash`, whose status is that of the operation.
pub fn exit_status(invocation: Invocation) -> (status: Option<i32>)
    ensures
        status == exit_status_of(invocation),
{
    match invocation {
        Invocation::Usage => Some(0i32),
        Invocation::Unknown => Some(1i32),
        _ => None,
    }
}

} // verus!
