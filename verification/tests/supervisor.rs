use rtxlink::error::{LinkError, Stage};
use rtxlink::supervisor::{
    Action, Direction, Event, Phase, Settings, Supervisor, ARMING_PAUSE_MS, ARTIFACT_PATH,
    BAUD_RATE, BLOCK_SIZE, DUMP_READ_TIMEOUT_MS, FLASH_READ_TIMEOUT_MS, POLL_INTERVAL_MS,
};
use rtxlink::{dump, flash};

fn touches_channel(action: &Action) -> bool {
    matches!(action, Action::OpenChannel { .. } | Action::Spawn { .. })
}

fn spawned_dump() -> Supervisor {
    let mut s = dump();
    s.step(Event::Start);
    s.step(Event::ChannelOpened);
    s.step(Event::ArtifactOpened);
    s
}

#[test]
fn link_settings_have_their_values() {
    assert_eq!(BAUD_RATE, 115_200);
    assert_eq!(BLOCK_SIZE, 1024);
    assert_eq!(DUMP_READ_TIMEOUT_MS, 10);
    assert_eq!(FLASH_READ_TIMEOUT_MS, 60_000);
    assert_eq!(POLL_INTERVAL_MS, 1_000);
    assert_eq!(ARMING_PAUSE_MS, 500);
    assert_eq!(ARTIFACT_PATH, "./flash_dump.bin");
}

#[test]
fn successful_dump_reports_growth_and_completes() {
    let blocks: u64 = 4;
    let mut s = dump();
    assert_eq!(s.phase(), Phase::Idle);
    assert_eq!(
        s.step(Event::Start),
        Action::OpenChannel { baud_rate: 115_200, read_timeout_ms: 10 }
    );
    assert_eq!(s.step(Event::ChannelOpened), Action::OpenArtifact { create: true });
    assert_eq!(
        s.step(Event::ArtifactOpened),
        Action::Spawn { direction: Direction::Receive, block_size: 1024, crc16: true }
    );
    assert_eq!(s.step(Event::Spawned), Action::Observe);
    for n in 0..=blocks {
        assert_eq!(
            s.step(Event::Sampled { size: n * 1024 }),
            Action::Report { size: n * 1024, wait_ms: 1_000 }
        );
        assert_eq!(s.phase(), Phase::Waiting);
        assert_eq!(s.step(Event::Waited), Action::Observe);
        assert_eq!(s.phase(), Phase::Polling);
    }
    assert_eq!(s.last_report(), Some(blocks * 1024));
    assert_eq!(s.outcome(), None);
    assert_eq!(
        s.step(Event::WorkerDone { size: blocks * 1024 }),
        Action::Report { size: blocks * 1024, wait_ms: 0 }
    );
    assert_eq!(s.phase(), Phase::Closing);
    assert_eq!(s.step(Event::Waited), Action::Join);
    assert_eq!(s.phase(), Phase::Joining);
    assert_eq!(s.step(Event::Joined { ok: true }), Action::Succeed);
    assert_eq!(s.phase(), Phase::Completed);
    assert_eq!(s.outcome(), Some(Ok(())));
    assert_eq!(s.last_report(), Some(blocks * 1024));
}

#[test]
fn final_report_is_the_size_at_completion_not_the_last_sample() {
    let mut s = spawned_dump();
    s.step(Event::Spawned);
    let mut reports: Vec<u64> = Vec::new();
    for event in [
        Event::Sampled { size: 1024 },
        Event::Waited,
        Event::Sampled { size: 3072 },
        Event::Waited,
        Event::WorkerDone { size: 10240 },
        Event::Waited,
        Event::Joined { ok: true },
    ] {
        if let Action::Report { size, .. } = s.step(event) {
            reports.push(size);
        }
    }
    assert_eq!(reports, vec![1024, 3072, 10240]);
    assert_eq!(s.last_report(), Some(10240));
    assert_eq!(s.outcome(), Some(Ok(())));
    assert!(reports.iter().all(|r| *r <= 10240));
}

#[test]
fn dump_that_ends_before_the_first_sample_reports_the_final_size() {
    let mut s = spawned_dump();
    assert_eq!(s.step(Event::Spawned), Action::Observe);
    assert_eq!(
        s.step(Event::WorkerDone { size: 2048 }),
        Action::Report { size: 2048, wait_ms: 0 }
    );
    assert_eq!(s.step(Event::Waited), Action::Join);
    assert_eq!(s.step(Event::Joined { ok: true }), Action::Succeed);
    assert_eq!(s.last_report(), Some(2048));
}

#[test]
fn empty_dump_reports_zero_bytes() {
    let mut s = spawned_dump();
    s.step(Event::Spawned);
    assert_eq!(s.step(Event::WorkerDone { size: 0 }), Action::Report { size: 0, wait_ms: 0 });
    s.step(Event::Waited);
    s.step(Event::Joined { ok: true });
    assert_eq!(s.last_report(), Some(0));
    assert_eq!(s.outcome(), Some(Ok(())));
}

#[test]
fn nothing_is_sampled_after_the_worker_ended() {
    let mut s = spawned_dump();
    s.step(Event::Spawned);
    s.step(Event::WorkerDone { size: 512 });
    assert_eq!(s.step(Event::Sampled { size: 9999 }), Action::Ignore);
    assert_eq!(s.step(Event::WorkerDone { size: 9999 }), Action::Ignore);
    assert_eq!(s.phase(), Phase::Closing);
    assert_eq!(s.last_report(), Some(512));
}

#[test]
fn lost_worker_fails_at_the_join() {
    let mut s = spawned_dump();
    s.step(Event::Spawned);
    s.step(Event::WorkerDone { size: 100 });
    s.step(Event::Waited);
    assert_eq!(
        s.step(Event::WorkerLost),
        Action::Fail { error: LinkError::TransferError, stage: Stage::Join }
    );
    assert_eq!(s.phase(), Phase::Failed);
    assert_eq!(s.failed_at(), Some(Stage::Join));
    assert_eq!(s.outcome(), Some(Err(LinkError::TransferError)));

    let mut f = flash();
    f.step(Event::Start);
    f.step(Event::ChannelOpened);
    f.step(Event::ArtifactOpened);
    f.step(Event::Spawned);
    assert_eq!(f.step(Event::WorkerLost), Action::Ignore);
    f.step(Event::Waited);
    assert_eq!(
        f.step(Event::WorkerLost),
        Action::Fail { error: LinkError::TransferError, stage: Stage::Join }
    );
}

#[test]
fn successful_flash_prompts_then_joins() {
    let mut s = flash();
    assert_eq!(
        s.step(Event::Start),
        Action::OpenChannel { baud_rate: 115_200, read_timeout_ms: 60_000 }
    );
    assert_eq!(s.step(Event::ChannelOpened), Action::OpenArtifact { create: false });
    assert_eq!(
        s.step(Event::ArtifactOpened),
        Action::Spawn { direction: Direction::Send, block_size: 1024, crc16: true }
    );
    assert_eq!(s.step(Event::Spawned), Action::Prompt { wait_ms: 500 });
    assert_eq!(s.step(Event::Waited), Action::Join);
    assert_eq!(s.step(Event::Joined { ok: true }), Action::Succeed);
    assert_eq!(s.outcome(), Some(Ok(())));
    assert_eq!(s.last_report(), None);
}

#[test]
fn flash_never_samples() {
    let mut s = flash();
    s.step(Event::Start);
    s.step(Event::ChannelOpened);
    s.step(Event::ArtifactOpened);
    s.step(Event::Spawned);
    assert_eq!(s.step(Event::Sampled { size: 7 }), Action::Ignore);
    assert_eq!(s.step(Event::WorkerDone { size: 7 }), Action::Ignore);
    assert_eq!(s.phase(), Phase::Waiting);
}

#[test]
fn unavailable_channel_fails_before_anything_else() {
    let mut s = dump();
    s.step(Event::Start);
    assert_eq!(
        s.step(Event::ChannelUnavailable),
        Action::Fail { error: LinkError::DeviceUnavailable, stage: Stage::Open }
    );
    assert_eq!(s.phase(), Phase::Failed);
    assert_eq!(s.failed_at(), Some(Stage::Open));
    assert_eq!(s.outcome(), Some(Err(LinkError::DeviceUnavailable)));
}

#[test]
fn unavailable_artifact_fails() {
    let mut s = flash();
    s.step(Event::Start);
    s.step(Event::ChannelOpened);
    assert_eq!(
        s.step(Event::ArtifactUnavailable),
        Action::Fail { error: LinkError::ArtifactError, stage: Stage::Open }
    );
    assert_eq!(s.failed_at(), Some(Stage::Open));
    assert_eq!(s.outcome(), Some(Err(LinkError::ArtifactError)));
}

#[test]
fn failed_transfer_is_fatal_and_not_retried() {
    let mut s = spawned_dump();
    s.step(Event::Spawned);
    s.step(Event::Sampled { size: 2048 });
    s.step(Event::Waited);
    s.step(Event::WorkerDone { size: 3072 });
    s.step(Event::Waited);
    assert_eq!(
        s.step(Event::Joined { ok: false }),
        Action::Fail { error: LinkError::TransferError, stage: Stage::Transfer }
    );
    assert_eq!(s.outcome(), Some(Err(LinkError::TransferError)));
    assert_eq!(s.failed_at(), Some(Stage::Transfer));
    assert_eq!(s.last_report(), Some(3072));
    assert_eq!(s.step(Event::Start), Action::Ignore);
    assert_eq!(s.phase(), Phase::Failed);
}

#[test]
fn finished_operation_ignores_every_event() {
    let events = [
        Event::Start,
        Event::ChannelOpened,
        Event::ChannelUnavailable,
        Event::ArtifactOpened,
        Event::ArtifactUnavailable,
        Event::Spawned,
        Event::Sampled { size: 1 },
        Event::WorkerDone { size: 1 },
        Event::Waited,
        Event::Joined { ok: true },
        Event::Joined { ok: false },
        Event::WorkerLost,
    ];
    let mut s = spawned_dump();
    s.step(Event::Spawned);
    s.step(Event::WorkerDone { size: 0 });
    s.step(Event::Waited);
    s.step(Event::Joined { ok: true });
    for event in events {
        assert_eq!(s.step(event), Action::Ignore);
        assert_eq!(s.phase(), Phase::Completed);
        assert_eq!(s.outcome(), Some(Ok(())));
    }
}

#[test]
fn events_out_of_turn_change_nothing() {
    let mut s = dump();
    assert_eq!(s.step(Event::ChannelOpened), Action::Ignore);
    assert_eq!(s.step(Event::Joined { ok: true }), Action::Ignore);
    assert_eq!(s.phase(), Phase::Idle);
    s.step(Event::Start);
    assert_eq!(s.step(Event::Start), Action::Ignore);
    assert_eq!(s.phase(), Phase::OpeningChannel);
}

#[test]
fn channel_is_left_alone_once_the_worker_runs() {
    let events = [
        Event::Start,
        Event::ChannelOpened,
        Event::ChannelUnavailable,
        Event::ArtifactOpened,
        Event::ArtifactUnavailable,
        Event::Spawned,
        Event::Sampled { size: 1024 },
        Event::WorkerDone { size: 1 },
        Event::Waited,
        Event::Joined { ok: true },
        Event::Joined { ok: false },
        Event::WorkerLost,
    ];
    for direction in [Direction::Receive, Direction::Send] {
        for first in events {
            for second in events {
                let mut s = Supervisor::new(direction);
                s.step(Event::Start);
                s.step(Event::ChannelOpened);
                s.step(Event::ArtifactOpened);
                s.step(Event::Spawned);
                assert!(!touches_channel(&s.step(first)));
                assert!(!touches_channel(&s.step(second)));
                for third in events {
                    let mut t = s;
                    assert!(!touches_channel(&t.step(third)));
                }
            }
        }
    }
}

#[test]
fn reports_follow_a_growing_file() {
    let sizes: [u64; 6] = [0, 0, 1024, 3072, 3072, 10240];
    let mut s = spawned_dump();
    s.step(Event::Spawned);
    let mut previous: u64 = 0;
    for size in sizes {
        match s.step(Event::Sampled { size }) {
            Action::Report { size: reported, wait_ms } => {
                assert!(reported >= previous);
                assert_eq!(reported, size);
                assert_eq!(wait_ms, 1_000);
                previous = reported;
            }
            other => panic!("expected a report, got {:?}", other),
        }
        s.step(Event::Waited);
    }
    assert_eq!(s.last_report(), Some(10240));
}

#[test]
fn new_supervisor_is_idle() {
    let s = Supervisor::new(Direction::Send);
    assert_eq!(s.phase(), Phase::Idle);
    assert_eq!(s.outcome(), None);
    assert_eq!(s.last_report(), None);
    assert_eq!(s.failed_at(), None);
    assert_eq!(s.direction, Direction::Send);
}

#[test]
fn standard_settings_are_those_of_the_link() {
    assert_eq!(
        Settings::standard(),
        Settings {
            baud_rate: 115_200,
            dump_read_timeout_ms: 10,
            flash_read_timeout_ms: 60_000,
            poll_interval_ms: 1_000,
            arming_pause_ms: 500,
        }
    );
    assert_eq!(dump().settings, Settings::standard());
    assert_eq!(flash().settings, Settings::standard());
    assert_eq!(dump().direction, Direction::Receive);
    assert_eq!(flash().direction, Direction::Send);
}

#[test]
fn settings_of_the_caller_reach_the_actions() {
    let settings = Settings {
        baud_rate: 9_600,
        dump_read_timeout_ms: 25,
        flash_read_timeout_ms: 30_000,
        poll_interval_ms: 250,
        arming_pause_ms: 75,
    };
    let mut d = Supervisor::with_settings(Direction::Receive, settings);
    assert_eq!(
        d.step(Event::Start),
        Action::OpenChannel { baud_rate: 9_600, read_timeout_ms: 25 }
    );
    d.step(Event::ChannelOpened);
    assert_eq!(
        d.step(Event::ArtifactOpened),
        Action::Spawn { direction: Direction::Receive, block_size: 1024, crc16: true }
    );
    d.step(Event::Spawned);
    assert_eq!(d.step(Event::Sampled { size: 5 }), Action::Report { size: 5, wait_ms: 250 });

    let mut f = Supervisor::with_settings(Direction::Send, settings);
    assert_eq!(
        f.step(Event::Start),
        Action::OpenChannel { baud_rate: 9_600, read_timeout_ms: 30_000 }
    );
    f.step(Event::ChannelOpened);
    f.step(Event::ArtifactOpened);
    assert_eq!(f.step(Event::Spawned), Action::Prompt { wait_ms: 75 });
}

#[test]
fn reports_are_the_samples_even_if_the_file_shrinks() {
    let mut s = spawned_dump();
    s.step(Event::Spawned);
    assert_eq!(s.step(Event::Sampled { size: 4096 }), Action::Report { size: 4096, wait_ms: 1_000 });
    s.step(Event::Waited);
    assert_eq!(s.step(Event::Sampled { size: 1024 }), Action::Report { size: 1024, wait_ms: 1_000 });
    assert_eq!(s.last_report(), Some(1024));
}
