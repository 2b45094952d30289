use xgpu_common::ipc::transport::shmem::open::{
    OpenAction, OpenEvent, OpenPhase, RETRY_DELAY_MS,
};
use xgpu_common::ipc::transport::shmem::transport::{
    channel_name, Direction, Role, ShmemTransportBuilder, DEFAULT_BUFF_SIZE,
    DEFAULT_CONN_TIMEOUT_MS,
};
use xgpu_common::ipc::transport::shmem::ShmemTransportError;

const TIMEOUT_MS: u64 = 100;

/// Runs an opening against a peer that creates the shared memory at
/// `created_at` and declares the channel ready at `ready_at`, in milliseconds
/// after the opening began. Returns the last phase and the time it took.
fn open(created_at: u64, ready_at: u64, state_when_ready: u8) -> (OpenPhase, u64) {
    let mut now = 0u64;
    let mut phase = OpenPhase::start();
    loop {
        let event = match phase.pending() {
            OpenAction::ReadClock => OpenEvent::Elapsed { millis: now },
            OpenAction::OpenRegion => {
                if now >= created_at {
                    OpenEvent::Attached
                } else {
                    OpenEvent::NotFound
                }
            }
            OpenAction::LoadState => OpenEvent::State {
                value: if now >= ready_at { state_when_ready } else { 0 },
            },
            OpenAction::Sleep { millis } => {
                now += millis;
                OpenEvent::Slept
            }
            OpenAction::Finish | OpenAction::Fail(_) => return (phase, now),
        };
        phase = phase.advance(event, TIMEOUT_MS);
    }
}

#[test]
fn a_ready_channel_is_opened_at_once() {
    assert_eq!(open(0, 0, 1), (OpenPhase::Done, 0));
}

#[test]
fn the_opener_polls_every_ten_milliseconds() {
    assert_eq!(RETRY_DELAY_MS, 10);
    assert_eq!(open(25, 25, 1), (OpenPhase::Done, 30));
    assert_eq!(open(25, 55, 1), (OpenPhase::Done, 60));
    // Ready at 95 is seen at 100 at the earliest, which is too late.
    assert_eq!(
        open(0, 95, 1),
        (OpenPhase::Failed(ShmemTransportError::ConnectionTimeout), 100)
    );
    assert_eq!(open(0, 90, 1), (OpenPhase::Done, 90));
}

#[test]
fn the_opener_gives_up_after_the_timeout() {
    assert_eq!(
        open(1000, 1000, 1),
        (OpenPhase::Failed(ShmemTransportError::ConnectionTimeout), 100)
    );
    assert_eq!(
        open(0, 1000, 1),
        (OpenPhase::Failed(ShmemTransportError::ConnectionTimeout), 100)
    );
    // With a timeout of nothing, nothing is tried.
    assert_eq!(
        OpenPhase::start().advance(OpenEvent::Elapsed { millis: 0 }, 0),
        OpenPhase::Failed(ShmemTransportError::ConnectionTimeout)
    );
}

#[test]
fn a_closed_channel_is_not_opened() {
    assert_eq!(
        open(0, 30, 2),
        (OpenPhase::Failed(ShmemTransportError::ConnectionClosed), 30)
    );
    // A state byte that is no state is waited on like a channel that is not
    // ready.
    assert_eq!(
        open(0, 0, 9),
        (OpenPhase::Failed(ShmemTransportError::ConnectionTimeout), 100)
    );
}

#[test]
fn other_failures_to_attach_end_the_opening() {
    let phase = OpenPhase::start().advance(OpenEvent::Elapsed { millis: 5 }, TIMEOUT_MS);
    assert_eq!(phase, OpenPhase::Attach);
    assert_eq!(phase.pending(), OpenAction::OpenRegion);
    let failed = phase.advance(OpenEvent::AttachFailed { code: 13 }, TIMEOUT_MS);
    assert_eq!(failed, OpenPhase::Failed(ShmemTransportError::OpenError { code: 13 }));
    assert_eq!(
        failed.pending(),
        OpenAction::Fail(ShmemTransportError::OpenError { code: 13 })
    );
    // Events that answer nothing change nothing.
    assert_eq!(phase.advance(OpenEvent::Slept, TIMEOUT_MS), phase);
    assert_eq!(failed.advance(OpenEvent::Attached, TIMEOUT_MS), failed);
    assert_eq!(OpenPhase::Done.advance(OpenEvent::State { value: 2 }, TIMEOUT_MS), OpenPhase::Done);
    assert_eq!(OpenPhase::Done.pending(), OpenAction::Finish);
}

#[test]
fn builder_defaults_and_settings() {
    let transport = ShmemTransportBuilder::new().build();
    assert_eq!(transport.buffer_size(), 4096);
    assert_eq!(transport.connect_timeout(), 100);
    assert_eq!(DEFAULT_BUFF_SIZE, 4096);
    assert_eq!(DEFAULT_CONN_TIMEOUT_MS, 100);
    assert_eq!(ShmemTransportBuilder::default(), ShmemTransportBuilder::new());

    const BUFFER_SIZE: usize = 16 * 1024; // 16K
    let transport = ShmemTransportBuilder::new()
        .buffer_size(BUFFER_SIZE)
        .connect_timeout(200)
        .build();
    assert_eq!(transport.buffer_size(), 16384);
    assert_eq!(transport.connect_timeout(), 200);
}

#[test]
fn channel_names_and_roles() {
    assert_eq!(channel_name("/1234", Direction::ConnectorToCreator), "/1234_c2s");
    assert_eq!(channel_name("/1234", Direction::CreatorToConnector), "/1234_s2c");
    assert_eq!(Direction::ConnectorToCreator.suffix(), "_c2s");
    assert_eq!(Direction::CreatorToConnector.suffix(), "_s2c");

    assert_eq!(Role::Creator.tx_direction(), Direction::CreatorToConnector);
    assert_eq!(Role::Creator.rx_direction(), Direction::ConnectorToCreator);
    assert_eq!(Role::Connector.tx_direction(), Direction::ConnectorToCreator);
    assert_eq!(Role::Connector.rx_direction(), Direction::CreatorToConnector);
    assert!(Role::Creator.unlinks());
    assert!(!Role::Connector.unlinks());
}
