use pixelflut::column::plan_column;
use pixelflut::encode::encode_column;
use pixelflut::raster::Image;
use pixelflut::worker::{FloodWorker, WorkerAction, WorkerEvent, WorkerState};

fn worker() -> FloodWorker {
    let image = Image::from_rgba(1, 1, vec![1, 2, 3, 4]).unwrap();
    let column = plan_column(1, 1, 1, 0);
    FloodWorker::new(String::from("localhost:1234"), encode_column(&image, &column, 0, 0))
}

const EVENTS: [WorkerEvent; 4] = [
    WorkerEvent::Connected,
    WorkerEvent::ConnectFailed,
    WorkerEvent::BufferWritten,
    WorkerEvent::WriteFailed,
];

#[test]
fn new_worker_connects_first() {
    let w = worker();
    assert_eq!(w.state(), WorkerState::Connecting);
    assert_eq!(w.start(), Some(WorkerAction::Connect));
    assert_eq!(w.address(), "localhost:1234");
    assert_eq!(w.buffer().as_bytes(), b"PX 0 0 010203ff\n");
}

#[test]
fn failed_connect_ends_the_worker_without_aborting() {
    let mut w = worker();
    assert_eq!(w.step(WorkerEvent::ConnectFailed), Some(WorkerAction::ReportAndExit));
    assert_eq!(w.state(), WorkerState::Finished);
    assert_eq!(w.start(), None);
    for event in EVENTS {
        assert_eq!(w.step(event), None);
        assert_eq!(w.state(), WorkerState::Finished);
    }
}

#[test]
fn failed_connect_of_one_worker_leaves_the_others_running() {
    let mut workers = vec![worker(), worker(), worker()];
    assert_eq!(workers[0].step(WorkerEvent::Connected), Some(WorkerAction::WriteBuffer));
    assert_eq!(workers[1].step(WorkerEvent::ConnectFailed), Some(WorkerAction::ReportAndExit));
    assert_eq!(workers[2].step(WorkerEvent::Connected), Some(WorkerAction::WriteBuffer));
    for _ in 0..10 {
        assert_eq!(workers[0].step(WorkerEvent::BufferWritten), Some(WorkerAction::WriteBuffer));
        assert_eq!(workers[2].step(WorkerEvent::BufferWritten), Some(WorkerAction::WriteBuffer));
    }
    assert_eq!(workers[0].state(), WorkerState::Flooding);
    assert_eq!(workers[1].state(), WorkerState::Finished);
    assert_eq!(workers[2].state(), WorkerState::Flooding);
}

#[test]
fn connected_worker_writes_without_end() {
    let mut w = worker();
    assert_eq!(w.step(WorkerEvent::Connected), Some(WorkerAction::WriteBuffer));
    assert_eq!(w.state(), WorkerState::Flooding);
    for _ in 0..1000 {
        assert_eq!(w.step(WorkerEvent::BufferWritten), Some(WorkerAction::WriteBuffer));
        assert_eq!(w.state(), WorkerState::Flooding);
    }
    assert_eq!(w.start(), None);
}

#[test]
fn failed_write_aborts_the_worker() {
    let mut w = worker();
    w.step(WorkerEvent::Connected);
    w.step(WorkerEvent::BufferWritten);
    assert_eq!(w.step(WorkerEvent::WriteFailed), Some(WorkerAction::Abort));
    assert_eq!(w.state(), WorkerState::Aborted);
    for event in EVENTS {
        assert_eq!(w.step(event), None);
        assert_eq!(w.state(), WorkerState::Aborted);
    }
}

#[test]
fn events_out_of_turn_change_nothing() {
    let mut w = worker();
    assert_eq!(w.step(WorkerEvent::BufferWritten), None);
    assert_eq!(w.step(WorkerEvent::WriteFailed), None);
    assert_eq!(w.state(), WorkerState::Connecting);
    assert_eq!(w.start(), Some(WorkerAction::Connect));
    w.step(WorkerEvent::Connected);
    assert_eq!(w.step(WorkerEvent::Connected), None);
    assert_eq!(w.step(WorkerEvent::ConnectFailed), None);
    assert_eq!(w.state(), WorkerState::Flooding);
}

#[test]
fn no_step_asks_to_connect_again() {
    for first in EVENTS {
        for second in EVENTS {
            for third in EVENTS {
                let mut w = worker();
                for event in [first, second, third] {
                    let before = w.state();
                    let action = w.step(event);
                    assert_ne!(action, Some(WorkerAction::Connect));
                    if action.is_some() {
                        assert_ne!(w.state(), WorkerState::Connecting);
                    } else {
                        assert_eq!(w.state(), before);
                    }
                }
            }
        }
    }
}

#[test]
fn buffer_and_address_stay_as_built() {
    let mut w = worker();
    let before = w.buffer().as_bytes().to_vec();
    for event in [
        WorkerEvent::Connected,
        WorkerEvent::BufferWritten,
        WorkerEvent::BufferWritten,
        WorkerEvent::WriteFailed,
        WorkerEvent::Connected,
    ] {
        w.step(event);
        assert_eq!(w.buffer().as_bytes(), &before[..]);
        assert_eq!(w.address(), "localhost:1234");
    }
}
