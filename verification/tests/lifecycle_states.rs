use std::sync::mpsc::channel;
use serde_json::Value;
use syncterm::lifecycle::{
    after_forward, after_write, decoded_record, line_payload, reader_exit_for, Cause, ConnState,
    Lifecycle, ReaderExit, WriterExit,
};
use syncterm::registry::Registry;
use syncterm::wire::{unframe, FrameError};

#[test]
fn a_connection_starts_connecting() {
    let life = Lifecycle::new();
    assert_eq!(life.state(), ConnState::Connecting);
    assert!(life.is_alive());
    assert_eq!(life.cause(), None);
}

#[test]
fn starting_the_tasks_makes_it_active() {
    let mut life = Lifecycle::new();
    life.start();
    assert_eq!(life.state(), ConnState::Active);
    assert!(life.is_alive());
    life.start();
    assert_eq!(life.state(), ConnState::Active);
}

#[test]
fn the_end_of_reading_closes_in_two_steps() {
    let mut life = Lifecycle::new();
    life.start();
    life.reader_exited(ReaderExit::EndOfStream);
    assert_eq!(life.state(), ConnState::Closing);
    assert!(!life.is_alive());
    assert_eq!(life.cause(), Some(Cause::Reader(ReaderExit::EndOfStream)));
    life.writer_exited(WriterExit::PeerGone);
    assert_eq!(life.state(), ConnState::Closed);
    assert_eq!(life.cause(), Some(Cause::Reader(ReaderExit::EndOfStream)));
}

#[test]
fn a_failed_write_closes_but_leaves_the_flag() {
    let mut life = Lifecycle::new();
    life.start();
    life.writer_exited(WriterExit::WriteError);
    assert_eq!(life.state(), ConnState::Closing);
    assert!(life.is_alive());
    assert_eq!(life.cause(), Some(Cause::Writer(WriterExit::WriteError)));
    life.reader_exited(ReaderExit::ReadError);
    assert_eq!(life.state(), ConnState::Closed);
    assert!(!life.is_alive());
    assert_eq!(life.cause(), Some(Cause::Writer(WriterExit::WriteError)));
}

#[test]
fn closed_is_for_good() {
    let mut life = Lifecycle::new();
    life.start();
    life.reader_exited(ReaderExit::Malformed);
    life.writer_exited(WriterExit::ChannelClosed);
    life.start();
    life.reader_exited(ReaderExit::EndOfStream);
    life.writer_exited(WriterExit::WriteError);
    assert_eq!(life.state(), ConnState::Closed);
    assert!(!life.is_alive());
    assert_eq!(life.cause(), Some(Cause::Reader(ReaderExit::Malformed)));
}

#[test]
fn the_writer_writes_while_the_connection_is_alive() {
    let mut life = Lifecycle::new();
    life.start();
    assert_eq!(life.next_write(Some("PONG")), Ok("PONG"));
    assert_eq!(life.next_write(None::<&str>), Err(WriterExit::ChannelClosed));
    life.reader_exited(ReaderExit::EndOfStream);
    assert_eq!(life.next_write(Some("PONG")), Err(WriterExit::PeerGone));
    assert_eq!(life.next_write(None::<&str>), Err(WriterExit::ChannelClosed));
}

#[test]
fn frame_errors_end_the_reader() {
    assert_eq!(reader_exit_for(FrameError::EndOfStream), ReaderExit::EndOfStream);
    assert_eq!(reader_exit_for(FrameError::Incomplete), ReaderExit::EndOfStream);
    assert_eq!(reader_exit_for(FrameError::Multiple), ReaderExit::Malformed);
}

#[test]
fn a_malformed_line_ends_only_its_own_connection() {
    let (tx_bad, rx_bad) = channel::<String>();
    let (tx_good, rx_good) = channel::<String>();
    let mut registry: Registry<String> = Registry::new();
    registry.register(tx_bad);
    registry.register(tx_good);
    let mut bad = Lifecycle::new();
    let mut good = Lifecycle::new();
    bad.start();
    good.start();

    let payload = unframe(b"{not a record\n".to_vec()).unwrap();
    assert!(serde_json::from_slice::<Value>(&payload).is_err());
    bad.reader_exited(ReaderExit::Malformed);
    assert_eq!(bad.state(), ConnState::Closing);
    assert_eq!(bad.cause(), Some(Cause::Reader(ReaderExit::Malformed)));
    assert_eq!(good.state(), ConnState::Active);

    assert_eq!(registry.broadcast(&"one".to_string()), vec![true, true]);
    assert_eq!(bad.next_write(rx_bad.try_recv().ok()), Err(WriterExit::PeerGone));
    bad.writer_exited(WriterExit::PeerGone);
    drop(rx_bad);
    assert_eq!(bad.state(), ConnState::Closed);
    assert_eq!(good.next_write(rx_good.try_recv().ok()), Ok("one".to_string()));

    assert_eq!(registry.broadcast(&"two".to_string()), vec![false, true]);
    assert_eq!(registry.ids(), vec![1]);
    assert_eq!(good.next_write(rx_good.try_recv().ok()), Ok("two".to_string()));
    assert_eq!(good.state(), ConnState::Active);
}

#[test]
fn a_read_gives_a_payload_or_the_reason_to_stop() {
    assert_eq!(line_payload(Ok::<Vec<u8>, String>(b"{}\n".to_vec())), Ok(b"{}".to_vec()));
    assert_eq!(
        line_payload(Err::<Vec<u8>, String>("reset".to_string())),
        Err(ReaderExit::ReadError)
    );
    assert_eq!(line_payload(Ok::<Vec<u8>, String>(Vec::new())), Err(ReaderExit::EndOfStream));
    assert_eq!(line_payload(Ok::<Vec<u8>, String>(b"{\"a\"".to_vec())), Err(ReaderExit::EndOfStream));
    assert_eq!(line_payload(Ok::<Vec<u8>, String>(b"a\nb\n".to_vec())), Err(ReaderExit::Malformed));
}

#[test]
fn a_payload_that_does_not_decode_is_malformed() {
    assert_eq!(decoded_record(serde_json::from_slice::<Value>(b"7")), Ok(Value::from(7)));
    assert_eq!(
        decoded_record(serde_json::from_slice::<Value>(b"{not a record")),
        Err(ReaderExit::Malformed)
    );
}

#[test]
fn a_closed_queue_ends_the_reader() {
    assert_eq!(after_forward(true), None);
    assert_eq!(after_forward(false), Some(ReaderExit::EngineGone));
}

#[test]
fn the_reader_forwards_until_the_first_failure() {
    let mut life = Lifecycle::new();
    life.start();
    assert_eq!(life.on_record(Ok::<u8, ReaderExit>(1)), Some(1));
    assert_eq!(life.on_record(Ok::<u8, ReaderExit>(2)), Some(2));
    assert!(life.is_alive());
    assert_eq!(life.on_record(Err::<u8, ReaderExit>(ReaderExit::Malformed)), None);
    assert!(!life.is_alive());
    assert_eq!(life.state(), ConnState::Closing);
    assert_eq!(life.cause(), Some(Cause::Reader(ReaderExit::Malformed)));
    assert_eq!(life.on_record(Ok::<u8, ReaderExit>(3)), None);
    assert_eq!(life.on_record(Err::<u8, ReaderExit>(ReaderExit::ReadError)), None);
    assert_eq!(life.cause(), Some(Cause::Reader(ReaderExit::Malformed)));
}

#[test]
fn a_run_of_reads_stops_at_the_bad_line() {
    let mut life = Lifecycle::new();
    life.start();
    let reads = vec![Ok(1u8), Ok(2), Err(ReaderExit::Malformed), Ok(3), Err(ReaderExit::ReadError)];
    assert_eq!(life.read_through(reads), vec![1, 2]);
    assert!(!life.is_alive());
    assert_eq!(life.cause(), Some(Cause::Reader(ReaderExit::Malformed)));
    assert_eq!(life.read_through(vec![Ok(4u8)]), Vec::<u8>::new());
}

#[test]
fn a_run_of_good_reads_leaves_the_reader_running() {
    let mut life = Lifecycle::new();
    life.start();
    assert_eq!(life.read_through(vec![Ok::<u8, ReaderExit>(1), Ok(2), Ok(3)]), vec![1, 2, 3]);
    assert!(life.is_alive());
    assert_eq!(life.state(), ConnState::Active);
    assert_eq!(life.read_through(Vec::<Result<u8, ReaderExit>>::new()), Vec::<u8>::new());
    assert!(life.is_alive());
}

#[test]
fn a_failed_write_ends_the_writer() {
    assert_eq!(after_write(true), None);
    assert_eq!(after_write(false), Some(WriterExit::WriteError));
}

#[test]
fn a_run_of_reads_leaves_the_writer_alone() {
    let mut life = Lifecycle::new();
    life.start();
    life.writer_exited(WriterExit::WriteError);
    assert_eq!(life.read_through(vec![Ok(1u8), Err(ReaderExit::ReadError)]), vec![1]);
    assert_eq!(life.state(), ConnState::Closed);
    assert_eq!(life.cause(), Some(Cause::Writer(WriterExit::WriteError)));
    let mut other = Lifecycle::new();
    other.start();
    assert_eq!(other.read_through(vec![Ok(1u8), Ok(2)]), vec![1, 2]);
    assert_eq!(other.state(), ConnState::Active);
    assert_eq!(other.cause(), None);
}
