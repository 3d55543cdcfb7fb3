use diskio::header::ProtocolError;
use diskio::ingest::{AbortReason, Action, Connection, Event, Outcome, Phase};

fn wire_header(text: &[u8]) -> Vec<u8> {
    let mut bytes = text.to_vec();
    bytes.resize(256, 0);
    bytes
}

fn streaming(declared: u64, chunk_size: usize) -> Connection {
    let mut conn = Connection::new(chunk_size);
    let text = format!("upload.bin|{}", declared);
    let action = conn.step(Event::Preamble(wire_header(text.as_bytes())));
    assert_eq!(action, Action::CreateFile(b"upload.bin".to_vec()));
    conn.step(Event::FileCreated);
    conn
}

#[test]
fn connection_starts_idle() {
    let conn = Connection::new(65536);
    assert_eq!(conn.phase(), Phase::Idle);
    assert_eq!(conn.declared(), 0);
    assert_eq!(conn.received(), 0);
    assert_eq!(conn.written(), 0);
}

#[test]
fn complete_upload_walks_through_every_state() {
    let mut conn = Connection::new(4);
    let action = conn.step(Event::Preamble(wire_header(b"a.bin|10")));
    assert_eq!(action, Action::CreateFile(b"a.bin".to_vec()));
    assert_eq!(conn.phase(), Phase::HeaderReceived);
    assert_eq!(conn.declared(), 10);

    assert_eq!(conn.step(Event::FileCreated), Action::Receive { max: 4 });
    assert_eq!(conn.phase(), Phase::Streaming);

    assert_eq!(conn.step(Event::Received(4)), Action::Receive { max: 4 });
    assert_eq!(conn.received(), 4);
    assert_eq!(conn.step(Event::Received(3)), Action::Receive { max: 3 });
    assert_eq!(conn.received(), 7);
    assert_eq!(conn.step(Event::Received(3)), Action::DrainAndSync);
    assert_eq!(conn.received(), 10);
    assert_eq!(conn.phase(), Phase::Draining);

    assert_eq!(conn.step(Event::Synced(10)), Action::Report(Outcome::Complete));
    assert_eq!(conn.phase(), Phase::Synced);
    assert_eq!(conn.written(), 10);

    assert_eq!(conn.step(Event::Acknowledged), Action::Halt);
    assert_eq!(conn.phase(), Phase::Done);
}

#[test]
fn malformed_header_aborts_before_any_file() {
    let mut conn = Connection::new(4);
    let action = conn.step(Event::Preamble(wire_header(b"badheader")));
    assert_eq!(action, Action::Abort(AbortReason::Protocol(ProtocolError::FieldCount)));
    assert_eq!(conn.phase(), Phase::Aborted);
    assert_eq!(conn.received(), 0);
    assert_eq!(conn.written(), 0);
    assert_eq!(conn.step(Event::FileCreated), Action::Halt);
    assert_eq!(conn.phase(), Phase::Aborted);
}

#[test]
fn non_numeric_size_aborts() {
    let mut conn = Connection::new(4);
    let action = conn.step(Event::Preamble(wire_header(b"a.bin|ten")));
    assert_eq!(action, Action::Abort(AbortReason::Protocol(ProtocolError::InvalidSize)));
    assert_eq!(conn.phase(), Phase::Aborted);
}

#[test]
fn short_preamble_aborts() {
    let mut conn = Connection::new(4);
    let action = conn.step(Event::Preamble(b"a.bin|10".to_vec()));
    assert_eq!(action, Action::Abort(AbortReason::Protocol(ProtocolError::HeaderLength)));
}

#[test]
fn early_close_is_reported_as_incomplete() {
    let mut conn = streaming(100, 64);
    assert_eq!(conn.step(Event::Received(50)), Action::Receive { max: 50 });
    assert_eq!(conn.step(Event::Received(0)), Action::DrainAndSync);
    assert_eq!(conn.phase(), Phase::Draining);
    assert_eq!(
        conn.step(Event::Synced(50)),
        Action::Report(Outcome::Incomplete { received: 50, declared: 100 })
    );
    assert_eq!(conn.written(), 50);
    assert_eq!(conn.step(Event::Acknowledged), Action::Halt);
    assert_eq!(conn.phase(), Phase::Done);
}

#[test]
fn empty_upload_goes_straight_to_draining() {
    let mut conn = Connection::new(8);
    conn.step(Event::Preamble(wire_header(b"empty|0")));
    assert_eq!(conn.step(Event::FileCreated), Action::DrainAndSync);
    assert_eq!(conn.phase(), Phase::Draining);
    assert_eq!(conn.step(Event::Synced(0)), Action::Report(Outcome::Complete));
}

#[test]
fn reads_never_ask_for_more_than_is_missing() {
    let mut conn = streaming(5, 1024);
    assert_eq!(conn.phase(), Phase::Streaming);
    assert_eq!(conn.step(Event::Received(2)), Action::Receive { max: 3 });
    assert_eq!(conn.step(Event::Received(3)), Action::DrainAndSync);
}

#[test]
fn more_bytes_than_asked_for_is_a_size_mismatch() {
    let mut conn = streaming(5, 1024);
    assert_eq!(
        conn.step(Event::Received(6)),
        Action::Abort(AbortReason::Protocol(ProtocolError::SizeMismatch))
    );
    assert_eq!(conn.phase(), Phase::Aborted);
    let mut conn = streaming(100, 8);
    assert_eq!(
        conn.step(Event::Received(9)),
        Action::Abort(AbortReason::Protocol(ProtocolError::SizeMismatch))
    );
}

#[test]
fn failure_aborts_from_every_live_state() {
    let mut conn = Connection::new(4);
    assert_eq!(conn.step(Event::Failed), Action::Abort(AbortReason::Io));
    assert_eq!(conn.phase(), Phase::Aborted);

    let mut conn = Connection::new(4);
    conn.step(Event::Preamble(wire_header(b"a|8")));
    assert_eq!(conn.step(Event::Failed), Action::Abort(AbortReason::Io));

    let mut conn = streaming(8, 4);
    assert_eq!(conn.step(Event::Failed), Action::Abort(AbortReason::Io));

    let mut conn = streaming(8, 4);
    conn.step(Event::Received(0));
    assert_eq!(conn.step(Event::Failed), Action::Abort(AbortReason::Io));

    let mut conn = streaming(8, 4);
    conn.step(Event::Received(0));
    conn.step(Event::Synced(0));
    assert_eq!(conn.phase(), Phase::Synced);
    assert_eq!(conn.step(Event::Failed), Action::Abort(AbortReason::Io));
    assert_eq!(conn.phase(), Phase::Aborted);
}

#[test]
fn writer_that_lost_bytes_aborts() {
    let mut conn = streaming(8, 4);
    conn.step(Event::Received(4));
    conn.step(Event::Received(4));
    assert_eq!(conn.step(Event::Synced(4)), Action::Abort(AbortReason::Io));
    assert_eq!(conn.phase(), Phase::Aborted);
}

#[test]
fn event_out_of_turn_aborts() {
    let mut conn = Connection::new(4);
    assert_eq!(conn.step(Event::FileCreated), Action::Abort(AbortReason::Unexpected));
    let mut conn = streaming(8, 4);
    assert_eq!(conn.step(Event::Acknowledged), Action::Abort(AbortReason::Unexpected));
    let mut conn = streaming(8, 4);
    assert_eq!(conn.step(Event::Synced(0)), Action::Abort(AbortReason::Unexpected));
    let mut conn = streaming(8, 4);
    assert_eq!(
        conn.step(Event::Preamble(wire_header(b"a|8"))),
        Action::Abort(AbortReason::Unexpected)
    );
}

#[test]
fn final_states_absorb_every_event() {
    let mut conn = streaming(0, 4);
    conn.step(Event::Synced(0));
    conn.step(Event::Acknowledged);
    assert_eq!(conn.phase(), Phase::Done);
    assert_eq!(conn.step(Event::Failed), Action::Halt);
    assert_eq!(conn.step(Event::Received(3)), Action::Halt);
    assert_eq!(conn.phase(), Phase::Done);
}
