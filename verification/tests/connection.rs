use denon_control::denon_connection::print_status;
use denon_control::state::SetState;
use denon_control::table::StatusTable;
use denon_control::{
    read, thread_func_impl, wait_step, write_string, ConnectionError, ConnectionStream,
    DenonConnection, MemStream, PeekStatus, PowerState, SourceInputState, State,
};

fn written_text(dc: &DenonConnection<MemStream>) -> String {
    String::from_utf8(dc.stream.written_bytes().clone()).unwrap()
}

#[test]
fn print_status_test() {
    let mut to_receiver = MemStream::new();
    to_receiver.feed_str("PWON\rSICD\rMV230\rMVMAX666\r");
    let mut dc = DenonConnection::new(to_receiver).unwrap();

    let expected = "Current status of receiver:\n\tPower(ON)\n\tSourceInput(CD)\n\tMainVolume(230)\n\tMaxVolume(666)\n";
    assert_eq!(expected, print_status(&mut dc).unwrap());
}

#[test]
fn get_answers_each_query_from_its_own_update() {
    let mut stream = MemStream::new();
    stream.feed_str("PWON\rSICD\rMV230\rMVMAX666\r");
    let mut dc = DenonConnection::new(stream).unwrap();

    assert_eq!(dc.get(State::Power).unwrap(), SetState::Power(PowerState::On));
    assert_eq!(
        dc.get(State::SourceInput).unwrap(),
        SetState::SourceInput(SourceInputState::Cd)
    );
    assert_eq!(dc.get(State::MainVolume).unwrap(), SetState::MainVolume(230));
    assert_eq!(dc.get(State::MaxVolume).unwrap(), SetState::MaxVolume(666));
    assert_eq!(written_text(&dc), "PW?\rSI?\rMV?\rMVMAX?\r");
}

#[test]
fn get_issues_exactly_one_query_per_call() {
    let mut stream = MemStream::new();
    stream.feed_str("PWON\r");
    let mut dc = DenonConnection::new(stream).unwrap();

    assert_eq!(dc.get(State::Power).unwrap(), SetState::Power(PowerState::On));
    assert_eq!(written_text(&dc), "PW?\r");

    // a second call must not reuse the cached value: it sends its own
    // query and waits for a fresh update
    dc.stream.feed_str("PWSTANDBY\r");
    assert_eq!(
        dc.get(State::Power).unwrap(),
        SetState::Power(PowerState::Standby)
    );
    assert_eq!(written_text(&dc), "PW?\rPW?\r");
}

#[test]
fn get_never_reuses_a_stale_value() {
    let mut stream = MemStream::new();
    stream.feed_str("PWON\r");
    let mut dc = DenonConnection::new(stream).unwrap();
    assert_eq!(dc.get(State::Power).unwrap(), SetState::Power(PowerState::On));

    // the stream is silent now, so a repeated get must time out
    // rather than hand back the cached answer
    assert!(matches!(dc.get(State::Power), Err(ConnectionError::TimedOut)));

    // a timeout is recoverable: the connection stays open and a
    // later answer is delivered
    dc.stream.feed_str("PWSTANDBY\r");
    assert_eq!(
        dc.get(State::Power).unwrap(),
        SetState::Power(PowerState::Standby)
    );
}

#[test]
fn blocked_get_wakes_on_shutdown() {
    let mut stream = MemStream::new();
    stream.feed_str("MVMAX666");  // no delimiter: never a complete line
    stream.shutdownly().unwrap();
    let mut dc = DenonConnection::new(stream).unwrap();

    let r = dc.get(State::MaxVolume);
    assert!(matches!(
        r,
        Err(ConnectionError::Closed) | Err(ConnectionError::Transport(_))
    ));

    // once closed, every call fails fast
    assert!(matches!(dc.get(State::Power), Err(ConnectionError::Closed)));
    assert!(matches!(
        dc.set(SetState::MainVolume(10)),
        Err(ConnectionError::Closed)
    ));
}

#[test]
fn set_writes_exactly_the_command_bytes() {
    let stream = MemStream::new();
    let mut dc = DenonConnection::new(stream).unwrap();

    dc.set(SetState::Power(PowerState::Standby)).unwrap();
    dc.set(SetState::SourceInput(SourceInputState::Cd)).unwrap();
    dc.set(SetState::MainVolume(50)).unwrap();
    assert_eq!(written_text(&dc), "PWSTANDBY\rSICD\rMV50\r");
}

#[test]
fn noise_lines_are_dropped_without_stopping_the_loop() {
    let mut stream = MemStream::new();
    stream.feed_str("GARBAGE\rMV\rMVMAXxyz\rPWON\r");
    let mut dc = DenonConnection::new(stream).unwrap();

    // the three malformed lines are passed over; the loop survives
    // them and still delivers the answer behind them
    assert_eq!(dc.get(State::Power).unwrap(), SetState::Power(PowerState::On));
}

#[test]
fn receiver_loop_publishes_all_lines_then_closes() {
    let mut stream = MemStream::new();
    stream.feed_str("GARBAGE\rPWON\rSICD\rMV230\rMVMAX666\r");
    let mut table = StatusTable::new();

    thread_func_impl(&mut stream, &mut table).unwrap();

    assert!(table.is_closed());
    let e = table.snapshot(State::Power).unwrap();
    assert_eq!(e.value, SetState::Power(PowerState::On));
    assert_eq!(e.generation, 1);
    let e = table.snapshot(State::SourceInput).unwrap();
    assert_eq!(e.value, SetState::SourceInput(SourceInputState::Cd));
    let e = table.snapshot(State::MainVolume).unwrap();
    assert_eq!(e.value, SetState::MainVolume(230));
    let e = table.snapshot(State::MaxVolume).unwrap();
    assert_eq!(e.value, SetState::MaxVolume(666));
}

#[test]
fn generations_grow_with_each_publish() {
    let mut table = StatusTable::new();
    assert_eq!(table.latest_generation(State::Power), 0);
    table.publish(SetState::Power(PowerState::On));
    assert_eq!(table.latest_generation(State::Power), 1);
    table.publish(SetState::Power(PowerState::Standby));
    assert_eq!(table.latest_generation(State::Power), 2);
    // other kinds are untouched
    assert_eq!(table.latest_generation(State::MainVolume), 0);
}

#[test]
fn read_collects_complete_lines() {
    let mut stream = MemStream::new();
    stream.feed_str("PW?\rSI?\rMV50");
    let lines = read(&mut stream, 2).unwrap();
    assert_eq!(lines, vec!["PW?".to_string(), "SI?".to_string()]);
}

#[test]
fn read_stops_at_a_dried_up_stream() {
    let mut stream = MemStream::new();
    stream.feed_str("PWSTANDBY\rSICD\rMV50\r");
    let lines = read(&mut stream, 10).unwrap();
    assert_eq!(lines.len(), 3);
    assert!(lines.contains(&"SICD".to_string()));
    assert!(lines.contains(&"MV50".to_string()));
    assert!(lines.contains(&"PWSTANDBY".to_string()));
}

#[test]
fn read_with_nothing_to_read_is_an_error() {
    let mut stream = MemStream::new();
    assert!(read(&mut stream, 10).is_err());
}

#[test]
fn write_string_puts_the_characters_on_the_wire() {
    let mut stream = MemStream::new();
    write_string(&mut stream, "MV23\r").unwrap();
    assert_eq!(stream.written_bytes().as_slice(), b"MV23\r");
}

#[test]
fn close_makes_later_calls_fail_fast() {
    let stream = MemStream::new();
    let mut dc = DenonConnection::new(stream).unwrap();
    dc.close().unwrap();
    assert!(matches!(dc.get(State::Power), Err(ConnectionError::Closed)));
    assert!(matches!(
        dc.set(SetState::Power(PowerState::On)),
        Err(ConnectionError::Closed)
    ));
}

#[test]
fn wait_decision_distinguishes_the_three_outcomes() {
    let mut table = StatusTable::new();

    // nothing yet, deadline not reached: keep waiting
    assert!(wait_step(&table, State::Power, 0, false).is_none());
    // nothing yet, deadline passed: a timeout, distinct from closed
    assert!(matches!(
        wait_step(&table, State::Power, 0, true),
        Some(Err(ConnectionError::TimedOut))
    ));

    // a fresh value wins, deadline or not
    table.publish(SetState::Power(PowerState::On));
    assert!(matches!(
        wait_step(&table, State::Power, 0, true),
        Some(Ok(SetState::Power(PowerState::On)))
    ));
    // but a stale one does not
    assert!(wait_step(&table, State::Power, 1, false).is_none());

    // closed wakes a stale waiter
    table.close();
    assert!(matches!(
        wait_step(&table, State::Power, 1, false),
        Some(Err(ConnectionError::Closed))
    ));
}

#[test]
fn peek_reports_what_is_buffered() {
    let mut stream = MemStream::new();
    assert_eq!(stream.peek_status(), PeekStatus::Quiet);
    stream.feed_str("X");
    assert_eq!(stream.peek_status(), PeekStatus::Ready);
    stream.shutdownly().unwrap();
    assert_eq!(stream.peek_status(), PeekStatus::End);
}

#[test]
fn reads_deliver_the_fed_bytes_in_order() {
    let mut stream = MemStream::new();
    stream.feed(&[1, 2, 3]);
    assert_eq!(stream.take_byte().unwrap(), 1);
    assert_eq!(stream.take_byte().unwrap(), 2);
    assert_eq!(stream.take_byte().unwrap(), 3);
    assert!(stream.take_byte().is_err());
}
