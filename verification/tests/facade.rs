use denon_control::{
    parse_address, run_commands, CommandRequest, DenonConnection, Error, MemStream,
};

fn written_text(dc: &DenonConnection<MemStream>) -> String {
    String::from_utf8(dc.stream.written_bytes().clone()).unwrap()
}

#[test]
fn bla() {
    assert_eq!(2, 2);
}

#[test]
fn settings_are_sent_in_order_with_the_volume_capped() {
    let stream = MemStream::new();
    let mut dc = DenonConnection::new(stream).unwrap();
    let req = CommandRequest {
        status: false,
        power: Some("STANDBY".to_string()),
        input: Some("CD".to_string()),
        volume: Some(127),
    };
    assert!(run_commands(&mut dc, &req).unwrap().is_none());
    assert_eq!(written_text(&dc), "PWSTANDBY\rSICD\rMV50\r");
}

#[test]
fn low_volumes_pass_uncapped() {
    let stream = MemStream::new();
    let mut dc = DenonConnection::new(stream).unwrap();
    let req = CommandRequest { status: false, power: None, input: None, volume: Some(20) };
    assert!(run_commands(&mut dc, &req).unwrap().is_none());
    assert_eq!(written_text(&dc), "MV20\r");
}

#[test]
fn invalid_power_is_rejected_before_the_wire() {
    let stream = MemStream::new();
    let mut dc = DenonConnection::new(stream).unwrap();
    let req = CommandRequest {
        status: false,
        power: Some("OFF".to_string()),
        input: None,
        volume: None,
    };
    assert!(matches!(run_commands(&mut dc, &req), Err(Error::Input(_))));
    assert_eq!(written_text(&dc), "");
}

#[test]
fn invalid_input_is_rejected_before_the_wire() {
    let stream = MemStream::new();
    let mut dc = DenonConnection::new(stream).unwrap();
    let req = CommandRequest {
        status: false,
        power: None,
        input: Some("SPOTIFY".to_string()),
        volume: None,
    };
    assert!(matches!(run_commands(&mut dc, &req), Err(Error::Input(_))));
    assert_eq!(written_text(&dc), "");
}

#[test]
fn status_request_reports_the_receiver_state() {
    let mut stream = MemStream::new();
    stream.feed_str("PWON\rSIDVD\rMV230\rMVMAX666\r");
    let mut dc = DenonConnection::new(stream).unwrap();
    let req = CommandRequest { status: true, power: None, input: None, volume: None };
    let text = run_commands(&mut dc, &req).unwrap().unwrap();
    assert_eq!(
        text,
        "Current status of receiver:\n\tPower(ON)\n\tSourceInput(DVD)\n\tMainVolume(230)\n\tMaxVolume(666)\n"
    );
}

#[test]
fn addresses_split_at_the_first_colon() {
    assert_eq!(parse_address("some_host", 23), ("some_host".to_string(), 23));
    assert_eq!(
        parse_address("blub_receiver:666", 23),
        ("blub_receiver".to_string(), 666)
    );
    assert_eq!(parse_address("host:notaport", 23), ("host".to_string(), 23));
    assert_eq!(parse_address("host:99999", 23), ("host".to_string(), 23));
    assert_eq!(parse_address("", 23), ("".to_string(), 23));
}
