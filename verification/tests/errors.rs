use denon_control::{avahi_error, get_state, Error, PowerState, SourceInputState};
use std::io;

#[test]
fn error_test() {
    let error = Error::from(i32::from_str_radix("a23", 10).unwrap_err());
    assert!(matches!(error, Error::ParseInt(_)));
    assert_eq!(
        "ParseInt(ParseIntError { kind: InvalidDigit })",
        format!("{:?}", error)
    );

    let error = Error::from(avahi_error::Error::NoHostsFound);
    assert!(matches!(error, Error::Avahi(_)));
    assert_eq!("Avahi(NoHostsFound)", format!("{:?}", error));

    let error = Error::from(std::io::Error::from(io::ErrorKind::AddrInUse));
    assert!(matches!(error, Error::IO(_)));
    assert_eq!("IO(Kind(AddrInUse))", format!("{:?}", error));

    let error = Error::from(String::from("blub"));
    assert!(matches!(error, Error::Input(_)));
    assert_eq!("Input(\"blub\")", format!("{:?}", error));
}

#[test]
fn get_state_accepts_known_values() {
    assert_eq!(
        get_state(PowerState::states(), "ON").unwrap(),
        PowerState::On
    );
    assert_eq!(
        get_state(PowerState::states(), "STANDBY").unwrap(),
        PowerState::Standby
    );
    assert_eq!(
        get_state(SourceInputState::states(), "NET/USB").unwrap(),
        SourceInputState::NetUsb
    );
}

#[test]
fn get_state_rejects_unknown_values() {
    let e = get_state(PowerState::states(), "OFF").unwrap_err();
    match e {
        Error::Input(msg) => assert!(msg.contains("given value OFF does not match")),
        _ => panic!("expected an input error"),
    }
    let e = get_state(SourceInputState::states(), "SPOTIFY").unwrap_err();
    assert!(matches!(e, Error::Input(_)));
    let e = get_state(SourceInputState::states(), "UNKNOWN").unwrap_err();
    assert!(matches!(e, Error::Input(_)));
}
