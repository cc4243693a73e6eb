use denon_control::parse::parse;
use denon_control::parse_fallback;
use denon_control::state::{SetState, State};
use denon_control::{PowerState, SourceInputState};

#[test]
fn parse_with_unknown_string() {
    assert_eq!(None, parse(""));
    assert_eq!(None, parse("blub"));
}

#[test]
fn max_volume_without_value_returns_none() {
    assert_eq!(None, parse("MVMAX"));
    assert_eq!(None, parse("MVMAXfda"));
    assert_eq!(None, parse("MVMAXđðſæ"));
    assert_eq!(None, parse("MVMAX&%"));
    assert_eq!(None, parse("MVMAX!"));
}

#[test]
fn max_volume() {
    let create = |i| Some(SetState::MaxVolume(i));

    assert_eq!(parse("MVMAX0"), create(0));
    assert_eq!(parse("MVMAX23"), create(230));
    assert_eq!(parse("MVMAX99"), create(990));
    assert_eq!(parse("MVMAX100"), create(100));
    assert_eq!(parse("MVMAX230"), create(230));
    assert_eq!(parse("MVMAX999"), create(999));
    assert_eq!(parse("MVMAX 999"), create(999));
}

#[test]
fn main_volume_without_value_returns_none() {
    assert_eq!(None, parse("MV"));
    assert_eq!(None, parse("MVŧ¶ŋđ"));
    assert_eq!(None, parse("MV»«"));
    assert_eq!(None, parse("MV²!"));
}

#[test]
fn main_volume() {
    let create = |i| Some(SetState::MainVolume(i));

    assert_eq!(parse("MV 0"), create(0));
    assert_eq!(parse("MV 23"), create(230));
    assert_eq!(parse("MV 99"), create(990));
    assert_eq!(parse("MV 100"), create(100));
    assert_eq!(parse("MV 230"), create(230));
    assert_eq!(parse("MV 999"), create(999));
    assert_eq!(parse("MV999"), create(999));
}

#[test]
fn power() {
    let create = |ps| Some(SetState::Power(ps));

    assert_eq!(parse("PW"), None);
    assert_eq!(parse("PWđðæſ"), None);
    assert_eq!(parse("PWfdasfdas"), None);
    assert_eq!(parse("PWOFF"), None);
    assert_eq!(parse("PWSTANDBY"), create(PowerState::Standby));
    assert_eq!(parse("PWON"), create(PowerState::On));
}

#[test]
fn source_input() {
    let create = |si| Some(SetState::SourceInput(si));

    assert_eq!(parse("SI"), None);
    assert_eq!(parse("SIblub"), None);
    assert_eq!(parse("SITV"), create(SourceInputState::Tv));
}

#[test]
fn volume_scaling_boundary() {
    assert_eq!(parse("MV0"), Some(SetState::MainVolume(0)));
    assert_eq!(parse("MV23"), Some(SetState::MainVolume(230)));
    assert_eq!(parse("MV99"), Some(SetState::MainVolume(990)));
    assert_eq!(parse("MV100"), Some(SetState::MainVolume(100)));
    assert_eq!(parse("MV999"), Some(SetState::MainVolume(999)));
}

#[test]
fn commands_round_trip_without_delimiter() {
    let values = vec![
        SetState::Power(PowerState::On),
        SetState::Power(PowerState::Standby),
        SetState::SourceInput(SourceInputState::Cd),
        SetState::SourceInput(SourceInputState::NetUsb),
        SetState::SourceInput(SourceInputState::SatCbl),
        SetState::MainVolume(0),
        SetState::MainVolume(230),
        SetState::MaxVolume(666),
        SetState::MaxVolume(100),
    ];
    for v in values {
        let line = v.encode_command();
        let trimmed = &line[..line.len() - 1];
        assert_eq!(parse(trimmed), Some(v));
    }
}

#[test]
fn encode_query_lines() {
    assert_eq!(State::Power.encode_query(), "PW?\r");
    assert_eq!(State::SourceInput.encode_query(), "SI?\r");
    assert_eq!(State::MainVolume.encode_query(), "MV?\r");
    assert_eq!(State::MaxVolume.encode_query(), "MVMAX?\r");
}

#[test]
fn encode_command_lines() {
    assert_eq!(SetState::Power(PowerState::Standby).encode_command(), "PWSTANDBY\r");
    assert_eq!(SetState::SourceInput(SourceInputState::Cd).encode_command(), "SICD\r");
    assert_eq!(SetState::MainVolume(50).encode_command(), "MV50\r");
    assert_eq!(SetState::MaxVolume(230).encode_command(), "MVMAX230\r");
}

#[test]
fn fallback_parse_is_forgiving() {
    assert_eq!(parse_fallback::parse(""), None);
    assert_eq!(parse_fallback::parse("blub"), None);
    assert_eq!(parse_fallback::parse("MVMAX23"), Some(SetState::MaxVolume(230)));
    assert_eq!(parse_fallback::parse("MV 999"), Some(SetState::MainVolume(999)));
    assert_eq!(
        parse_fallback::parse("PWON"),
        Some(SetState::Power(PowerState::On))
    );
    assert_eq!(
        parse_fallback::parse("PWOFF"),
        Some(SetState::Power(PowerState::Standby))
    );
    assert_eq!(
        parse_fallback::parse("SITV"),
        Some(SetState::SourceInput(SourceInputState::Tv))
    );
    assert_eq!(
        parse_fallback::parse("SIblub"),
        Some(SetState::SourceInput(SourceInputState::Unknown))
    );
}
