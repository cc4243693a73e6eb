//! The forgiving decoder: every line with a known prefix yields a
//! value.
//!
//! Unlike [`crate::parse::parse`], a power remainder other than `ON`
//! is read as standby, and a source-input name outside the closed set
//! is read as [`SourceInputState::Unknown`] instead of being dropped.
//! A volume remainder must spell a number; other remainders are not
//! accepted by this decoder (`parse_fallback_defined`).

use crate::digits;
use crate::parse::{has_prefix, scale_volume, spec_value_part, trimmed_chars};
use crate::state::{PowerState, SetState, SourceInputState, State, WireValue};
use crate::strutil;
use vstd::prelude::*;

verus! {

/// How a power remainder is read here: anything but `ON` means
/// standby.
pub open spec fn spec_power_fallback(v: Seq<char>) -> PowerState {
    if v == PowerState::On.wire_chars() {
        PowerState::On
    } else {
        PowerState::Standby
    }
}

/// How a source-input remainder is read here: names outside the
/// closed set fall back to `Unknown`.
pub open spec fn spec_si_fallback(v: Seq<char>) -> SourceInputState {
    if v == SourceInputState::Cd.wire_chars() {
        SourceInputState::Cd
    } else if v == SourceInputState::Tuner.wire_chars() {
        SourceInputState::Tuner
    } else if v == SourceInputState::Dvd.wire_chars() {
        SourceInputState::Dvd
    } else if v == SourceInputState::Bd.wire_chars() {
        SourceInputState::Bd
    } else if v == SourceInputState::Tv.wire_chars() {
        SourceInputState::Tv
    } else if v == SourceInputState::SatCbl.wire_chars() {
        SourceInputState::SatCbl
    } else if v == SourceInputState::Game.wire_chars() {
        SourceInputState::Game
    } else if v == SourceInputState::Game2.wire_chars() {
        SourceInputState::Game2
    } else if v == SourceInputState::VAux.wire_chars() {
        SourceInputState::VAux
    } else if v == SourceInputState::Dock.wire_chars() {
        SourceInputState::Dock
    } else if v == SourceInputState::Ipod.wire_chars() {
        SourceInputState::Ipod
    } else if v == SourceInputState::NetUsb.wire_chars() {
        SourceInputState::NetUsb
    } else {
        SourceInputState::Unknown
    }
}

/// The inputs this decoder accepts: a volume remainder must spell a
/// number, since the decoder insists on a value for every recognised
/// prefix.
pub open spec fn parse_fallback_defined(s: Seq<char>) -> bool {
    let t = trimmed_chars(s);
    &&& has_prefix(t, State::MaxVolume.prefix_chars()) ==> digits::parse_u32_spec(
        spec_value_part(t, State::MaxVolume.prefix_chars().len() as int),
    ) is Some
    &&& !has_prefix(t, State::MaxVolume.prefix_chars()) && has_prefix(
        t,
        State::MainVolume.prefix_chars(),
    ) ==> digits::parse_u32_spec(
        spec_value_part(t, State::MainVolume.prefix_chars().len() as int),
    ) is Some
}

/// What `parse` returns for a line this decoder accepts.
pub open spec fn spec_parse_fallback(s: Seq<char>) -> Option<SetState> {
    let t = trimmed_chars(s);
    if has_prefix(t, State::MaxVolume.prefix_chars()) {
        Some(
            SetState::MaxVolume(
                scale_volume(
                    digits::parse_u32_spec(
                        spec_value_part(t, State::MaxVolume.prefix_chars().len() as int),
                    ).unwrap(),
                ),
            ),
        )
    } else if has_prefix(t, State::MainVolume.prefix_chars()) {
        Some(
            SetState::MainVolume(
                scale_volume(
                    digits::parse_u32_spec(
                        spec_value_part(t, State::MainVolume.prefix_chars().len() as int),
                    ).unwrap(),
                ),
            ),
        )
    } else if has_prefix(t, State::Power.prefix_chars()) {
        Some(
            SetState::Power(
                spec_power_fallback(
                    spec_value_part(t, State::Power.prefix_chars().len() as int),
                ),
            ),
        )
    } else if has_prefix(t, State::SourceInput.prefix_chars()) {
        Some(
            SetState::SourceInput(
                spec_si_fallback(
                    spec_value_part(t, State::SourceInput.prefix_chars().len() as int),
                ),
            ),
        )
    } else {
        None
    }
}

/// Reads a volume remainder that is known to spell a number.
fn parse_int(to_parse: &str) -> (r: u32)
    requires
        digits::parse_u32_spec(to_parse@) is Some,
    ensures
        r == scale_volume(digits::parse_u32_spec(to_parse@).unwrap()),
{
    let len = to_parse.unicode_len();
    proof {
        assert(to_parse@.subrange(0, len as int) =~= to_parse@);
    }
    match digits::parse_u32_range(to_parse, 0, len) {
        Some(v) => {
            if v < 100 {
                v * 10
            } else {
                v
            }
        },
        None => vstd::pervasive::unreached(),
    }
}

/// Reads a main-volume remainder.
fn parse_main_volume(value: &str) -> (r: SetState)
    requires
        digits::parse_u32_spec(value@) is Some,
    ensures
        r == SetState::MainVolume(scale_volume(digits::parse_u32_spec(value@).unwrap())),
{
    SetState::MainVolume(parse_int(value))
}

/// Reads a max-volume remainder.
fn parse_max_volume(value: &str) -> (r: SetState)
    requires
        digits::parse_u32_spec(value@) is Some,
    ensures
        r == SetState::MaxVolume(scale_volume(digits::parse_u32_spec(value@).unwrap())),
{
    SetState::MaxVolume(parse_int(value))
}

/// Reads a power remainder.
fn parse_power(value: &str) -> (r: SetState)
    ensures
        r == SetState::Power(spec_power_fallback(value@)),
{
    let len = value.unicode_len();
    proof {
        assert(value@.subrange(0, len as int) =~= value@);
    }
    if strutil::str_range_eq(value, 0, len, PowerState::On.wire_name()) {
        SetState::Power(PowerState::On)
    } else {
        SetState::Power(PowerState::Standby)
    }
}

/// Reads a source-input remainder.
fn parse_source_input(value: &str) -> (r: SetState)
    ensures
        r == SetState::SourceInput(spec_si_fallback(value@)),
{
    let states = SourceInputState::states();
    let n = states.len();
    let mut i: usize = 0;
    let len = value.unicode_len();
    proof {
        assert(value@.subrange(0, len as int) =~= value@);
    }
    while i < n
        invariant
            n == SourceInputState::spec_states().len(),
            states@ == SourceInputState::spec_states(),
            i <= n,
            len == value@.len(),
            value@.subrange(0, len as int) == value@,
            forall|j: int|
                0 <= j < i ==> #[trigger] states@[j].wire_chars() != value@,
        decreases n - i,
    {
        if strutil::str_range_eq(value, 0, len, states[i].wire_name()) {
            proof {
                lemma_si_fallback_found(value@, i as int);
            }
            return SetState::SourceInput(states[i]);
        }
        i += 1;
    }
    proof {
        lemma_si_fallback_none(value@);
    }
    SetState::SourceInput(SourceInputState::Unknown)
}

/// If the value spells the `i`th known input and none before it, the
/// fallback chain picks exactly that input.
proof fn lemma_si_fallback_found(v: Seq<char>, i: int)
    requires
        0 <= i < SourceInputState::spec_states().len(),
        SourceInputState::spec_states()[i].wire_chars() == v,
        forall|j: int|
            0 <= j < i ==> #[trigger] SourceInputState::spec_states()[j].wire_chars() != v,
    ensures
        spec_si_fallback(v) == SourceInputState::spec_states()[i],
{
}

/// If the value spells no known input, the fallback chain ends at
/// `Unknown`.
pub(crate) proof fn lemma_si_fallback_none(v: Seq<char>)
    requires
        forall|j: int|
            0 <= j < SourceInputState::spec_states().len()
                ==> #[trigger] SourceInputState::spec_states()[j].wire_chars() != v,
    ensures
        spec_si_fallback(v) == SourceInputState::Unknown,
{
    let states = SourceInputState::spec_states();
    assert forall|j: int| 0 <= j < states.len() implies #[trigger] states[j].wire_chars()
        != v by {}
    assert(states[0] == SourceInputState::Cd);
    assert(states[1] == SourceInputState::Tuner);
    assert(states[2] == SourceInputState::Dvd);
    assert(states[3] == SourceInputState::Bd);
    assert(states[4] == SourceInputState::Tv);
    assert(states[5] == SourceInputState::SatCbl);
    assert(states[6] == SourceInputState::Game);
    assert(states[7] == SourceInputState::Game2);
    assert(states[8] == SourceInputState::VAux);
    assert(states[9] == SourceInputState::Dock);
    assert(states[10] == SourceInputState::Ipod);
    assert(states[11] == SourceInputState::NetUsb);
    assert(states[0].wire_chars() != v);
    assert(states[1].wire_chars() != v);
    assert(states[2].wire_chars() != v);
    assert(states[3].wire_chars() != v);
    assert(states[4].wire_chars() != v);
    assert(states[5].wire_chars() != v);
    assert(states[6].wire_chars() != v);
    assert(states[7].wire_chars() != v);
    assert(states[8].wire_chars() != v);
    assert(states[9].wire_chars() != v);
    assert(states[10].wire_chars() != v);
    assert(states[11].wire_chars() != v);
}

/// Decodes one protocol line, falling back instead of failing.
///
/// The remainder of a volume line must spell a number; on any other
/// remainder a recognised prefix always yields a value.
pub fn parse(line: &str) -> (r: Option<SetState>)
    requires
        parse_fallback_defined(line@),
    ensures
        r == spec_parse_fallback(line@),
{
    let len = line.unicode_len();
    let i = crate::parse::skip_ws_fwd(line, 0, len);
    let j = crate::parse::skip_ws_back(line, i, len);
    proof {
        if i == j && i < len {
            assert(!crate::parse::is_ws(line@[i as int]));
            assert(crate::parse::is_ws(line@[i as int]));
        }
        crate::parse::lemma_trimmed_subrange(line@, i as int, j as int);
    }
    let t = line.substring_char(i, j);
    let tlen = j - i;
    let ghost tv = trimmed_chars(line@);
    if strutil::str_has_prefix_at(t, 0, tlen, State::MaxVolume.prefix()) {
        proof {
            assert(t@.subrange(0, 5) =~= tv.subrange(0, 5));
        }
        Some(parse_max_volume(crate::parse::get_value(t, 5)))
    } else if strutil::str_has_prefix_at(t, 0, tlen, State::MainVolume.prefix()) {
        proof {
            if tv.len() >= 2 {
                assert(t@.subrange(0, 2) =~= tv.subrange(0, 2));
            }
            if tv.len() >= 5 {
                assert(t@.subrange(0, 5) =~= tv.subrange(0, 5));
            }
        }
        Some(parse_main_volume(crate::parse::get_value(t, 2)))
    } else if strutil::str_has_prefix_at(t, 0, tlen, State::Power.prefix()) {
        proof {
            if tv.len() >= 2 {
                assert(t@.subrange(0, 2) =~= tv.subrange(0, 2));
            }
            if tv.len() >= 5 {
                assert(t@.subrange(0, 5) =~= tv.subrange(0, 5));
            }
        }
        Some(parse_power(crate::parse::get_value(t, 2)))
    } else if strutil::str_has_prefix_at(t, 0, tlen, State::SourceInput.prefix()) {
        proof {
            if tv.len() >= 2 {
                assert(t@.subrange(0, 2) =~= tv.subrange(0, 2));
            }
            if tv.len() >= 5 {
                assert(t@.subrange(0, 5) =~= tv.subrange(0, 5));
            }
        }
        Some(parse_source_input(crate::parse::get_value(t, 2)))
    } else {
        proof {
            if tv.len() >= 2 {
                assert(t@.subrange(0, 2) =~= tv.subrange(0, 2));
            }
            if tv.len() >= 5 {
                assert(t@.subrange(0, 5) =~= tv.subrange(0, 5));
            }
        }
        None
    }
}

} // verus!
