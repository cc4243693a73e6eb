//! Decoding of protocol lines into typed status values.
//!
//! A line is trimmed, matched against the known wire prefixes (longest
//! first, since `MVMAX` collides with `MV`), and the remainder is read
//! according to that kind's value grammar. Unrecognised prefixes and
//! malformed remainders yield `None`.
//!
//! Two readings of a source-input name outside the closed set exist:
//! this decoder treats such a line as undecodable, so the receiver
//! loop drops it — the behaviour the protocol tests pin down — while
//! [`crate::parse_fallback`] reads it as the `Unknown` input, the
//! fallback the data model describes. The receiver loop uses this
//! decoder; both readings are specified and proved.

use crate::digits;
use crate::state::{PowerState, SetState, SourceInputState, State, WireValue};
use crate::strutil;
use vstd::prelude::*;

verus! {

/// The whitespace characters a protocol line can carry around its
/// payload.
pub open spec fn is_ws(c: char) -> bool {
    c == ' ' || c == '\t' || c == '\n' || c == '\r' || c == '\u{b}' || c == '\u{c}'
}

/// `s` without its leading whitespace.
pub open spec fn trim_front(s: Seq<char>) -> Seq<char>
    decreases s.len(),
{
    if s.len() > 0 && is_ws(s[0]) {
        trim_front(s.skip(1))
    } else {
        s
    }
}

/// `s` without its trailing whitespace.
pub open spec fn trim_back(s: Seq<char>) -> Seq<char>
    decreases s.len(),
{
    if s.len() > 0 && is_ws(s.last()) {
        trim_back(s.drop_last())
    } else {
        s
    }
}

/// `s` without leading and trailing whitespace.
pub open spec fn trimmed_chars(s: Seq<char>) -> Seq<char> {
    trim_back(trim_front(s))
}

/// Whether `t` starts with `p`.
pub open spec fn has_prefix(t: Seq<char>, p: Seq<char>) -> bool {
    t.len() >= p.len() && t.subrange(0, p.len() as int) == p
}

/// A two-digit code keeps one implied decimal digit, so values below
/// 100 are reported in tenths.
pub open spec fn scale_volume(v: u32) -> u32 {
    if v < 100 {
        (v * 10) as u32
    } else {
        v
    }
}

/// How a volume remainder is read: as a decimal number, then scaled.
pub open spec fn spec_parse_int(s: Seq<char>) -> Option<u32> {
    match digits::parse_u32_spec(s) {
        Some(v) => Some(scale_volume(v)),
        None => None,
    }
}

/// How a power remainder is read.
pub open spec fn spec_power_of(v: Seq<char>) -> Option<PowerState> {
    if v == PowerState::On.wire_chars() {
        Some(PowerState::On)
    } else if v == PowerState::Standby.wire_chars() {
        Some(PowerState::Standby)
    } else {
        None
    }
}

/// How a source-input remainder is read: only names of the closed set
/// are accepted.
pub open spec fn spec_si_of(v: Seq<char>) -> Option<SourceInputState> {
    if v == SourceInputState::Cd.wire_chars() {
        Some(SourceInputState::Cd)
    } else if v == SourceInputState::Tuner.wire_chars() {
        Some(SourceInputState::Tuner)
    } else if v == SourceInputState::Dvd.wire_chars() {
        Some(SourceInputState::Dvd)
    } else if v == SourceInputState::Bd.wire_chars() {
        Some(SourceInputState::Bd)
    } else if v == SourceInputState::Tv.wire_chars() {
        Some(SourceInputState::Tv)
    } else if v == SourceInputState::SatCbl.wire_chars() {
        Some(SourceInputState::SatCbl)
    } else if v == SourceInputState::Game.wire_chars() {
        Some(SourceInputState::Game)
    } else if v == SourceInputState::Game2.wire_chars() {
        Some(SourceInputState::Game2)
    } else if v == SourceInputState::VAux.wire_chars() {
        Some(SourceInputState::VAux)
    } else if v == SourceInputState::Dock.wire_chars() {
        Some(SourceInputState::Dock)
    } else if v == SourceInputState::Ipod.wire_chars() {
        Some(SourceInputState::Ipod)
    } else if v == SourceInputState::NetUsb.wire_chars() {
        Some(SourceInputState::NetUsb)
    } else {
        None
    }
}

/// The remainder of `t` after a prefix of `plen` characters, trimmed.
pub open spec fn spec_value_part(t: Seq<char>, plen: int) -> Seq<char> {
    trimmed_chars(t.skip(plen))
}

/// What `parse` returns for a line: the most specific known prefix is
/// tried first, and the remainder must satisfy that kind's grammar.
pub open spec fn spec_parse(s: Seq<char>) -> Option<SetState> {
    let t = trimmed_chars(s);
    if has_prefix(t, State::MaxVolume.prefix_chars()) {
        match spec_parse_int(spec_value_part(t, State::MaxVolume.prefix_chars().len() as int)) {
            Some(v) => Some(SetState::MaxVolume(v)),
            None => None,
        }
    } else if has_prefix(t, State::MainVolume.prefix_chars()) {
        match spec_parse_int(spec_value_part(t, State::MainVolume.prefix_chars().len() as int)) {
            Some(v) => Some(SetState::MainVolume(v)),
            None => None,
        }
    } else if has_prefix(t, State::Power.prefix_chars()) {
        match spec_power_of(spec_value_part(t, State::Power.prefix_chars().len() as int)) {
            Some(p) => Some(SetState::Power(p)),
            None => None,
        }
    } else if has_prefix(t, State::SourceInput.prefix_chars()) {
        match spec_si_of(spec_value_part(t, State::SourceInput.prefix_chars().len() as int)) {
            Some(i) => Some(SetState::SourceInput(i)),
            None => None,
        }
    } else {
        None
    }
}

/// Executable test for `is_ws`.
fn is_ws_char(c: char) -> (r: bool)
    ensures
        r == is_ws(c),
{
    c == ' ' || c == '\t' || c == '\n' || c == '\r' || c == '\u{b}' || c == '\u{c}'
}

/// The first position in `[from, to)` that does not hold whitespace.
pub(crate) fn skip_ws_fwd(s: &str, from: usize, to: usize) -> (r: usize)
    requires
        from <= to <= s@.len(),
    ensures
        from <= r <= to,
        forall|k: int| from <= k < r ==> is_ws(#[trigger] s@[k]),
        r < to ==> !is_ws(s@[r as int]),
{
    let mut i = from;
    while i < to
        invariant
            from <= i <= to <= s@.len(),
            forall|k: int| from <= k < i ==> is_ws(#[trigger] s@[k]),
        decreases to - i,
    {
        if !is_ws_char(s.get_char(i)) {
            return i;
        }
        i += 1;
    }
    i
}

/// The position after the last non-whitespace character in `[from, to)`.
pub(crate) fn skip_ws_back(s: &str, from: usize, to: usize) -> (r: usize)
    requires
        from <= to <= s@.len(),
    ensures
        from <= r <= to,
        forall|k: int| r <= k < to ==> is_ws(#[trigger] s@[k]),
        r > from ==> !is_ws(s@[r - 1]),
{
    let mut j = to;
    while j > from
        invariant
            from <= j <= to <= s@.len(),
            forall|k: int| j <= k < to ==> is_ws(#[trigger] s@[k]),
        decreases j,
    {
        if !is_ws_char(s.get_char(j - 1)) {
            return j;
        }
        j -= 1;
    }
    j
}

/// Dropping exactly the leading whitespace is what `trim_front` does.
proof fn lemma_trim_front_skip(s: Seq<char>, i: int)
    requires
        0 <= i <= s.len(),
        forall|k: int| 0 <= k < i ==> is_ws(#[trigger] s[k]),
        i < s.len() ==> !is_ws(s[i]),
    ensures
        trim_front(s) == s.skip(i),
    decreases i,
{
    if i == 0 {
        assert(s.skip(0) =~= s);
    } else {
        assert(is_ws(s[0]));
        lemma_trim_front_skip(s.skip(1), i - 1);
        assert(s.skip(1).skip(i - 1) =~= s.skip(i));
    }
}

/// Dropping exactly the trailing whitespace is what `trim_back` does.
proof fn lemma_trim_back_take(s: Seq<char>, j: int)
    requires
        0 <= j <= s.len(),
        forall|k: int| j <= k < s.len() ==> is_ws(#[trigger] s[k]),
        j > 0 ==> !is_ws(s[j - 1]),
    ensures
        trim_back(s) == s.take(j),
    decreases s.len(),
{
    if j == s.len() {
        if s.len() > 0 {
            assert(!is_ws(s.last()));
        }
        assert(s.take(j) =~= s);
    } else {
        assert(is_ws(s.last()));
        lemma_trim_back_take(s.drop_last(), j);
        assert(s.drop_last().take(j) =~= s.take(j));
    }
}

/// Trimming both ends is taking the subrange between the whitespace.
pub(crate) proof fn lemma_trimmed_subrange(s: Seq<char>, i: int, j: int)
    requires
        0 <= i <= j <= s.len(),
        forall|k: int| 0 <= k < i ==> is_ws(#[trigger] s[k]),
        forall|k: int| j <= k < s.len() ==> is_ws(#[trigger] s[k]),
        i < j ==> !is_ws(s[i]) && !is_ws(s[j - 1]),
        i == j ==> i == s.len(),
    ensures
        trimmed_chars(s) == s.subrange(i, j),
{
    if i == j {
        lemma_trim_front_skip(s, i);
        assert(trim_front(s) =~= Seq::<char>::empty());
        assert(s.subrange(i, j) =~= Seq::<char>::empty());
    } else {
        lemma_trim_front_skip(s, i);
        let rest = s.skip(i);
        lemma_trim_back_take(rest, j - i);
        assert(rest.take(j - i) =~= s.subrange(i, j));
    }
}

/// The trimmed remainder of `t` after its first `plen` characters.
///
/// This is the value part of a status line whose prefix is `plen`
/// characters long.
pub(crate) fn get_value(t: &str, plen: usize) -> (r: &str)
    requires
        plen <= t@.len(),
    ensures
        r@ == spec_value_part(t@, plen as int),
{
    let len = t.unicode_len();
    let a = skip_ws_fwd(t, plen, len);
    let b = skip_ws_back(t, a, len);
    proof {
        let rest = t@.skip(plen as int);
        assert forall|k: int| 0 <= k < a - plen implies is_ws(#[trigger] rest[k]) by {
            assert(rest[k] == t@[k + plen]);
        }
        assert forall|k: int| b - plen <= k < rest.len() implies is_ws(#[trigger] rest[k]) by {
            assert(rest[k] == t@[k + plen]);
        }
        if a - plen < b - plen {
            assert(!is_ws(rest[a - plen]));
            assert(!is_ws(rest[b - plen - 1]));
        }
        if a == b {
            assert(a == len) by {
                if a < len {
                    assert(!is_ws(t@[a as int]));
                    assert(is_ws(t@[a as int]));
                }
            }
        }
        lemma_trimmed_subrange(rest, a - plen, b - plen);
        assert(rest.subrange(a - plen, b - plen) =~= t@.subrange(a as int, b as int));
    }
    t.substring_char(a, b)
}

/// Reads a volume remainder: a decimal number, scaled when below 100.
fn parse_int(to_parse: &str) -> (r: Option<u32>)
    ensures
        r == spec_parse_int(to_parse@),
{
    let len = to_parse.unicode_len();
    proof {
        assert(to_parse@.subrange(0, len as int) =~= to_parse@);
    }
    match digits::parse_u32_range(to_parse, 0, len) {
        Some(v) => {
            if v < 100 {
                Some(v * 10)
            } else {
                Some(v)
            }
        },
        None => None,
    }
}

/// Reads a power remainder.
fn parse_power(value: &str) -> (r: Option<PowerState>)
    ensures
        r == spec_power_of(value@),
{
    let len = value.unicode_len();
    proof {
        assert(value@.subrange(0, len as int) =~= value@);
    }
    if strutil::str_range_eq(value, 0, len, PowerState::On.wire_name()) {
        Some(PowerState::On)
    } else if strutil::str_range_eq(value, 0, len, PowerState::Standby.wire_name()) {
        Some(PowerState::Standby)
    } else {
        None
    }
}

/// Reads a source-input remainder.
fn parse_source_input(value: &str) -> (r: Option<SourceInputState>)
    ensures
        r == spec_si_of(value@),
{
    let len = value.unicode_len();
    proof {
        assert(value@.subrange(0, len as int) =~= value@);
    }
    if strutil::str_range_eq(value, 0, len, SourceInputState::Cd.wire_name()) {
        Some(SourceInputState::Cd)
    } else if strutil::str_range_eq(value, 0, len, SourceInputState::Tuner.wire_name()) {
        Some(SourceInputState::Tuner)
    } else if strutil::str_range_eq(value, 0, len, SourceInputState::Dvd.wire_name()) {
        Some(SourceInputState::Dvd)
    } else if strutil::str_range_eq(value, 0, len, SourceInputState::Bd.wire_name()) {
        Some(SourceInputState::Bd)
    } else if strutil::str_range_eq(value, 0, len, SourceInputState::Tv.wire_name()) {
        Some(SourceInputState::Tv)
    } else if strutil::str_range_eq(value, 0, len, SourceInputState::SatCbl.wire_name()) {
        Some(SourceInputState::SatCbl)
    } else if strutil::str_range_eq(value, 0, len, SourceInputState::Game.wire_name()) {
        Some(SourceInputState::Game)
    } else if strutil::str_range_eq(value, 0, len, SourceInputState::Game2.wire_name()) {
        Some(SourceInputState::Game2)
    } else if strutil::str_range_eq(value, 0, len, SourceInputState::VAux.wire_name()) {
        Some(SourceInputState::VAux)
    } else if strutil::str_range_eq(value, 0, len, SourceInputState::Dock.wire_name()) {
        Some(SourceInputState::Dock)
    } else if strutil::str_range_eq(value, 0, len, SourceInputState::Ipod.wire_name()) {
        Some(SourceInputState::Ipod)
    } else if strutil::str_range_eq(value, 0, len, SourceInputState::NetUsb.wire_name()) {
        Some(SourceInputState::NetUsb)
    } else {
        None
    }
}

/// Decodes one protocol line.
///
/// Returns the kind and value the line reports, or `None` when the
/// prefix is unknown or the remainder does not parse; such lines are
/// protocol noise and are dropped by the receiver loop.
pub fn parse(line: &str) -> (r: Option<SetState>)
    ensures
        r == spec_parse(line@),
{
    let len = line.unicode_len();
    let i = skip_ws_fwd(line, 0, len);
    let j = skip_ws_back(line, i, len);
    proof {
        if i == j && i < len {
            assert(!is_ws(line@[i as int]));
            assert(is_ws(line@[i as int]));
        }
        lemma_trimmed_subrange(line@, i as int, j as int);
    }
    let t = line.substring_char(i, j);
    let tlen = j - i;
    let ghost tv = trimmed_chars(line@);
    if strutil::str_has_prefix_at(t, 0, tlen, State::MaxVolume.prefix()) {
        proof {
            assert(t@.subrange(0, 5) =~= tv.subrange(0, 5));
        }
        match parse_int(get_value(t, 5)) {
            Some(v) => Some(SetState::MaxVolume(v)),
            None => None,
        }
    } else if strutil::str_has_prefix_at(t, 0, tlen, State::MainVolume.prefix()) {
        proof {
            if tv.len() >= 2 {
                assert(t@.subrange(0, 2) =~= tv.subrange(0, 2));
            }
            if tv.len() >= 5 {
                assert(t@.subrange(0, 5) =~= tv.subrange(0, 5));
            }
        }
        match parse_int(get_value(t, 2)) {
            Some(v) => Some(SetState::MainVolume(v)),
            None => None,
        }
    } else if strutil::str_has_prefix_at(t, 0, tlen, State::Power.prefix()) {
        proof {
            if tv.len() >= 2 {
                assert(t@.subrange(0, 2) =~= tv.subrange(0, 2));
            }
            if tv.len() >= 5 {
                assert(t@.subrange(0, 5) =~= tv.subrange(0, 5));
            }
        }
        match parse_power(get_value(t, 2)) {
            Some(p) => Some(SetState::Power(p)),
            None => None,
        }
    } else if strutil::str_has_prefix_at(t, 0, tlen, State::SourceInput.prefix()) {
        proof {
            if tv.len() >= 2 {
                assert(t@.subrange(0, 2) =~= tv.subrange(0, 2));
            }
            if tv.len() >= 5 {
                assert(t@.subrange(0, 5) =~= tv.subrange(0, 5));
            }
        }
        match parse_source_input(get_value(t, 2)) {
            Some(s) => Some(SetState::SourceInput(s)),
            None => None,
        }
    } else {
        proof {
            if tv.len() >= 2 {
                assert(t@.subrange(0, 2) =~= tv.subrange(0, 2));
            }
            if tv.len() >= 5 {
                assert(t@.subrange(0, 5) =~= tv.subrange(0, 5));
            }
        }
        None
    }
}

} // verus!
