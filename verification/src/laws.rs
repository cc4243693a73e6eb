//! The laws the codec and the status machinery obey, stated once and
//! proved for every input they cover.

use crate::denon_connection::{spec_process_line, table_after_lines};
use crate::digits::{
    all_dec_digits, dec_chars, dec_val, digits_part, is_dec_digit, lemma_dec_chars_val,
    parse_u32_spec,
};
use crate::parse::{
    has_prefix, is_ws, lemma_trimmed_subrange, spec_parse, spec_value_part, trimmed_chars,
};
use crate::state::{PowerState, SetState, SourceInputState, State, WireValue};
use crate::table::{StatusEntry, StatusTable, WaitOutcome};
use vstd::prelude::*;

verus! {

/// A decimal digit is not whitespace and not a plus sign.
proof fn lemma_digit_plain(c: char)
    requires
        is_dec_digit(c),
    ensures
        !is_ws(c),
        c != '+',
{
}

/// A sequence of digit characters is left unchanged by trimming.
proof fn lemma_digits_untrimmed(s: Seq<char>)
    requires
        s.len() > 0,
        all_dec_digits(s),
    ensures
        trimmed_chars(s) == s,
{
    assert(is_dec_digit(s[0]));
    assert(is_dec_digit(s[s.len() - 1]));
    lemma_digit_plain(s[0]);
    lemma_digit_plain(s[s.len() - 1]);
    lemma_trimmed_subrange(s, 0, s.len() as int);
    assert(s.subrange(0, s.len() as int) =~= s);
}

/// The digits of a number parse back to that number.
proof fn lemma_digits_parse_back(x: u32)
    ensures
        parse_u32_spec(dec_chars(x as nat)) == Some(x),
{
    lemma_dec_chars_val(x as nat);
    let d = dec_chars(x as nat);
    assert(is_dec_digit(d[0]));
    lemma_digit_plain(d[0]);
    assert(digits_part(d) == d);
    assert(dec_val(d) == x);
}

/// The values whose command decodes back to exactly the value: every
/// power state, every source input of the closed set, and a volume
/// that the two-digit scaling rule maps to itself — zero, or at least
/// one hundred. (A volume such as 10 is rendered `10` and read back
/// as 100, so it is left out.)
pub open spec fn round_trips(v: SetState) -> bool {
    match v {
        SetState::Power(_) => true,
        SetState::SourceInput(i) => i != SourceInputState::Unknown,
        SetState::MainVolume(x) => x == 0 || x >= 100,
        SetState::MaxVolume(x) => x == 0 || x >= 100,
    }
}

/// The first and last character of a known input name, and its
/// length, are plain letters.
proof fn lemma_si_name_shape(i: SourceInputState)
    ensures
        i.wire_chars().len() > 0,
        !is_ws(i.wire_chars()[0]),
        !is_ws(i.wire_chars()[i.wire_chars().len() - 1]),
        i.wire_chars()[0] != 'M',
        i.wire_chars()[0] != 'P',
{
    match i {
        SourceInputState::Cd => {},
        SourceInputState::Tuner => {},
        SourceInputState::Dvd => {},
        SourceInputState::Bd => {},
        SourceInputState::Tv => {},
        SourceInputState::SatCbl => {},
        SourceInputState::Game => {},
        SourceInputState::Game2 => {},
        SourceInputState::VAux => {},
        SourceInputState::Dock => {},
        SourceInputState::Ipod => {},
        SourceInputState::NetUsb => {},
        SourceInputState::Unknown => {},
    }
}

/// Law: encoding a value as a command and decoding the command,
/// delimiter left aside, gives back exactly that kind and value, for
/// the values `round_trips` describes.
pub proof fn lemma_command_round_trip(v: SetState)
    requires
        round_trips(v),
    ensures
        spec_parse(v.command_chars()) == Some(v),
{
    let cmd = v.command_chars();
    match v {
        SetState::MaxVolume(x) => {
            let d = dec_chars(x as nat);
            lemma_dec_chars_val(x as nat);
            lemma_digit_plain(d[0]);
            lemma_digit_plain(d[d.len() - 1]);
            assert(cmd[0] == 'M');
            assert(cmd[cmd.len() - 1] == d[d.len() - 1]);
            lemma_trimmed_subrange(cmd, 0, cmd.len() as int);
            assert(cmd.subrange(0, cmd.len() as int) =~= cmd);
            assert(trimmed_chars(cmd) == cmd);
            assert(cmd.subrange(0, 5) =~= State::MaxVolume.prefix_chars());
            assert(has_prefix(cmd, State::MaxVolume.prefix_chars()));
            assert(cmd.skip(5) =~= d);
            lemma_digits_untrimmed(d);
            assert(spec_value_part(cmd, 5) == d);
            lemma_digits_parse_back(x);
        },
        SetState::MainVolume(x) => {
            let d = dec_chars(x as nat);
            lemma_dec_chars_val(x as nat);
            lemma_digit_plain(d[0]);
            lemma_digit_plain(d[d.len() - 1]);
            assert(cmd[0] == 'M');
            assert(cmd[1] == 'V');
            assert(cmd[cmd.len() - 1] == d[d.len() - 1]);
            lemma_trimmed_subrange(cmd, 0, cmd.len() as int);
            assert(cmd.subrange(0, cmd.len() as int) =~= cmd);
            assert(trimmed_chars(cmd) == cmd);
            if cmd.len() >= 5 {
                assert(cmd.subrange(0, 5)[2] == cmd[2]);
                assert(cmd[2] == d[0]);
                assert(cmd[2] != 'M');
                assert(cmd.subrange(0, 5) != State::MaxVolume.prefix_chars());
            }
            assert(!has_prefix(cmd, State::MaxVolume.prefix_chars()));
            assert(cmd.subrange(0, 2) =~= State::MainVolume.prefix_chars());
            assert(has_prefix(cmd, State::MainVolume.prefix_chars()));
            assert(cmd.skip(2) =~= d);
            lemma_digits_untrimmed(d);
            assert(spec_value_part(cmd, 2) == d);
            lemma_digits_parse_back(x);
        },
        SetState::Power(p) => {
            let w = p.wire_chars();
            assert(cmd[0] == 'P');
            match p {
                PowerState::On => {
                    assert(cmd[cmd.len() - 1] == 'N');
                },
                PowerState::Standby => {
                    assert(cmd[cmd.len() - 1] == 'Y');
                },
            }
            lemma_trimmed_subrange(cmd, 0, cmd.len() as int);
            assert(cmd.subrange(0, cmd.len() as int) =~= cmd);
            assert(trimmed_chars(cmd) == cmd);
            if cmd.len() >= 5 {
                assert(cmd.subrange(0, 5)[0] == cmd[0]);
                assert(cmd.subrange(0, 5) != State::MaxVolume.prefix_chars());
            }
            assert(!has_prefix(cmd, State::MaxVolume.prefix_chars()));
            assert(cmd.subrange(0, 2)[0] == cmd[0]);
            assert(cmd.subrange(0, 2) != State::MainVolume.prefix_chars());
            assert(!has_prefix(cmd, State::MainVolume.prefix_chars()));
            assert(cmd.subrange(0, 2) =~= State::Power.prefix_chars());
            assert(has_prefix(cmd, State::Power.prefix_chars()));
            assert(cmd.skip(2) =~= w);
            match p {
                PowerState::On => {
                    lemma_trimmed_subrange(w, 0, w.len() as int);
                    assert(w.subrange(0, w.len() as int) =~= w);
                },
                PowerState::Standby => {
                    lemma_trimmed_subrange(w, 0, w.len() as int);
                    assert(w.subrange(0, w.len() as int) =~= w);
                },
            }
            assert(spec_value_part(cmd, 2) == w);
        },
        SetState::SourceInput(i) => {
            let w = i.wire_chars();
            lemma_si_name_shape(i);
            assert(cmd[0] == 'S');
            assert(cmd[1] == 'I');
            assert(cmd[cmd.len() - 1] == w[w.len() - 1]);
            lemma_trimmed_subrange(cmd, 0, cmd.len() as int);
            assert(cmd.subrange(0, cmd.len() as int) =~= cmd);
            assert(trimmed_chars(cmd) == cmd);
            if cmd.len() >= 5 {
                assert(cmd.subrange(0, 5)[0] == cmd[0]);
                assert(cmd.subrange(0, 5) != State::MaxVolume.prefix_chars());
            }
            assert(!has_prefix(cmd, State::MaxVolume.prefix_chars()));
            assert(cmd.subrange(0, 2)[0] == cmd[0]);
            assert(cmd.subrange(0, 2) != State::MainVolume.prefix_chars());
            assert(!has_prefix(cmd, State::MainVolume.prefix_chars()));
            assert(cmd.subrange(0, 2) != State::Power.prefix_chars());
            assert(!has_prefix(cmd, State::Power.prefix_chars()));
            assert(cmd.subrange(0, 2) =~= State::SourceInput.prefix_chars());
            assert(has_prefix(cmd, State::SourceInput.prefix_chars()));
            assert(cmd.skip(2) =~= w);
            lemma_trimmed_subrange(w, 0, w.len() as int);
            assert(w.subrange(0, w.len() as int) =~= w);
            assert(spec_value_part(cmd, 2) == w);
            match i {
                SourceInputState::Cd => {},
                SourceInputState::Tuner => {},
                SourceInputState::Dvd => {},
                SourceInputState::Bd => {},
                SourceInputState::Tv => {},
                SourceInputState::SatCbl => {},
                SourceInputState::Game => {},
                SourceInputState::Game2 => {},
                SourceInputState::VAux => {},
                SourceInputState::Dock => {},
                SourceInputState::Ipod => {},
                SourceInputState::NetUsb => {},
                SourceInputState::Unknown => {},
            }
        },
    }
}

/// Law: a source-input line whose name lies outside the closed set is
/// not an error to the forgiving decoder: it reads as the `Unknown`
/// input rather than failing.
pub proof fn lemma_unknown_input_falls_back(name: Seq<char>)
    requires
        name.len() > 0,
        !is_ws(name[0]),
        !is_ws(name[name.len() - 1]),
        forall|j: int|
            0 <= j < SourceInputState::spec_states().len()
                ==> #[trigger] SourceInputState::spec_states()[j].wire_chars() != name,
    ensures
        crate::parse_fallback::spec_parse_fallback(seq!['S', 'I'] + name) == Some(
            SetState::SourceInput(SourceInputState::Unknown),
        ),
{
    let cmd = seq!['S', 'I'] + name;
    assert(cmd[0] == 'S');
    assert(cmd[cmd.len() - 1] == name[name.len() - 1]);
    lemma_trimmed_subrange(cmd, 0, cmd.len() as int);
    assert(cmd.subrange(0, cmd.len() as int) =~= cmd);
    assert(trimmed_chars(cmd) == cmd);
    if cmd.len() >= 5 {
        assert(cmd.subrange(0, 5)[0] == cmd[0]);
        assert(cmd.subrange(0, 5) != State::MaxVolume.prefix_chars());
    }
    assert(!has_prefix(cmd, State::MaxVolume.prefix_chars()));
    assert(cmd.subrange(0, 2)[0] == cmd[0]);
    assert(cmd.subrange(0, 2) != State::MainVolume.prefix_chars());
    assert(!has_prefix(cmd, State::MainVolume.prefix_chars()));
    assert(cmd.subrange(0, 2) != State::Power.prefix_chars());
    assert(!has_prefix(cmd, State::Power.prefix_chars()));
    assert(cmd.subrange(0, 2) =~= State::SourceInput.prefix_chars());
    assert(has_prefix(cmd, State::SourceInput.prefix_chars()));
    assert(cmd.skip(2) =~= name);
    lemma_trimmed_subrange(name, 0, name.len() as int);
    assert(name.subrange(0, name.len() as int) =~= name);
    assert(spec_value_part(cmd, 2) == name);
    crate::parse_fallback::lemma_si_fallback_none(name);
}

/// Law: a line the codec cannot decode leaves the status table
/// exactly as it was — protocol noise neither changes an entry nor
/// closes the connection.
pub proof fn lemma_noise_is_dropped(t: StatusTable, line: Seq<char>)
    requires
        spec_parse(line) is None,
    ensures
        spec_process_line(t, line) == t,
{
}

/// Law: once the table is closed and no fresh value has arrived for a
/// waiting reader, that reader is answered `Closed` — it is never
/// left pending.
pub proof fn lemma_close_wakes_waiter(t: StatusTable, kind: State, since: u64)
    requires
        t.closed,
        t.spec_gen(kind) <= since,
    ensures
        t.spec_wait_outcome(kind, since) == WaitOutcome::Closed,
{
}

/// Law: if the receiver loop observes the lines `PWON`, `SICD`,
/// `MV230` and `MVMAX666` in sequence on a fresh table, every kind
/// holds its value at generation one, a reader that snapshotted
/// generation zero is answered that value for each kind, and the
/// connection is still open.
pub proof fn lemma_status_lines_sequence()
    ensures
        ({
            let t0 = StatusTable {
                power: None,
                source_input: None,
                main_volume: None,
                max_volume: None,
                closed: false,
            };
            let lines = seq![
                seq!['P', 'W', 'O', 'N'],
                seq!['S', 'I', 'C', 'D'],
                seq!['M', 'V', '2', '3', '0'],
                seq!['M', 'V', 'M', 'A', 'X', '6', '6', '6'],
            ];
            let t = table_after_lines(t0, lines);
            &&& t.spec_entry(State::Power) == Some(
                StatusEntry { value: SetState::Power(PowerState::On), generation: 1u64 },
            )
            &&& t.spec_entry(State::SourceInput) == Some(
                StatusEntry {
                    value: SetState::SourceInput(SourceInputState::Cd),
                    generation: 1u64,
                },
            )
            &&& t.spec_entry(State::MainVolume) == Some(
                StatusEntry { value: SetState::MainVolume(230), generation: 1u64 },
            )
            &&& t.spec_entry(State::MaxVolume) == Some(
                StatusEntry { value: SetState::MaxVolume(666), generation: 1u64 },
            )
            &&& t.spec_wait_outcome(State::Power, 0) == WaitOutcome::Ready(
                SetState::Power(PowerState::On),
            )
            &&& t.spec_wait_outcome(State::SourceInput, 0) == WaitOutcome::Ready(
                SetState::SourceInput(SourceInputState::Cd),
            )
            &&& t.spec_wait_outcome(State::MainVolume, 0) == WaitOutcome::Ready(
                SetState::MainVolume(230),
            )
            &&& t.spec_wait_outcome(State::MaxVolume, 0) == WaitOutcome::Ready(
                SetState::MaxVolume(666),
            )
            &&& !t.closed
        }),
{
    let t0 = StatusTable {
        power: None,
        source_input: None,
        main_volume: None,
        max_volume: None,
        closed: false,
    };
    let l1 = seq!['P', 'W', 'O', 'N'];
    let l2 = seq!['S', 'I', 'C', 'D'];
    let l3 = seq!['M', 'V', '2', '3', '0'];
    let l4 = seq!['M', 'V', 'M', 'A', 'X', '6', '6', '6'];
    let lines = seq![l1, l2, l3, l4];

    lemma_command_round_trip(SetState::Power(PowerState::On));
    assert(SetState::Power(PowerState::On).command_chars() =~= l1);
    lemma_command_round_trip(SetState::SourceInput(SourceInputState::Cd));
    assert(SetState::SourceInput(SourceInputState::Cd).command_chars() =~= l2);
    lemma_command_round_trip(SetState::MainVolume(230));
    assert(dec_chars(2) =~= seq!['2']);
    assert(dec_chars(23) =~= seq!['2', '3']);
    assert(dec_chars(230) =~= seq!['2', '3', '0']);
    assert(SetState::MainVolume(230).command_chars() =~= l3);
    lemma_command_round_trip(SetState::MaxVolume(666));
    assert(dec_chars(6) =~= seq!['6']);
    assert(dec_chars(66) =~= seq!['6', '6']);
    assert(dec_chars(666) =~= seq!['6', '6', '6']);
    assert(SetState::MaxVolume(666).command_chars() =~= l4);

    let s1 = seq![l1];
    let s2 = seq![l1, l2];
    let s3 = seq![l1, l2, l3];
    assert(lines.drop_last() =~= s3);
    assert(s3.drop_last() =~= s2);
    assert(s2.drop_last() =~= s1);
    assert(s1.drop_last() =~= Seq::<Seq<char>>::empty());

    let t1 = spec_process_line(t0, l1);
    let t2 = spec_process_line(t1, l2);
    let t3 = spec_process_line(t2, l3);
    let t4 = spec_process_line(t3, l4);
    assert(table_after_lines(t0, Seq::<Seq<char>>::empty()) == t0);
    assert(table_after_lines(t0, s1) == t1);
    assert(table_after_lines(t0, s2) == t2);
    assert(table_after_lines(t0, s3) == t3);
    assert(table_after_lines(t0, lines) == t4);

    assert(t1 == t0.spec_publish(SetState::Power(PowerState::On)));
    assert(t2 == t1.spec_publish(SetState::SourceInput(SourceInputState::Cd)));
    assert(t3 == t2.spec_publish(SetState::MainVolume(230)));
    assert(t4 == t3.spec_publish(SetState::MaxVolume(666)));
}

} // verus!
