//! Reading the output of a multicast-DNS browse.
//!
//! The browse tool reports one service per line; a resolved entry
//! starts with `=` and carries semicolon-separated fields, the
//! seventh of which is the hostname. This module picks the hostnames
//! of receiver entries out of such output; running the tool and
//! logging stay with the application.

use crate::strutil;
use vstd::prelude::*;
use vstd::string::StringExecFns;

verus! {

/// The field separator of the browse output.
pub open spec fn field_sep() -> char {
    ';'
}

/// The `n`th semicolon-separated field of `s`, if `s` has that many
/// fields.
pub open spec fn nth_field(s: Seq<char>, n: nat) -> Option<Seq<char>>
    decreases n,
{
    let p = strutil::first_pos(s, field_sep());
    if n == 0 {
        Some(s.take(p as int))
    } else if p >= s.len() {
        None
    } else {
        nth_field(s.skip(p as int + 1), (n - 1) as nat)
    }
}

/// The marker of the receivers looked for.
pub open spec fn denon_marker() -> Seq<char> {
    seq!['D', 'E', 'N', 'O', 'N']
}

/// Whether the marker occurs anywhere in `line`.
pub open spec fn contains_denon(line: Seq<char>) -> bool {
    exists|k: int|
        0 <= k && k + 5 <= line.len() && #[trigger] line.subrange(k, k + 5) == denon_marker()
}

/// The hostname a browse line reports: present when the line is a
/// resolved entry (`=`), mentions the marker, and has a seventh
/// field.
pub open spec fn spec_browse_line_name(line: Seq<char>) -> Option<Seq<char>> {
    if line.len() > 0 && line[0] == '=' && contains_denon(line) {
        nth_field(line, 6)
    } else {
        None
    }
}

/// A line without its single trailing carriage return, if any.
pub open spec fn strip_cr(line: Seq<char>) -> Seq<char> {
    if line.len() > 0 && line.last() == '\r' {
        line.drop_last()
    } else {
        line
    }
}

/// The receiver hostnames the whole browse output reports, in order
/// of appearance.
pub open spec fn spec_browse_names(s: Seq<char>) -> Seq<Seq<char>>
    decreases s.len(),
{
    if s.len() == 0 {
        Seq::<Seq<char>>::empty()
    } else {
        let p = strutil::first_pos(s, '\n');
        let line = strip_cr(s.take(p as int));
        let rest = if p + 1 >= s.len() {
            Seq::<char>::empty()
        } else {
            s.skip(p as int + 1)
        };
        let tail = spec_browse_names(rest);
        match spec_browse_line_name(line) {
            Some(n) => seq![n] + tail,
            None => tail,
        }
    }
}

/// Executable search for the marker.
fn contains_denon_exec(line: &str, len: usize) -> (r: bool)
    requires
        len == line@.len(),
    ensures
        r == contains_denon(line@),
{
    if len < 5 {
        return false;
    }
    let mut k: usize = 0;
    while k <= len - 5
        invariant
            5 <= len == line@.len(),
            k <= len - 5 + 1,
            forall|j: int| 0 <= j < k ==> #[trigger] line@.subrange(j, j + 5) != denon_marker(),
        decreases len - k,
    {
        let marker = "DENON";
        proof {
            reveal_strlit("DENON");
            assert(marker@ =~= denon_marker());
        }
        if strutil::str_range_eq(line, k, k + 5, marker) {
            return true;
        }
        k += 1;
    }
    false
}

/// The hostname one browse line reports, if it is a resolved
/// receiver entry with enough fields.
pub fn browse_line_name(line: &str) -> (r: Option<String>)
    ensures
        (r is None) == (spec_browse_line_name(line@) is None),
        r matches Some(s) ==> spec_browse_line_name(line@) == Some(s@),
{
    let len = line.unicode_len();
    if len == 0 {
        return None;
    }
    if line.get_char(0) != '=' {
        return None;
    }
    if !contains_denon_exec(line, len) {
        return None;
    }
    let mut start: usize = 0;
    let mut i: usize = 0;
    proof {
        assert(line@.skip(0) =~= line@);
    }
    while i < 6
        invariant
            i <= 6,
            start <= len,
            len == line@.len(),
            nth_field(line@, 6) == nth_field(line@.skip(start as int), (6 - i) as nat),
            line@.len() > 0 && line@[0] == '=' && contains_denon(line@),
        decreases 6 - i,
    {
        let p = strutil::find_char(line, start, len, ';');
        proof {
            assert(line@.subrange(start as int, len as int) =~= line@.skip(start as int));
        }
        if p == len {
            proof {
                let u = line@.skip(start as int);
                assert(strutil::first_pos(u, ';') >= u.len());
                assert(nth_field(u, (6 - i) as nat) is None);
            }
            return None;
        }
        proof {
            let u = line@.skip(start as int);
            assert(strutil::first_pos(u, ';') == p - start);
            assert(u.skip(p - start + 1) =~= line@.skip(p as int + 1));
            assert(nth_field(u, (6 - i) as nat) == nth_field(
                line@.skip(p as int + 1),
                (6 - i - 1) as nat,
            ));
        }
        start = p + 1;
        i += 1;
    }
    let q = strutil::find_char(line, start, len, ';');
    proof {
        let u = line@.skip(start as int);
        assert(line@.subrange(start as int, len as int) =~= u);
        assert(strutil::first_pos(u, ';') == q - start);
        assert(u.take(q - start) =~= line@.subrange(start as int, q as int));
    }
    let field = line.substring_char(start, q);
    Some(String::from_str(field))
}

/// All receiver hostnames in the browse output, in order.
pub fn denon_names(output: &str) -> (r: Vec<String>)
    ensures
        r@.map_values(|s: String| s@) == spec_browse_names(output@),
{
    let len = output.unicode_len();
    let mut names: Vec<String> = Vec::new();
    let mut i: usize = 0;
    proof {
        assert(names@.map_values(|s: String| s@) =~= Seq::<Seq<char>>::empty());
        assert(output@.skip(0) =~= output@);
        assert(Seq::<Seq<char>>::empty() + spec_browse_names(output@) =~= spec_browse_names(
            output@,
        ));
    }
    while i < len
        invariant
            i <= len,
            len == output@.len(),
            spec_browse_names(output@) == names@.map_values(|s: String| s@)
                + spec_browse_names(output@.skip(i as int)),
        decreases len - i,
    {
        let ghost u = output@.skip(i as int);
        let ghost before = names@.map_values(|s: String| s@);
        let p = strutil::find_char(output, i, len, '\n');
        proof {
            assert(output@.subrange(i as int, len as int) =~= u);
            assert(strutil::first_pos(u, '\n') == p - i);
        }
        let line_end: usize = if p > i && output.get_char(p - 1) == '\r' {
            p - 1
        } else {
            p
        };
        let line = output.substring_char(i, line_end);
        proof {
            let raw = u.take(p - i);
            assert(raw =~= output@.subrange(i as int, p as int));
            if p > i && output@[p - 1] == '\r' {
                assert(raw.len() > 0 && raw.last() == '\r');
                assert(strip_cr(raw) =~= output@.subrange(i as int, p as int - 1));
            } else {
                if raw.len() > 0 {
                    assert(raw.last() == output@[p - 1]);
                }
                assert(strip_cr(raw) =~= raw);
            }
            assert(line@ == strip_cr(raw));
        }
        match browse_line_name(line) {
            Some(name) => {
                let ghost namev = name@;
                names.push(name);
                proof {
                    assert(names@.map_values(|s: String| s@) =~= before.push(namev));
                }
            },
            None => {},
        }
        let next: usize = if p == len || p + 1 == len {
            len
        } else {
            p + 1
        };
        proof {
            let rest = if p - i + 1 >= u.len() {
                Seq::<char>::empty()
            } else {
                u.skip(p - i + 1)
            };
            assert(rest =~= output@.skip(next as int));
            assert(names@.map_values(|s: String| s@) + spec_browse_names(output@.skip(
                next as int,
            )) =~= spec_browse_names(output@));
        }
        i = next;
    }
    proof {
        assert(output@.skip(len as int) =~= Seq::<char>::empty());
        assert(names@.map_values(|s: String| s@) =~= spec_browse_names(output@));
    }
    names
}

/// The receiver to use: the first one the browse output names.
///
/// An output naming none is exactly the `NoHostsFound` case.
pub fn pick_receiver(output: &str) -> (r: Result<String, crate::avahi_error::Error>)
    ensures
        match r {
            Ok(name) => spec_browse_names(output@).len() > 0 && name@ == spec_browse_names(
                output@,
            )[0],
            Err(e) => spec_browse_names(output@).len() == 0 && (e matches
            crate::avahi_error::Error::NoHostsFound),
        },
{
    let names = denon_names(output);
    if names.len() == 0 {
        proof {
            assert(names@.map_values(|s: String| s@).len() == 0);
        }
        Err(crate::avahi_error::Error::NoHostsFound)
    } else {
        let name = names[0].clone();
        proof {
            assert(names@.map_values(|s: String| s@)[0] == names@[0]@);
        }
        Ok(name)
    }
}

} // verus!
