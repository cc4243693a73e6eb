//! Character-level helpers for working with string slices.

use vstd::prelude::*;

verus! {

/// Compares two string slices character by character.
pub fn str_eq(a: &str, b: &str) -> (r: bool)
    ensures
        r <==> a@ == b@,
{
    let la = a.unicode_len();
    let lb = b.unicode_len();
    if la != lb {
        proof {
            assert(a@ != b@) by {
                assert(a@.len() != b@.len());
            }
        }
        return false;
    }
    let mut i: usize = 0;
    while i < la
        invariant
            la == a@.len(),
            la == b@.len(),
            i <= la,
            forall|j: int| 0 <= j < i ==> a@[j] == b@[j],
        decreases la - i,
    {
        if a.get_char(i) != b.get_char(i) {
            return false;
        }
        i += 1;
    }
    proof {
        assert(a@ =~= b@);
    }
    true
}

/// Compares the characters of `s` between `from` and `to` with `t`.
pub fn str_range_eq(s: &str, from: usize, to: usize, t: &str) -> (r: bool)
    requires
        from <= to <= s@.len(),
    ensures
        r <==> s@.subrange(from as int, to as int) == t@,
{
    let lt = t.unicode_len();
    if to - from != lt {
        proof {
            assert(s@.subrange(from as int, to as int).len() == to - from);
        }
        return false;
    }
    let mut i: usize = 0;
    while i < lt
        invariant
            from <= to <= s@.len(),
            lt == t@.len(),
            to - from == lt,
            i <= lt,
            forall|j: int| 0 <= j < i ==> s@.subrange(from as int, to as int)[j] == t@[j],
        decreases lt - i,
    {
        if s.get_char(from + i) != t.get_char(i) {
            proof {
                assert(s@.subrange(from as int, to as int)[i as int] == s@[from + i]);
            }
            return false;
        }
        i += 1;
    }
    proof {
        assert(s@.subrange(from as int, to as int) =~= t@);
    }
    true
}

/// Whether `s` starts with `t` at character position `from`.
pub fn str_has_prefix_at(s: &str, from: usize, to: usize, t: &str) -> (r: bool)
    requires
        from <= to <= s@.len(),
    ensures
        r <==> (to - from >= t@.len() && s@.subrange(
            from as int,
            from + t@.len() as int,
        ) == t@),
{
    let lt = t.unicode_len();
    if to - from < lt {
        return false;
    }
    str_range_eq(s, from, from + lt, t)
}

/// The characters of a protocol line as wire bytes; protocol lines
/// are ASCII, one byte per character.
pub open spec fn ascii_bytes_of(cs: Seq<char>) -> Seq<u8> {
    Seq::new(cs.len(), |i: int| ((cs[i] as int) % 256) as u8)
}

/// Executable rendering of `ascii_bytes_of`.
pub fn string_ascii_bytes(s: &str) -> (v: Vec<u8>)
    ensures
        v@ == ascii_bytes_of(s@),
{
    let len = s.unicode_len();
    let mut v: Vec<u8> = Vec::new();
    let mut i: usize = 0;
    while i < len
        invariant
            len == s@.len(),
            i <= len,
            v@ == ascii_bytes_of(s@).take(i as int),
        decreases len - i,
    {
        let c = s.get_char(i);
        let code = c as u32;
        let b: u8 = (code % 256) as u8;
        v.push(b);
        proof {
            assert(v@ =~= ascii_bytes_of(s@).take(i + 1));
        }
        i += 1;
    }
    proof {
        assert(v@ =~= ascii_bytes_of(s@));
    }
    v
}

/// The index of the first occurrence of `c` in `s`, or the length of
/// `s` when `c` does not occur.
pub open spec fn first_pos(s: Seq<char>, c: char) -> nat
    decreases s.len(),
{
    if s.len() == 0 {
        0
    } else if s[0] == c {
        0
    } else {
        (1 + first_pos(s.skip(1), c)) as nat
    }
}

/// Any index with the first-occurrence properties is `first_pos`.
pub proof fn lemma_first_pos_unique(s: Seq<char>, c: char, m: int)
    requires
        0 <= m <= s.len(),
        forall|k: int| 0 <= k < m ==> s[k] != c,
        m < s.len() ==> s[m] == c,
    ensures
        first_pos(s, c) == m,
    decreases s.len(),
{
    if s.len() == 0 {
    } else if s[0] == c {
        assert(m == 0);
    } else {
        assert(m >= 1);
        lemma_first_pos_unique(s.skip(1), c, m - 1);
    }
}

/// The position of the first `c` in `s` between `from` and `to`, or
/// `to` when there is none.
pub fn find_char(s: &str, from: usize, to: usize, c: char) -> (r: usize)
    requires
        from <= to <= s@.len(),
    ensures
        from <= r <= to,
        r - from == first_pos(s@.subrange(from as int, to as int), c),
        forall|k: int| from <= k < r ==> s@[k] != c,
        r < to ==> s@[r as int] == c,
{
    let mut i = from;
    while i < to
        invariant
            from <= i <= to <= s@.len(),
            forall|k: int| from <= k < i ==> s@[k] != c,
        decreases to - i,
    {
        if s.get_char(i) == c {
            proof {
                let u = s@.subrange(from as int, to as int);
                assert forall|k: int| 0 <= k < i - from implies u[k] != c by {
                    assert(u[k] == s@[k + from]);
                }
                assert(u[i - from] == c);
                lemma_first_pos_unique(u, c, i - from);
            }
            return i;
        }
        i += 1;
    }
    proof {
        let u = s@.subrange(from as int, to as int);
        assert forall|k: int| 0 <= k < to - from implies u[k] != c by {
            assert(u[k] == s@[k + from]);
        }
        lemma_first_pos_unique(u, c, to - from);
    }
    i
}

} // verus!
