//! Comparing release versions. The version string comes from outside (the
//! latest release's tag), so garbage must neither panic nor ever look newer.

use vstd::prelude::*;
use crate::text::{chars_of, split_on, split_char, views, all_digits, decimal_value, parse_u64, is_digit};

verus! {

/// The dotted numbers of a version (an optional leading `v`), each a run of
/// decimal digits that fits in 64 bits; `None` for anything else.
pub open spec fn version_parts(s: Seq<char>) -> Option<Seq<u64>> {
    let body = if s.len() > 0 && s[0] == 'v' {
        s.drop_first()
    } else {
        s
    };
    let pieces = split_char(body, '.');
    if all_numbers(pieces) {
        Some(pieces.map_values(|p: Seq<char>| decimal_value(p) as u64))
    } else {
        None
    }
}

/// Whether every piece is a run of decimal digits that fits in 64 bits.
pub open spec fn all_numbers(pieces: Seq<Seq<char>>) -> bool {
    forall|i: int|
        0 <= i < pieces.len() ==> (#[trigger] pieces[i]).len() > 0 && all_digits(pieces[i]) && decimal_value(
            pieces[i],
        ) <= u64::MAX
}

/// The number at position `i`, missing numbers counting as zero.
pub open spec fn part_at(v: Seq<u64>, i: int) -> u64 {
    if 0 <= i < v.len() {
        v[i]
    } else {
        0
    }
}

/// Whether `a` is a later version than `b`, from position `i` on: compared
/// number by number, missing numbers counting as zero (`1.7` equals `1.7.0`).
pub open spec fn later_from(a: Seq<u64>, b: Seq<u64>, i: nat) -> bool
    decreases (if a.len() > b.len() {
        a.len()
    } else {
        b.len()
    }) - i,
{
    if i >= a.len() && i >= b.len() {
        false
    } else if part_at(a, i as int) != part_at(b, i as int) {
        part_at(a, i as int) > part_at(b, i as int)
    } else {
        later_from(a, b, i + 1)
    }
}

/// Whether `candidate` is a newer version than `current`: both must be
/// versions, and the candidate's numbers must be larger.
pub open spec fn spec_is_newer(candidate: Seq<char>, current: Seq<char>) -> bool {
    match (version_parts(candidate), version_parts(current)) {
        (Some(a), Some(b)) => later_from(a, b, 0),
        _ => false,
    }
}

fn parts(s: &str) -> (r: Option<Vec<u64>>)
    ensures
        r matches Some(v) ==> version_parts(s@) == Some(v@),
        r is None ==> version_parts(s@) is None,
{
    let cs = chars_of(s);
    let start: usize = if cs.len() > 0 && cs[0] == 'v' {
        1
    } else {
        0
    };
    let mut body: Vec<char> = Vec::new();
    let mut k: usize = start;
    while k < cs.len()
        invariant
            start <= k <= cs@.len(),
            body@ == cs@.subrange(start as int, k as int),
        decreases cs@.len() - k,
    {
        body.push(cs[k]);
        k = k + 1;
        assert(body@ =~= cs@.subrange(start as int, k as int));
    }
    let ghost b = if s@.len() > 0 && s@[0] == 'v' {
        s@.drop_first()
    } else {
        s@
    };
    assert(body@ =~= b);
    let pieces = split_on(body.as_slice(), '.');
    let ghost ps = split_char(b, '.');
    let mut out: Vec<u64> = Vec::new();
    let mut i: usize = 0;
    while i < pieces.len()
        invariant
            i <= pieces@.len(),
            views(pieces@) == ps,
            ps == split_char(b, '.'),
            b == if s@.len() > 0 && s@[0] == 'v' {
                s@.drop_first()
            } else {
                s@
            },
            out@ == ps.take(i as int).map_values(|p: Seq<char>| decimal_value(p) as u64),
            forall|j: int|
                0 <= j < i ==> (#[trigger] ps[j]).len() > 0 && all_digits(ps[j]) && decimal_value(ps[j])
                    <= u64::MAX,
        decreases pieces@.len() - i,
    {
        let p = &pieces[i];
        assert(ps[i as int] == p@);
        let mut all: bool = p.len() > 0;
        let mut q: usize = 0;
        while q < p.len()
            invariant
                q <= p@.len(),
                all == (p@.len() > 0 && forall|t: int| 0 <= t < q ==> is_digit(#[trigger] p@[t])),
            decreases p@.len() - q,
        {
            if !('0' <= p[q] && p[q] <= '9') {
                all = false;
            }
            q = q + 1;
        }
        if !all {
            assert(!(ps[i as int].len() > 0 && all_digits(ps[i as int])));
            assert(version_parts(s@) is None);
            return None;
        }
        assert(all_digits(p@));
        match parse_u64(p.as_slice()) {
            Some(n) => {
                assert(p@[0] != '+');
                out.push(n);
            },
            None => {
                assert(p@[0] != '+');
                assert(decimal_value(p@) > u64::MAX);
                assert(!(ps[i as int].len() > 0 && all_digits(ps[i as int]) && decimal_value(ps[i as int]) <= u64::MAX));
                assert(version_parts(s@) is None);
                return None;
            },
        }
        i = i + 1;
        assert(out@ =~= ps.take(i as int).map_values(|p: Seq<char>| decimal_value(p) as u64));
    }
    assert(ps.take(ps.len() as int) =~= ps);
    Some(out)
}

/// Whether `candidate` is a newer version than `current` (see
/// [`spec_is_newer`]).
pub fn is_newer(candidate: &str, current: &str) -> (b: bool)
    ensures
        b == spec_is_newer(candidate@, current@),
{
    let a = match parts(candidate) {
        Some(v) => v,
        None => return false,
    };
    let c = match parts(current) {
        Some(v) => v,
        None => return false,
    };
    let n: usize = if a.len() > c.len() {
        a.len()
    } else {
        c.len()
    };
    let mut i: usize = 0;
    while i < n
        invariant
            i <= n,
            n == if a@.len() > c@.len() {
                a@.len()
            } else {
                c@.len()
            },
            spec_is_newer(candidate@, current@) == later_from(a@, c@, 0),
            later_from(a@, c@, 0) == later_from(a@, c@, i as nat),
        decreases n - i,
    {
        let x: u64 = if i < a.len() {
            a[i]
        } else {
            0
        };
        let y: u64 = if i < c.len() {
            c[i]
        } else {
            0
        };
        assert(part_at(a@, i as int) == x);
        assert(part_at(c@, i as int) == y);
        if x != y {
            return x > y;
        }
        i = i + 1;
    }
    false
}

/// A run without the separator is one piece.
proof fn lemma_split_whole(x: Seq<char>, sep: char)
    requires
        forall|i: int| 0 <= i < x.len() ==> x[i] != sep,
    ensures
        split_char(x, sep) == seq![x],
    decreases x.len(),
{
    if x.len() > 0 {
        let d = x.drop_last();
        assert forall|i: int| 0 <= i < d.len() implies d[i] != sep by {
            assert(d[i] == x[i]);
        }
        lemma_split_whole(d, sep);
        assert(x.last() == x[x.len() - 1]);
        assert(x.last() != sep);
        assert(d.push(x.last()) =~= x);
        assert(seq![d].update(0, d.push(x.last())) =~= seq![x]);
        assert(split_char(x, sep) == seq![d].update(0, d.push(x.last())));
    } else {
        assert(x =~= Seq::<char>::empty());
        assert(seq![Seq::<char>::empty()] =~= seq![x]);
    }
}

/// Splitting at a separator splits the pieces before and after it.
proof fn lemma_split_at_sep(a: Seq<char>, sep: char, r: Seq<char>)
    ensures
        split_char(a.push(sep) + r, sep) == split_char(a, sep) + split_char(r, sep),
    decreases r.len(),
{
    let s = a.push(sep) + r;
    if r.len() == 0 {
        assert(s =~= a.push(sep));
        assert(s.drop_last() =~= a);
        assert(split_char(s, sep) =~= split_char(a, sep) + seq![Seq::<char>::empty()]);
    } else {
        lemma_split_at_sep(a, sep, r.drop_last());
        assert(s.drop_last() =~= a.push(sep) + r.drop_last());
        assert(s.last() == r.last());
        let x = split_char(a, sep);
        let y = split_char(r.drop_last(), sep);
        crate::text::lemma_split_char_nonempty(r.drop_last(), sep);
        if r.last() == sep {
            assert((x + y).push(Seq::<char>::empty()) =~= x + y.push(Seq::<char>::empty()));
        } else {
            assert((x + y).update((x + y).len() - 1, (x + y).last().push(r.last())) =~= x + y.update(
                y.len() - 1,
                y.last().push(r.last()),
            ));
        }
    }
}

/// A version `x.rest` whose first number is the run of digits `x`: its
/// numbers are `x`'s value followed by the numbers of `rest`, one per dotted
/// piece.
pub proof fn law_version_numbers_in_order(x: Seq<char>, rest: Seq<char>)
    requires
        x.len() > 0,
        all_digits(x),
        decimal_value(x) <= u64::MAX,
        all_numbers(split_char(rest, '.')),
    ensures
        version_parts(x + seq!['.'] + rest) matches Some(v) && v.len() == 1 + split_char(rest, '.').len() && v[0]
            == decimal_value(x),
{
    let s = x + seq!['.'] + rest;
    assert(x[0] != 'v');
    assert(s[0] == x[0]);
    assert(x + seq!['.'] + rest =~= x.push('.') + rest);
    lemma_split_at_sep(x, '.', rest);
    lemma_split_whole(x, '.');
    let pieces = split_char(s, '.');
    assert(pieces =~= seq![x] + split_char(rest, '.'));
    crate::text::lemma_decimal_value_nonneg(x);
    assert(all_numbers(pieces)) by {
        assert forall|i: int| 0 <= i < pieces.len() implies (#[trigger] pieces[i]).len() > 0 && all_digits(pieces[i])
            && decimal_value(pieces[i]) <= u64::MAX by {
            if i > 0 {
                assert(pieces[i] == split_char(rest, '.')[i - 1]);
            }
        }
    }
    let v = pieces.map_values(|p: Seq<char>| decimal_value(p) as u64);
    assert(version_parts(s) == Some(v));
    assert(v[0] == decimal_value(pieces[0]) as u64);
    assert(pieces[0] == x);
}

/// Versions compare from their first number: of two versions `x.rest1` and
/// `y.rest2`, the one whose first number is larger is the newer one,
/// whatever follows.
pub proof fn law_larger_first_number_is_newer(x: Seq<char>, rest1: Seq<char>, y: Seq<char>, rest2: Seq<char>)
    requires
        x.len() > 0,
        all_digits(x),
        decimal_value(x) <= u64::MAX,
        all_numbers(split_char(rest1, '.')),
        y.len() > 0,
        all_digits(y),
        all_numbers(split_char(rest2, '.')),
        decimal_value(y) < decimal_value(x),
    ensures
        spec_is_newer(x + seq!['.'] + rest1, y + seq!['.'] + rest2),
        !spec_is_newer(y + seq!['.'] + rest2, x + seq!['.'] + rest1),
{
    law_version_numbers_in_order(x, rest1);
    law_version_numbers_in_order(y, rest2);
    crate::text::lemma_decimal_value_nonneg(y);
    let a = version_parts(x + seq!['.'] + rest1)->0;
    let b = version_parts(y + seq!['.'] + rest2)->0;
    assert(part_at(a, 0) > part_at(b, 0));
    lemma_later_asymmetric(a, b, 0);
}

/// Nothing is newer than itself, of two versions at most one is newer than
/// the other, and garbage is never newer (nor older) than anything.
pub proof fn law_not_newer_than_itself(v: Seq<char>, w: Seq<char>)
    ensures
        !spec_is_newer(v, v),
        spec_is_newer(v, w) ==> !spec_is_newer(w, v),
        version_parts(v) is None ==> !spec_is_newer(v, w) && !spec_is_newer(w, v),
{
    if let Some(a) = version_parts(v) {
        lemma_not_later_self(a, 0);
        if let Some(b) = version_parts(w) {
            lemma_later_asymmetric(a, b, 0);
        }
    }
}

proof fn lemma_later_asymmetric(a: Seq<u64>, b: Seq<u64>, i: nat)
    ensures
        later_from(a, b, i) ==> !later_from(b, a, i),
    decreases (if a.len() > b.len() {
        a.len()
    } else {
        b.len()
    }) - i,
{
    if !(i >= a.len() && i >= b.len()) && part_at(a, i as int) == part_at(b, i as int) {
        lemma_later_asymmetric(a, b, i + 1);
    }
}

proof fn lemma_not_later_self(a: Seq<u64>, i: nat)
    ensures
        !later_from(a, a, i),
    decreases a.len() - i,
{
    if i < a.len() {
        lemma_not_later_self(a, i + 1);
    }
}

} // verus!
