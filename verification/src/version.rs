//! Comparing release tags ("v0.2.0") with the applet's own version.

use vstd::prelude::*;

use crate::text;
use crate::text::{one_of, pieces, texts};

verus! {

/// A tag without the "v" that it may start with.
pub open spec fn without_v(s: Seq<char>) -> Seq<char> {
    if s.len() > 0 && s.first() == 'v' {
        s.drop_first()
    } else {
        s
    }
}

/// The value of `so_far` followed by the digits that `s` starts with.
pub open spec fn digits_value(so_far: nat, s: Seq<char>) -> nat
    decreases s.len(),
{
    if s.len() > 0 && '0' <= s.first() <= '9' {
        digits_value(so_far * 10 + (s.first() as u32 - '0' as u32) as nat, s.drop_first())
    } else {
        so_far
    }
}

/// The number that a part of a version starts with (0 if with none), `u64::MAX` at most.
pub open spec fn part_value(s: Seq<char>) -> u64 {
    let n = digits_value(0, s);
    if n <= u64::MAX {
        n as u64
    } else {
        u64::MAX
    }
}

/// The numbers of a version, most significant first.
pub open spec fn version_parts(s: Seq<char>) -> Seq<u64> {
    pieces(without_v(s), one_of(seq!['.'])).map_values(|p: Seq<char>| part_value(p))
}

/// The number at `i`, where a number left out is 0.
pub open spec fn part_at(parts: Seq<u64>, i: int) -> u64 {
    if 0 <= i < parts.len() {
        parts[i]
    } else {
        0
    }
}

/// Whether version `a` is above version `b`: greater in the first number in which they differ.
pub open spec fn newer_parts(a: Seq<u64>, b: Seq<u64>) -> bool {
    exists|i: int|
        0 <= i && #[trigger] part_at(a, i) > part_at(b, i) && forall|j: int|
            0 <= j < i ==> #[trigger] part_at(a, j) == part_at(b, j)
}

/// Whether the release `tag` is above the version `current`.
pub open spec fn newer_version(tag: Seq<char>, current: Seq<char>) -> bool {
    newer_parts(version_parts(tag), version_parts(current))
}

proof fn lemma_digits_grow(so_far: nat, s: Seq<char>)
    ensures
        digits_value(so_far, s) >= so_far,
    decreases s.len(),
{
    if s.len() > 0 && '0' <= s.first() <= '9' {
        lemma_digits_grow(so_far * 10 + (s.first() as u32 - '0' as u32) as nat, s.drop_first());
    }
}

fn read_part(s: &str) -> (res: u64)
    ensures
        res == part_value(s@),
{
    let chars = text::chars_of(s);
    let mut value: u64 = 0;
    let mut i: usize = 0;
    assert(s@.skip(0) == s@);
    while i < chars.len()
        invariant
            i <= chars.len(),
            chars@ == s@,
            digits_value(0, s@) == digits_value(value as nat, s@.skip(i as int)),
        decreases chars.len() - i,
    {
        let c = chars[i];
        let ghost rest = s@.skip(i as int);
        assert(rest.first() == c);
        if !('0' <= c && c <= '9') {
            return value;
        }
        let d: u64 = (c as u32 - '0' as u32) as u64;
        proof {
            assert(rest.drop_first() == s@.skip(i + 1));
            lemma_digits_grow((value * 10 + d) as nat, s@.skip(i + 1));
        }
        if value > (u64::MAX - d) / 10 {
            return u64::MAX;
        }
        value = value * 10 + d;
        i += 1;
    }
    value
}

fn read_version(s: &str) -> (res: Vec<u64>)
    ensures
        res@ == version_parts(s@),
{
    let n = s.unicode_len();
    let bare = if n > 0 && s.get_char(0) == 'v' {
        assert(s@.subrange(1, n as int) == s@.drop_first());
        s.substring_char(1, n)
    } else {
        s
    };
    let parts = text::split(bare, &['.']);
    assert(['.']@ == seq!['.']);
    let mut res: Vec<u64> = Vec::new();
    let mut i: usize = 0;
    while i < parts.len()
        invariant
            i <= parts.len(),
            res.len() == i,
            forall|j: int| 0 <= j < i ==> #[trigger] res@[j] == part_value(parts@[j]@),
        decreases parts.len() - i,
    {
        res.push(read_part(parts[i].as_str()));
        i += 1;
    }
    assert(res@ =~= texts(parts@).map_values(|p: Seq<char>| part_value(p)));
    res
}

fn get_part(parts: &Vec<u64>, i: usize) -> (res: u64)
    ensures
        res == part_at(parts@, i as int),
{
    if i < parts.len() {
        parts[i]
    } else {
        0
    }
}

/// Whether the release `tag` is newer than the version `current`.
pub fn is_newer(tag: &str, current: &str) -> (yes: bool)
    ensures
        yes == newer_version(tag@, current@),
{
    let a = read_version(tag);
    let b = read_version(current);
    let n = if a.len() < b.len() {
        b.len()
    } else {
        a.len()
    };
    let mut i: usize = 0;
    while i < n
        invariant
            i <= n,
            n >= a.len(),
            n >= b.len(),
            forall|j: int| 0 <= j < i ==> #[trigger] part_at(a@, j) == part_at(b@, j),
            a@ == version_parts(tag@),
            b@ == version_parts(current@),
        decreases n - i,
    {
        let x = get_part(&a, i);
        let y = get_part(&b, i);
        if x > y {
            assert(part_at(a@, i as int) > part_at(b@, i as int));
            return true;
        }
        if x < y {
            proof {
                assert forall|k: int|
                    0 <= k && #[trigger] part_at(a@, k) > part_at(b@, k) implies !(forall|j: int|
                    0 <= j < k ==> #[trigger] part_at(a@, j) == part_at(b@, j)) by {
                    assert(part_at(a@, i as int) < part_at(b@, i as int));
                }
            }
            return false;
        }
        i += 1;
    }
    false
}

} // verus!
