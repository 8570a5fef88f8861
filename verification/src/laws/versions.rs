//! How release tags are read and compared.

use vstd::prelude::*;

use crate::laws::addresses::{lemma_one_piece, lemma_pieces_around};
use crate::text::{joined, one_of, pieces};
use crate::version::{
    digits_value, newer_parts, newer_version, part_at, part_value, version_parts,
};

verus! {

/// A digit.
pub open spec fn digit(d: nat) -> char {
    ('0' as u32 + d) as char
}

/// A number in decimal digits.
pub open spec fn decimal(n: nat) -> Seq<char>
    decreases n,
{
    if n < 10 {
        seq![digit(n)]
    } else {
        decimal(n / 10).push(digit(n % 10))
    }
}

/// Whether a text is made of digits alone.
pub open spec fn all_digits(s: Seq<char>) -> bool {
    forall|i: int| 0 <= i < s.len() ==> '0' <= #[trigger] s[i] <= '9'
}

proof fn lemma_decimal_is_digits(n: nat)
    ensures
        decimal(n).len() > 0,
        all_digits(decimal(n)),
    decreases n,
{
    if n >= 10 {
        lemma_decimal_is_digits(n / 10);
    }
}

proof fn lemma_one_more_digit(so_far: nat, s: Seq<char>, d: nat)
    requires
        all_digits(s),
        d < 10,
    ensures
        digits_value(so_far, s.push(digit(d))) == digits_value(so_far, s) * 10 + d,
    decreases s.len(),
{
    let t = s.push(digit(d));
    if s.len() == 0 {
        assert(t.first() == digit(d));
        assert(t.drop_first().len() == 0);
        assert(digits_value(so_far * 10 + d, t.drop_first()) == so_far * 10 + d);
    } else {
        let next = so_far * 10 + (s.first() as u32 - '0' as u32) as nat;
        assert(s[0] == s.first());
        let rest = s.drop_first();
        assert forall|i: int| 0 <= i < rest.len() implies '0' <= #[trigger] rest[i] <= '9' by {
            assert(rest[i] == s[i + 1]);
        }
        lemma_one_more_digit(next, rest, d);
        assert(t.drop_first() =~= rest.push(digit(d)));
    }
}

proof fn lemma_decimal_value(n: nat)
    ensures
        digits_value(0, decimal(n)) == n,
    decreases n,
{
    if n < 10 {
        let s = decimal(n);
        assert(s.first() == digit(n));
        assert(s.drop_first().len() == 0);
        assert(digits_value(n, s.drop_first()) == n);
    } else {
        lemma_decimal_value(n / 10);
        lemma_decimal_is_digits(n / 10);
        lemma_one_more_digit(0, decimal(n / 10), n % 10);
    }
}

proof fn lemma_digits_end(so_far: nat, s: Seq<char>, rest: Seq<char>)
    requires
        all_digits(s),
        rest.len() > 0 ==> !('0' <= rest[0] <= '9'),
    ensures
        digits_value(so_far, s + rest) == digits_value(so_far, s),
    decreases s.len(),
{
    let t = s + rest;
    if s.len() == 0 {
        assert(t =~= rest);
    } else {
        let tail = s.drop_first();
        assert(s[0] == s.first());
        assert forall|i: int| 0 <= i < tail.len() implies '0' <= #[trigger] tail[i] <= '9' by {
            assert(tail[i] == s[i + 1]);
        }
        lemma_digits_end(so_far * 10 + (s.first() as u32 - '0' as u32) as nat, tail, rest);
        assert(t.drop_first() =~= tail + rest);
        assert(t.first() == s.first());
    }
}

/// A part of a version is the number that it starts with, whatever follows.
pub proof fn law_part_is_its_number(n: u64, rest: Seq<char>)
    requires
        rest.len() > 0 ==> !('0' <= rest[0] <= '9'),
    ensures
        part_value(decimal(n as nat) + rest) == n,
{
    lemma_decimal_is_digits(n as nat);
    lemma_decimal_value(n as nat);
    lemma_digits_end(0, decimal(n as nat), rest);
}

/// A version as it is written.
pub open spec fn written(numbers: Seq<u64>) -> Seq<char> {
    joined(numbers.map_values(|n: u64| decimal(n as nat)), "."@)
}

proof fn lemma_written_pieces(numbers: Seq<u64>)
    requires
        numbers.len() > 0,
    ensures
        pieces(written(numbers), one_of(seq!['.'])) == numbers.map_values(
            |n: u64| decimal(n as nat),
        ),
        written(numbers).len() > 0,
        '0' <= written(numbers)[0] <= '9',
    decreases numbers.len(),
{
    reveal_strlit(".");
    let sep = one_of(seq!['.']);
    assert(seq!['.'][0] == '.');
    assert("."@ =~= seq!['.']);
    let list = numbers.map_values(|n: u64| decimal(n as nat));
    let x = list.last();
    lemma_decimal_is_digits(numbers.last() as nat);
    assert(x == decimal(numbers.last() as nat));
    assert forall|i: int| 0 <= i < x.len() implies !sep(#[trigger] x[i]) by {
        assert('0' <= x[i] <= '9');
    }
    lemma_one_piece(x, sep);
    if numbers.len() == 1 {
        assert(written(numbers) == x);
        assert(list =~= seq![x]);
        assert('0' <= x[0] <= '9');
    } else {
        let front = numbers.drop_last();
        lemma_written_pieces(front);
        let before = front.map_values(|n: u64| decimal(n as nat));
        assert(list.drop_last() =~= before);
        lemma_pieces_around(written(front), '.', x, sep);
        assert(written(numbers) =~= written(front) + seq!['.'] + x);
        assert(list =~= before + seq![x]);
    }
}

/// A version reads back as its numbers, with or without a "v" before it.
pub proof fn law_version_reads_back(numbers: Seq<u64>)
    requires
        numbers.len() > 0,
    ensures
        version_parts(written(numbers)) == numbers,
        version_parts("v"@ + written(numbers)) == numbers,
{
    reveal_strlit("v");
    lemma_written_pieces(numbers);
    let list = numbers.map_values(|n: u64| decimal(n as nat));
    let s = written(numbers);
    assert(("v"@ + s).drop_first() =~= s);
    assert forall|i: int| 0 <= i < numbers.len() implies part_value(#[trigger] list[i])
        == numbers[i] by {
        law_part_is_its_number(numbers[i], Seq::empty());
        assert(decimal(numbers[i] as nat) + Seq::<char>::empty() =~= list[i]);
    }
    assert(list.map_values(|p: Seq<char>| part_value(p)) =~= numbers);
}

/// A release is newer if its number is greater at some place before which the numbers agree, and
/// then it is not older; the same numbers, or zeros behind them, make it no newer.
pub proof fn law_greater_number_is_newer(a: Seq<u64>, b: Seq<u64>, i: int, zeros: Seq<u64>)
    requires
        0 <= i < a.len(),
        i < b.len(),
        a.take(i) == b.take(i),
        a[i] > b[i],
        forall|k: int| 0 <= k < zeros.len() ==> #[trigger] zeros[k] == 0,
    ensures
        newer_version("v"@ + written(a), written(b)),
        newer_version(written(a), written(b)),
        !newer_version("v"@ + written(b), written(a)),
        !newer_version("v"@ + written(a), written(a)),
        !newer_version(written(a + zeros), written(a)),
        !newer_version(written(a), written(a + zeros)),
{
    law_version_reads_back(a);
    law_version_reads_back(b);
    law_version_reads_back(a + zeros);
    assert(part_at(a, i) > part_at(b, i));
    assert forall|j: int| 0 <= j < i implies #[trigger] part_at(a, j) == part_at(b, j) by {
        assert(a.take(i)[j] == a[j] && b.take(i)[j] == b[j]);
    }
    assert(newer_parts(a, b));
    assert forall|j: int| #[trigger] part_at(a + zeros, j) == part_at(a, j) by {
        if a.len() <= j < a.len() + zeros.len() {
            assert((a + zeros)[j] == zeros[j - a.len()]);
        }
    }
    if newer_parts(b, a) {
        let k = choose|k: int|
            0 <= k && #[trigger] part_at(b, k) > part_at(a, k) && forall|j: int|
                0 <= j < k ==> #[trigger] part_at(b, j) == part_at(a, j);
        if k > i {
            assert(part_at(b, i) == part_at(a, i));
        } else if k < i {
            assert(part_at(a, k) == part_at(b, k));
        }
    }
}

/// A number left out counts as zero.
pub proof fn law_longer_version_is_newer(a: Seq<u64>, b: Seq<u64>, i: int)
    requires
        b.len() > 0,
        b.len() <= i < a.len(),
        a.take(b.len() as int) == b,
        forall|k: int| b.len() <= k < i ==> #[trigger] a[k] == 0,
        a[i] > 0,
    ensures
        newer_version(written(a), written(b)),
        !newer_version(written(b), written(a)),
{
    law_version_reads_back(a);
    law_version_reads_back(b);
    assert forall|j: int| 0 <= j < i implies #[trigger] part_at(a, j) == part_at(b, j) by {
        if j < b.len() {
            assert(a.take(b.len() as int)[j] == b[j]);
        } else {
            assert(a[j] == 0);
        }
    }
    assert(part_at(a, i) > part_at(b, i));
    assert(newer_parts(a, b));
    if newer_parts(b, a) {
        let k = choose|k: int|
            0 <= k && #[trigger] part_at(b, k) > part_at(a, k) && forall|j: int|
                0 <= j < k ==> #[trigger] part_at(b, j) == part_at(a, j);
        if k < i {
            assert(part_at(a, k) == part_at(b, k));
        } else if k > i {
            assert(part_at(b, i) == part_at(a, i));
        }
    }
}

} // verus!
