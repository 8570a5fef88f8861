//! Splitting, trimming, joining and unescaping text, each by how it treats the parts of a text.

use vstd::prelude::*;

use crate::laws::addresses::{
    lemma_items_around, lemma_non_empty_add, lemma_non_empty_one, lemma_one_piece,
    lemma_pieces_around, lemma_pieces_hold_no_separator,
};
use crate::text::{
    blank, items, joined, lines, non_empty, one_of, pieces, strip_return, trim_end, trim_start,
    trimmed, unescaped, white, words,
};

verus! {

/// One text joins to itself, and two lists join to what they join to with the separator in
/// between.
pub proof fn law_joining_goes_part_by_part(
    x: Seq<char>,
    a: Seq<Seq<char>>,
    b: Seq<Seq<char>>,
    sep: Seq<char>,
)
    ensures
        joined(Seq::<Seq<char>>::empty(), sep) == Seq::<char>::empty(),
        joined(seq![x], sep) == x,
        a.len() > 0 && b.len() > 0 ==> joined(a + b, sep) == joined(a, sep) + sep + joined(b, sep),
    decreases b.len(),
{
    if a.len() > 0 && b.len() > 0 {
        let all = a + b;
        assert(all.last() == b.last());
        if b.len() == 1 {
            assert(all.drop_last() =~= a);
        } else {
            law_joining_goes_part_by_part(x, a, b.drop_last(), sep);
            assert(all.drop_last() =~= a + b.drop_last());
            assert(joined(all, sep) =~= joined(a, sep) + sep + joined(b, sep));
        }
    }
}

proof fn lemma_joined_longer_last(list: Seq<Seq<char>>, c: char, sep: Seq<char>)
    requires
        list.len() > 0,
    ensures
        joined(list.drop_last().push(list.last().push(c)), sep) == joined(list, sep).push(c),
{
    let longer = list.drop_last().push(list.last().push(c));
    assert(longer.drop_last() =~= list.drop_last());
    if list.len() > 1 {
        assert(joined(longer, sep) =~= joined(list, sep).push(c));
    }
}

/// The pieces of a text are what stands between its separators: none holds one, and joined by
/// the separator they are the text.
pub proof fn law_pieces_join_back(s: Seq<char>, c: char)
    ensures
        joined(pieces(s, one_of(seq![c])), seq![c]) == s,
        pieces(s, one_of(seq![c])).len() > 0,
        forall|i: int|
            0 <= i < pieces(s, one_of(seq![c])).len() ==> !(
            #[trigger] pieces(s, one_of(seq![c]))[i]).contains(c),
    decreases s.len(),
{
    let sep = one_of(seq![c]);
    let all = pieces(s, sep);
    lemma_pieces_hold_no_separator(s, sep);
    assert(seq![c].contains(c)) by {
        assert(seq![c][0] == c);
    }
    assert forall|i: int| 0 <= i < all.len() implies !(#[trigger] all[i]).contains(c) by {
        if all[i].contains(c) {
            let k = choose|k: int| 0 <= k < all[i].len() && all[i][k] == c;
            assert(!sep(all[i][k]));
        }
    }
    if s.len() > 0 {
        let before = pieces(s.drop_last(), sep);
        law_pieces_join_back(s.drop_last(), c);
        if sep(s.last()) {
            assert(s.last() == c);
            assert(all.drop_last() =~= before);
            assert(joined(all, seq![c]) =~= s);
        } else {
            lemma_joined_longer_last(before, s.last(), seq![c]);
            assert(joined(all, seq![c]) =~= s);
        }
    } else {
        assert(joined(all, seq![c]) =~= s);
    }
}

proof fn lemma_trim_start_is_a_rest(s: Seq<char>)
    ensures
        trim_start(s).len() <= s.len(),
        trim_start(s) == s.skip(s.len() - trim_start(s).len()),
        forall|k: int| 0 <= k < s.len() - trim_start(s).len() ==> white(#[trigger] s[k]),
    decreases s.len(),
{
    if s.len() > 0 && white(s.first()) {
        let rest = s.drop_first();
        lemma_trim_start_is_a_rest(rest);
        assert forall|k: int| 0 <= k < s.len() - trim_start(s).len() implies white(
            #[trigger] s[k],
        ) by {
            if k > 0 {
                assert(rest[k - 1] == s[k]);
            }
        }
        assert(trim_start(s) =~= s.skip(s.len() - trim_start(s).len()));
    } else {
        assert(s =~= s.skip(0));
    }
}

proof fn lemma_trim_end_is_a_front(s: Seq<char>)
    ensures
        trim_end(s).len() <= s.len(),
        trim_end(s) == s.take(trim_end(s).len() as int),
        forall|k: int| trim_end(s).len() <= k < s.len() ==> white(#[trigger] s[k]),
    decreases s.len(),
{
    if s.len() > 0 && white(s.last()) {
        let rest = s.drop_last();
        lemma_trim_end_is_a_front(rest);
        assert forall|k: int| trim_end(s).len() <= k < s.len() implies white(#[trigger] s[k]) by {
            if k < rest.len() {
                assert(rest[k] == s[k]);
            }
        }
        assert(trim_end(s) =~= s.take(trim_end(s).len() as int));
    } else {
        assert(s =~= s.take(s.len() as int));
    }
}

/// Trimming takes away nothing but white space before and behind.
pub proof fn law_trimming_takes_only_white_space(s: Seq<char>)
    ensures
        exists|i: int, j: int|
            {
                &&& 0 <= i <= j <= s.len()
                &&& trimmed(s) == #[trigger] s.subrange(i, j)
                &&& forall|k: int| 0 <= k < i || j <= k < s.len() ==> white(#[trigger] s[k])
            },
{
    let front = trim_start(s);
    lemma_trim_start_is_a_rest(s);
    lemma_trim_end_is_a_front(front);
    let i = s.len() - front.len();
    let j = i + trimmed(s).len();
    assert(trimmed(s) =~= s.subrange(i, j));
    assert forall|k: int| 0 <= k < i || j <= k < s.len() implies white(#[trigger] s[k]) by {
        if k >= j {
            assert(front[k - i] == s[k]);
        }
    }
}

/// The words of two texts around white space are those of the one and those of the other; a
/// text without white space is one word, and an empty one holds none.
pub proof fn law_words_go_part_by_part(a: Seq<char>, c: char, b: Seq<char>, word: Seq<char>)
    ensures
        white(c) ==> words(a + seq![c] + b) == words(a) + words(b),
        word.len() > 0 && (forall|i: int| 0 <= i < word.len() ==> !white(#[trigger] word[i]))
            ==> words(word) == seq![word],
        words(Seq::<char>::empty()) == Seq::<Seq<char>>::empty(),
{
    let sep = blank();
    if white(c) {
        lemma_pieces_around(a, c, b, sep);
        lemma_non_empty_add(pieces(a, sep), pieces(b, sep));
    }
    if word.len() > 0 && forall|i: int| 0 <= i < word.len() ==> !white(#[trigger] word[i]) {
        assert forall|i: int| 0 <= i < word.len() implies !sep(#[trigger] word[i]) by {
            assert(!white(word[i]));
        }
        lemma_one_piece(word, sep);
        lemma_non_empty_one(word);
    }
    lemma_non_empty_one(Seq::<char>::empty());
}

/// The items of two texts around a separator are those of the one and those of the other; a
/// text without separators is one item, trimmed, unless it is blank.
pub proof fn law_items_go_part_by_part(
    a: Seq<char>,
    c: char,
    b: Seq<char>,
    one: Seq<char>,
    seps: Seq<char>,
)
    ensures
        seps.contains(c) ==> items(a + seq![c] + b, seps) == items(a, seps) + items(b, seps),
        (forall|i: int| 0 <= i < one.len() ==> !seps.contains(#[trigger] one[i])) ==> items(one, seps)
            == if trimmed(one).len() > 0 {
            seq![trimmed(one)]
        } else {
            Seq::<Seq<char>>::empty()
        },
{
    if seps.contains(c) {
        lemma_items_around(a, c, b, seps);
    }
    if forall|i: int| 0 <= i < one.len() ==> !seps.contains(#[trigger] one[i]) {
        assert forall|i: int| 0 <= i < one.len() implies !one_of(seps)(#[trigger] one[i]) by {
            assert(!seps.contains(one[i]));
        }
        lemma_one_piece(one, one_of(seps));
        assert(seq![one].map_values(|p: Seq<char>| trimmed(p)) =~= seq![trimmed(one)]);
        lemma_non_empty_one(trimmed(one));
    }
}

/// The lines of a text: what stands before its first line feed, without a carriage return at
/// the end, and then the lines of the rest; a text without line feeds is one line, unless it is
/// empty.
pub proof fn law_lines_go_one_by_one(first: Seq<char>, rest: Seq<char>)
    requires
        !first.contains('\n'),
    ensures
        lines(first + seq!['\n'] + rest) == seq![strip_return(first)] + lines(rest),
        lines(first) == if first.len() > 0 {
            seq![first]
        } else {
            Seq::<Seq<char>>::empty()
        },
{
    let sep = one_of(seq!['\n']);
    assert(seq!['\n'][0] == '\n');
    assert forall|i: int| 0 <= i < first.len() implies !sep(#[trigger] first[i]) by {
        assert(first.contains(first[i]));
    }
    lemma_one_piece(first, sep);
    lemma_pieces_around(first, '\n', rest, sep);
    let q = pieces(rest, sep);
    let all = pieces(first + seq!['\n'] + rest, sep);
    assert(all =~= seq![first] + q);
    assert(all.last() == q.last());
    let strip = |p: Seq<char>| strip_return(p);
    assert(all.drop_last().map_values(strip) =~= seq![strip_return(first)]
        + q.drop_last().map_values(strip));
    assert(lines(first + seq!['\n'] + rest) =~= seq![strip_return(first)] + lines(rest));
    assert(lines(first) =~= if first.len() > 0 {
        seq![first]
    } else {
        Seq::<Seq<char>>::empty()
    });
}

/// A carriage return at the end of a line is no part of its words.
pub proof fn law_line_end_is_in_no_word(s: Seq<char>)
    ensures
        words(strip_return(s)) == words(s),
{
    if s.len() > 0 && s.last() == '\r' {
        let e = Seq::<char>::empty();
        law_words_go_part_by_part(s.drop_last(), '\r', e, e);
        assert(s =~= s.drop_last() + seq!['\r'] + e);
        assert(words(s.drop_last()) + words(e) =~= words(s.drop_last()));
    }
}

/// An escaped colon becomes a colon, whatever stands around it, and a text without one stays as
/// it is.
pub proof fn law_unescaping_goes_part_by_part(a: Seq<char>, b: Seq<char>)
    ensures
        unescaped(a + seq!['\\', ':'] + b) == unescaped(a) + seq![':'] + unescaped(b),
        (forall|i: int| 0 < i < a.len() && #[trigger] a[i] == ':' ==> a[i - 1] != '\\')
            ==> unescaped(a) == a,
    decreases a.len() + b.len(),
{
    let s = a + seq!['\\', ':'] + b;
    if b.len() == 0 {
        assert(s.take(s.len() - 2) =~= a);
        assert(unescaped(s) =~= unescaped(a) + seq![':'] + unescaped(b));
    } else if b.len() >= 2 && b[b.len() - 2] == '\\' && b.last() == ':' {
        let front = b.take(b.len() - 2);
        law_unescaping_goes_part_by_part(a, front);
        assert(s[s.len() - 2] == '\\' && s.last() == ':');
        assert(s.take(s.len() - 2) =~= a + seq!['\\', ':'] + front);
        assert(unescaped(s) =~= unescaped(a) + seq![':'] + unescaped(b));
    } else {
        let front = b.drop_last();
        law_unescaping_goes_part_by_part(a, front);
        assert(s.drop_last() =~= a + seq!['\\', ':'] + front);
        assert(s.last() == b.last());
        assert(unescaped(s) =~= unescaped(a) + seq![':'] + unescaped(b));
    }
    lemma_nothing_to_unescape(a);
}

proof fn lemma_nothing_to_unescape(a: Seq<char>)
    ensures
        (forall|i: int| 0 < i < a.len() && #[trigger] a[i] == ':' ==> a[i - 1] != '\\')
            ==> unescaped(a) == a,
    decreases a.len(),
{
    if a.len() > 0 && forall|i: int|
        0 < i < a.len() && #[trigger] a[i] == ':' ==> a[i - 1] != '\\' {
        let front = a.drop_last();
        assert forall|i: int| 0 < i < front.len() && #[trigger] front[i] == ':' implies front[i - 1]
            != '\\' by {
            assert(a[i] == ':');
        }
        lemma_nothing_to_unescape(front);
        assert(a[a.len() - 1] == a.last());
        assert(unescaped(a) =~= a);
    }
}

} // verus!
