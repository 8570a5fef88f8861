//! Text helpers over characters: splitting, trimming, joining, unescaping.

use vstd::prelude::*;

verus! {

/// The characters of each string of a list.
pub open spec fn texts(list: Seq<String>) -> Seq<Seq<char>> {
    list.map_values(|s: String| s@)
}

/// The characters of an optional string.
pub open spec fn opt_text(o: Option<String>) -> Option<Seq<char>> {
    match o {
        Some(s) => Some(s@),
        None => None,
    }
}

/// The white space of Unicode (its `White_Space` property).
pub open spec fn white(c: char) -> bool {
    ||| '\u{9}' <= c <= '\u{d}'
    ||| c == ' '
    ||| c == '\u{85}'
    ||| c == '\u{a0}'
    ||| c == '\u{1680}'
    ||| '\u{2000}' <= c <= '\u{200a}'
    ||| c == '\u{2028}'
    ||| c == '\u{2029}'
    ||| c == '\u{202f}'
    ||| c == '\u{205f}'
    ||| c == '\u{3000}'
}

/// `s` without the white space at its front.
pub open spec fn trim_start(s: Seq<char>) -> Seq<char>
    decreases s.len(),
{
    if s.len() > 0 && white(s.first()) {
        trim_start(s.drop_first())
    } else {
        s
    }
}

/// `s` without the white space at its back.
pub open spec fn trim_end(s: Seq<char>) -> Seq<char>
    decreases s.len(),
{
    if s.len() > 0 && white(s.last()) {
        trim_end(s.drop_last())
    } else {
        s
    }
}

/// `s` without the white space around it.
pub open spec fn trimmed(s: Seq<char>) -> Seq<char> {
    trim_end(trim_start(s))
}

/// The pieces between the separators of `s`: one more than there are separators, some
/// perhaps empty.
pub open spec fn pieces(s: Seq<char>, sep: spec_fn(char) -> bool) -> Seq<Seq<char>>
    decreases s.len(),
{
    if s.len() == 0 {
        seq![Seq::<char>::empty()]
    } else {
        let before = pieces(s.drop_last(), sep);
        if sep(s.last()) {
            before.push(Seq::<char>::empty())
        } else {
            before.drop_last().push(before.last().push(s.last()))
        }
    }
}

/// The separator test "one of these characters".
pub open spec fn one_of(seps: Seq<char>) -> spec_fn(char) -> bool {
    |c: char| seps.contains(c)
}

/// The separator test "white space".
pub open spec fn blank() -> spec_fn(char) -> bool {
    |c: char| white(c)
}

/// The texts of a list that are not empty, in order.
pub open spec fn non_empty(list: Seq<Seq<char>>) -> Seq<Seq<char>> {
    list.filter(|p: Seq<char>| p.len() > 0)
}

/// The items of a list written with separators: its pieces, trimmed, without the empty ones.
pub open spec fn items(s: Seq<char>, seps: Seq<char>) -> Seq<Seq<char>> {
    non_empty(pieces(s, one_of(seps)).map_values(|p: Seq<char>| trimmed(p)))
}

/// The words of `s`: its longest runs without white space.
pub open spec fn words(s: Seq<char>) -> Seq<Seq<char>> {
    non_empty(pieces(s, blank()))
}

/// `s` without one carriage return at its back.
pub open spec fn strip_return(s: Seq<char>) -> Seq<char> {
    if s.len() > 0 && s.last() == '\r' {
        s.drop_last()
    } else {
        s
    }
}

/// The lines of `s`. A line ends in a line feed, or in a carriage return and a line feed; the
/// ending of the last line may be left out.
pub open spec fn lines(s: Seq<char>) -> Seq<Seq<char>> {
    let parts = pieces(s, one_of(seq!['\n']));
    let ended = parts.drop_last().map_values(|p: Seq<char>| strip_return(p));
    if parts.last().len() == 0 {
        ended
    } else {
        ended.push(parts.last())
    }
}

/// The line at `i`, or the empty text where there is none.
pub open spec fn line_at(list: Seq<Seq<char>>, i: int) -> Seq<char> {
    if 0 <= i < list.len() {
        list[i]
    } else {
        Seq::<char>::empty()
    }
}

/// The texts of `list` with `sep` between each two.
pub open spec fn joined(list: Seq<Seq<char>>, sep: Seq<char>) -> Seq<char>
    decreases list.len(),
{
    if list.len() == 0 {
        Seq::<char>::empty()
    } else if list.len() == 1 {
        list[0]
    } else {
        joined(list.drop_last(), sep) + sep + list.last()
    }
}

/// `s` with each escaped colon (a backslash and a colon) turned into a colon.
pub open spec fn unescaped(s: Seq<char>) -> Seq<char>
    decreases s.len(),
{
    if s.len() == 0 {
        s
    } else if s.len() >= 2 && s[s.len() - 2] == '\\' && s.last() == ':' {
        unescaped(s.take(s.len() - 2)).push(':')
    } else {
        unescaped(s.drop_last()).push(s.last())
    }
}

/// The position of the first `c` in `s`, or -1.
pub open spec fn first_position(s: Seq<char>, c: char) -> int
    decreases s.len(),
{
    if s.len() == 0 {
        -1
    } else {
        let at = first_position(s.drop_last(), c);
        if at < 0 && s.last() == c {
            s.len() - 1
        } else {
            at
        }
    }
}

/// The small letter of an ASCII capital; any other character as it is.
pub open spec fn ascii_lower(c: char) -> char {
    if 'A' <= c <= 'Z' {
        (c as u32 + 32) as char
    } else {
        c
    }
}

/// A copy of a list of strings.
pub(crate) fn copy_list(list: &[String]) -> (res: Vec<String>)
    ensures
        res@ == list@,
{
    let mut res: Vec<String> = Vec::new();
    let mut i: usize = 0;
    while i < list.len()
        invariant
            i <= list.len(),
            res@ == list@.take(i as int),
        decreases list.len() - i,
    {
        res.push(list[i].clone());
        i += 1;
    }
    res
}

/// Whether two texts are the same but for the case of ASCII letters.
pub open spec fn same_but_case(a: Seq<char>, b: Seq<char>) -> bool {
    &&& a.len() == b.len()
    &&& forall|i: int| 0 <= i < a.len() ==> ascii_lower(#[trigger] a[i]) == ascii_lower(b[i])
}

/// A result of strings, as text.
pub open spec fn result_text(r: Result<String, String>) -> Result<Seq<char>, Seq<char>> {
    match r {
        Ok(s) => Ok(s@),
        Err(e) => Err(e@),
    }
}

/// Whether `c` is white space.
pub fn is_white(c: char) -> (yes: bool)
    ensures
        yes == white(c),
{
    ('\u{9}' <= c && c <= '\u{d}') || c == ' ' || c == '\u{85}' || c == '\u{a0}' || c
        == '\u{1680}' || ('\u{2000}' <= c && c <= '\u{200a}') || c == '\u{2028}' || c == '\u{2029}'
        || c == '\u{202f}' || c == '\u{205f}' || c == '\u{3000}'
}

/// The characters of a string, one by one.
pub(crate) fn chars_of(s: &str) -> (chars: Vec<char>)
    ensures
        chars@ == s@,
{
    let mut chars: Vec<char> = Vec::new();
    for c in it: s.chars()
        invariant
            it.seq() == s@,
            chars@ == s@.take(it.index()),
    {
        chars.push(c);
    }
    chars
}

/// Whether two texts are equal.
pub(crate) fn same_text(a: &str, b: &str) -> (yes: bool)
    ensures
        yes == (a@ == b@),
{
    a.to_string() == b.to_string()
}

proof fn lemma_trim_start(s: Seq<char>, n: int)
    requires
        0 <= n <= s.len(),
        forall|i: int| 0 <= i < n ==> white(#[trigger] s[i]),
        n == s.len() || !white(s[n]),
    ensures
        trim_start(s) == s.skip(n),
    decreases n,
{
    if n > 0 {
        assert(white(s[0]));
        assert forall|i: int| 0 <= i < n - 1 implies white(#[trigger] s.drop_first()[i]) by {
            assert(s.drop_first()[i] == s[i + 1]);
        }
        lemma_trim_start(s.drop_first(), n - 1);
        assert(s.drop_first().skip(n - 1) == s.skip(n));
    } else {
        assert(s.skip(0) == s);
    }
}

proof fn lemma_trim_end(s: Seq<char>, n: int)
    requires
        0 <= n <= s.len(),
        forall|i: int| n <= i < s.len() ==> white(#[trigger] s[i]),
        n == 0 || !white(s[n - 1]),
    ensures
        trim_end(s) == s.take(n),
    decreases s.len() - n,
{
    if n < s.len() {
        assert(white(s[s.len() - 1]));
        lemma_trim_end(s.drop_last(), n);
        assert(s.drop_last().take(n) == s.take(n));
    } else {
        assert(s.take(n) == s);
    }
}

/// `s` without the white space around it, as `str::trim`.
pub fn trim(s: &str) -> (res: String)
    ensures
        res@ == trimmed(s@),
{
    let chars = chars_of(s);
    let n = chars.len();
    let mut from: usize = 0;
    while from < n && is_white(chars[from])
        invariant
            n == chars.len(),
            chars@ == s@,
            from <= n,
            forall|i: int| 0 <= i < from ==> white(#[trigger] s@[i]),
        decreases n - from,
    {
        from += 1;
    }
    let mut to: usize = n;
    while to > from && is_white(chars[to - 1])
        invariant
            n == chars.len(),
            chars@ == s@,
            from <= to <= n,
            forall|i: int| to <= i < n ==> white(#[trigger] s@[i]),
        decreases to,
    {
        to -= 1;
    }
    proof {
        lemma_trim_start(s@, from as int);
        let rest = s@.skip(from as int);
        assert forall|i: int| to - from <= i < rest.len() implies white(#[trigger] rest[i]) by {
            assert(rest[i] == s@[i + from]);
        }
        lemma_trim_end(rest, to - from);
        assert(rest.take(to - from) == s@.subrange(from as int, to as int));
    }
    s.substring_char(from, to).to_string()
}

/// The pieces between the characters of `s` for which `at` holds.
fn split_where<F: Fn(char) -> bool>(s: &str, at: F, Ghost(sep): Ghost<spec_fn(char) -> bool>) -> (res:
    Vec<String>)
    requires
        forall|c: char| call_requires(at, (c,)),
        forall|c: char, b: bool| call_ensures(at, (c,), b) ==> b == sep(c),
    ensures
        texts(res@) == pieces(s@, sep),
{
    let chars = chars_of(s);
    let n = chars.len();
    let mut res: Vec<String> = Vec::new();
    let mut start: usize = 0;
    let mut i: usize = 0;
    proof {
        assert(s@.subrange(0, 0) == Seq::<char>::empty());
        assert(texts(res@).push(s@.subrange(0, 0)) == pieces(s@.take(0), sep));
    }
    while i < n
        invariant
            n == chars.len(),
            chars@ == s@,
            start <= i <= n,
            forall|c: char| call_requires(at, (c,)),
            forall|c: char, b: bool| call_ensures(at, (c,), b) ==> b == sep(c),
            pieces(s@.take(i as int), sep) == texts(res@).push(
                s@.subrange(start as int, i as int),
            ),
        decreases n - i,
    {
        let ghost done = texts(res@);
        let ghost current = s@.subrange(start as int, i as int);
        assert(s@.take(i + 1).drop_last() == s@.take(i as int));
        assert(s@.take(i + 1).last() == s@[i as int]);
        if at(chars[i]) {
            res.push(s.substring_char(start, i).to_string());
            start = i + 1;
            assert(texts(res@) == done.push(current));
            assert(s@.subrange(i + 1, i + 1) == Seq::<char>::empty());
        } else {
            assert(done.push(current).drop_last() == done);
            assert(s@.subrange(start as int, i + 1) == current.push(s@[i as int]));
        }
        i += 1;
    }
    let ghost done = texts(res@);
    res.push(s.substring_char(start, n).to_string());
    proof {
        assert(s@.take(n as int) == s@);
        assert(texts(res@) == done.push(s@.subrange(start as int, n as int)));
    }
    res
}

/// The pieces of `s` between the characters of `seps`, as `str::split`.
pub fn split(s: &str, seps: &[char]) -> (res: Vec<String>)
    ensures
        texts(res@) == pieces(s@, one_of(seps@)),
{
    let at = |c: char| -> (yes: bool)
        ensures
            yes == seps@.contains(c),
        { has_char(seps, c) };
    split_where(s, at, Ghost(one_of(seps@)))
}

/// Whether `c` is among `list`.
fn has_char(list: &[char], c: char) -> (yes: bool)
    ensures
        yes == list@.contains(c),
{
    let mut i: usize = 0;
    while i < list.len()
        invariant
            i <= list.len(),
            forall|j: int| 0 <= j < i ==> list@[j] != c,
        decreases list.len() - i,
    {
        if list[i] == c {
            return true;
        }
        i += 1;
    }
    false
}

proof fn lemma_non_empty_push(list: Seq<Seq<char>>, p: Seq<char>)
    ensures
        non_empty(list.push(p)) == if p.len() > 0 {
            non_empty(list).push(p)
        } else {
            non_empty(list)
        },
{
    reveal(Seq::filter);
    assert(list.push(p).drop_last() == list);
}

/// The strings of a list that are not empty, in order.
fn keep_non_empty(list: Vec<String>) -> (res: Vec<String>)
    ensures
        texts(res@) == non_empty(texts(list@)),
{
    let mut res: Vec<String> = Vec::new();
    let mut i: usize = 0;
    let ghost all = texts(list@);
    proof {
        reveal(Seq::filter);
        assert(texts(res@) == non_empty(all.take(0)));
    }
    while i < list.len()
        invariant
            i <= list.len(),
            all == texts(list@),
            texts(res@) == non_empty(all.take(i as int)),
        decreases list.len() - i,
    {
        let ghost done = texts(res@);
        proof {
            lemma_non_empty_push(all.take(i as int), all[i as int]);
            assert(all.take(i + 1) == all.take(i as int).push(all[i as int]));
        }
        if !list[i].as_str().is_empty() {
            res.push(list[i].clone());
            assert(texts(res@) == done.push(all[i as int]));
        }
        i += 1;
    }
    assert(all.take(list.len() as int) == all);
    res
}

/// The strings of a list, each without the white space around it.
fn trim_all(list: Vec<String>) -> (res: Vec<String>)
    ensures
        texts(res@) == texts(list@).map_values(|p: Seq<char>| trimmed(p)),
{
    let mut res: Vec<String> = Vec::new();
    let mut i: usize = 0;
    while i < list.len()
        invariant
            i <= list.len(),
            res.len() == i,
            forall|j: int| 0 <= j < i ==> (#[trigger] res@[j])@ == trimmed(list@[j]@),
        decreases list.len() - i,
    {
        res.push(trim(list[i].as_str()));
        i += 1;
    }
    res
}

/// The items of a list written with the separators `seps`: its pieces, trimmed, without the
/// empty ones.
pub fn split_items(s: &str, seps: &[char]) -> (res: Vec<String>)
    ensures
        texts(res@) == items(s@, seps@),
{
    keep_non_empty(trim_all(split(s, seps)))
}

/// The words of `s`, as `str::split_whitespace`.
pub fn split_words(s: &str) -> (res: Vec<String>)
    ensures
        texts(res@) == words(s@),
{
    let at = |c: char| -> (yes: bool)
        ensures
            yes == white(c),
        { is_white(c) };
    keep_non_empty(split_where(s, at, Ghost(blank())))
}

/// `s` without one carriage return at its back.
fn drop_return(s: &str) -> (res: String)
    ensures
        res@ == strip_return(s@),
{
    let n = s.unicode_len();
    if n > 0 && s.get_char(n - 1) == '\r' {
        proof {
            assert(s@.subrange(0, n - 1) == s@.drop_last());
        }
        s.substring_char(0, n - 1).to_string()
    } else {
        s.to_string()
    }
}

proof fn lemma_pieces_not_empty(s: Seq<char>, sep: spec_fn(char) -> bool)
    ensures
        pieces(s, sep).len() > 0,
    decreases s.len(),
{
    if s.len() > 0 {
        lemma_pieces_not_empty(s.drop_last(), sep);
    }
}

/// The lines of `s`, as `str::lines`.
pub fn split_lines(s: &str) -> (res: Vec<String>)
    ensures
        texts(res@) == lines(s@),
{
    let parts = split(s, &['\n']);
    proof {
        assert(['\n']@ == seq!['\n']);
        lemma_pieces_not_empty(s@, one_of(seq!['\n']));
    }
    let ghost p = texts(parts@);
    let n = parts.len();
    let mut res: Vec<String> = Vec::new();
    let mut i: usize = 0;
    while i < n - 1
        invariant
            n == parts.len(),
            n > 0,
            i <= n - 1,
            res.len() == i,
            forall|j: int| 0 <= j < i ==> (#[trigger] res@[j])@ == strip_return(parts@[j]@),
        decreases n - i,
    {
        res.push(drop_return(parts[i].as_str()));
        i += 1;
    }
    let ghost ended = p.drop_last().map_values(|q: Seq<char>| strip_return(q));
    assert(texts(res@) == ended);
    if !parts[n - 1].as_str().is_empty() {
        res.push(parts[n - 1].clone());
        assert(texts(res@) == ended.push(p.last()));
    }
    res
}

/// The line at `i`, or the empty string where there is none.
pub fn get_line(list: &Vec<String>, i: usize) -> (res: String)
    ensures
        res@ == line_at(texts(list@), i as int),
{
    if i < list.len() {
        list[i].clone()
    } else {
        String::new()
    }
}

/// The strings of `list` with `sep` between each two, as `[String]::join`.
pub fn join(list: &[String], sep: &str) -> (res: String)
    ensures
        res@ == joined(texts(list@), sep@),
{
    let mut res = String::new();
    let mut i: usize = 0;
    let ghost all = texts(list@);
    while i < list.len()
        invariant
            i <= list.len(),
            all == texts(list@),
            res@ == joined(all.take(i as int), sep@),
        decreases list.len() - i,
    {
        assert(all.take(i + 1).drop_last() == all.take(i as int));
        if i > 0 {
            res.append(sep);
        }
        res.append(list[i].as_str());
        i += 1;
    }
    assert(all.take(list.len() as int) == all);
    res
}

/// `s` with each escaped colon turned into a colon.
pub fn unescape(s: &str) -> (res: String)
    ensures
        res@ == unescaped(s@),
{
    let chars = chars_of(s);
    let n = chars.len();
    let mut res = String::new();
    let mut start: usize = 0;
    let mut i: usize = 0;
    assert(res@ + s@.subrange(0, 0) == unescaped(s@.take(0)));
    while i < n
        invariant
            n == chars.len(),
            chars@ == s@,
            start <= i <= n,
            0 < i < n && s@[i - 1] == '\\' ==> s@[i as int] != ':',
            res@ + s@.subrange(start as int, i as int) == unescaped(s@.take(i as int)),
        decreases n - i,
    {
        let ghost whole = res@ + s@.subrange(start as int, i as int);
        if chars[i] == '\\' && i + 1 < n && chars[i + 1] == ':' {
            proof {
                let t = s@.take(i + 2);
                assert(t.take(t.len() - 2) == s@.take(i as int));
                assert(unescaped(t) == whole.push(':'));
            }
            res.append(s.substring_char(start, i));
            start = i + 1;
            i += 2;
            assert(s@.subrange(start as int, i as int) == seq![':']);
            assert(res@ + s@.subrange(start as int, i as int) == whole.push(':'));
        } else {
            proof {
                let t = s@.take(i + 1);
                assert(t.drop_last() == s@.take(i as int));
                if t.len() >= 2 {
                    assert(t[t.len() - 2] == s@[i - 1]);
                }
                assert(unescaped(t) == whole.push(s@[i as int]));
                assert(res@ + s@.subrange(start as int, i + 1) == whole.push(s@[i as int]));
            }
            i += 1;
        }
    }
    res.append(s.substring_char(start, n));
    assert(s@.take(n as int) == s@);
    res
}

/// The first position is one where the character stands, and none before it is; it is -1 only
/// where the character does not occur.
pub proof fn lemma_first_position(s: Seq<char>, c: char)
    ensures
        -1 <= first_position(s, c) < s.len(),
        first_position(s, c) >= 0 ==> s[first_position(s, c)] == c,
        forall|i: int|
            0 <= i < s.len() && (first_position(s, c) < 0 || i < first_position(s, c))
                ==> #[trigger] s[i] != c,
    decreases s.len(),
{
    if s.len() > 0 {
        let before = s.drop_last();
        lemma_first_position(before, c);
        assert forall|i: int|
            0 <= i < s.len() && (first_position(s, c) < 0 || i < first_position(s, c)) implies
            #[trigger] s[i] != c by {
            if i < before.len() {
                assert(before[i] == s[i]);
            }
        }
    }
}

/// The parts of `s` before and after its first `c`, as `str::split_once`.
pub fn split_at_first(s: &str, c: char) -> (res: Option<(String, String)>)
    ensures
        match res {
            Some((before, after)) => {
                let at = first_position(s@, c);
                at >= 0 && before@ == s@.take(at) && after@ == s@.skip(at + 1)
            },
            None => first_position(s@, c) < 0,
        },
{
    let chars = chars_of(s);
    let n = chars.len();
    let mut i: usize = 0;
    while i < n && chars[i] != c
        invariant
            n == chars.len(),
            chars@ == s@,
            i <= n,
            forall|j: int| 0 <= j < i ==> #[trigger] s@[j] != c,
        decreases n - i,
    {
        i += 1;
    }
    proof {
        lemma_first_position(s@, c);
    }
    if i == n {
        None
    } else {
        proof {
            assert(s@[i as int] == c);
            assert(s@.subrange(0, i as int) == s@.take(i as int));
            assert(s@.subrange(i + 1, n as int) == s@.skip(i + 1));
        }
        Some((s.substring_char(0, i).to_string(), s.substring_char(i + 1, n).to_string()))
    }
}

/// The small letter of an ASCII capital; any other character as it is.
fn lower(c: char) -> (res: char)
    ensures
        res == ascii_lower(c),
{
    if 'A' <= c && c <= 'Z' {
        ((c as u8) + 32) as char
    } else {
        c
    }
}

/// Whether two texts are the same but for the case of ASCII letters, as
/// `str::eq_ignore_ascii_case`.
pub fn equal_but_case(a: &str, b: &str) -> (yes: bool)
    ensures
        yes == same_but_case(a@, b@),
{
    let x = chars_of(a);
    let y = chars_of(b);
    if x.len() != y.len() {
        return false;
    }
    let mut i: usize = 0;
    while i < x.len()
        invariant
            i <= x.len(),
            x.len() == y.len(),
            x@ == a@,
            y@ == b@,
            forall|j: int| 0 <= j < i ==> ascii_lower(#[trigger] a@[j]) == ascii_lower(b@[j]),
        decreases x.len() - i,
    {
        if lower(x[i]) != lower(y[i]) {
            assert(ascii_lower(a@[i as int]) != ascii_lower(b@[i as int]));
            return false;
        }
        i += 1;
    }
    true
}

/// Whether `c` occurs in `s`, as `str::contains`.
pub fn contains_char(s: &str, c: char) -> (yes: bool)
    ensures
        yes == s@.contains(c),
{
    let chars = chars_of(s);
    has_char(chars.as_slice(), c)
}

} // verus!
