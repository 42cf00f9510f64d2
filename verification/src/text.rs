//! Text as a sequence of characters: trimming, splitting, case, and decimal numbers.
//!
//! Specifications speak of the view of a string, the sequence of its characters.
use vstd::prelude::*;

verus! {

broadcast use vstd::seq_lib::group_seq_properties;

// ---------------------------------------------------------------------------
// White space
// ---------------------------------------------------------------------------

/// Whether `c` has the Unicode `White_Space` property.
pub open spec fn white_space(c: char) -> bool {
    ||| '\u{9}' <= c <= '\u{d}'
    ||| c == ' '
    ||| c == '\u{85}'
    ||| c == '\u{a0}'
    ||| c == '\u{1680}'
    ||| '\u{2000}' <= c <= '\u{200a}'
    ||| c == '\u{2028}'
    ||| c == '\u{2029}'
    ||| c == '\u{202f}'
    ||| c == '\u{205f}'
    ||| c == '\u{3000}'
}

/// Tells whether `c` has the Unicode `White_Space` property.
pub fn is_white_space(c: char) -> (r: bool)
    ensures
        r == white_space(c),
{
    ('\u{9}' <= c && c <= '\u{d}') || c == ' ' || c == '\u{85}' || c == '\u{a0}' || c == '\u{1680}'
        || ('\u{2000}' <= c && c <= '\u{200a}') || c == '\u{2028}' || c == '\u{2029}' || c
        == '\u{202f}' || c == '\u{205f}' || c == '\u{3000}'
}

/// `s` without its leading white space.
pub open spec fn trimmed_start(s: Seq<char>) -> Seq<char>
    decreases s.len(),
{
    if s.len() > 0 && white_space(s[0]) {
        trimmed_start(s.drop_first())
    } else {
        s
    }
}

/// `s` without its trailing white space.
pub open spec fn trimmed_end(s: Seq<char>) -> Seq<char>
    decreases s.len(),
{
    if s.len() > 0 && white_space(s.last()) {
        trimmed_end(s.drop_last())
    } else {
        s
    }
}

/// `s` without leading and trailing white space.
pub open spec fn trimmed(s: Seq<char>) -> Seq<char> {
    trimmed_end(trimmed_start(s))
}

/// Whether `s` holds anything but white space.
pub open spec fn has_text(s: Seq<char>) -> bool {
    trimmed(s).len() > 0
}

/// Trimming takes characters away at the ends only.
pub proof fn lemma_trim_shortens(s: Seq<char>)
    ensures
        trimmed_start(s).len() <= s.len(),
        trimmed_end(s).len() <= s.len(),
        trimmed_start(s).len() == s.len() ==> trimmed_start(s) == s,
        trimmed_end(s).len() == s.len() ==> trimmed_end(s) == s,
        s.len() > 0 && white_space(s[0]) ==> trimmed_start(s).len() < s.len(),
        s.len() > 0 && white_space(s.last()) ==> trimmed_end(s).len() < s.len(),
    decreases s.len(),
{
    if s.len() > 0 {
        lemma_trim_shortens(s.drop_first());
        lemma_trim_shortens(s.drop_last());
    }
}

/// What was trimmed has nothing left to trim.
pub proof fn lemma_trim_is_trimmed(s: Seq<char>)
    ensures
        trimmed(trimmed(s)) == trimmed(s),
{
    let t = trimmed_start(s);
    lemma_trimmed_start(s);
    lemma_trimmed_end(t);
    let u = trimmed_end(t);
    if u.len() > 0 {
        assert(u[0] == t[0]);
    }
}

proof fn lemma_trimmed_start(s: Seq<char>)
    ensures
        trimmed_start(s).len() > 0 ==> !white_space(trimmed_start(s)[0]),
    decreases s.len(),
{
    if s.len() > 0 {
        lemma_trimmed_start(s.drop_first());
    }
}

proof fn lemma_trimmed_end(s: Seq<char>)
    ensures
        trimmed_end(s).len() <= s.len(),
        trimmed_end(s) == s.take(trimmed_end(s).len() as int),
        trimmed_end(s).len() > 0 ==> !white_space(trimmed_end(s).last()),
    decreases s.len(),
{
    if s.len() > 0 {
        lemma_trimmed_end(s.drop_last());
        let n = trimmed_end(s).len() as int;
        if white_space(s.last()) {
            assert(s.drop_last().take(n) =~= s.take(n));
        } else {
            assert(s.take(n) =~= s);
        }
    } else {
        assert(s.take(0) =~= s);
    }
}

/// Trimming takes away the white space around a text, all of it and nothing else.
pub proof fn law_trim_takes_white_space_around(
    before: Seq<char>,
    inner: Seq<char>,
    after: Seq<char>,
)
    requires
        forall|i: int| 0 <= i < before.len() ==> white_space(#[trigger] before[i]),
        forall|i: int| 0 <= i < after.len() ==> white_space(#[trigger] after[i]),
        inner.len() > 0 ==> !white_space(inner[0]) && !white_space(inner.last()),
    ensures
        trimmed(before + inner + after) == inner,
        has_text(before + inner + after) <==> inner.len() > 0,
    decreases before.len() + after.len(),
{
    let whole = before + inner + after;
    if before.len() > 0 {
        let rest = before.drop_first();
        assert(whole[0] == before[0]);
        assert(whole.drop_first() =~= rest + inner + after);
        assert forall|i: int| 0 <= i < rest.len() implies white_space(#[trigger] rest[i]) by {
            assert(rest[i] == before[i + 1]);
        }
        law_trim_takes_white_space_around(rest, inner, after);
    } else if inner.len() == 0 && after.len() > 0 {
        assert(whole =~= after);
        let rest = after.drop_first();
        assert(whole.drop_first() =~= Seq::<char>::empty() + inner + rest);
        assert forall|i: int| 0 <= i < rest.len() implies white_space(#[trigger] rest[i]) by {
            assert(rest[i] == after[i + 1]);
        }
        law_trim_takes_white_space_around(Seq::empty(), inner, rest);
    } else if after.len() > 0 {
        let rest = after.drop_last();
        assert(whole[0] == inner[0]);
        assert(trimmed_start(whole) == whole);
        assert(whole.last() == after.last());
        let shorter = Seq::<char>::empty() + inner + rest;
        assert(whole.drop_last() =~= shorter);
        assert(shorter[0] == inner[0]);
        assert(trimmed_start(shorter) == shorter);
        assert forall|i: int| 0 <= i < rest.len() implies white_space(#[trigger] rest[i]) by {
            assert(rest[i] == after[i]);
        }
        law_trim_takes_white_space_around(Seq::empty(), inner, rest);
    } else {
        assert(whole =~= inner);
    }
}

/// White space is what Unicode calls so: of ASCII, the space and the five controls from the tab to
/// the carriage return, and no other character.
pub proof fn law_white_space_of_ascii(c: char)
    ensures
        (c as u32) < 128 ==> (white_space(c) <==> c as u32 == 32 || 9 <= c as u32 <= 13),
        (c as u32) >= 128 ==> (white_space(c) <==> c as u32 == 0x85 || c as u32 == 0xa0 || c as u32
            == 0x1680 || 0x2000 <= c as u32 <= 0x200a || c as u32 == 0x2028 || c as u32 == 0x2029
            || c as u32 == 0x202f || c as u32 == 0x205f || c as u32 == 0x3000),
{
}

/// The characters of `s`, in order.
pub fn chars_of(s: &str) -> (r: Vec<char>)
    ensures
        r@ == s@,
{
    let mut out: Vec<char> = Vec::new();
    for c in it: s.chars()
        invariant
            out@ == it.seq().take(it.index() as int),
            it.seq() == s@,
    {
        out.push(c);
    }
    out
}

/// `s` without leading and trailing white space.
pub fn trim(s: &str) -> (r: &str)
    ensures
        r@ == trimmed(s@),
{
    let chars = chars_of(s);
    let mut start: usize = 0;
    assert(s@.skip(0) =~= s@);
    while start < chars.len() && is_white_space(chars[start])
        invariant
            chars@ == s@,
            start <= chars@.len(),
            trimmed_start(s@) == trimmed_start(s@.skip(start as int)),
        decreases chars.len() - start,
    {
        assert(s@.skip(start as int).drop_first() =~= s@.skip(start + 1));
        start = start + 1;
    }
    let ghost rest = s@.skip(start as int);
    assert(trimmed_start(s@) == rest);
    let mut end: usize = chars.len();
    assert(s@.subrange(start as int, end as int) =~= rest);
    while start < end && is_white_space(chars[end - 1])
        invariant
            chars@ == s@,
            start <= end <= chars@.len(),
            trimmed_end(rest) == trimmed_end(s@.subrange(start as int, end as int)),
        decreases end,
    {
        assert(s@.subrange(start as int, end as int).drop_last() =~= s@.subrange(
            start as int,
            end - 1,
        ));
        end = end - 1;
    }
    s.substring_char(start, end)
}

/// The characters of a text, where there is one.
pub open spec fn chars(value: Option<String>) -> Option<Seq<char>> {
    match value {
        Some(value) => Some(value@),
        None => None,
    }
}

/// Whether `value` is present and holds anything but white space.
pub open spec fn present(value: Option<String>) -> bool {
    value matches Some(text) && has_text(text@)
}

/// Tells whether `value` is present and holds anything but white space.
pub fn is_present(value: &Option<String>) -> (r: bool)
    ensures
        r == present(*value),
{
    match value {
        Some(text) => !trim(text.as_str()).is_empty(),
        None => false,
    }
}

// ---------------------------------------------------------------------------
// Searching and cutting
// ---------------------------------------------------------------------------

/// The place of the first `c` in `s`, or the length of `s` where there is none.
pub open spec fn first_index(s: Seq<char>, c: char) -> int
    decreases s.len(),
{
    if s.len() == 0 || s[0] == c {
        0
    } else {
        1 + first_index(s.drop_first(), c)
    }
}

/// `first_index` is the first place where `c` stands.
pub proof fn lemma_first_index(s: Seq<char>, c: char)
    ensures
        0 <= first_index(s, c) <= s.len(),
        forall|i: int| 0 <= i < first_index(s, c) ==> s[i] != c,
        first_index(s, c) < s.len() ==> s[first_index(s, c)] == c,
        s.contains(c) <==> first_index(s, c) < s.len(),
    decreases s.len(),
{
    if s.len() > 0 && s[0] != c {
        let rest = s.drop_first();
        lemma_first_index(rest, c);
        assert forall|i: int| 0 <= i < first_index(s, c) implies s[i] != c by {
            if i > 0 {
                assert(rest[i - 1] != c);
            }
        }
        if s.contains(c) {
            let k = choose|k: int| 0 <= k < s.len() && s[k] == c;
            assert(rest[k - 1] == c);
        }
    }
}

/// A place with `c` and none before it is the first.
pub proof fn lemma_first_index_is(s: Seq<char>, c: char, at: int)
    requires
        0 <= at <= s.len(),
        forall|i: int| 0 <= i < at ==> s[i] != c,
        at < s.len() ==> s[at] == c,
    ensures
        first_index(s, c) == at,
{
    lemma_first_index(s, c);
}

/// The place of the first `c` in `s`, or the number of characters of `s`.
fn find_char(s: &str, c: char) -> (r: (usize, usize))
    ensures
        r.0 == first_index(s@, c),
        r.1 == s@.len(),
{
    let chars = chars_of(s);
    let mut i: usize = 0;
    while i < chars.len() && chars[i] != c
        invariant
            chars@ == s@,
            i <= chars@.len(),
            forall|j: int| 0 <= j < i ==> s@[j] != c,
        decreases chars.len() - i,
    {
        i = i + 1;
    }
    proof {
        lemma_first_index_is(s@, c, i as int);
    }
    (i, chars.len())
}

/// Tells whether `c` stands in `s`.
pub fn contains_char(s: &str, c: char) -> (r: bool)
    ensures
        r == s@.contains(c),
{
    proof {
        lemma_first_index(s@, c);
    }
    let (at, len) = find_char(s, c);
    at < len
}

/// What stands before and after the first `c` of `s`.
pub open spec fn split_at_first(s: Seq<char>, c: char) -> Option<(Seq<char>, Seq<char>)> {
    if s.contains(c) {
        Some((s.take(first_index(s, c)), s.skip(first_index(s, c) + 1)))
    } else {
        None
    }
}

/// What stands before and after the first `c` of `s`.
pub fn split_once(s: &str, c: char) -> (r: Option<(&str, &str)>)
    ensures
        match r {
            Some(halves) => split_at_first(s@, c) == Some((halves.0@, halves.1@)),
            None => split_at_first(s@, c) is None,
        },
{
    proof {
        lemma_first_index(s@, c);
    }
    let (at, len) = find_char(s, c);
    if at < len {
        Some((s.substring_char(0, at), s.substring_char(at + 1, len)))
    } else {
        None
    }
}

/// The fields of `s` between separators `c`, at most `n` of them: the last one holds the rest.
pub open spec fn fields_of(s: Seq<char>, n: nat, c: char) -> Seq<Seq<char>>
    decreases n,
{
    if n > 1 && s.contains(c) {
        seq![s.take(first_index(s, c))] + fields_of(
            s.skip(first_index(s, c) + 1),
            (n - 1) as nat,
            c,
        )
    } else {
        seq![s]
    }
}

/// The views of `parts`, in order.
pub open spec fn views(parts: Seq<&str>) -> Seq<Seq<char>> {
    Seq::new(parts.len(), |i: int| parts[i]@)
}

/// The fields of `s` between separators `c`, at most `n` of them.
pub fn splitn(s: &str, n: usize, c: char) -> (r: Vec<&str>)
    requires
        n > 0,
    ensures
        views(r@) == fields_of(s@, n as nat, c),
{
    let mut out: Vec<&str> = Vec::new();
    let mut rest = s;
    let mut left: usize = n;
    assert(views(out@) + fields_of(s@, n as nat, c) =~= fields_of(s@, n as nat, c));
    while left > 1
        invariant
            left >= 1,
            views(out@) + fields_of(rest@, left as nat, c) == fields_of(s@, n as nat, c),
        decreases left,
    {
        let ghost before = out@;
        match split_once(rest, c) {
            Some((head, tail)) => {
                out.push(head);
                assert(views(out@) =~= views(before).push(head@));
                assert(views(out@) + fields_of(tail@, (left - 1) as nat, c) =~= views(before)
                    + fields_of(rest@, left as nat, c));
                rest = tail;
                left = left - 1;
            },
            None => {
                left = 1;
            },
        }
    }
    let ghost before = out@;
    out.push(rest);
    assert(views(out@) =~= views(before) + fields_of(rest@, 1, c));
    out
}

/// The parts of `s` between separators `c`.
pub open spec fn parts_of(s: Seq<char>, c: char) -> Seq<Seq<char>>
    decreases s.len(),
{
    if s.contains(c) && 0 <= first_index(s, c) < s.len() {
        seq![s.take(first_index(s, c))] + parts_of(s.skip(first_index(s, c) + 1), c)
    } else {
        seq![s]
    }
}

/// The parts of `s` between separators `c`.
pub fn split(s: &str, c: char) -> (r: Vec<&str>)
    ensures
        views(r@) == parts_of(s@, c),
{
    let mut out: Vec<&str> = Vec::new();
    let mut rest = s;
    let mut done = false;
    assert(views(out@) + parts_of(s@, c) =~= parts_of(s@, c));
    while !done
        invariant
            !done ==> views(out@) + parts_of(rest@, c) == parts_of(s@, c),
            done ==> views(out@) == parts_of(s@, c),
        decreases rest@.len() + (if done { 0int } else { 1int }),
    {
        let ghost before = out@;
        proof {
            lemma_first_index(rest@, c);
        }
        match split_once(rest, c) {
            Some((head, tail)) => {
                out.push(head);
                assert(views(out@) =~= views(before).push(head@));
                assert(views(out@) + parts_of(tail@, c) =~= views(before) + parts_of(rest@, c));
                rest = tail;
            },
            None => {
                out.push(rest);
                assert(views(out@) =~= views(before) + parts_of(rest@, c));
                done = true;
            },
        }
    }
    out
}

/// What precedes the first separator is the first part.
pub proof fn lemma_parts_of(head: Seq<char>, tail: Seq<char>, c: char)
    requires
        forall|i: int| 0 <= i < head.len() ==> head[i] != c,
    ensures
        parts_of(head + seq![c] + tail, c) == seq![head] + parts_of(tail, c),
{
    let s = head + seq![c] + tail;
    assert(s[head.len() as int] == c);
    assert(s.contains(c));
    lemma_first_index_is(s, c, head.len() as int);
    assert(s.take(head.len() as int) =~= head);
    assert(s.skip(head.len() as int + 1) =~= tail);
}

/// A text without separators is one part.
pub proof fn lemma_one_part(s: Seq<char>, c: char)
    requires
        forall|i: int| 0 <= i < s.len() ==> s[i] != c,
    ensures
        parts_of(s, c) == seq![s],
{
}

/// How often `c` stands in `s`.
pub open spec fn occurrences(s: Seq<char>, c: char) -> nat
    decreases s.len(),
{
    if s.len() == 0 {
        0
    } else {
        occurrences(s.drop_last(), c) + (if s.last() == c {
            1nat
        } else {
            0nat
        })
    }
}

/// How often `c` stands in `s`.
pub fn count_char(s: &str, c: char) -> (r: usize)
    ensures
        r == occurrences(s@, c),
{
    let chars = chars_of(s);
    let mut i: usize = 0;
    let mut n: usize = 0;
    while i < chars.len()
        invariant
            chars@ == s@,
            i <= chars@.len(),
            n <= i,
            n == occurrences(s@.take(i as int), c),
        decreases chars.len() - i,
    {
        assert(s@.take(i + 1).drop_last() =~= s@.take(i as int));
        if chars[i] == c {
            n = n + 1;
        }
        i = i + 1;
    }
    assert(s@.take(i as int) =~= s@);
    n
}

/// Whether `s` begins with `prefix`.
pub open spec fn begins_with(s: Seq<char>, prefix: Seq<char>) -> bool {
    prefix.len() <= s.len() && s.take(prefix.len() as int) == prefix
}

/// What follows `prefix` in `s`, where `s` begins with it.
pub fn strip_prefix<'a>(s: &'a str, prefix: &str) -> (r: Option<&'a str>)
    ensures
        match r {
            Some(rest) => begins_with(s@, prefix@) && rest@ == s@.skip(prefix@.len() as int),
            None => !begins_with(s@, prefix@),
        },
{
    let chars = chars_of(s);
    let wanted = chars_of(prefix);
    if wanted.len() > chars.len() {
        return None;
    }
    let mut i: usize = 0;
    while i < wanted.len()
        invariant
            chars@ == s@,
            wanted@ == prefix@,
            i <= wanted@.len() <= chars@.len(),
            forall|j: int| 0 <= j < i ==> s@[j] == prefix@[j],
        decreases wanted.len() - i,
    {
        if chars[i] != wanted[i] {
            assert(s@.take(prefix@.len() as int)[i as int] != prefix@[i as int]);
            return None;
        }
        i = i + 1;
    }
    assert(s@.take(prefix@.len() as int) =~= prefix@);
    Some(s.substring_char(wanted.len(), chars.len()))
}

/// Tells whether `s` begins with `prefix`.
pub fn starts_with(s: &str, prefix: &str) -> (r: bool)
    ensures
        r == begins_with(s@, prefix@),
{
    strip_prefix(s, prefix).is_some()
}

/// `s` without the `c`s at its start.
pub open spec fn without_leading(s: Seq<char>, c: char) -> Seq<char>
    decreases s.len(),
{
    if s.len() > 0 && s[0] == c {
        without_leading(s.drop_first(), c)
    } else {
        s
    }
}

/// `s` without the `c`s at its end.
pub open spec fn without_trailing(s: Seq<char>, c: char) -> Seq<char>
    decreases s.len(),
{
    if s.len() > 0 && s.last() == c {
        without_trailing(s.drop_last(), c)
    } else {
        s
    }
}

/// `s` without the `c`s at its start.
pub fn trim_start_matches(s: &str, c: char) -> (r: &str)
    ensures
        r@ == without_leading(s@, c),
{
    let chars = chars_of(s);
    let mut start: usize = 0;
    assert(s@.skip(0) =~= s@);
    while start < chars.len() && chars[start] == c
        invariant
            chars@ == s@,
            start <= chars@.len(),
            without_leading(s@, c) == without_leading(s@.skip(start as int), c),
        decreases chars.len() - start,
    {
        assert(s@.skip(start as int).drop_first() =~= s@.skip(start + 1));
        start = start + 1;
    }
    assert(s@.skip(start as int) =~= s@.subrange(start as int, s@.len() as int));
    s.substring_char(start, chars.len())
}

/// `s` without the `c`s at its end.
pub fn trim_end_matches(s: &str, c: char) -> (r: &str)
    ensures
        r@ == without_trailing(s@, c),
{
    let chars = chars_of(s);
    let mut end: usize = chars.len();
    assert(s@.take(s@.len() as int) =~= s@);
    while 0 < end && chars[end - 1] == c
        invariant
            chars@ == s@,
            end <= chars@.len(),
            without_trailing(s@, c) == without_trailing(s@.take(end as int), c),
        decreases end,
    {
        assert(s@.take(end as int).drop_last() =~= s@.take(end - 1));
        end = end - 1;
    }
    s.substring_char(0, end)
}

/// Tells whether `a` and `b` hold the same characters.
pub fn same(a: &str, b: &str) -> (r: bool)
    ensures
        r == (a@ == b@),
{
    a.to_owned() == b.to_owned()
}

// ---------------------------------------------------------------------------
// Building
// ---------------------------------------------------------------------------

/// `String::push` appends one character to a string.
pub assume_specification[ String::push ](s: &mut String, c: char)
    ensures
        final(s)@ == old(s)@.push(c),
;

/// `s` with `with` in the place of each `c`.
pub open spec fn replaced(s: Seq<char>, c: char, with: Seq<char>) -> Seq<char>
    decreases s.len(),
{
    if s.len() == 0 {
        s
    } else {
        replaced(s.drop_last(), c, with) + (if s.last() == c {
            with
        } else {
            seq![s.last()]
        })
    }
}

/// `s` with `with` in the place of each `c`.
pub fn replace_char(s: &str, c: char, with: &str) -> (r: String)
    ensures
        r@ == replaced(s@, c, with@),
{
    let chars = chars_of(s);
    let mut out = String::new();
    let mut i: usize = 0;
    assert(s@.take(0) =~= Seq::<char>::empty());
    while i < chars.len()
        invariant
            chars@ == s@,
            i <= chars@.len(),
            out@ == replaced(s@.take(i as int), c, with@),
        decreases chars.len() - i,
    {
        let ghost before = out@;
        assert(s@.take(i + 1).drop_last() =~= s@.take(i as int));
        if chars[i] == c {
            out.append(with);
        } else {
            out.push(chars[i]);
            assert(out@ =~= before + seq![s@[i as int]]);
        }
        i = i + 1;
    }
    assert(s@.take(i as int) =~= s@);
    out
}

/// The parts one after the other, with `separator` between them.
pub open spec fn joined(parts: Seq<Seq<char>>, separator: Seq<char>) -> Seq<char>
    decreases parts.len(),
{
    if parts.len() == 0 {
        Seq::empty()
    } else if parts.len() == 1 {
        parts[0]
    } else {
        joined(parts.drop_last(), separator) + separator + parts.last()
    }
}

/// The views of `parts`, in order.
pub open spec fn string_views(parts: Seq<String>) -> Seq<Seq<char>> {
    Seq::new(parts.len(), |i: int| parts[i]@)
}

/// The parts one after the other, with `separator` between them.
pub fn join(parts: &Vec<String>, separator: &str) -> (r: String)
    ensures
        r@ == joined(string_views(parts@), separator@),
{
    let mut out = String::new();
    let mut i: usize = 0;
    let ghost all = string_views(parts@);
    while i < parts.len()
        invariant
            i <= parts@.len(),
            all == string_views(parts@),
            out@ == joined(all.take(i as int), separator@),
        decreases parts.len() - i,
    {
        assert(all.take(i + 1).drop_last() =~= all.take(i as int));
        if i > 0 {
            out.append(separator);
        }
        let ghost before = out@;
        out.append(parts[i].as_str());
        assert(i == 0 ==> out@ =~= parts@[0]@);
        i = i + 1;
    }
    assert(all.take(i as int) =~= all);
    out
}

// ---------------------------------------------------------------------------
// ASCII case
// ---------------------------------------------------------------------------

/// `c` in ASCII lower case.
pub open spec fn lower(c: char) -> char {
    if 'A' <= c <= 'Z' {
        ((c as u8) + 32) as char
    } else {
        c
    }
}

/// `c` in ASCII upper case.
pub open spec fn upper(c: char) -> char {
    if 'a' <= c <= 'z' {
        ((c as u8) - 32) as char
    } else {
        c
    }
}

/// `s` in ASCII lower case.
pub open spec fn lowered(s: Seq<char>) -> Seq<char> {
    Seq::new(s.len(), |i: int| lower(s[i]))
}

/// `s` in ASCII upper case.
pub open spec fn uppered(s: Seq<char>) -> Seq<char> {
    Seq::new(s.len(), |i: int| upper(s[i]))
}

/// `c` in ASCII lower case.
pub fn lower_char(c: char) -> (r: char)
    ensures
        r == lower(c),
{
    if 'A' <= c && c <= 'Z' {
        ((c as u8) + 32) as char
    } else {
        c
    }
}

/// `c` in ASCII upper case.
pub fn upper_char(c: char) -> (r: char)
    ensures
        r == upper(c),
{
    if 'a' <= c && c <= 'z' {
        ((c as u8) - 32) as char
    } else {
        c
    }
}

/// `s` in ASCII lower case.
pub fn to_lower(s: &str) -> (r: String)
    ensures
        r@ == lowered(s@),
{
    let chars = chars_of(s);
    let mut out = String::new();
    let mut i: usize = 0;
    while i < chars.len()
        invariant
            chars@ == s@,
            i <= chars@.len(),
            out@ == lowered(s@).take(i as int),
        decreases chars.len() - i,
    {
        out.push(lower_char(chars[i]));
        i = i + 1;
    }
    out
}

/// `s` in ASCII upper case.
pub fn to_upper(s: &str) -> (r: String)
    ensures
        r@ == uppered(s@),
{
    let chars = chars_of(s);
    let mut out = String::new();
    let mut i: usize = 0;
    while i < chars.len()
        invariant
            chars@ == s@,
            i <= chars@.len(),
            out@ == uppered(s@).take(i as int),
        decreases chars.len() - i,
    {
        out.push(upper_char(chars[i]));
        i = i + 1;
    }
    out
}

/// Tells whether `a` and `b` are equal but for the case of ASCII letters.
pub fn same_ignoring_case(a: &str, b: &str) -> (r: bool)
    ensures
        r == (lowered(a@) == lowered(b@)),
{
    to_lower(a) == to_lower(b)
}

// ---------------------------------------------------------------------------
// Numbers
// ---------------------------------------------------------------------------

/// The digit that stands for `d`.
pub open spec fn digit(d: nat) -> char {
    (('0' as u8) + d) as char
}

/// `n` in decimal.
pub open spec fn decimal(n: nat) -> Seq<char>
    decreases n,
{
    if n < 10 {
        seq![digit(n)]
    } else {
        decimal(n / 10).push(digit(n % 10))
    }
}

/// `n` in decimal, with a minus sign where it is negative.
pub open spec fn signed_decimal(n: int) -> Seq<char> {
    if n < 0 {
        seq!['-'] + decimal((-n) as nat)
    } else {
        decimal(n as nat)
    }
}

/// `n` in decimal.
pub fn decimal_text(n: u128) -> (r: String)
    ensures
        r@ == decimal(n as nat),
    decreases n,
{
    let mut out = if n < 10 {
        String::new()
    } else {
        decimal_text(n / 10)
    };
    out.push((48u8 + (n % 10) as u8) as char);
    assert(n < 10 ==> out@ =~= decimal(n as nat));
    out
}

/// `n` in decimal, with a minus sign where it is negative.
pub fn signed_text(n: i128) -> (r: String)
    requires
        n > i128::MIN,
    ensures
        r@ == signed_decimal(n as int),
{
    if n < 0 {
        let mut out = String::new();
        out.push('-');
        out.append(decimal_text((-n) as u128).as_str());
        assert(out@ =~= signed_decimal(n as int));
        out
    } else {
        decimal_text(n as u128)
    }
}

/// Whether `s` is decimal digits only, and at least one.
pub open spec fn all_digits(s: Seq<char>) -> bool {
    s.len() > 0 && forall|i: int| 0 <= i < s.len() ==> '0' <= #[trigger] s[i] <= '9'
}

/// The number that decimal digits stand for.
pub open spec fn digits_value(s: Seq<char>) -> nat
    decreases s.len(),
{
    if s.len() == 0 {
        0
    } else {
        digits_value(s.drop_last()) * 10 + ((s.last() as u8) - ('0' as u8)) as nat
    }
}

/// `s` without one plus sign at its start.
pub open spec fn without_plus(s: Seq<char>) -> Seq<char> {
    if s.len() > 0 && s[0] == '+' {
        s.drop_first()
    } else {
        s
    }
}

/// The number that `s` stands for: an optional plus sign, then digits, at most `max`.
pub open spec fn unsigned_value(s: Seq<char>, max: nat) -> Option<nat> {
    if all_digits(without_plus(s)) && digits_value(without_plus(s)) <= max {
        Some(digits_value(without_plus(s)))
    } else {
        None
    }
}

proof fn lemma_digits_value_grows(s: Seq<char>, k: int)
    requires
        0 <= k <= s.len(),
    ensures
        digits_value(s.take(k)) <= digits_value(s),
    decreases s.len() - k,
{
    if k == s.len() {
        assert(s.take(k) =~= s);
    } else {
        lemma_digits_value_grows(s, k + 1);
        assert(s.take(k + 1).drop_last() =~= s.take(k));
    }
}

/// The number that `s` stands for: an optional plus sign, then digits, at most `max`.
pub fn parse_unsigned(s: &str, max: u64) -> (r: Option<u64>)
    ensures
        match r {
            Some(n) => unsigned_value(s@, max as nat) == Some(n as nat),
            None => unsigned_value(s@, max as nat) is None,
        },
{
    let chars = chars_of(s);
    let start: usize = if chars.len() > 0 && chars[0] == '+' {
        1
    } else {
        0
    };
    let ghost digits = without_plus(s@);
    assert(digits =~= s@.skip(start as int));
    if start == chars.len() {
        return None;
    }
    let mut value: u64 = 0;
    let mut i: usize = start;
    assert(digits.take(0) =~= Seq::<char>::empty());
    while i < chars.len()
        invariant
            chars@ == s@,
            start <= i <= chars@.len(),
            digits == without_plus(s@),
            digits == s@.skip(start as int),
            forall|j: int| 0 <= j < i - start ==> '0' <= #[trigger] digits[j] <= '9',
            value == digits_value(digits.take(i - start)),
            value <= max,
        decreases chars.len() - i,
    {
        let c = chars[i];
        assert(c == digits[i - start]);
        assert(digits.take(i - start + 1).drop_last() =~= digits.take(i - start));
        if c < '0' || '9' < c {
            return None;
        }
        let next: u128 = value as u128 * 10 + ((c as u8) - 48u8) as u128;
        assert(next == digits_value(digits.take(i - start + 1)));
        if next > max as u128 {
            proof {
                lemma_digits_value_grows(digits, i - start + 1);
            }
            return None;
        }
        value = next as u64;
        i = i + 1;
    }
    assert(digits.take(i - start) =~= digits);
    Some(value)
}

/// Decimal text is digits, and stands for the number it was made from.
pub proof fn lemma_decimal(n: nat)
    ensures
        all_digits(decimal(n)),
        digits_value(decimal(n)) == n,
        without_plus(decimal(n)) == decimal(n),
    decreases n,
{
    let d = decimal(n);
    if n < 10 {
        assert(d.drop_last() =~= Seq::<char>::empty());
        assert(digits_value(d.drop_last()) == 0);
    } else {
        lemma_decimal(n / 10);
        assert(d.drop_last() =~= decimal(n / 10));
        assert(d.last() == digit(n % 10));
        assert forall|i: int| 0 <= i < d.len() implies '0' <= #[trigger] d[i] <= '9' by {
            if i < d.len() - 1 {
                assert(d[i] == decimal(n / 10)[i]);
            }
        }
        assert(d[0] == decimal(n / 10)[0]);
    }
}

// ---------------------------------------------------------------------------
// Bytes
// ---------------------------------------------------------------------------

/// The text that `String::from_utf8_lossy` reads from `bytes`.
pub uninterp spec fn lossy_text(bytes: Seq<u8>) -> Seq<char>;

/// `String::from_utf8_lossy`: the text that `bytes` encode, with replacement characters in the
/// place of what is not UTF-8. Bytes that are UTF-8 are decoded.
#[verifier::external_body]
pub(crate) fn lossy(bytes: &[u8]) -> (r: String)
    ensures
        r@ == lossy_text(bytes@),
        vstd::utf8::valid_utf8(bytes@) ==> r@ == vstd::utf8::decode_utf8(bytes@),
{
    String::from_utf8_lossy(bytes).into_owned()
}

/// The text that the first `limit` bytes encode.
pub open spec fn beginning(bytes: Seq<u8>, limit: nat) -> Seq<char> {
    lossy_text(bytes.take(if bytes.len() < limit {
        bytes.len() as int
    } else {
        limit as int
    }))
}

/// The text that the first `limit` bytes encode.
pub fn beginning_of(bytes: &[u8], limit: usize) -> (r: String)
    ensures
        r@ == beginning(bytes@, limit as nat),
{
    let end = if bytes.len() < limit {
        bytes.len()
    } else {
        limit
    };
    assert(bytes@.subrange(0, end as int) =~= bytes@.take(end as int));
    lossy(vstd::slice::slice_subrange(bytes, 0, end))
}

// ---------------------------------------------------------------------------
// What holds of every text
// ---------------------------------------------------------------------------

/// A text has something to it where one of its characters is no white space; and of a text that
/// may be absent, the characters are those of the text.
pub proof fn law_text_is_what_is_not_blank(s: Seq<char>, value: String)
    ensures
        has_text(s) <==> exists|i: int| 0 <= i < s.len() && !white_space(#[trigger] s[i]),
        chars(Some(value)) == Some(value@),
        chars(None) is None,
        present(Some(value)) <==> has_text(value@),
        !present(None),
    decreases s.len(),
{
    lemma_blank_start(s);
    lemma_trimmed_end(trimmed_start(s));
    let start = trimmed_start(s);
    if start.len() > 0 {
        lemma_trimmed_start(s);
        lemma_kept_start(start);
    }
}

/// What has leading white space taken away is empty exactly where all of it is white space.
proof fn lemma_blank_start(s: Seq<char>)
    ensures
        trimmed_start(s).len() > 0 <==> exists|i: int| 0 <= i < s.len() && !white_space(
            #[trigger] s[i],
        ),
    decreases s.len(),
{
    if s.len() > 0 {
        let rest = s.drop_first();
        lemma_blank_start(rest);
        if white_space(s[0]) {
            if exists|i: int| 0 <= i < s.len() && !white_space(#[trigger] s[i]) {
                let i = choose|i: int| 0 <= i < s.len() && !white_space(#[trigger] s[i]);
                assert(rest[i - 1] == s[i]);
            }
            if exists|i: int| 0 <= i < rest.len() && !white_space(#[trigger] rest[i]) {
                let i = choose|i: int| 0 <= i < rest.len() && !white_space(#[trigger] rest[i]);
                assert(s[i + 1] == rest[i]);
            }
        } else {
            assert(!white_space(s[0]));
        }
    }
}

/// A text that begins with something else than white space keeps that at its end.
proof fn lemma_kept_start(s: Seq<char>)
    requires
        s.len() > 0,
        !white_space(s[0]),
    ensures
        trimmed_end(s).len() > 0,
    decreases s.len(),
{
    if white_space(s.last()) {
        assert(s.drop_last()[0] == s[0]);
        lemma_kept_start(s.drop_last());
    }
}

/// Fields end at separators: what precedes the first one is the first field, and the others are
/// those of what follows. There are no more than were asked for, and the last one is all that is
/// left.
pub proof fn law_fields_end_at_separators(head: Seq<char>, tail: Seq<char>, n: nat, c: char)
    requires
        forall|i: int| 0 <= i < head.len() ==> head[i] != c,
    ensures
        n > 1 ==> fields_of(head + seq![c] + tail, n, c) == seq![head] + fields_of(
            tail,
            (n - 1) as nat,
            c,
        ),
        fields_of(head, n, c) == seq![head],
        fields_of(tail, 1, c) == seq![tail],
{
    let s = head + seq![c] + tail;
    assert(s[head.len() as int] == c);
    assert(s.contains(c));
    lemma_first_index_is(s, c, head.len() as int);
    assert(s.take(head.len() as int) =~= head);
    assert(s.skip(head.len() as int + 1) =~= tail);
}

/// A text is cut at the first separator, which is left out; where there is none, it is not cut.
pub proof fn law_cut_is_at_the_first(head: Seq<char>, tail: Seq<char>, c: char)
    requires
        forall|i: int| 0 <= i < head.len() ==> head[i] != c,
    ensures
        split_at_first(head + seq![c] + tail, c) == Some((head, tail)),
        split_at_first(head, c) is None,
{
    let s = head + seq![c] + tail;
    assert(s[head.len() as int] == c);
    lemma_first_index_is(s, c, head.len() as int);
    assert(s.take(head.len() as int) =~= head);
    assert(s.skip(head.len() as int + 1) =~= tail);
}

/// Characters are counted one by one.
pub proof fn law_occurrences_are_counted(s: Seq<char>, c: char, next: char)
    ensures
        occurrences(Seq::empty(), c) == 0,
        occurrences(s.push(c), c) == occurrences(s, c) + 1,
        next != c ==> occurrences(s.push(next), c) == occurrences(s, c),
{
    assert(s.push(c).drop_last() =~= s);
    assert(s.push(next).drop_last() =~= s);
}

/// A text begins with what stands before the rest of it, and with nothing else.
pub proof fn law_beginning_is_what_comes_first(prefix: Seq<char>, rest: Seq<char>, s: Seq<char>)
    ensures
        begins_with(prefix + rest, prefix),
        begins_with(s, prefix) ==> s == prefix + s.skip(prefix.len() as int),
{
    assert((prefix + rest).take(prefix.len() as int) =~= prefix);
    if begins_with(s, prefix) {
        assert(s =~= s.take(prefix.len() as int) + s.skip(prefix.len() as int));
    }
}

/// What is taken away at an end is every `c` there, and nothing else.
pub proof fn law_ends_lose_one_character(s: Seq<char>, c: char)
    ensures
        without_leading(seq![c] + s, c) == without_leading(s, c),
        without_trailing(s.push(c), c) == without_trailing(s, c),
        s.len() == 0 || s[0] != c ==> without_leading(s, c) == s,
        s.len() == 0 || s.last() != c ==> without_trailing(s, c) == s,
{
    assert((seq![c] + s).drop_first() =~= s);
    assert(s.push(c).drop_last() =~= s);
}

/// A text is rewritten character by character: `with` stands for each `c`, and each other
/// character for itself.
pub proof fn law_replacing_goes_by_characters(s: Seq<char>, c: char, with: Seq<char>, next: char)
    ensures
        replaced(Seq::empty(), c, with) == Seq::<char>::empty(),
        replaced(s.push(c), c, with) == replaced(s, c, with) + with,
        next != c ==> replaced(s.push(next), c, with) == replaced(s, c, with).push(next),
{
    assert(s.push(c).drop_last() =~= s);
    assert(s.push(next).drop_last() =~= s);
    assert(replaced(s, c, with) + seq![next] =~= replaced(s, c, with).push(next));
}

/// A separator stands between parts, and neither before the first nor after the last.
pub proof fn law_separators_stand_between(
    parts: Seq<Seq<char>>,
    next: Seq<char>,
    separator: Seq<char>,
)
    ensures
        joined(Seq::empty(), separator) == Seq::<char>::empty(),
        joined(seq![next], separator) == next,
        parts.len() > 0 ==> joined(parts.push(next), separator) == joined(parts, separator)
            + separator + next,
{
    assert(parts.push(next).drop_last() =~= parts);
}

/// Case is that of the twenty-six letters of ASCII, which lie thirty-two apart; every other
/// character stays, and so does the length of a text.
pub proof fn law_case_is_that_of_ascii(c: char, s: Seq<char>)
    ensures
        65 <= c as u32 <= 90 ==> lower(c) as u32 == c as u32 + 32 && upper(c) == c,
        97 <= c as u32 <= 122 ==> upper(c) as u32 == c as u32 - 32 && lower(c) == c,
        !(65 <= c as u32 <= 90) && !(97 <= c as u32 <= 122) ==> lower(c) == c && upper(c) == c,
        lowered(s).len() == s.len(),
        uppered(s).len() == s.len(),
        forall|i: int| 0 <= i < s.len() ==> #[trigger] lowered(s)[i] == lower(s[i]),
        forall|i: int| 0 <= i < s.len() ==> #[trigger] uppered(s)[i] == upper(s[i]),
{
}

/// A number is written with its ones last, its tens before them, and so on, without a leading zero;
/// a negative one is written as the positive one after a minus sign.
pub proof fn law_numbers_are_written_in_tens(n: nat, d: nat)
    requires
        d < 10,
    ensures
        decimal(d) == seq![(48 + d) as char],
        n > 0 ==> decimal(10 * n + d) == decimal(n).push((48 + d) as char),
        signed_decimal(n as int) == decimal(n),
        n > 0 ==> signed_decimal(-n) == seq!['-'] + decimal(n),
        n > 0 ==> decimal(n)[0] != '0',
    decreases n,
{
    assert((10 * n + d) / 10 == n && (10 * n + d) % 10 == d);
    if n >= 10 {
        law_numbers_are_written_in_tens(n / 10, 0);
        lemma_decimal(n / 10);
        assert(decimal(n)[0] == decimal(n / 10)[0]);
    }
}

/// Digits are read in tens, and a plus sign may stand before them. Whatever else stands in a text,
/// or a number over the limit, is no number.
pub proof fn law_numbers_are_read_in_tens(s: Seq<char>, d: nat, n: nat, max: nat)
    requires
        d < 10,
    ensures
        digits_value(Seq::empty()) == 0,
        digits_value(s.push((48 + d) as char)) == 10 * digits_value(s) + d,
        unsigned_value(decimal(n), max) == (if n <= max {
            Some(n)
        } else {
            None
        }),
        unsigned_value(seq!['+'] + decimal(n), max) == unsigned_value(decimal(n), max),
        unsigned_value(s, max) is Some ==> {
            &&& s.len() > 0
            &&& unsigned_value(s, max)->0 <= max
            &&& forall|i: int| 0 < i < s.len() ==> 48 <= (#[trigger] s[i]) as u32 <= 57
            &&& s[0] == '+' || 48 <= s[0] as u32 <= 57
            &&& s[0] != '+' ==> unsigned_value(s, max)->0 == digits_value(s)
        },
{
    let c = (48 + d) as char;
    assert(s.push(c).drop_last() =~= s);
    lemma_decimal(n);
    assert((seq!['+'] + decimal(n)).drop_first() =~= decimal(n));
    if unsigned_value(s, max) is Some {
        let digits = without_plus(s);
        assert forall|i: int| 0 < i < s.len() implies 48 <= (#[trigger] s[i]) as u32 <= 57 by {
            if s[0] == '+' {
                assert('0' <= digits[i - 1] <= '9');
            } else {
                assert('0' <= digits[i] <= '9');
            }
        }
        if s[0] != '+' {
            assert('0' <= digits[0] <= '9');
        }
    }
}

/// No more than the first `limit` bytes are read, and all of them where there are no more.
pub proof fn law_beginning_is_limited(bytes: Seq<u8>, limit: nat)
    ensures
        bytes.len() <= limit ==> beginning(bytes, limit) == lossy_text(bytes),
        bytes.len() > limit ==> beginning(bytes, limit) == lossy_text(bytes.take(limit as int)),
{
    assert(bytes.take(bytes.len() as int) =~= bytes);
}

} // verus!
