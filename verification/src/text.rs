//! Text primitives: the character classes, trimming, searching and splitting
//! that the gateway's rules are written in.
//!
//! A `str` or `String` is modelled by its sequence of characters.
use vstd::prelude::*;

verus! {

/// `String::push`: the character is appended, and nothing else changes.
pub assume_specification[ String::push ](s: &mut String, c: char)
    ensures
        final(s)@ == old(s)@.push(c),
;

/// The Unicode `White_Space` property.
pub open spec fn white_space(c: char) -> bool {
    let n = c as u32;
    ||| 0x09 <= n <= 0x0d
    ||| n == 0x20
    ||| n == 0x85
    ||| n == 0xa0
    ||| n == 0x1680
    ||| 0x2000 <= n <= 0x200a
    ||| n == 0x2028
    ||| n == 0x2029
    ||| n == 0x202f
    ||| n == 0x205f
    ||| n == 0x3000
}

/// The Unicode general category `Cc`.
pub open spec fn control(c: char) -> bool {
    let n = c as u32;
    n <= 0x1f || 0x7f <= n <= 0x9f
}

/// ASCII letters lose their case; every other character stays.
pub open spec fn lower(c: char) -> char {
    if 'A' <= c <= 'Z' {
        ((c as u32) + 32) as char
    } else {
        c
    }
}

/// `lower` on every character.
pub open spec fn lowered(s: Seq<char>) -> Seq<char> {
    Seq::new(s.len(), |i: int| lower(s[i]))
}

/// `s` without its leading white space.
pub open spec fn trim_start(s: Seq<char>) -> Seq<char>
    decreases s.len(),
{
    if s.len() > 0 && white_space(s[0]) {
        trim_start(s.skip(1))
    } else {
        s
    }
}

/// `s` without its trailing white space.
pub open spec fn trim_end(s: Seq<char>) -> Seq<char>
    decreases s.len(),
{
    if s.len() > 0 && white_space(s.last()) {
        trim_end(s.drop_last())
    } else {
        s
    }
}

/// `s` without white space at either end.
pub open spec fn trimmed(s: Seq<char>) -> Seq<char> {
    trim_end(trim_start(s))
}

/// `s` without the run of `c` at its start.
pub open spec fn strip_leading(s: Seq<char>, c: char) -> Seq<char>
    decreases s.len(),
{
    if s.len() > 0 && s[0] == c {
        strip_leading(s.skip(1), c)
    } else {
        s
    }
}

/// `s` without the run of `c` at its end.
pub open spec fn strip_trailing(s: Seq<char>, c: char) -> Seq<char>
    decreases s.len(),
{
    if s.len() > 0 && s.last() == c {
        strip_trailing(s.drop_last(), c)
    } else {
        s
    }
}

/// `prefix` opens `s`.
pub open spec fn has_prefix(s: Seq<char>, prefix: Seq<char>) -> bool {
    prefix.len() <= s.len() && s.take(prefix.len() as int) == prefix
}

/// `suffix` closes `s`.
pub open spec fn has_suffix(s: Seq<char>, suffix: Seq<char>) -> bool {
    suffix.len() <= s.len() && s.skip(s.len() - suffix.len()) == suffix
}

/// The pieces of `s` between the occurrences of `sep`; there is always at
/// least one piece.
pub open spec fn pieces(s: Seq<char>, sep: char) -> Seq<Seq<char>>
    decreases s.len(),
{
    if s.len() == 0 {
        seq![Seq::<char>::empty()]
    } else {
        let before = pieces(s.drop_last(), sep);
        if s.last() == sep {
            before.push(Seq::<char>::empty())
        } else {
            before.drop_last().push(before.last().push(s.last()))
        }
    }
}

/// The place of the first `c` in `s`, or the length of `s` where there is none.
pub open spec fn first_at(s: Seq<char>, c: char) -> int
    decreases s.len(),
{
    if s.len() == 0 || s[0] == c {
        0
    } else {
        1 + first_at(s.skip(1), c)
    }
}

/// The place of the last `c` in `s`, or -1 where there is none.
pub open spec fn last_at(s: Seq<char>, c: char) -> int
    decreases s.len(),
{
    if s.len() == 0 {
        -1
    } else if s.last() == c {
        s.len() - 1
    } else {
        last_at(s.drop_last(), c)
    }
}

/// The views of a sequence of strings.
pub open spec fn texts(strings: Seq<String>) -> Seq<Seq<char>> {
    Seq::new(strings.len(), |i: int| strings[i]@)
}

pub fn is_white_space(c: char) -> (result: bool)
    ensures
        result == white_space(c),
{
    let n: u32 = c as u32;
    (0x09 <= n && n <= 0x0d) || n == 0x20 || n == 0x85 || n == 0xa0 || n == 0x1680 || (0x2000 <= n
        && n <= 0x200a) || n == 0x2028 || n == 0x2029 || n == 0x202f || n == 0x205f || n == 0x3000
}

pub fn is_control(c: char) -> (result: bool)
    ensures
        result == control(c),
{
    let n: u32 = c as u32;
    n <= 0x1f || (0x7f <= n && n <= 0x9f)
}

pub fn to_lower(c: char) -> (result: char)
    ensures
        result == lower(c),
{
    if 'A' <= c && c <= 'Z' {
        (c as u8 + 32) as char
    } else {
        c
    }
}

/// The characters of `s`.
pub fn chars_of(s: &str) -> (result: Vec<char>)
    ensures
        result@ == s@,
{
    let mut out: Vec<char> = Vec::new();
    for c in it: s.chars()
        invariant
            it.seq() == s@,
            out@ == s@.take(it.index()),
    {
        out.push(c);
    }
    out
}

/// The text that stands in `chars` from `from` up to `to`.
pub fn text_between(chars: &Vec<char>, from: usize, to: usize) -> (result: String)
    requires
        from <= to <= chars@.len(),
    ensures
        result@ == chars@.subrange(from as int, to as int),
{
    let mut out = String::new();
    let mut i: usize = from;
    while i < to
        invariant
            from <= i <= to <= chars@.len(),
            out@ == chars@.subrange(from as int, i as int),
        decreases to - i,
    {
        out.push(chars[i]);
        i += 1;
    }
    out
}

/// Whether two texts are the same, character by character.
pub fn same_text(a: &str, b: &str) -> (result: bool)
    ensures
        result == (a@ == b@),
{
    let x = chars_of(a);
    let y = chars_of(b);
    if x.len() != y.len() {
        return false;
    }
    let mut i: usize = 0;
    while i < x.len()
        invariant
            i <= x@.len(),
            x@ == a@,
            y@ == b@,
            x@.len() == y@.len(),
            forall|j: int| 0 <= j < i ==> x@[j] == y@[j],
        decreases x@.len() - i,
    {
        if x[i] != y[i] {
            return false;
        }
        i += 1;
    }
    assert(a@ =~= b@);
    true
}

/// `text` in an owned string.
pub fn owned(text: &str) -> (result: String)
    ensures
        result@ == text@,
{
    text.to_owned()
}

/// The bounds in `chars` of what `trimmed` leaves of the part from `from` up to `to`.
pub fn trim_bounds(chars: &Vec<char>, from: usize, to: usize) -> (result: (usize, usize))
    requires
        from <= to <= chars@.len(),
    ensures
        from <= result.0 <= result.1 <= to,
        chars@.subrange(result.0 as int, result.1 as int) == trimmed(
            chars@.subrange(from as int, to as int),
        ),
{
    let ghost whole = chars@.subrange(from as int, to as int);
    let mut start: usize = from;
    while start < to && is_white_space(chars[start])
        invariant
            from <= start <= to <= chars@.len(),
            whole == chars@.subrange(from as int, to as int),
            trim_start(chars@.subrange(start as int, to as int)) == trim_start(whole),
        decreases to - start,
    {
        assert(chars@.subrange(start as int, to as int).skip(1) =~= chars@.subrange(
            start + 1,
            to as int,
        ));
        start += 1;
    }
    let ghost tail = chars@.subrange(start as int, to as int);
    let mut end: usize = to;
    while start < end && is_white_space(chars[end - 1])
        invariant
            start <= end <= to <= chars@.len(),
            tail == chars@.subrange(start as int, to as int),
            trim_end(chars@.subrange(start as int, end as int)) == trim_end(tail),
        decreases end - start,
    {
        assert(chars@.subrange(start as int, end as int).drop_last() =~= chars@.subrange(
            start as int,
            end - 1,
        ));
        end -= 1;
    }
    (start, end)
}

/// The end in `chars` of what `strip_trailing` leaves of the part from `from` up to `to`.
pub fn strip_trailing_bound(chars: &Vec<char>, from: usize, to: usize, c: char) -> (result: usize)
    requires
        from <= to <= chars@.len(),
    ensures
        from <= result <= to,
        chars@.subrange(from as int, result as int) == strip_trailing(
            chars@.subrange(from as int, to as int),
            c,
        ),
{
    let ghost whole = chars@.subrange(from as int, to as int);
    let mut end: usize = to;
    while from < end && chars[end - 1] == c
        invariant
            from <= end <= to <= chars@.len(),
            whole == chars@.subrange(from as int, to as int),
            strip_trailing(chars@.subrange(from as int, end as int), c) == strip_trailing(whole, c),
        decreases end - from,
    {
        assert(chars@.subrange(from as int, end as int).drop_last() =~= chars@.subrange(
            from as int,
            end - 1,
        ));
        end -= 1;
    }
    end
}

/// The start in `chars` of what `strip_leading` leaves of it.
pub fn strip_leading_bound(chars: &Vec<char>, c: char) -> (result: usize)
    ensures
        result <= chars@.len(),
        chars@.skip(result as int) == strip_leading(chars@, c),
{
    let mut start: usize = 0;
    assert(chars@.skip(0) =~= chars@);
    while start < chars.len() && chars[start] == c
        invariant
            start <= chars@.len(),
            strip_leading(chars@.skip(start as int), c) == strip_leading(chars@, c),
        decreases chars@.len() - start,
    {
        assert(chars@.skip(start as int).skip(1) =~= chars@.skip(start + 1));
        start += 1;
    }
    start
}

/// The part of `chars` from `from` up to `to`, with its ASCII letters in lower case.
pub fn lower_between(chars: &Vec<char>, from: usize, to: usize) -> (result: String)
    requires
        from <= to <= chars@.len(),
    ensures
        result@ == lowered(chars@.subrange(from as int, to as int)),
{
    let mut out = String::new();
    let mut i: usize = from;
    while i < to
        invariant
            from <= i <= to <= chars@.len(),
            out@ == lowered(chars@.subrange(from as int, i as int)),
        decreases to - i,
    {
        out.push(to_lower(chars[i]));
        i += 1;
    }
    out
}

/// Whether `prefix` stands in `chars` at `at`.
pub fn matches_at(chars: &Vec<char>, at: usize, prefix: &str) -> (result: bool)
    requires
        at <= chars@.len(),
    ensures
        result == has_prefix(chars@.skip(at as int), prefix@),
{
    let wanted = chars_of(prefix);
    if chars.len() - at < wanted.len() {
        return false;
    }
    let mut i: usize = 0;
    while i < wanted.len()
        invariant
            wanted@ == prefix@,
            i <= wanted@.len(),
            at + wanted@.len() <= chars@.len() <= usize::MAX,
            forall|j: int| 0 <= j < i ==> chars@[at + j] == wanted@[j],
        decreases wanted@.len() - i,
    {
        if chars[at + i] != wanted[i] {
            assert(chars@.skip(at as int).take(wanted@.len() as int)[i as int] != wanted@[i as int]);
            return false;
        }
        i += 1;
    }
    assert(chars@.skip(at as int).take(wanted@.len() as int) =~= wanted@);
    true
}

/// Whether `text` ends in `suffix`.
pub fn ends_in(text: &str, suffix: &str) -> (result: bool)
    ensures
        result == has_suffix(text@, suffix@),
{
    let chars = chars_of(text);
    let wanted = chars_of(suffix);
    if chars.len() < wanted.len() {
        return false;
    }
    let at: usize = chars.len() - wanted.len();
    assert(chars@.skip(at as int).take(wanted@.len() as int) =~= chars@.skip(at as int));
    matches_at(&chars, at, suffix)
}

/// Nothing that was stripped is left at the end.
pub proof fn lemma_strip_trailing(s: Seq<char>, c: char)
    ensures
        strip_trailing(s, c).len() > 0 ==> strip_trailing(s, c).last() != c,
    decreases s.len(),
{
    if s.len() > 0 && s.last() == c {
        lemma_strip_trailing(s.drop_last(), c);
    }
}

/// The first place is within the text where the character occurs, and past its
/// end where it does not.
pub proof fn lemma_first_at(s: Seq<char>, c: char)
    ensures
        0 <= first_at(s, c) <= s.len(),
        first_at(s, c) < s.len() <==> s.contains(c),
        first_at(s, c) < s.len() ==> s[first_at(s, c)] == c,
        forall|i: int| 0 <= i < first_at(s, c) ==> #[trigger] s[i] != c,
    decreases s.len(),
{
    if s.len() > 0 && s[0] != c {
        let rest = s.skip(1);
        lemma_first_at(rest, c);
        assert forall|i: int| 0 <= i < first_at(s, c) implies #[trigger] s[i] != c by {
            if i > 0 {
                assert(rest[i - 1] == s[i]);
            }
        }
        if s.contains(c) {
            let p = choose|p: int| 0 <= p < s.len() && s[p] == c;
            assert(rest[p - 1] == c);
        }
    } else if s.len() > 0 {
        assert(s[0] == c);
    }
}

/// The first place from `from` on, before `to`, where `c` stands.
pub fn find_first(chars: &Vec<char>, from: usize, to: usize, c: char) -> (result: Option<usize>)
    requires
        from <= to <= chars@.len(),
    ensures
        match result {
            Some(i) => from <= i < to && i == from + first_at(
                chars@.subrange(from as int, to as int),
                c,
            ),
            None => from + first_at(chars@.subrange(from as int, to as int), c) == to,
        },
{
    let ghost part = chars@.subrange(from as int, to as int);
    let mut i: usize = from;
    while i < to
        invariant
            from <= i <= to <= chars@.len(),
            part == chars@.subrange(from as int, to as int),
            first_at(part, c) == (i - from) + first_at(chars@.subrange(i as int, to as int), c),
        decreases to - i,
    {
        if chars[i] == c {
            return Some(i);
        }
        assert(chars@.subrange(i as int, to as int).skip(1) =~= chars@.subrange(i + 1, to as int));
        i += 1;
    }
    None
}

/// The last place from `from` on, before `to`, where `c` stands.
pub fn find_last(chars: &Vec<char>, from: usize, to: usize, c: char) -> (result: Option<usize>)
    requires
        from <= to <= chars@.len(),
    ensures
        match result {
            Some(i) => from <= i < to && i == from + last_at(
                chars@.subrange(from as int, to as int),
                c,
            ),
            None => last_at(chars@.subrange(from as int, to as int), c) == -1,
        },
{
    let ghost part = chars@.subrange(from as int, to as int);
    let mut end: usize = to;
    while from < end
        invariant
            from <= end <= to <= chars@.len(),
            part == chars@.subrange(from as int, to as int),
            last_at(part, c) == last_at(chars@.subrange(from as int, end as int), c),
        decreases end - from,
    {
        if chars[end - 1] == c {
            return Some(end - 1);
        }
        assert(chars@.subrange(from as int, end as int).drop_last() =~= chars@.subrange(
            from as int,
            end - 1,
        ));
        end -= 1;
    }
    None
}

/// `text` cut at each `sep`.
pub fn split_on(text: &str, sep: char) -> (result: Vec<String>)
    ensures
        texts(result@) == pieces(text@, sep),
        result@.len() > 0,
{
    let chars = chars_of(text);
    let mut out: Vec<String> = Vec::new();
    let mut open = String::new();
    let mut i: usize = 0;
    proof {
        assert(chars@.take(0) =~= Seq::<char>::empty());
        assert(texts(out@).push(open@) =~= pieces(chars@.take(0), sep));
    }
    while i < chars.len()
        invariant
            i <= chars@.len(),
            chars@ == text@,
            texts(out@).push(open@) == pieces(chars@.take(i as int), sep),
        decreases chars@.len() - i,
    {
        let c = chars[i];
        let ghost before = texts(out@).push(open@);
        proof {
            assert(chars@.take(i + 1).drop_last() =~= chars@.take(i as int));
            assert(chars@.take(i + 1).last() == c);
            assert(before.drop_last() =~= texts(out@));
        }
        if c == sep {
            out.push(open);
            assert(texts(out@) =~= before);
            open = String::new();
        } else {
            open.push(c);
        }
        assert(texts(out@).push(open@) =~= pieces(chars@.take(i + 1), sep));
        i += 1;
    }
    assert(chars@.take(i as int) =~= text@);
    let ghost last = open@;
    let ghost done = texts(out@);
    out.push(open);
    assert(texts(out@) =~= done.push(last));
    out
}

} // verus!
