//! Text, character by character: white space, trimming, splitting into
//! fields and lines, and comparing with a prefix.

use vstd::prelude::*;

verus! {

/// `c` is white space: one of U+0009 to U+000D, U+0020, U+0085, U+00A0,
/// U+1680, U+2000 to U+200A, U+2028, U+2029, U+202F, U+205F and U+3000.
pub open spec fn is_whitespace(c: char) -> bool {
    let n = c as u32;
    ||| 0x09 <= n <= 0x0D
    ||| n == 0x20
    ||| n == 0x85
    ||| n == 0xA0
    ||| n == 0x1680
    ||| 0x2000 <= n <= 0x200A
    ||| n == 0x2028
    ||| n == 0x2029
    ||| n == 0x202F
    ||| n == 0x205F
    ||| n == 0x3000
}

/// `s` without the white space at its start.
pub open spec fn trim_start(s: Seq<char>) -> Seq<char>
    decreases s.len(),
{
    if s.len() > 0 && is_whitespace(s[0]) {
        trim_start(s.drop_first())
    } else {
        s
    }
}

/// `s` without the run of `c` at its end.
pub open spec fn trim_end_of(s: Seq<char>, c: char) -> Seq<char>
    decreases s.len(),
{
    if s.len() > 0 && s.last() == c {
        trim_end_of(s.drop_last(), c)
    } else {
        s
    }
}

/// `s` without the white space at its end.
pub open spec fn trim_end(s: Seq<char>) -> Seq<char>
    decreases s.len(),
{
    if s.len() > 0 && is_whitespace(s.last()) {
        trim_end(s.drop_last())
    } else {
        s
    }
}

/// `s` without the white space at its start and at its end.
pub open spec fn trim(s: Seq<char>) -> Seq<char> {
    trim_end(trim_start(s))
}

/// The number of characters of `s` before its first white space; the length
/// of `s` if it has none.
pub open spec fn field_len(s: Seq<char>) -> nat
    decreases s.len(),
{
    if s.len() == 0 || is_whitespace(s[0]) {
        0
    } else {
        1 + field_len(s.drop_first())
    }
}

/// The fields of `s`: the stretches between its white space characters. Each
/// white space character ends a field, so two in a row hold an empty field
/// between them, and there is always at least one field.
pub open spec fn fields(s: Seq<char>) -> Seq<Seq<char>>
    decreases s.len(),
{
    let n = field_len(s) as int;
    if n >= s.len() {
        seq![s]
    } else {
        seq![s.take(n)] + fields(s.skip(n + 1))
    }
}

/// The number of characters of `s` before its first line feed; the length of
/// `s` if it has none.
pub open spec fn line_len(s: Seq<char>) -> nat
    decreases s.len(),
{
    if s.len() == 0 || s[0] == '\n' {
        0
    } else {
        1 + line_len(s.drop_first())
    }
}

/// The lines of `s`, each with the line feed that ends it. The last line has
/// none if the text does not end in one; an empty text has no line.
pub open spec fn lines(s: Seq<char>) -> Seq<Seq<char>>
    decreases s.len(),
{
    let n = line_len(s) as int;
    if s.len() == 0 {
        Seq::empty()
    } else if n >= s.len() {
        seq![s]
    } else {
        seq![s.take(n + 1)] + lines(s.skip(n + 1))
    }
}

/// The characters of `text`, one by one.
pub fn chars_of(text: &str) -> (chars: Vec<char>)
    ensures
        chars@ == text@,
{
    let mut chars: Vec<char> = Vec::new();
    for c in it: text.chars()
        invariant
            it.seq() == text@,
            chars@ == text@.take(it.index() as int),
    {
        chars.push(c);
    }
    chars
}

/// Tells whether `c` is white space.
pub fn char_is_whitespace(c: char) -> (b: bool)
    ensures
        b == is_whitespace(c),
{
    let n: u32 = c as u32;
    (0x09 <= n && n <= 0x0D) || n == 0x20 || n == 0x85 || n == 0xA0 || n == 0x1680 || (0x2000 <= n
        && n <= 0x200A) || n == 0x2028 || n == 0x2029 || n == 0x202F || n == 0x205F || n == 0x3000
}

/// Where the trimmed text lies in `chars`: it runs from `bounds.0` up to, not
/// including, `bounds.1`.
pub fn trim_bounds(chars: &Vec<char>) -> (bounds: (usize, usize))
    ensures
        bounds.0 <= bounds.1 <= chars@.len(),
        chars@.subrange(bounds.0 as int, bounds.1 as int) == trim(chars@),
{
    let len: usize = chars.len();
    let mut start: usize = 0;
    assert(chars@.skip(0) =~= chars@);
    while start < len && char_is_whitespace(chars[start])
        invariant
            start <= len,
            len == chars@.len(),
            trim_start(chars@) == trim_start(chars@.skip(start as int)),
        decreases len - start,
    {
        assert(chars@.skip(start as int).drop_first() =~= chars@.skip(start + 1));
        start += 1;
    }
    let ghost front = chars@.skip(start as int);
    let mut end: usize = len;
    while end > start && char_is_whitespace(chars[end - 1])
        invariant
            start <= end <= len,
            len == chars@.len(),
            trim_end(front) == trim_end(chars@.subrange(start as int, end as int)),
        decreases end,
    {
        assert(chars@.subrange(start as int, end as int).drop_last() =~= chars@.subrange(
            start as int,
            end - 1,
        ));
        end -= 1;
    }
    (start, end)
}

/// Where the text without the run of `c` at its end stops in `chars`.
pub fn trim_end_of_bound(chars: &Vec<char>, c: char) -> (end: usize)
    ensures
        end <= chars@.len(),
        chars@.take(end as int) == trim_end_of(chars@, c),
{
    let mut end: usize = chars.len();
    assert(chars@.take(end as int) =~= chars@);
    while end > 0 && chars[end - 1] == c
        invariant
            end <= chars@.len(),
            trim_end_of(chars@, c) == trim_end_of(chars@.take(end as int), c),
        decreases end,
    {
        assert(chars@.take(end as int).drop_last() =~= chars@.take(end - 1));
        end -= 1;
    }
    end
}

/// Where the field that starts at `from` ends in `chars`.
pub fn field_end(chars: &Vec<char>, from: usize) -> (end: usize)
    requires
        from <= chars@.len(),
    ensures
        from <= end <= chars@.len(),
        end - from == field_len(chars@.skip(from as int)),
{
    let len: usize = chars.len();
    let mut end: usize = from;
    while end < len && !char_is_whitespace(chars[end])
        invariant
            from <= end <= len,
            len == chars@.len(),
            field_len(chars@.skip(from as int)) == (end - from) + field_len(
                chars@.skip(end as int),
            ),
        decreases len - end,
    {
        assert(chars@.skip(end as int).drop_first() =~= chars@.skip(end + 1));
        end += 1;
    }
    end
}

/// Where the line that starts at `from` ends in `chars`.
pub fn line_end(chars: &Vec<char>, from: usize) -> (end: usize)
    requires
        from <= chars@.len(),
    ensures
        from <= end <= chars@.len(),
        end - from == line_len(chars@.skip(from as int)),
{
    let len: usize = chars.len();
    let mut end: usize = from;
    while end < len && chars[end] != '\n'
        invariant
            from <= end <= len,
            len == chars@.len(),
            line_len(chars@.skip(from as int)) == (end - from) + line_len(chars@.skip(end as int)),
        decreases len - end,
    {
        assert(chars@.skip(end as int).drop_first() =~= chars@.skip(end + 1));
        end += 1;
    }
    end
}

/// Where the first `limit` fields lie in `chars`: field `k` runs from
/// `bounds[k].0` up to, not including, `bounds[k].1`.
pub fn field_bounds(chars: &Vec<char>, limit: usize) -> (bounds: Vec<(usize, usize)>)
    ensures
        bounds@.len() == if fields(chars@).len() < limit {
            fields(chars@).len()
        } else {
            limit as nat
        },
        forall|k: int|
            0 <= k < bounds@.len() ==> {
                &&& (#[trigger] bounds@[k]).0 <= bounds@[k].1 <= chars@.len()
                &&& chars@.subrange(bounds@[k].0 as int, bounds@[k].1 as int) == fields(chars@)[k]
            },
{
    let len: usize = chars.len();
    let mut bounds: Vec<(usize, usize)> = Vec::new();
    let mut from: usize = 0;
    let mut more: bool = true;
    assert(chars@.skip(0) =~= chars@);
    while more && bounds.len() < limit
        invariant
            len == chars@.len(),
            from <= len,
            bounds@.len() <= limit,
            bounds@.len() <= fields(chars@).len(),
            more ==> fields(chars@) == fields(chars@).take(bounds@.len() as int) + fields(
                chars@.skip(from as int),
            ),
            !more ==> bounds@.len() == fields(chars@).len(),
            forall|k: int|
                0 <= k < bounds@.len() ==> {
                    &&& (#[trigger] bounds@[k]).0 <= bounds@[k].1 <= len
                    &&& chars@.subrange(bounds@[k].0 as int, bounds@[k].1 as int) == fields(
                        chars@,
                    )[k]
                },
        decreases (if more { 1int } else { 0int }) + len - from,
    {
        let end: usize = field_end(chars, from);
        let ghost rest = chars@.skip(from as int);
        bounds.push((from, end));
        if end < len {
            assert(rest.skip(end - from + 1) =~= chars@.skip(end + 1));
            from = end + 1;
        } else {
            more = false;
        }
    }
    bounds
}

/// Tells whether `chars` starts with `prefix`.
pub fn starts_with(chars: &Vec<char>, prefix: &str) -> (b: bool)
    ensures
        b == prefix@.is_prefix_of(chars@),
{
    let wanted = chars_of(prefix);
    if wanted.len() > chars.len() {
        return false;
    }
    let mut i: usize = 0;
    while i < wanted.len()
        invariant
            wanted@ == prefix@,
            i <= wanted@.len() <= chars@.len(),
            forall|j: int| 0 <= j < i ==> chars@[j] == wanted@[j],
        decreases wanted@.len() - i,
    {
        if chars[i] != wanted[i] {
            return false;
        }
        i += 1;
    }
    true
}

/// Tells whether `chars` is the text `other`.
pub fn same_text(chars: &Vec<char>, other: &str) -> (b: bool)
    ensures
        b == (chars@ == other@),
{
    let wanted = chars_of(other);
    if wanted.len() != chars.len() {
        return false;
    }
    let b = starts_with(chars, other);
    assert(chars@.subrange(0, chars@.len() as int) =~= chars@);
    b
}

} // verus!
