//! Scanning primitives over sequences of Unicode scalar values.

use vstd::prelude::*;
use vstd::std_specs::iter::IteratorSpec;
use vstd::string::*;

verus! {

/// Position of the first `c` in `s` at or after `from`, or `s.len()` where
/// there is none.
pub open spec fn first_index(s: Seq<char>, c: char, from: int) -> int
    recommends
        0 <= from,
    decreases s.len() - from,
{
    if from >= s.len() {
        s.len() as int
    } else if s[from] == c {
        from
    } else {
        first_index(s, c, from + 1)
    }
}

/// `first_index` is the one position that nothing equal to `c` precedes and
/// that holds `c` unless it is the end.
pub proof fn lemma_first_index_is(s: Seq<char>, c: char, from: int, at: int)
    requires
        0 <= from <= at <= s.len(),
        forall|j: int| from <= j < at ==> s[j] != c,
        at < s.len() ==> s[at] == c,
    ensures
        first_index(s, c, from) == at,
    decreases at - from,
{
    if from < at {
        lemma_first_index_is(s, c, from + 1, at);
    }
}

/// What `first_index` returns: a position in range with no `c` before it.
pub proof fn lemma_first_index_bounds(s: Seq<char>, c: char, from: int)
    requires
        0 <= from <= s.len(),
    ensures
        from <= first_index(s, c, from) <= s.len(),
        forall|j: int| from <= j < first_index(s, c, from) ==> s[j] != c,
        first_index(s, c, from) < s.len() ==> s[first_index(s, c, from)] == c,
    decreases s.len() - from,
{
    if from < s.len() && s[from] != c {
        lemma_first_index_bounds(s, c, from + 1);
    }
}

/// The scalar values of `s`, in order.
pub fn chars_of(s: &str) -> (chars: Vec<char>)
    ensures
        chars@ == s@,
{
    let mut chars: Vec<char> = Vec::new();
    let mut rest = s.chars();
    loop
        invariant
            rest.obeys_prophetic_iter_laws(),
            chars@ + rest.remaining() == s@,
            rest.decrease() is Some,
        decreases rest.decrease()->0,
    {
        let ghost before = rest;
        match rest.next() {
            Some(c) => {
                proof {
                    broadcast use group_string_axioms;
                    assert(chars@.push(c) + rest.remaining() =~= chars@ + before.remaining());
                }
                chars.push(c);
            },
            None => {
                proof {
                    broadcast use group_string_axioms;
                    assert(chars@ + rest.remaining() =~= chars@);
                }
                return chars;
            },
        }
    }
}

/// Finds the first `c` in `chars` at or after `from`.
pub fn find_char(chars: &Vec<char>, c: char, from: usize) -> (at: usize)
    requires
        from <= chars.len(),
    ensures
        at == first_index(chars@, c, from as int),
        from <= at <= chars.len(),
        forall|j: int| from <= j < at ==> chars@[j] != c,
        at < chars.len() ==> chars@[at as int] == c,
{
    let mut at: usize = from;
    while at < chars.len() && chars[at] != c
        invariant
            from <= at <= chars.len(),
            forall|j: int| from <= j < at ==> chars@[j] != c,
        decreases chars.len() - at,
    {
        at += 1;
    }
    proof {
        lemma_first_index_is(chars@, c, from as int, at as int);
    }
    at
}

/// Searching a suffix is searching the whole from where the suffix starts.
pub proof fn lemma_first_index_suffix(s: Seq<char>, c: char, from: int)
    requires
        0 <= from <= s.len(),
    ensures
        first_index(s.subrange(from, s.len() as int), c, 0) == first_index(s, c, from) - from,
{
    lemma_first_index_bounds(s, c, from);
    lemma_first_index_is(s.subrange(from, s.len() as int), c, 0, first_index(s, c, from) - from);
}

/// Whether the span `from..to` of `chars` spells `word`.
pub fn span_is(chars: &Vec<char>, from: usize, to: usize, word: &str) -> (same: bool)
    requires
        from <= to <= chars.len(),
    ensures
        same == (chars@.subrange(from as int, to as int) == word@),
{
    let n: usize = word.unicode_len();
    if to - from != n {
        return false;
    }
    let mut i: usize = 0;
    while i < n
        invariant
            i <= n,
            n == word@.len(),
            to - from == n,
            from <= to <= chars.len(),
            forall|j: int| 0 <= j < i ==> chars@[from + j] == word@[j],
        decreases n - i,
    {
        if chars[from + i] != word.get_char(i) {
            assert(chars@.subrange(from as int, to as int)[i as int] != word@[i as int]);
            return false;
        }
        i += 1;
    }
    assert(chars@.subrange(from as int, to as int) =~= word@);
    true
}

/// The scalar values that Unicode counts as white space (`White_Space`).
pub open spec fn is_white_space(c: char) -> bool {
    let n = c as u32;
    ||| 0x09 <= n <= 0x0D
    ||| n == 0x20
    ||| n == 0x85
    ||| n == 0xA0
    ||| n == 0x1680
    ||| 0x2000 <= n <= 0x200A
    ||| n == 0x2028
    ||| n == 0x2029
    ||| n == 0x202F
    ||| n == 0x205F
    ||| n == 0x3000
}

/// Tells whether a scalar value is white space.
pub fn is_space_char(c: char) -> (space: bool)
    ensures
        space == is_white_space(c),
{
    let n: u32 = c as u32;
    (0x09 <= n && n <= 0x0D) || n == 0x20 || n == 0x85 || n == 0xA0 || n == 0x1680 || (0x2000 <= n
        && n <= 0x200A) || n == 0x2028 || n == 0x2029 || n == 0x202F || n == 0x205F || n == 0x3000
}

/// Length of `s` without its trailing white space.
pub open spec fn trimmed_len(s: Seq<char>) -> nat
    decreases s.len(),
{
    if s.len() > 0 && is_white_space(s.last()) {
        trimmed_len(s.drop_last())
    } else {
        s.len()
    }
}

/// `s` without its trailing white space.
pub open spec fn trim_end(s: Seq<char>) -> Seq<char> {
    s.take(trimmed_len(s) as int)
}

/// What remains after trimming is a prefix that does not end in white space.
pub proof fn lemma_trimmed_len(s: Seq<char>)
    ensures
        trimmed_len(s) <= s.len(),
        trimmed_len(s) > 0 ==> !is_white_space(s[trimmed_len(s) - 1]),
        forall|j: int| trimmed_len(s) <= j < s.len() ==> is_white_space(s[j]),
    decreases s.len(),
{
    if s.len() > 0 && is_white_space(s.last()) {
        let shorter = s.drop_last();
        lemma_trimmed_len(shorter);
        assert forall|j: int| trimmed_len(s) <= j < s.len() implies is_white_space(s[j]) by {
            if j < shorter.len() {
                assert(s[j] == shorter[j]);
            }
        }
    }
}

/// Finds where the suffix of `chars` from `from` ends once its trailing
/// white space is left off.
pub fn trimmed_end(chars: &Vec<char>, from: usize) -> (end: usize)
    requires
        from <= chars.len(),
    ensures
        from <= end <= chars.len(),
        end - from == trimmed_len(chars@.subrange(from as int, chars.len() as int)),
        chars@.subrange(from as int, end as int) == trim_end(
            chars@.subrange(from as int, chars.len() as int),
        ),
{
    let mut end: usize = chars.len();
    while end > from && is_space_char(chars[end - 1])
        invariant
            from <= end <= chars.len(),
            trimmed_len(chars@.subrange(from as int, chars.len() as int)) == trimmed_len(
                chars@.subrange(from as int, end as int),
            ),
        decreases end,
    {
        proof {
            assert(chars@.subrange(from as int, end as int).drop_last() =~= chars@.subrange(
                from as int,
                end - 1,
            ));
        }
        end -= 1;
    }
    proof {
        assert(chars@.subrange(from as int, end as int) =~= chars@.subrange(
            from as int,
            chars.len() as int,
        ).take(end - from));
    }
    end
}

/// The pieces of `s` between occurrences of `sep`: one more piece than there
/// are separators, so an empty `s` has one empty piece.
pub open spec fn split_on(s: Seq<char>, sep: char) -> Seq<Seq<char>>
    decreases s.len(),
{
    let at = first_index(s, sep, 0);
    if 0 <= at < s.len() {
        seq![s.subrange(0, at)] + split_on(s.subrange(at + 1, s.len() as int), sep)
    } else {
        seq![s]
    }
}

/// The contents of a sequence of strings.
pub open spec fn texts(strings: Seq<String>) -> Seq<Seq<char>> {
    Seq::new(strings.len(), |i: int| strings[i]@)
}

/// Splits the suffix of `text` from `from` at each `sep`. `chars` holds the
/// scalar values of `text`.
pub fn split_from(text: &str, chars: &Vec<char>, from: usize, sep: char) -> (parts: Vec<String>)
    requires
        chars@ == text@,
        from <= chars.len(),
    ensures
        texts(parts@) == split_on(chars@.subrange(from as int, chars.len() as int), sep),
{
    let n: usize = chars.len();
    let mut parts: Vec<String> = Vec::new();
    let mut cur: usize = from;
    loop
        invariant
            chars@ == text@,
            n == chars.len(),
            from <= cur <= n,
            split_on(chars@.subrange(from as int, n as int), sep) == texts(parts@) + split_on(
                chars@.subrange(cur as int, n as int),
                sep,
            ),
        decreases n - cur,
    {
        let at: usize = find_char(chars, sep, cur);
        let piece: String = text.substring_char(cur, at).to_owned();
        let ghost before = texts(parts@);
        let ghost rest = chars@.subrange(cur as int, n as int);
        proof {
            lemma_first_index_suffix(chars@, sep, cur as int);
            assert(rest.subrange(0, at - cur) =~= chars@.subrange(cur as int, at as int));
        }
        parts.push(piece);
        assert(texts(parts@) =~= before + seq![chars@.subrange(cur as int, at as int)]);
        if at >= n {
            assert(rest =~= chars@.subrange(cur as int, at as int));
            return parts;
        }
        proof {
            assert(rest.subrange(at - cur + 1, rest.len() as int) =~= chars@.subrange(
                at + 1,
                n as int,
            ));
            assert(before + (seq![chars@.subrange(cur as int, at as int)] + split_on(
                chars@.subrange(at + 1, n as int),
                sep,
            )) =~= texts(parts@) + split_on(chars@.subrange(at + 1, n as int), sep));
        }
        cur = at + 1;
    }
}

} // verus!
