//! Text helpers: Unicode white space, trimming and prefixes.

use vstd::prelude::*;

verus! {

/// The characters of the Unicode property `White_Space`.
pub open spec fn is_white_space(c: char) -> bool {
    ||| '\u{9}' <= c <= '\u{d}'
    ||| c == '\u{20}'
    ||| c == '\u{85}'
    ||| c == '\u{a0}'
    ||| c == '\u{1680}'
    ||| '\u{2000}' <= c <= '\u{200a}'
    ||| c == '\u{2028}'
    ||| c == '\u{2029}'
    ||| c == '\u{202f}'
    ||| c == '\u{205f}'
    ||| c == '\u{3000}'
}

/// `s` without its leading white space.
pub open spec fn trimmed_start(s: Seq<char>) -> Seq<char>
    decreases s.len(),
{
    if s.len() > 0 && is_white_space(s[0]) {
        trimmed_start(s.drop_first())
    } else {
        s
    }
}

/// `s` without its trailing white space.
pub open spec fn trimmed_end(s: Seq<char>) -> Seq<char>
    decreases s.len(),
{
    if s.len() > 0 && is_white_space(s.last()) {
        trimmed_end(s.drop_last())
    } else {
        s
    }
}

/// `s` without white space at either end.
pub open spec fn trimmed(s: Seq<char>) -> Seq<char> {
    trimmed_end(trimmed_start(s))
}

/// Whether every character of `s` is white space.
pub open spec fn all_white_space(s: Seq<char>) -> bool {
    forall|i: int| 0 <= i < s.len() ==> is_white_space(#[trigger] s[i])
}

/// A text that neither begins nor ends with white space is its own trimming.
pub proof fn lemma_trimmed_fixed(s: Seq<char>)
    requires
        s.len() > 0 ==> !is_white_space(s[0]) && !is_white_space(s.last()),
    ensures
        trimmed(s) == s,
{
}

/// A trimmed text neither begins nor ends with white space.
pub proof fn lemma_trimmed_ends(s: Seq<char>)
    ensures
        trimmed(s).len() > 0 ==> !is_white_space(trimmed(s)[0]) && !is_white_space(
            trimmed(s).last(),
        ),
{
    lemma_start_trimmed(s);
    lemma_end_trimmed(trimmed_start(s));
}

proof fn lemma_start_trimmed(s: Seq<char>)
    ensures
        trimmed_start(s).len() > 0 ==> !is_white_space(trimmed_start(s)[0]),
    decreases s.len(),
{
    if s.len() > 0 && is_white_space(s[0]) {
        lemma_start_trimmed(s.drop_first());
    }
}

proof fn lemma_end_trimmed(s: Seq<char>)
    ensures
        trimmed_end(s).is_prefix_of(s),
        trimmed_end(s).len() > 0 ==> !is_white_space(trimmed_end(s).last()),
    decreases s.len(),
{
    if s.len() > 0 && is_white_space(s.last()) {
        lemma_end_trimmed(s.drop_last());
        assert(trimmed_end(s).is_prefix_of(s)) by {
            assert(trimmed_end(s).is_prefix_of(s.drop_last()));
            assert(s.subrange(0, trimmed_end(s).len() as int) == s.drop_last().subrange(
                0,
                trimmed_end(s).len() as int,
            ));
        }
    } else {
        assert(s.subrange(0, s.len() as int) == s);
    }
}

proof fn lemma_start_skips(before: Seq<char>, s: Seq<char>)
    requires
        all_white_space(before),
    ensures
        trimmed_start(before + s) == trimmed_start(s),
    decreases before.len(),
{
    if before.len() > 0 {
        assert((before + s)[0] == before[0]);
        assert((before + s).drop_first() == before.drop_first() + s);
        lemma_start_skips(before.drop_first(), s);
    } else {
        assert(before + s == s);
    }
}

proof fn lemma_start_append(s: Seq<char>, after: Seq<char>)
    ensures
        trimmed_start(s).len() > 0 ==> trimmed_start(s + after) == trimmed_start(s) + after,
        trimmed_start(s).len() == 0 ==> trimmed_start(s + after) == trimmed_start(after),
    decreases s.len(),
{
    if s.len() > 0 {
        assert((s + after)[0] == s[0]);
        if is_white_space(s[0]) {
            assert((s + after).drop_first() == s.drop_first() + after);
            lemma_start_append(s.drop_first(), after);
        }
    } else {
        assert(s + after == after);
    }
}

proof fn lemma_end_skips(s: Seq<char>, after: Seq<char>)
    requires
        all_white_space(after),
    ensures
        trimmed_end(s + after) == trimmed_end(s),
    decreases after.len(),
{
    if after.len() > 0 {
        assert((s + after).last() == after.last());
        assert((s + after).drop_last() == s + after.drop_last());
        lemma_end_skips(s, after.drop_last());
    } else {
        assert(s + after == s);
    }
}

/// Trimming the end of a text stops at a character that is not white space.
pub proof fn lemma_end_keeps(s: Seq<char>, after: Seq<char>)
    requires
        s.len() > 0,
        !is_white_space(s.last()),
    ensures
        trimmed_end(s + after) == s + trimmed_end(after),
        trimmed_end(after).is_prefix_of(after),
    decreases after.len(),
{
    lemma_end_trimmed(after);
    if after.len() > 0 {
        assert((s + after).last() == after.last());
        if is_white_space(after.last()) {
            assert((s + after).drop_last() == s + after.drop_last());
            lemma_end_keeps(s, after.drop_last());
        }
    } else {
        assert(s + after == s);
    }
}

/// White space around a text does not change its trimming.
pub proof fn lemma_trimmed_padding(before: Seq<char>, s: Seq<char>, after: Seq<char>)
    requires
        all_white_space(before),
        all_white_space(after),
    ensures
        trimmed(before + s + after) == trimmed(s),
{
    assert(before + s + after == before + (s + after));
    lemma_start_skips(before, s + after);
    lemma_start_append(s, after);
    if trimmed_start(s).len() > 0 {
        lemma_end_skips(trimmed_start(s), after);
    } else {
        let none = Seq::<char>::empty();
        lemma_start_skips(after, none);
        assert(after + none == after);
        assert(trimmed_start(s) == none);
    }
}

/// White space is made up of 25 characters: those numbered 9 to 13, the space, the
/// next line, and the spaces and separators of Unicode. No other character is.
pub proof fn white_space_characters(c: char)
    ensures
        is_white_space(c) <==> ({
            let number = c as int;
            ||| 0x9 <= number <= 0xd
            ||| 0x2000 <= number <= 0x200a
            ||| seq![0x20int, 0x85, 0xa0, 0x1680, 0x2028, 0x2029, 0x202f, 0x205f, 0x3000].contains(
                number,
            )
        }),
{
    let singles = seq![0x20int, 0x85, 0xa0, 0x1680, 0x2028, 0x2029, 0x202f, 0x205f, 0x3000];
    assert(singles[0] == 0x20 && singles[1] == 0x85 && singles[2] == 0xa0);
    assert(singles[3] == 0x1680 && singles[4] == 0x2028 && singles[5] == 0x2029);
    assert(singles[6] == 0x202f && singles[7] == 0x205f && singles[8] == 0x3000);
}

/// Trimming takes off the white space at the ends of a text and nothing else:
/// whatever stands between, from one character that is not white space to
/// another, is kept as it is.
pub proof fn only_white_space_is_trimmed(before: Seq<char>, kept: Seq<char>, after: Seq<char>)
    requires
        forall|i: int| 0 <= i < before.len() ==> is_white_space(#[trigger] before[i]),
        forall|i: int| 0 <= i < after.len() ==> is_white_space(#[trigger] after[i]),
        kept.len() > 0 ==> !is_white_space(kept[0]) && !is_white_space(kept[kept.len() - 1]),
    ensures
        trimmed(before + kept + after) == kept,
{
    lemma_trimmed_padding(before, kept, after);
    lemma_trimmed_fixed(kept);
}

/// Tells whether `c` is white space.
pub fn white_space(c: char) -> (r: bool)
    ensures
        r == is_white_space(c),
{
    ('\u{9}' <= c && c <= '\u{d}') || c == '\u{20}' || c == '\u{85}' || c == '\u{a0}' || c
        == '\u{1680}' || ('\u{2000}' <= c && c <= '\u{200a}') || c == '\u{2028}' || c == '\u{2029}'
        || c == '\u{202f}' || c == '\u{205f}' || c == '\u{3000}'
}

/// Copies the characters of `s`.
fn characters(s: &str) -> (r: Vec<char>)
    ensures
        r@ == s@,
{
    let mut out: Vec<char> = Vec::new();
    for c in it: s.chars()
        invariant
            it.seq() == s@,
            out@ == s@.take(it.index() as int),
    {
        out.push(c);
    }
    out
}

/// The part of `s` between its first and its last character that is not white
/// space.
pub fn trim(s: &str) -> (r: &str)
    ensures
        r@ == trimmed(s@),
        exists|start: int, end: int|
            #![trigger s@.subrange(start, end)]
            {
                &&& 0 <= start <= end <= s@.len()
                &&& r@ == s@.subrange(start, end)
                &&& forall|i: int| 0 <= i < start ==> is_white_space(#[trigger] s@[i])
                &&& forall|i: int| end <= i < s@.len() ==> is_white_space(#[trigger] s@[i])
                &&& start < end ==> !is_white_space(s@[start]) && !is_white_space(s@[end - 1])
            },
{
    let chars = characters(s);
    let len: usize = chars.len();
    let mut start: usize = 0;
    assert(s@.skip(0) == s@);
    while start < len && white_space(chars[start])
        invariant
            start <= len,
            len == chars@.len(),
            chars@ == s@,
            trimmed_start(s@) == trimmed_start(s@.skip(start as int)),
            forall|i: int| 0 <= i < start ==> is_white_space(#[trigger] s@[i]),
        decreases len - start,
    {
        assert(s@.skip(start as int).drop_first() == s@.skip(start + 1));
        start = start + 1;
    }
    assert(trimmed_start(s@) == s@.skip(start as int));
    let ghost rest = s@.skip(start as int);
    let mut end: usize = len;
    assert(s@.subrange(start as int, end as int) == rest);
    while start < end && white_space(chars[end - 1])
        invariant
            start <= end <= len,
            len == chars@.len(),
            chars@ == s@,
            trimmed_end(rest) == trimmed_end(s@.subrange(start as int, end as int)),
            forall|i: int| end <= i < s@.len() ==> is_white_space(#[trigger] s@[i]),
        decreases end,
    {
        assert(s@.subrange(start as int, end as int).drop_last() == s@.subrange(
            start as int,
            end - 1,
        ));
        end = end - 1;
    }
    s.substring_char(start, end)
}

/// Tells whether `s` begins with `prefix`.
pub fn starts_with(s: &str, prefix: &str) -> (r: bool)
    ensures
        r == prefix@.is_prefix_of(s@),
{
    let s_chars = characters(s);
    let p_chars = characters(prefix);
    if p_chars.len() > s_chars.len() {
        return false;
    }
    let mut i: usize = 0;
    while i < p_chars.len()
        invariant
            i <= p_chars@.len() <= s_chars@.len(),
            s_chars@ == s@,
            p_chars@ == prefix@,
            forall|k: int| 0 <= k < i ==> s@[k] == prefix@[k],
        decreases p_chars@.len() - i,
    {
        if s_chars[i] != p_chars[i] {
            assert(prefix@.is_prefix_of(s@) ==> prefix@[i as int] == s@[i as int]);
            return false;
        }
        i = i + 1;
    }
    true
}

} // verus!
