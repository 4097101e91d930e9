//! Normalization of recognized text.

use vstd::prelude::*;
use crate::names::{chars_of, push_char};

verus! {

/// Whether a character is white space, as Unicode defines it.
pub open spec fn is_whitespace(c: char) -> bool {
    let code = c as u32;
    ||| 0x09 <= code <= 0x0D
    ||| code == 0x20
    ||| code == 0x85
    ||| code == 0xA0
    ||| code == 0x1680
    ||| 0x2000 <= code <= 0x200A
    ||| code == 0x2028
    ||| code == 0x2029
    ||| code == 0x202F
    ||| code == 0x205F
    ||| code == 0x3000
}

/// Whether a character is a period or a katakana middle dot.
pub open spec fn is_dot(c: char) -> bool {
    c == '.' || c == '\u{30fb}'
}

/// Whether a character is a printable ASCII character other than the
/// space.
pub open spec fn is_halfwidth(c: char) -> bool {
    '!' <= c <= '~'
}

/// The fullwidth counterpart of a printable ASCII character; any other
/// character as it is.
pub open spec fn fullwidth(c: char) -> char {
    if is_halfwidth(c) {
        ((c as u32) + 0xFEE0) as char
    } else if c == ' ' {
        '\u{3000}'
    } else {
        c
    }
}

/// `text` without its white space.
pub open spec fn without_whitespace(text: Seq<char>) -> Seq<char>
    decreases text.len(),
{
    if text.len() == 0 {
        Seq::empty()
    } else if is_whitespace(text.last()) {
        without_whitespace(text.drop_last())
    } else {
        without_whitespace(text.drop_last()).push(text.last())
    }
}

/// `text` with three periods for every ellipsis character.
pub open spec fn ellipses_expanded(text: Seq<char>) -> Seq<char>
    decreases text.len(),
{
    if text.len() == 0 {
        Seq::empty()
    } else if text.last() == '\u{2026}' {
        ellipses_expanded(text.drop_last()) + seq!['.', '.', '.']
    } else {
        ellipses_expanded(text.drop_last()).push(text.last())
    }
}

/// `text` with a period for every period and every middle dot: a run of
/// such characters becomes a run of periods of the same length.
pub open spec fn dots_collapsed(text: Seq<char>) -> Seq<char> {
    text.map_values(
        |c: char|
            if is_dot(c) {
                '.'
            } else {
                c
            },
    )
}

/// `text` with every character in its fullwidth form.
pub open spec fn widened(text: Seq<char>) -> Seq<char> {
    text.map_values(|c: char| fullwidth(c))
}

/// The normal form of recognized text: no white space, periods for
/// ellipses and middle dots, everything in fullwidth form.
pub open spec fn normalized(text: Seq<char>) -> Seq<char> {
    widened(dots_collapsed(ellipses_expanded(without_whitespace(text))))
}

/// Whether normalization leaves a character as it is.
pub open spec fn settled(c: char) -> bool {
    !is_whitespace(c) && c != '\u{2026}' && !is_dot(c) && !is_halfwidth(c)
}

proof fn lemma_without_whitespace(text: Seq<char>)
    ensures
        forall|i: int|
            0 <= i < without_whitespace(text).len() ==> !is_whitespace(
                #[trigger] without_whitespace(text)[i],
            ),
        (forall|i: int| 0 <= i < text.len() ==> !is_whitespace(#[trigger] text[i]))
            ==> without_whitespace(text) == text,
    decreases text.len(),
{
    if text.len() > 0 {
        lemma_without_whitespace(text.drop_last());
        let inner = without_whitespace(text.drop_last());
        let out = without_whitespace(text);
        assert forall|i: int| 0 <= i < out.len() implies !is_whitespace(#[trigger] out[i]) by {
            if i < inner.len() {
                assert(out[i] == inner[i]);
            }
        }
        if forall|i: int| 0 <= i < text.len() ==> !is_whitespace(#[trigger] text[i]) {
            assert forall|i: int| 0 <= i < text.drop_last().len() implies !is_whitespace(
                #[trigger] text.drop_last()[i],
            ) by {
                assert(text.drop_last()[i] == text[i]);
            }
            assert(text.drop_last().push(text.last()) == text);
        }
    }
}

proof fn lemma_ellipses_expanded(text: Seq<char>)
    ensures
        forall|i: int|
            0 <= i < ellipses_expanded(text).len() ==> (#[trigger] ellipses_expanded(text)[i])
                != '\u{2026}',
        (forall|i: int| 0 <= i < text.len() ==> !is_whitespace(#[trigger] text[i])) ==> (forall|
            i: int,
        |
            0 <= i < ellipses_expanded(text).len() ==> !is_whitespace(
                #[trigger] ellipses_expanded(text)[i],
            )),
        (forall|i: int| 0 <= i < text.len() ==> (#[trigger] text[i]) != '\u{2026}')
            ==> ellipses_expanded(text) == text,
    decreases text.len(),
{
    if text.len() > 0 {
        let front = text.drop_last();
        lemma_ellipses_expanded(front);
        let inner = ellipses_expanded(front);
        let out = ellipses_expanded(text);
        assert forall|i: int| 0 <= i < out.len() implies (#[trigger] out[i]) != '\u{2026}' by {
            if i < inner.len() {
                assert(out[i] == inner[i]);
            }
        }
        if forall|i: int| 0 <= i < text.len() ==> !is_whitespace(#[trigger] text[i]) {
            assert forall|i: int| 0 <= i < front.len() implies !is_whitespace(
                #[trigger] front[i],
            ) by {
                assert(front[i] == text[i]);
            }
            assert forall|i: int| 0 <= i < out.len() implies !is_whitespace(#[trigger] out[i]) by {
                if i < inner.len() {
                    assert(out[i] == inner[i]);
                } else if text.last() != '\u{2026}' {
                    assert(out[i] == text[text.len() - 1]);
                }
            }
        }
        if forall|i: int| 0 <= i < text.len() ==> (#[trigger] text[i]) != '\u{2026}' {
            assert forall|i: int| 0 <= i < front.len() implies (#[trigger] front[i])
                != '\u{2026}' by {
                assert(front[i] == text[i]);
            }
            assert(front.push(text.last()) == text);
        }
    }
}

/// Normalized text is made of characters that normalization leaves as
/// they are.
pub proof fn lemma_normalized_is_settled(text: Seq<char>)
    ensures
        forall|i: int| 0 <= i < normalized(text).len() ==> settled(#[trigger] normalized(text)[i]),
{
    let a = without_whitespace(text);
    let b = ellipses_expanded(a);
    let c = dots_collapsed(b);
    lemma_without_whitespace(text);
    lemma_ellipses_expanded(a);
    assert forall|i: int| 0 <= i < normalized(text).len() implies settled(
        #[trigger] normalized(text)[i],
    ) by {
        assert(normalized(text)[i] == fullwidth(c[i]));
        assert(!is_whitespace(b[i]) && b[i] != '\u{2026}');
    }
}

/// Text made of characters that normalization leaves as they are is its own
/// normal form.
pub proof fn lemma_settled_is_normal(text: Seq<char>)
    requires
        forall|i: int| 0 <= i < text.len() ==> settled(#[trigger] text[i]),
    ensures
        normalized(text) == text,
{
    lemma_without_whitespace(text);
    lemma_ellipses_expanded(text);
    assert(dots_collapsed(text) =~= text);
    assert(widened(text) =~= text);
}

/// Normalizing what is normalized changes nothing.
pub proof fn lemma_normalize_idempotent(text: Seq<char>)
    ensures
        normalized(normalized(text)) == normalized(text),
{
    lemma_normalized_is_settled(text);
    lemma_settled_is_normal(normalized(text));
}

/// Collapsing keeps the length of the text and of every run in it: where a
/// period or a middle dot stood there is a period, and every other
/// character is where it was.
pub proof fn lemma_collapsed_runs(text: Seq<char>)
    ensures
        dots_collapsed(text).len() == text.len(),
        forall|i: int|
            0 <= i < text.len() ==> (#[trigger] dots_collapsed(text)[i]) == (if is_dot(text[i]) {
                '.'
            } else {
                text[i]
            }),
{
}

/// Whether a character is white space.
pub fn whitespace(c: char) -> (r: bool)
    ensures
        r == is_whitespace(c),
{
    let code: u32 = c as u32;
    (0x09 <= code && code <= 0x0D) || code == 0x20 || code == 0x85 || code == 0xA0 || code
        == 0x1680 || (0x2000 <= code && code <= 0x200A) || code == 0x2028 || code == 0x2029
        || code == 0x202F || code == 0x205F || code == 0x3000
}

/// Calls `char::from_u32`, which gives the character of a code point, and
/// `None` for a number that is no code point of a character.
#[verifier::external_body]
fn char_of(code: u32) -> (r: Option<char>)
    ensures
        (code <= 0xD7FF || 0xE000 <= code <= 0x10FFFF) ==> r == Some(code as char),
        !(code <= 0xD7FF || 0xE000 <= code <= 0x10FFFF) ==> r is None,
{
    char::from_u32(code)
}

/// The fullwidth form of a character.
pub fn to_fullwidth(c: char) -> (r: char)
    ensures
        r == fullwidth(c),
{
    if '!' <= c && c <= '~' {
        match char_of(c as u32 + 0xFEE0) {
            Some(wide) => wide,
            None => c,
        }
    } else if c == ' ' {
        '\u{3000}'
    } else {
        c
    }
}

/// Takes the white space out of a text.
pub fn remove_whitespace(text: &str) -> (clean: String)
    ensures
        clean@ == without_whitespace(text@),
{
    let chars = chars_of(text);
    let mut clean = String::new();
    let mut i: usize = 0;
    assert(chars@.take(0) == Seq::<char>::empty());
    while i < chars.len()
        invariant
            i <= chars.len(),
            clean@ == without_whitespace(chars@.take(i as int)),
        decreases chars.len() - i,
    {
        proof {
            assert(chars@.take(i + 1).drop_last() == chars@.take(i as int));
        }
        if !whitespace(chars[i]) {
            push_char(&mut clean, chars[i]);
        }
        i = i + 1;
    }
    assert(chars@.take(chars.len() as int) == chars@);
    clean
}

/// Writes three periods for every ellipsis character.
pub fn expand_ellipses(text: &str) -> (expanded: String)
    ensures
        expanded@ == ellipses_expanded(text@),
{
    let chars = chars_of(text);
    let mut expanded = String::new();
    let mut i: usize = 0;
    assert(chars@.take(0) == Seq::<char>::empty());
    while i < chars.len()
        invariant
            i <= chars.len(),
            expanded@ == ellipses_expanded(chars@.take(i as int)),
        decreases chars.len() - i,
    {
        proof {
            assert(chars@.take(i + 1).drop_last() == chars@.take(i as int));
        }
        let ghost before = expanded@;
        if chars[i] == '\u{2026}' {
            push_char(&mut expanded, '.');
            push_char(&mut expanded, '.');
            push_char(&mut expanded, '.');
            assert(expanded@ =~= before + seq!['.', '.', '.']);
        } else {
            push_char(&mut expanded, chars[i]);
        }
        i = i + 1;
    }
    assert(chars@.take(chars.len() as int) == chars@);
    expanded
}

/// Writes a period for every period and every middle dot.
pub fn collapse_dots(text: &str) -> (out: String)
    ensures
        out@ == dots_collapsed(text@),
{
    let chars = chars_of(text);
    let mut out = String::new();
    let mut i: usize = 0;
    assert(dots_collapsed(chars@.take(0)) =~= Seq::<char>::empty());
    while i < chars.len()
        invariant
            i <= chars.len(),
            out@ == dots_collapsed(chars@.take(i as int)),
        decreases chars.len() - i,
    {
        let ch = chars[i];
        let ghost before = out@;
        if ch == '.' || ch == '\u{30fb}' {
            push_char(&mut out, '.');
        } else {
            push_char(&mut out, ch);
        }
        i = i + 1;
        assert(out@ =~= dots_collapsed(chars@.take(i as int)));
    }
    assert(chars@.take(chars.len() as int) == chars@);
    out
}

/// Writes every character in its fullwidth form.
pub fn halfwidth_to_fullwidth(text: &str) -> (out: String)
    ensures
        out@ == widened(text@),
{
    let chars = chars_of(text);
    let mut out = String::new();
    let mut i: usize = 0;
    assert(widened(chars@.take(0)) =~= Seq::<char>::empty());
    while i < chars.len()
        invariant
            i <= chars.len(),
            out@ == widened(chars@.take(i as int)),
        decreases chars.len() - i,
    {
        push_char(&mut out, to_fullwidth(chars[i]));
        i = i + 1;
        assert(out@ =~= widened(chars@.take(i as int)));
    }
    assert(chars@.take(chars.len() as int) == chars@);
    out
}

/// Brings recognized text into its normal form.
pub fn post_process(text: &str) -> (out: String)
    ensures
        out@ == normalized(text@),
{
    let clean = remove_whitespace(text);
    let clean = expand_ellipses(clean.as_str());
    let clean = collapse_dots(clean.as_str());
    halfwidth_to_fullwidth(clean.as_str())
}

} // verus!
