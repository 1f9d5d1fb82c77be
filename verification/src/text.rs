//! Whitespace and the splitting of text into words.

use vstd::prelude::*;
use vstd::std_specs::iter::IteratorSpec;

verus! {

/// Whether `c` is white space: one of the characters that Unicode classes
/// as `White_Space`.
pub open spec fn is_space(c: char) -> bool {
    let n = c as u32;
    ||| 0x09 <= n <= 0x0D
    ||| n == 0x20
    ||| n == 0x85
    ||| n == 0xA0
    ||| n == 0x1680
    ||| 0x2000 <= n <= 0x200A
    ||| n == 0x2028
    ||| n == 0x2029
    ||| n == 0x202F
    ||| n == 0x205F
    ||| n == 0x3000
}

/// Tells whether `c` is white space.
pub fn is_whitespace(c: char) -> (space: bool)
    ensures
        space == is_space(c),
{
    let n: u32 = c as u32;
    (0x09 <= n && n <= 0x0D) || n == 0x20 || n == 0x85 || n == 0xA0 || n == 0x1680 || (0x2000 <= n
        && n <= 0x200A) || n == 0x2028 || n == 0x2029 || n == 0x202F || n == 0x205F || n == 0x3000
}

/// A word that has been read in full, or nothing if no character of a word
/// has been read yet.
pub open spec fn finished(current: Seq<char>) -> Seq<Seq<char>> {
    if current.len() > 0 {
        seq![current]
    } else {
        seq![]
    }
}

/// The words found by reading `rest` from left to right, where `current`
/// holds the characters already read of the word in progress.
pub open spec fn scan_words(rest: Seq<char>, current: Seq<char>) -> Seq<Seq<char>>
    decreases rest.len(),
{
    if rest.len() == 0 {
        finished(current)
    } else if is_space(rest[0]) {
        finished(current) + scan_words(rest.drop_first(), seq![])
    } else {
        scan_words(rest.drop_first(), current.push(rest[0]))
    }
}

/// The words of a text: its maximal runs of characters that are not white
/// space, in order.
pub open spec fn words_of(text: Seq<char>) -> Seq<Seq<char>> {
    scan_words(text, seq![])
}

/// The character sequences that a sequence of strings stands for.
pub open spec fn word_views(words: Seq<String>) -> Seq<Seq<char>> {
    Seq::new(words.len(), |i: int| words[i]@)
}

/// Appends one character to a string, by `String::push` of std: the string
/// is afterwards what it was, with `c` behind it.
#[verifier::external_body]
pub(crate) fn push_char(s: &mut String, c: char)
    ensures
        final(s)@ == old(s)@.push(c),
{
    s.push(c)
}

/// Splits a text into its words.
pub fn split_words(text: &str) -> (words: Vec<String>)
    ensures
        word_views(words@) == words_of(text@),
{
    let mut words: Vec<String> = Vec::new();
    let mut current = String::new();
    assert(text@.skip(0) =~= text@);
    for c in it: text.chars()
        invariant
            it.seq() == text@,
            words_of(text@) == word_views(words@) + scan_words(
                text@.skip(it.index()),
                current@,
            ),
    {
        assert(text@.skip(it.index()).drop_first() =~= text@.skip(it.index() + 1));
        if is_whitespace(c) {
            if !current.as_str().is_empty() {
                words.push(current);
                current = String::new();
            } else {
                assert(current@ =~= seq![]);
            }
        } else {
            push_char(&mut current, c);
        }
    }
    if !current.as_str().is_empty() {
        words.push(current);
    }
    words
}

/// Tells whether `text` begins with `prefix`.
pub fn starts_with(text: &str, prefix: &str) -> (found: bool)
    ensures
        found == prefix@.is_prefix_of(text@),
{
    let mut rest = text.chars();
    let mut wanted = prefix.chars();
    let ghost mut k: int = 0;
    loop
        invariant
            0 <= k <= prefix@.len(),
            k <= text@.len(),
            wanted.remaining() == prefix@.skip(k),
            rest.remaining() == text@.skip(k),
            text@.take(k) == prefix@.take(k),
        decreases prefix@.len() - k,
    {
        match wanted.next() {
            None => {
                return true;
            },
            Some(p) => {
                match rest.next() {
                    None => {
                        return false;
                    },
                    Some(c) => {
                        if c != p {
                            return false;
                        }
                        proof {
                            k = k + 1;
                        }
                    },
                }
            },
        }
    }
}

/// Tells whether two strings hold the same characters.
pub fn str_eq(a: &str, b: &str) -> (equal: bool)
    ensures
        equal == (a@ == b@),
{
    let x = a.as_bytes();
    let y = b.as_bytes();
    proof {
        vstd::utf8::encode_utf8_decode_utf8(a@);
        vstd::utf8::encode_utf8_decode_utf8(b@);
    }
    if x.len() != y.len() {
        return false;
    }
    let mut i: usize = 0;
    while i < x.len()
        invariant
            i <= x@.len() == y@.len(),
            x@ == vstd::utf8::encode_utf8(a@),
            y@ == vstd::utf8::encode_utf8(b@),
            forall|j: int| 0 <= j < i ==> x@[j] == y@[j],
        decreases x@.len() - i,
    {
        if x[i] != y[i] {
            return false;
        }
        i += 1;
    }
    assert(x@ =~= y@);
    true
}

/// Whether a text holds nothing but white space.
pub open spec fn is_blank(text: Seq<char>) -> bool {
    forall|i: int| 0 <= i < text.len() ==> is_space(#[trigger] text[i])
}

/// Reading finds no word exactly where none is in progress and nothing but
/// white space follows.
proof fn lemma_scan_finds_nothing(rest: Seq<char>, current: Seq<char>)
    ensures
        scan_words(rest, current).len() == 0 <==> current.len() == 0 && is_blank(rest),
    decreases rest.len(),
{
    if rest.len() == 0 {
    } else if is_space(rest[0]) {
        lemma_scan_finds_nothing(rest.drop_first(), seq![]);
        if is_blank(rest.drop_first()) {
            assert forall|i: int| 0 <= i < rest.len() implies is_space(#[trigger] rest[i]) by {
                if i > 0 {
                    assert(rest[i] == rest.drop_first()[i - 1]);
                }
            }
        }
    } else {
        lemma_scan_finds_nothing(rest.drop_first(), current.push(rest[0]));
    }
}

/// A text has no words exactly if it is blank.
pub proof fn lemma_blank_has_no_words(text: Seq<char>)
    ensures
        words_of(text).len() == 0 <==> is_blank(text),
{
    lemma_scan_finds_nothing(text, seq![]);
}

/// Tells whether a text holds nothing but white space.
pub fn is_blank_text(text: &str) -> (blank: bool)
    ensures
        blank == is_blank(text@),
{
    for c in it: text.chars()
        invariant
            it.seq() == text@,
            forall|i: int| 0 <= i < it.index() ==> is_space(#[trigger] text@[i]),
    {
        if !is_whitespace(c) {
            return false;
        }
    }
    true
}

} // verus!
