//! Greedy word wrap: the words of a text are put on lines one after another,
//! and a line ends before the first word that would make it too wide.
//!
//! Width is estimated, not measured: a word costs its length in bytes times
//! the font size.

use vstd::prelude::*;
use crate::text::{is_space, scan_words, split_words, word_views, words_of, finished};

verus! {

/// The length of a word in bytes, as UTF-8.
pub open spec fn byte_len(word: Seq<char>) -> nat {
    vstd::utf8::encode_utf8(word).len()
}

/// The estimated width of a word at the given font size.
pub open spec fn word_cost(word: Seq<char>, font_size: nat) -> nat {
    font_size * byte_len(word)
}

/// The estimated width of the words from index `from` up to, not including,
/// index `to`.
pub open spec fn run_cost(words: Seq<Seq<char>>, from: int, to: int, font_size: nat) -> nat
    decreases to - from,
{
    if from >= to {
        0
    } else {
        run_cost(words, from, to - 1, font_size) + word_cost(words[to - 1], font_size)
    }
}

/// How many more words a line takes that begins at index `start` and holds
/// the words before index `next` already.
pub open spec fn fitting(
    words: Seq<Seq<char>>,
    start: int,
    next: int,
    font_size: nat,
    width: nat,
) -> nat
    decreases words.len() - next,
{
    if next < words.len() && run_cost(words, start, next + 1, font_size) <= width {
        1 + fitting(words, start, next + 1, font_size, width)
    } else {
        0
    }
}

/// The index behind the last word of the line that begins at index `start`.
/// A line holds at least one word, however wide that is, and then every
/// further word as long as the line's estimated width stays within `width`.
pub open spec fn line_end(words: Seq<Seq<char>>, start: int, font_size: nat, width: nat) -> int {
    start + 1 + fitting(words, start, start + 1, font_size, width)
}

/// The lines, each as the sequence of its words, that the words from index
/// `start` on are wrapped into.
pub open spec fn wrap_from(words: Seq<Seq<char>>, start: int, font_size: nat, width: nat) -> Seq<
    Seq<Seq<char>>,
>
    decreases words.len() - start,
{
    if 0 <= start < words.len() {
        let more = fitting(words, start, start + 1, font_size, width);
        proof {
            lemma_fitting_bound(words, start, start + 1, font_size, width);
        }
        seq![words.subrange(start, start + 1 + more)] + wrap_from(
            words,
            start + 1 + more,
            font_size,
            width,
        )
    } else {
        seq![]
    }
}

/// The lines that a sequence of words is wrapped into.
pub open spec fn wrap_lines(words: Seq<Seq<char>>, font_size: nat, width: nat) -> Seq<
    Seq<Seq<char>>,
> {
    wrap_from(words, 0, font_size, width)
}

/// The text of a line: each of its words, followed by one space.
pub open spec fn line_text(line: Seq<Seq<char>>) -> Seq<char>
    decreases line.len(),
{
    if line.len() == 0 {
        seq![]
    } else {
        line[0] + seq![' '] + line_text(line.drop_first())
    }
}

/// Whether a word is not empty and holds no white space.
pub open spec fn is_word(word: Seq<char>) -> bool {
    word.len() > 0 && forall|i: int| 0 <= i < word.len() ==> !is_space(#[trigger] word[i])
}

/// A line that gets one more word gets that word and a space at its end.
pub proof fn lemma_line_text_push(line: Seq<Seq<char>>, word: Seq<char>)
    ensures
        line_text(line.push(word)) == line_text(line) + word + seq![' '],
    decreases line.len(),
{
    let longer = line.push(word);
    if line.len() == 0 {
        assert(longer.drop_first() =~= line);
    } else {
        assert(longer.drop_first() =~= line.drop_first().push(word));
        lemma_line_text_push(line.drop_first(), word);
    }
}

/// A line ends behind its first word at the earliest and at the end of the
/// words at the latest.
pub proof fn lemma_fitting_bound(
    words: Seq<Seq<char>>,
    start: int,
    next: int,
    font_size: nat,
    width: nat,
)
    requires
        next <= words.len(),
    ensures
        next + fitting(words, start, next, font_size, width) <= words.len(),
    decreases words.len() - next,
{
    if next < words.len() && run_cost(words, start, next + 1, font_size) <= width {
        lemma_fitting_bound(words, start, next + 1, font_size, width);
    }
}

/// The estimated width of a run grows with the run.
pub proof fn lemma_run_cost_monotone(
    words: Seq<Seq<char>>,
    from: int,
    mid: int,
    to: int,
    font_size: nat,
)
    requires
        mid <= to,
    ensures
        run_cost(words, from, mid, font_size) <= run_cost(words, from, to, font_size),
    decreases to - mid,
{
    if mid < to {
        lemma_run_cost_monotone(words, from, mid, to - 1, font_size);
    }
}

/// What a [`WordWrap`] stands for: the words of its text, the index of the
/// first word that no line has taken yet, and the measure to wrap to.
pub struct WordWrapView {
    pub words: Seq<Seq<char>>,
    pub next: int,
    pub font_size: nat,
    pub width: nat,
}

impl WordWrapView {
    /// Whether every word has been handed out.
    pub open spec fn is_finished(self) -> bool {
        self.next >= self.words.len()
    }

    /// The index behind the last word of the next line.
    pub open spec fn end(self) -> int {
        line_end(self.words, self.next, self.font_size, self.width)
    }

    /// The words of the next line.
    pub open spec fn line(self) -> Seq<Seq<char>> {
        self.words.subrange(self.next, self.end())
    }

    /// The state after the next line has been handed out.
    pub open spec fn advanced(self) -> WordWrapView {
        WordWrapView { next: self.end(), ..self }
    }

    /// The lines that are still to come.
    pub open spec fn lines(self) -> Seq<Seq<Seq<char>>> {
        wrap_from(self.words, self.next, self.font_size, self.width)
    }
}

/// Hands out the lines of a text one at a time. A line is computed when it is
/// asked for, and there is no going back.
pub struct WordWrap {
    words: Vec<String>,
    next: usize,
    font_size: u64,
    width: u128,
}

impl View for WordWrap {
    type V = WordWrapView;

    closed spec fn view(&self) -> WordWrapView {
        WordWrapView {
            words: word_views(self.words@),
            next: self.next as int,
            font_size: self.font_size as nat,
            width: self.width as nat,
        }
    }
}

/// The estimated width of a word at the given font size.
fn cost_of(word: &String, font_size: u64) -> (cost: u128)
    ensures
        cost == word_cost(word@, font_size as nat),
{
    let len: usize = word.as_str().as_bytes().len();
    assert(font_size * len <= u128::MAX) by (nonlinear_arith)
        requires
            font_size <= u64::MAX,
            len <= u64::MAX,
    ;
    font_size as u128 * len as u128
}

/// The text of the line made of the words from index `from` up to, not
/// including, index `to`.
fn join_words(words: &Vec<String>, from: usize, to: usize) -> (text: String)
    requires
        from <= to <= words.len(),
    ensures
        text@ == line_text(word_views(words@).subrange(from as int, to as int)),
{
    let ghost all = word_views(words@);
    let mut text = String::new();
    let mut i: usize = from;
    while i < to
        invariant
            from <= i <= to <= words.len(),
            all == word_views(words@),
            text@ == line_text(all.subrange(from as int, i as int)),
        decreases to - i,
    {
        proof {
            reveal_strlit(" ");
            let line = all.subrange(from as int, i as int);
            lemma_line_text_push(line, all[i as int]);
            assert(line.push(all[i as int]) =~= all.subrange(from as int, i + 1));
        }
        text.append(words[i].as_str());
        text.append(" ");
        i += 1;
    }
    text
}

impl WordWrap {
    #[verifier::type_invariant]
    spec fn inv(self) -> bool {
        self.next <= self.words.len()
    }

    /// Starts to wrap `text` at the given font size to the given width.
    pub fn new(text: &str, font_size: u64, width: u128) -> (wrap: WordWrap)
        ensures
            wrap@ == (WordWrapView {
                words: words_of(text@),
                next: 0,
                font_size: font_size as nat,
                width: width as nat,
            }),
    {
        WordWrap { words: split_words(text), next: 0, font_size, width }
    }

    /// The font size that the text is wrapped at.
    pub fn font_size(&self) -> (size: u64)
        ensures
            size == self@.font_size,
    {
        self.font_size
    }

    /// Tells whether every line has been handed out.
    pub fn is_finished(&self) -> (finished: bool)
        ensures
            finished == self@.is_finished(),
    {
        self.next >= self.words.len()
    }

    /// Hands out the next line, or `None` when no word is left.
    pub fn next_line(&mut self) -> (line: Option<String>)
        ensures
            old(self)@.is_finished() ==> line is None && final(self)@ == old(self)@,
            !old(self)@.is_finished() ==> final(self)@ == old(self)@.advanced(),
            !old(self)@.is_finished() ==> line is Some && line->0@ == line_text(old(self)@.line()),
    {
        proof {
            use_type_invariant(&*self);
        }
        let start = self.next;
        if start >= self.words.len() {
            return None;
        }
        let ghost all = word_views(self.words@);
        let ghost size = self.font_size as nat;
        let ghost width = self.width as nat;
        let mut end: usize = start + 1;
        let mut cost: u128 = cost_of(&self.words[start], self.font_size);
        assert(run_cost(all, start as int, start as int, size) == 0);
        while end < self.words.len()
            invariant
                start < end <= self.words.len(),
                all == word_views(self.words@),
                size == self.font_size,
                width == self.width,
                cost == run_cost(all, start as int, end as int, size),
                end == start + 1 || cost <= width,
                end + fitting(all, start as int, end as int, size, width) == line_end(
                    all,
                    start as int,
                    size,
                    width,
                ),
            ensures
                end == line_end(all, start as int, size, width),
            decreases self.words.len() - end,
        {
            let more = cost_of(&self.words[end], self.font_size);
            if cost > self.width || more > self.width - cost {
                proof {
                    if cost > self.width {
                        lemma_run_cost_monotone(all, start as int, end as int, end + 1, size);
                    }
                }
                break ;
            }
            cost = cost + more;
            end += 1;
        }
        let text = join_words(&self.words, start, end);
        self.next = end;
        Some(text)
    }
}

/// The estimated width of a whole line.
pub open spec fn line_cost(line: Seq<Seq<char>>, font_size: nat) -> nat {
    run_cost(line, 0, line.len() as int, font_size)
}

/// A run of words costs the same wherever it is cut out.
pub proof fn lemma_run_cost_subrange(words: Seq<Seq<char>>, from: int, to: int, font_size: nat)
    requires
        0 <= from <= to <= words.len(),
    ensures
        line_cost(words.subrange(from, to), font_size) == run_cost(words, from, to, font_size),
    decreases to - from,
{
    let line = words.subrange(from, to);
    if from < to {
        let shorter = words.subrange(from, to - 1);
        lemma_run_cost_subrange(words, from, to - 1, font_size);
        lemma_run_cost_prefix(line, shorter, shorter.len() as int, font_size);
    }
}

/// The cost of a run rests on the words of the run alone.
proof fn lemma_run_cost_prefix(a: Seq<Seq<char>>, b: Seq<Seq<char>>, to: int, font_size: nat)
    requires
        0 <= to <= a.len(),
        to <= b.len(),
        forall|i: int| 0 <= i < to ==> a[i] == b[i],
    ensures
        run_cost(a, 0, to, font_size) == run_cost(b, 0, to, font_size),
    decreases to,
{
    if to > 0 {
        lemma_run_cost_prefix(a, b, to - 1, font_size);
    }
}

/// What makes a line end where it does, for a line that has grown to index
/// `next` within its width: what it holds in the end is within the width
/// too, unless that is a single word, and the word behind it, if there is
/// one, would not have fitted.
proof fn lemma_fitting_greedy(
    words: Seq<Seq<char>>,
    start: int,
    next: int,
    font_size: nat,
    width: nat,
)
    requires
        0 <= start < next <= words.len(),
        next == start + 1 || run_cost(words, start, next, font_size) <= width,
    ensures
        ({
            let end = next + fitting(words, start, next, font_size, width);
            &&& next <= end <= words.len()
            &&& end == start + 1 || run_cost(words, start, end, font_size) <= width
            &&& end < words.len() ==> run_cost(words, start, end + 1, font_size) > width
        }),
    decreases words.len() - next,
{
    if next < words.len() && run_cost(words, start, next + 1, font_size) <= width {
        lemma_fitting_greedy(words, start, next + 1, font_size, width);
    }
}

/// Where a line ends: behind at least one word; within the width, unless it
/// holds a single word; and before a word that would not have fitted.
pub proof fn lemma_line_end_greedy(words: Seq<Seq<char>>, start: int, font_size: nat, width: nat)
    requires
        0 <= start < words.len(),
    ensures
        ({
            let end = line_end(words, start, font_size, width);
            &&& start < end <= words.len()
            &&& end == start + 1 || run_cost(words, start, end, font_size) <= width
            &&& end < words.len() ==> run_cost(words, start, end + 1, font_size) > width
        }),
{
    lemma_fitting_greedy(words, start, start + 1, font_size, width);
}

/// The lines from index `start` on hold the words from that index on, each
/// once and in order.
pub proof fn lemma_wrap_from_flatten(words: Seq<Seq<char>>, start: int, font_size: nat, width: nat)
    requires
        0 <= start <= words.len(),
    ensures
        wrap_from(words, start, font_size, width).flatten() == words.skip(start),
    decreases words.len() - start,
{
    if start < words.len() {
        let end = line_end(words, start, font_size, width);
        lemma_line_end_greedy(words, start, font_size, width);
        lemma_wrap_from_flatten(words, end, font_size, width);
        let first = words.subrange(start, end);
        let rest = wrap_from(words, end, font_size, width);
        let lines = seq![first] + rest;
        assert(lines.drop_first() =~= rest);
    }
}

/// Every line from index `start` on holds at least one word, and is within
/// the width unless it holds a single word.
pub proof fn lemma_wrap_from_fits(words: Seq<Seq<char>>, start: int, font_size: nat, width: nat)
    requires
        0 <= start <= words.len(),
    ensures
        forall|i: int|
            #![trigger wrap_from(words, start, font_size, width)[i]]
            0 <= i < wrap_from(words, start, font_size, width).len() ==> {
                let line = wrap_from(words, start, font_size, width)[i];
                line.len() >= 1 && (line.len() == 1 || line_cost(line, font_size) <= width)
            },
    decreases words.len() - start,
{
    if start < words.len() {
        let end = line_end(words, start, font_size, width);
        lemma_line_end_greedy(words, start, font_size, width);
        lemma_wrap_from_fits(words, end, font_size, width);
        lemma_run_cost_subrange(words, start, end, font_size);
        let rest = wrap_from(words, end, font_size, width);
        let lines = wrap_from(words, start, font_size, width);
        assert forall|i: int| 0 <= i < lines.len() implies {
            let line = #[trigger] lines[i];
            line.len() >= 1 && (line.len() == 1 || line_cost(line, font_size) <= width)
        } by {
            if i > 0 {
                assert(lines[i] == rest[i - 1]);
            }
        }
    }
}

/// Reading on through a word adds the word to the one in progress.
proof fn lemma_scan_through_word(word: Seq<char>, rest: Seq<char>, current: Seq<char>)
    requires
        forall|i: int| 0 <= i < word.len() ==> !is_space(#[trigger] word[i]),
    ensures
        scan_words(word + rest, current) == scan_words(rest, current + word),
    decreases word.len(),
{
    if word.len() > 0 {
        assert((word + rest).drop_first() =~= word.drop_first() + rest);
        lemma_scan_through_word(word.drop_first(), rest, current.push(word[0]));
        assert(current.push(word[0]) + word.drop_first() =~= current + word);
    }
}

/// The words of a line's text are the words of the line.
pub proof fn lemma_line_text_words(line: Seq<Seq<char>>)
    requires
        forall|i: int| 0 <= i < line.len() ==> is_word(#[trigger] line[i]),
    ensures
        words_of(line_text(line)) == line,
    decreases line.len(),
{
    if line.len() > 0 {
        let word = line[0];
        let tail = line_text(line.drop_first());
        let rest = seq![' '] + tail;
        assert(line_text(line) =~= word + rest);
        lemma_scan_through_word(word, rest, seq![]);
        assert(rest.drop_first() =~= tail);
        lemma_line_text_words(line.drop_first());
    }
}

/// Every word that reading finds is not empty and holds no white space.
proof fn lemma_scan_finds_words(rest: Seq<char>, current: Seq<char>)
    requires
        forall|i: int| 0 <= i < current.len() ==> !is_space(#[trigger] current[i]),
    ensures
        forall|i: int|
            0 <= i < scan_words(rest, current).len() ==> is_word(
                #[trigger] scan_words(rest, current)[i],
            ),
    decreases rest.len(),
{
    let found = scan_words(rest, current);
    if rest.len() == 0 {
        assert forall|i: int| 0 <= i < found.len() implies is_word(#[trigger] found[i]) by {
            assert(found[i] == current);
        }
    } else if is_space(rest[0]) {
        let later = scan_words(rest.drop_first(), seq![]);
        lemma_scan_finds_words(rest.drop_first(), seq![]);
        assert forall|i: int| 0 <= i < found.len() implies is_word(#[trigger] found[i]) by {
            if i < finished(current).len() {
                assert(found[i] == current);
            } else {
                assert(found[i] == later[i - finished(current).len()]);
            }
        }
    } else {
        lemma_scan_finds_words(rest.drop_first(), current.push(rest[0]));
        assert(found == scan_words(rest.drop_first(), current.push(rest[0])));
    }
}

/// Every word of a text is not empty and holds no white space.
pub proof fn lemma_words_are_words(text: Seq<char>)
    ensures
        forall|i: int| 0 <= i < words_of(text).len() ==> is_word(#[trigger] words_of(text)[i]),
{
    lemma_scan_finds_words(text, seq![]);
}

/// Wrapping loses nothing and keeps to the width. The lines of a text, read
/// again word by word and put one after another, give the words of the text;
/// and no line is wider than `width`, by the estimate, unless it holds a
/// single word.
pub proof fn lemma_wrap_correct(text: Seq<char>, font_size: nat, width: nat)
    ensures
        ({
            let words = words_of(text);
            let lines = wrap_lines(words, font_size, width);
            &&& lines.map_values(|line: Seq<Seq<char>>| words_of(line_text(line))).flatten()
                == words
            &&& forall|i: int|
                0 <= i < lines.len() ==> (#[trigger] lines[i]).len() == 1 || line_cost(
                    lines[i],
                    font_size,
                ) <= width
        }),
{
    let words = words_of(text);
    let lines = wrap_lines(words, font_size, width);
    let reread = lines.map_values(|line: Seq<Seq<char>>| words_of(line_text(line)));
    lemma_words_are_words(text);
    lemma_wrap_from_flatten(words, 0, font_size, width);
    lemma_wrap_from_fits(words, 0, font_size, width);
    lemma_wrap_from_within(words, 0, font_size, width);
    assert forall|i: int| 0 <= i < lines.len() implies reread[i] == lines[i] by {
        lemma_line_text_words(lines[i]);
    }
    assert(reread =~= lines);
}

/// Every word of every line from index `start` on is one of the words.
proof fn lemma_wrap_from_within(words: Seq<Seq<char>>, start: int, font_size: nat, width: nat)
    requires
        0 <= start <= words.len(),
    ensures
        forall|i: int, j: int|
            #![trigger wrap_from(words, start, font_size, width)[i][j]]
            0 <= i < wrap_from(words, start, font_size, width).len() && 0 <= j < wrap_from(
                words,
                start,
                font_size,
                width,
            )[i].len() ==> words.contains(wrap_from(words, start, font_size, width)[i][j]),
    decreases words.len() - start,
{
    if start < words.len() {
        let end = line_end(words, start, font_size, width);
        lemma_line_end_greedy(words, start, font_size, width);
        lemma_wrap_from_within(words, end, font_size, width);
        let rest = wrap_from(words, end, font_size, width);
        let lines = wrap_from(words, start, font_size, width);
        assert forall|i: int, j: int|
            0 <= i < lines.len() && 0 <= j < lines[i].len() implies words.contains(
            #[trigger] lines[i][j],
        ) by {
            if i > 0 {
                assert(lines[i] == rest[i - 1]);
            } else {
                assert(lines[0][j] == words[start + j]);
            }
        }
    }
}

/// The lines still to come are the next line and then those that come after
/// it.
pub proof fn lemma_lines_unfold(wrap: WordWrapView)
    requires
        0 <= wrap.next,
        !wrap.is_finished(),
    ensures
        wrap.lines() == seq![wrap.line()] + wrap.advanced().lines(),
{
}

} // verus!
