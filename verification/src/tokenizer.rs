//! Splitting a line into words.
//!
//! A line is cut in front of every space that stands outside a quoted region.
//! Nothing is removed by the cut: the pieces, put together again, are the
//! line, quotes included. The words of a line are the pieces that hold more
//! than a lone space, each without the white space around it.

use vstd::prelude::*;
use vstd::string::StringExecFns;
use crate::error::ParseError;
use crate::selector::{is_quote, Selector, SelectorView};
use crate::text::{is_white_space, law_trimmed, trimmed};

verus! {

/// The quote that is still open once `s` has been read, if there is one. A
/// region opened by one quote character is closed only by the same character;
/// the other one is ordinary text inside it.
pub open spec fn open_quote(s: Seq<char>) -> Option<char>
    decreases s.len(),
{
    if s.len() == 0 {
        None
    } else {
        match open_quote(s.drop_last()) {
            Some(q) => if s.last() == q { None } else { Some(q) },
            None => if is_quote(s.last()) { Some(s.last()) } else { None },
        }
    }
}

/// Every quoted region of `s` is closed.
pub open spec fn balanced(s: Seq<char>) -> bool {
    open_quote(s) is None
}

/// How often `c` occurs in `s`.
pub open spec fn occurrences(s: Seq<char>, c: char) -> nat
    decreases s.len(),
{
    if s.len() == 0 {
        0
    } else {
        occurrences(s.drop_last(), c) + if s.last() == c { 1nat } else { 0nat }
    }
}

/// A piece starts at position `i` of `s`: at the first character, and at
/// every space outside a quoted region.
pub open spec fn starts_piece(s: Seq<char>, i: int) -> bool {
    i == 0 || (s[i] == ' ' && open_quote(s.take(i)) is None)
}

/// The pieces of `s`, in order.
pub open spec fn pieces(s: Seq<char>) -> Seq<Seq<char>>
    decreases s.len(),
{
    if s.len() == 0 {
        Seq::empty()
    } else {
        let before = pieces(s.drop_last());
        if starts_piece(s, s.len() - 1) {
            before.push(seq![s.last()])
        } else {
            before.drop_last().push(before.last().push(s.last()))
        }
    }
}

/// A piece that carries no word: nothing at all, or a lone space.
pub open spec fn is_blank(piece: Seq<char>) -> bool {
    piece.len() == 0 || piece == seq![' ']
}

/// The words that `found` carries: its pieces but for the blank ones, each
/// without the white space around it.
pub open spec fn words_of(found: Seq<Seq<char>>) -> Seq<Seq<char>> {
    found.filter(|piece: Seq<char>| !is_blank(piece)).map_values(|piece: Seq<char>| trimmed(piece))
}

/// The words of a line: those of its pieces once the white space around the
/// line is gone.
pub open spec fn words_of_line(line: Seq<char>) -> Seq<Seq<char>> {
    words_of(pieces(trimmed(line)))
}

/// A word starts at position `i` of `s`: a piece starts there that holds
/// more than a lone space.
pub open spec fn starts_word(s: Seq<char>, i: int) -> bool {
    starts_piece(s, i) && !(s[i] == ' ' && (i + 1 == s.len() || starts_piece(s, i + 1)))
}

/// The number of positions below `n` at which a word of `s` starts.
pub open spec fn word_starts(s: Seq<char>, n: int) -> nat
    decreases n,
{
    if n <= 0 {
        0
    } else {
        word_starts(s, n - 1) + if starts_word(s, n - 1) { 1nat } else { 0nat }
    }
}

/// The scanner that started fresh and has read `s`.
pub open spec fn scanner_after(s: Seq<char>) -> SelectorView {
    match open_quote(s) {
        Some(q) => SelectorView { active: true, stack: seq![q], ..SelectorView::fresh() },
        None => SelectorView::fresh(),
    }
}

/// Cuts `line` into its pieces: the scanner reads the line character by
/// character, and a new piece starts wherever it answers that the character
/// does not continue the word. A line that ends inside a quoted region is
/// refused as a whole.
pub fn split(line: &str) -> (r: Result<Vec<String>, ParseError>)
    ensures
        match r {
            Ok(found) => balanced(line@) && found.deep_view() == pieces(line@),
            Err(e) => !balanced(line@) && e == ParseError::UnmatchedQuote,
        },
{
    let mut selector = Selector::new();
    let mut found: Vec<String> = Vec::new();
    let mut current = String::new();
    let mut started = false;
    for c in it: line.chars()
        invariant
            it.seq() == line@,
            selector@ == scanner_after(line@.take(it.index())),
            started == (it.index() > 0),
            !started ==> found@.len() == 0 && current@.len() == 0,
            started ==> found.deep_view().push(current@) == pieces(line@.take(it.index())),
    {
        let ghost i: int = it.index();
        let ghost before = pieces(line@.take(i));
        let ghost done = found.deep_view();
        let ghost word = current@;
        proof {
            lemma_scanner_reads(line@, i);
            assert(line@.take(i + 1).drop_last() == line@.take(i));
        }
        match selector.select(&c) {
            Err(refusal) => {
                return Err(refusal);
            },
            Ok(keep) => {
                if started && keep {
                    current.push(c);
                    assert(before.drop_last() == done && before.last() == word);
                } else {
                    if started {
                        found.push(current);
                        current = String::new();
                        assert(found.deep_view() == before);
                    }
                    current.push(c);
                    started = true;
                    assert(current@ == seq![c]);
                }
            },
        }
    }
    assert(line@.take(line@.len() as int) == line@);
    if selector.char_stack.len() > 0 {
        return Err(ParseError::UnmatchedQuote);
    }
    if started {
        let ghost done = found.deep_view();
        found.push(current);
        assert(found.deep_view() == done.push(current@));
    }
    Ok(found)
}

/// Drops the blank pieces and trims the others.
pub fn words(found: &Vec<String>) -> (r: Vec<String>)
    ensures
        r.deep_view() == words_of(found.deep_view()),
{
    let space = String::from_str(" ");
    let mut kept: Vec<String> = Vec::new();
    let ghost all = found.deep_view();
    proof {
        reveal_strlit(" ");
        reveal(Seq::filter);
    }
    for i in 0..found.len()
        invariant
            all == found.deep_view(),
            space@ == seq![' '],
            kept.deep_view() == words_of(all.take(i as int)),
    {
        let piece = &found[i];
        let ghost before = kept.deep_view();
        proof {
            reveal(Seq::filter);
            assert(all.take(i + 1).drop_last() == all.take(i as int));
        }
        if !(piece.as_str().is_empty() || *piece == space) {
            kept.push(piece.as_str().trim().to_owned());
            assert(kept.deep_view() == before.push(trimmed(piece@)));
        }
    }
    assert(all.take(found.len() as int) == all);
    kept
}

/// Splits a line into its words. A line that ends inside a quoted region is
/// refused as a whole, and no word of it is returned.
pub fn tokenize(line: &str) -> (r: Result<Vec<String>, ParseError>)
    ensures
        match r {
            Ok(found) => balanced(trimmed(line@)) && found.deep_view() == words_of_line(line@),
            Err(e) => !balanced(trimmed(line@)) && e == ParseError::UnmatchedQuote,
        },
{
    match split(line.trim()) {
        Ok(found) => Ok(words(&found)),
        Err(e) => Err(e),
    }
}

/// Reading one more character moves the scanner as `open_quote` says, and
/// the scanner keeps the character in the current word unless it is a space
/// outside every quoted region.
proof fn lemma_scanner_reads(s: Seq<char>, i: int)
    requires
        0 <= i < s.len(),
    ensures
        scanner_after(s.take(i)).step(s[i]) == scanner_after(s.take(i + 1)),
        scanner_after(s.take(i)).verdict(s[i]) == Ok::<bool, ParseError>(
            !(s[i] == ' ' && open_quote(s.take(i)) is None),
        ),
{
    let before = s.take(i);
    assert(s.take(i + 1).drop_last() == before);
    if open_quote(before) is Some {
        assert(scanner_after(before).stack.drop_last() == Seq::<char>::empty());
    }
}

/// A scanner that starts fresh and reads `s` ends where `open_quote` says:
/// it is inside a quoted region exactly when a quote of `s` is still open,
/// and that quote is all it remembers.
pub proof fn law_scanner_follows(s: Seq<char>)
    ensures
        SelectorView::fresh().run(s) == scanner_after(s),
    decreases s.len(),
{
    if s.len() > 0 {
        let i: int = s.len() - 1;
        law_scanner_follows(s.drop_last());
        lemma_scanner_reads(s, i);
    }
}

/// The pieces are cut where the scanner says: behind the first character, a
/// piece starts exactly where a scanner that has read the line so far
/// answers `Ok(false)`, and the scanner never refuses a character.
pub proof fn law_scanner_cuts(s: Seq<char>, i: int)
    requires
        0 < i < s.len(),
    ensures
        SelectorView::fresh().run(s.take(i)).verdict(s[i]) == Ok::<bool, ParseError>(
            !starts_piece(s, i),
        ),
{
    law_scanner_follows(s.take(i));
    lemma_scanner_reads(s, i);
}

/// Nothing of a line with balanced quotes stays in the scanner: after such a
/// line it is as fresh as before, and the next line is read as if it were
/// the first.
pub proof fn law_scanner_restarts(first: Seq<char>, second: Seq<char>)
    requires
        balanced(first),
    ensures
        SelectorView::fresh().run(first) == SelectorView::fresh(),
        SelectorView::fresh().run(first).run(second) == SelectorView::fresh().run(second),
{
    law_scanner_follows(first);
}

/// A text without a quote character is balanced.
pub proof fn law_plain_text_is_balanced(s: Seq<char>)
    requires
        forall|i: int| 0 <= i < s.len() ==> !is_quote(#[trigger] s[i]),
    ensures
        balanced(s),
    decreases s.len(),
{
    if s.len() > 0 {
        law_plain_text_is_balanced(s.drop_last());
    }
}

/// A text with one kind of quote in it is balanced exactly when it holds an
/// even number of them.
pub proof fn law_one_kind_of_quote(s: Seq<char>, q: char)
    requires
        is_quote(q),
        forall|i: int| 0 <= i < s.len() && is_quote(#[trigger] s[i]) ==> s[i] == q,
    ensures
        balanced(s) == (occurrences(s, q) % 2 == 0),
        !balanced(s) ==> open_quote(s) == Some(q),
    decreases s.len(),
{
    if s.len() > 0 {
        law_one_kind_of_quote(s.drop_last(), q);
        assert(is_quote(s[s.len() - 1]) ==> s.last() == q);
    }
}

/// Between an opening quote at `from` and position `i`, with no other
/// occurrence of that quote on the way, the region is still open.
proof fn lemma_region_stays_open(s: Seq<char>, from: int, i: int)
    requires
        0 <= from < i <= s.len(),
        balanced(s.take(from)),
        is_quote(s[from]),
        forall|j: int| from < j < i ==> s[j] != s[from],
    ensures
        open_quote(s.take(i)) == Some(s[from]),
    decreases i,
{
    assert(s.take(i).drop_last() == s.take(i - 1));
    if i > from + 1 {
        lemma_region_stays_open(s, from, i - 1);
    }
}

/// A quoted region ends at the next occurrence of the quote that opened it
/// and nowhere else. Whatever stands in between is text of the region, the
/// other quote character and spaces too, and no piece starts there.
pub proof fn law_quoted_region(s: Seq<char>, from: int, to: int)
    requires
        0 <= from < to < s.len(),
        balanced(s.take(from)),
        is_quote(s[from]),
        s[to] == s[from],
        forall|j: int| from < j < to ==> s[j] != s[from],
    ensures
        forall|i: int| from < i <= to ==> open_quote(#[trigger] s.take(i)) == Some(s[from]),
        balanced(s.take(to + 1)),
        forall|i: int| from < i <= to ==> !starts_piece(s, i),
{
    assert forall|i: int| from < i <= to implies open_quote(#[trigger] s.take(i)) == Some(
        s[from],
    ) by {
        lemma_region_stays_open(s, from, i);
    }
    assert(s.take(to + 1).drop_last() == s.take(to));
    assert forall|i: int| from < i <= to implies !starts_piece(s, i) by {
        lemma_region_stays_open(s, from, i);
    }
}

/// Every piece holds a character, and every piece but the first begins with
/// a space.
pub proof fn law_piece_shape(s: Seq<char>)
    ensures
        (s.len() == 0) == (pieces(s).len() == 0),
        forall|k: int| 0 <= k < pieces(s).len() ==> (#[trigger] pieces(s)[k]).len() > 0,
        forall|k: int| 0 < k < pieces(s).len() ==> (#[trigger] pieces(s)[k])[0] == ' ',
    decreases s.len(),
{
    if s.len() > 0 {
        law_piece_shape(s.drop_last());
    }
}

/// Nothing is lost by the cut: the pieces of a text, put together again, are
/// the text.
pub proof fn law_pieces_join(s: Seq<char>)
    ensures
        pieces(s).flatten() == s,
    decreases s.len(),
{
    broadcast use Seq::lemma_flatten_push;

    if s.len() > 0 {
        let before = pieces(s.drop_last());
        law_pieces_join(s.drop_last());
        if !starts_piece(s, s.len() - 1) {
            law_piece_shape(s.drop_last());
            assert(before == before.drop_last().push(before.last()));
            assert(s.drop_last().push(s.last()) == s);
        }
    }
}

/// No word starts or ends with white space.
pub proof fn law_words_are_trimmed(found: Seq<Seq<char>>, k: int)
    requires
        0 <= k < words_of(found).len(),
    ensures
        words_of(found)[k].len() > 0 ==> !is_white_space(words_of(found)[k].first())
            && !is_white_space(words_of(found)[k].last()),
{
    let kept = found.filter(|piece: Seq<char>| !is_blank(piece));
    law_trimmed(kept[k]);
}

/// The last piece is a single character exactly when a piece starts at the
/// last position.
proof fn lemma_last_piece(s: Seq<char>)
    requires
        s.len() > 0,
    ensures
        pieces(s).len() > 0,
        starts_piece(s, s.len() - 1) ==> pieces(s).last() == seq![s.last()],
        !starts_piece(s, s.len() - 1) ==> pieces(s).last().len() >= 2,
{
    law_piece_shape(s);
    law_piece_shape(s.drop_last());
}

/// Where a text is cut does not depend on what follows.
proof fn lemma_starts_in_prefix(s: Seq<char>, n: int, i: int)
    requires
        0 <= i < n <= s.len(),
    ensures
        starts_piece(s.take(n), i) == starts_piece(s, i),
{
    assert(s.take(n).take(i) == s.take(i));
}

/// Below the last position of a beginning of `s`, words start in the
/// beginning where they start in `s`.
proof fn lemma_word_starts_in_prefix(s: Seq<char>, n: int, k: int)
    requires
        0 <= k < n <= s.len(),
    ensures
        word_starts(s.take(n), k) == word_starts(s, k),
    decreases k,
{
    if k > 0 {
        lemma_word_starts_in_prefix(s, n, k - 1);
        lemma_starts_in_prefix(s, n, k - 1);
        lemma_starts_in_prefix(s, n, k);
    }
}

/// One more piece is one more word unless the piece is blank.
proof fn lemma_count_pushed(found: Seq<Seq<char>>, piece: Seq<char>)
    ensures
        words_of(found.push(piece)).len() == words_of(found).len() + if is_blank(piece) {
            0int
        } else {
            1int
        },
{
    reveal(Seq::filter);
    assert(found.push(piece).drop_last() == found);
}

/// A text has as many words as it has positions at which a word starts.
pub proof fn law_word_count(s: Seq<char>)
    ensures
        words_of(pieces(s)).len() == word_starts(s, s.len() as int),
    decreases s.len(),
{
    let n: int = s.len() - 1;
    if s.len() == 0 {
        reveal(Seq::filter);
    } else if n == 0 {
        let none = pieces(s.drop_last());
        reveal(Seq::filter);
        lemma_count_pushed(none, seq![s.last()]);
        assert(is_blank(seq![s.last()]) == (s[0] == ' ')) by {
            assert(seq![' '][0] == ' ');
        }
        assert(word_starts(s, 0) == 0);
    } else {
        let p = s.drop_last();
        let before = pieces(p);
        law_word_count(p);
        lemma_last_piece(p);
        lemma_word_starts_in_prefix(s, n, n - 1);
        lemma_starts_in_prefix(s, n, n - 1);
        assert(word_starts(s, n) == word_starts(s, n - 1) + if starts_word(s, n - 1) {
            1nat
        } else {
            0nat
        });
        assert(word_starts(p, n) == word_starts(p, n - 1) + if starts_word(p, n - 1) {
            1nat
        } else {
            0nat
        });
        if starts_piece(s, n) {
            lemma_count_pushed(before, seq![s.last()]);
        } else {
            let rest = before.drop_last();
            let last = before.last();
            assert(before == rest.push(last));
            lemma_count_pushed(rest, last);
            lemma_count_pushed(rest, last.push(s.last()));
            assert(is_blank(last) == (starts_piece(p, n - 1) && p[n - 1] == ' ')) by {
                assert(seq![' '][0] == ' ');
            }
            assert(!is_blank(last.push(s.last()))) by {
                assert(seq![' '].len() == 1);
            }
        }
    }
}

} // verus!
