//! The text operations of the standard library that the shell relies on.
//! Their contracts are taken on trust: each states what the standard library
//! documents of the function it names. The laws that follow them are proved.

use vstd::prelude::*;

verus! {

/// Whether `c` is white space to `str::trim`: whether it carries the Unicode
/// property `White_Space`.
pub uninterp spec fn is_white_space(c: char) -> bool;

/// `s` without the white space it starts with.
pub open spec fn trim_start(s: Seq<char>) -> Seq<char>
    decreases s.len(),
{
    if s.len() > 0 && is_white_space(s[0]) {
        trim_start(s.drop_first())
    } else {
        s
    }
}

/// `s` without the white space it ends with.
pub open spec fn trim_end(s: Seq<char>) -> Seq<char>
    decreases s.len(),
{
    if s.len() > 0 && is_white_space(s.last()) {
        trim_end(s.drop_last())
    } else {
        s
    }
}

/// `s` without leading and trailing white space.
pub open spec fn trimmed(s: Seq<char>) -> Seq<char> {
    trim_end(trim_start(s))
}

/// The lower-case form of `s` as `str::to_lowercase` computes it from the
/// Unicode case mappings.
pub uninterp spec fn lowercase(s: Seq<char>) -> Seq<char>;

/// `str::trim` returns the slice that is left when leading and trailing
/// white space is removed. What is left neither starts nor ends with white
/// space; `law_trimmed` shows that `trimmed` says so already.
pub assume_specification[ str::trim ](s: &str) -> (r: &str)
    ensures
        r@ == trimmed(s@),
        r@.len() > 0 ==> !is_white_space(r@.first()) && !is_white_space(r@.last()),
;

/// `str::to_lowercase` returns the lower-case form of the whole string as a
/// new `String`.
pub assume_specification[ str::to_lowercase ](s: &str) -> (r: String)
    ensures
        r@ == lowercase(s@),
;

/// `String::push` appends one character at the end.
pub assume_specification[ String::push ](s: &mut String, c: char)
    ensures
        final(s)@ == old(s)@.push(c),
;

/// What `trim_start` leaves is the end of the text and does not begin with
/// white space.
proof fn lemma_trim_start(s: Seq<char>)
    ensures
        trim_start(s).len() <= s.len(),
        trim_start(s) == s.skip(s.len() - trim_start(s).len()),
        trim_start(s).len() > 0 ==> !is_white_space(trim_start(s).first()),
    decreases s.len(),
{
    if s.len() > 0 && is_white_space(s[0]) {
        let rest = s.drop_first();
        lemma_trim_start(rest);
        assert(rest.skip(rest.len() - trim_start(rest).len()) == s.skip(
            s.len() - trim_start(rest).len(),
        ));
    } else {
        assert(s.skip(0) == s);
    }
}

/// What `trim_end` leaves is the beginning of the text and does not end with
/// white space.
proof fn lemma_trim_end(s: Seq<char>)
    ensures
        trim_end(s).len() <= s.len(),
        trim_end(s) == s.take(trim_end(s).len() as int),
        trim_end(s).len() > 0 ==> !is_white_space(trim_end(s).last()),
    decreases s.len(),
{
    if s.len() > 0 && is_white_space(s.last()) {
        let rest = s.drop_last();
        lemma_trim_end(rest);
        assert(rest.take(trim_end(rest).len() as int) == s.take(trim_end(rest).len() as int));
    } else {
        assert(s.take(s.len() as int) == s);
    }
}

/// A trimmed text is a stretch of the text it was made from, it neither
/// starts nor ends with white space, and trimming it again changes nothing.
pub proof fn law_trimmed(s: Seq<char>)
    ensures
        ({
            let from: int = s.len() - trim_start(s).len();
            0 <= from && from + trimmed(s).len() <= s.len() && trimmed(s) == s.subrange(
                from,
                from + trimmed(s).len(),
            )
        }),
        trimmed(s).len() > 0 ==> !is_white_space(trimmed(s).first()) && !is_white_space(
            trimmed(s).last(),
        ),
        trimmed(trimmed(s)) == trimmed(s),
{
    let tail = trim_start(s);
    let kept = trim_end(tail);
    lemma_trim_start(s);
    lemma_trim_end(tail);
    let from: int = s.len() - tail.len();
    assert(kept == s.subrange(from, from + kept.len()));
    if kept.len() > 0 {
        assert(kept.first() == tail.first());
    }
}

} // verus!
