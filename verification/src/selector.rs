//! The quote scanner: for each character of a line, in order, it decides
//! whether the character continues the current word.

use vstd::prelude::*;
use crate::error::ParseError;

verus! {

/// The scanner as a mathematical value.
pub struct SelectorView {
    /// The scanner is inside a quoted region.
    pub active: bool,
    /// The characters that open a quoted region.
    pub quotes: Set<char>,
    /// The quotes that are open, oldest first.
    pub stack: Seq<char>,
    /// A step was refused at some point.
    pub had_error: bool,
}

/// The characters that open and close a quoted region unless the scanner
/// was set up with others: the double quote and the apostrophe.
pub open spec fn is_quote(c: char) -> bool {
    c == '"' || c == '\''
}

impl SelectorView {
    /// The scanner at the start of a line.
    pub open spec fn fresh() -> SelectorView {
        SelectorView {
            active: false,
            quotes: Set::new(|c: char| is_quote(c)),
            stack: Seq::empty(),
            had_error: false,
        }
    }

    /// The scanner is inside a quoted region exactly when it remembers an
    /// opening quote.
    pub open spec fn consistent(self) -> bool {
        self.active == (self.stack.len() > 0)
    }

    /// The scanner claims an open quote but remembers none: it refuses to go on.
    pub open spec fn stuck(self) -> bool {
        self.active && self.stack.len() == 0
    }

    /// The scanner after it has read `c`.
    pub open spec fn step(self, c: char) -> SelectorView {
        if self.stuck() {
            SelectorView { had_error: true, ..self }
        } else if self.active {
            if c == self.stack.last() {
                SelectorView {
                    active: self.stack.len() > 1,
                    stack: self.stack.drop_last(),
                    ..self
                }
            } else {
                self
            }
        } else if self.quotes.contains(c) {
            SelectorView { active: true, stack: self.stack.push(c), ..self }
        } else {
            self
        }
    }

    /// The scanner after it has read all of `s`, one character after the
    /// other.
    pub open spec fn run(self, s: Seq<char>) -> SelectorView
        decreases s.len(),
    {
        if s.len() == 0 {
            self
        } else {
            self.run(s.drop_last()).step(s.last())
        }
    }

    /// What the scanner answers when it reads `c`: `Ok(true)` when `c`
    /// continues the current word, `Ok(false)` when `c` is a space outside
    /// every quoted region.
    pub open spec fn verdict(self, c: char) -> Result<bool, ParseError> {
        if self.stuck() {
            Err(ParseError::Inconsistent)
        } else {
            Ok(self.active || self.quotes.contains(c) || c != ' ')
        }
    }
}

/// Tracks, character by character, whether the reading position lies inside a
/// quoted region.
#[derive(Clone, Debug)]
pub struct Selector {
    /// True while a quoted region is open.
    pub active: bool,
    /// The characters that open a quoted region.
    pub chars_selected: Vec<char>,
    /// The opening quotes that have not been closed yet, oldest first.
    pub char_stack: Vec<char>,
    /// Set once a step has been refused.
    pub catch_error: bool,
}

impl View for Selector {
    type V = SelectorView;

    open spec fn view(&self) -> SelectorView {
        SelectorView {
            active: self.active,
            quotes: self.chars_selected@.to_set(),
            stack: self.char_stack@,
            had_error: self.catch_error,
        }
    }
}

/// Whether `c` occurs in `chars`.
fn occurs(chars: &Vec<char>, c: char) -> (found: bool)
    ensures
        found == chars@.to_set().contains(c),
{
    let mut i: usize = 0;
    while i < chars.len()
        invariant
            i <= chars.len(),
            forall|j: int| 0 <= j < i ==> chars@[j] != c,
        decreases chars.len() - i,
    {
        if chars[i] == c {
            return true;
        }
        i += 1;
    }
    false
}

impl Selector {
    /// A scanner at the start of a line: outside every quoted region, with
    /// the double quote and the apostrophe as quote characters.
    pub fn new() -> (r: Selector)
        ensures
            r@ == SelectorView::fresh(),
            r.chars_selected@ == seq!['"', '\''],
    {
        let mut quotes: Vec<char> = Vec::new();
        quotes.push('"');
        quotes.push('\'');
        let r = Selector {
            active: false,
            chars_selected: quotes,
            char_stack: Vec::new(),
            catch_error: false,
        };
        proof {
            assert(r.chars_selected@[0] == '"' && r.chars_selected@[1] == '\'');
            assert(r@.quotes =~= SelectorView::fresh().quotes);
        }
        r
    }

    /// Reads one character. The answer is `Ok(false)` for a space outside
    /// every quoted region and `Ok(true)` for any other character; a scanner
    /// that is active with nothing on its stack answers with an error and
    /// records it.
    pub fn select(&mut self, c: &char) -> (r: Result<bool, ParseError>)
        ensures
            final(self)@ == old(self)@.step(*c),
            final(self).chars_selected == old(self).chars_selected,
            r == old(self)@.verdict(*c),
            old(self)@.consistent() ==> final(self)@.consistent() && r is Ok,
    {
        if self.active {
            let depth: usize = self.char_stack.len();
            if depth == 0 {
                self.catch_error = true;
                Err(ParseError::Inconsistent)
            } else {
                if self.char_stack[depth - 1] == *c {
                    self.char_stack.pop();
                    if self.char_stack.len() == 0 {
                        self.active = false;
                    }
                }
                Ok(true)
            }
        } else {
            if occurs(&self.chars_selected, *c) {
                self.char_stack.push(*c);
                self.active = true;
            }
            Ok(*c != ' ' || self.active)
        }
    }
}

/// A consistent scanner stays consistent whatever it reads, never refuses a
/// character and records no error.
pub proof fn law_consistent_stays(state: SelectorView, c: char)
    requires
        state.consistent(),
    ensures
        state.step(c).consistent(),
        state.verdict(c) is Ok,
        state.step(c).had_error == state.had_error,
        state.step(c).quotes == state.quotes,
{
}

/// A consistent scanner is consistent after any text.
pub proof fn law_consistent_after_run(state: SelectorView, s: Seq<char>)
    requires
        state.consistent(),
    ensures
        state.run(s).consistent(),
        state.run(s).had_error == state.had_error,
        state.run(s).quotes == state.quotes,
    decreases s.len(),
{
    if s.len() > 0 {
        law_consistent_after_run(state, s.drop_last());
        law_consistent_stays(state.run(s.drop_last()), s.last());
    }
}

} // verus!
