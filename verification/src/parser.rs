//! A romanization parser with a compact interface: tokenize-and-feed in
//! one call, and prefix hints as bare letters.

use vstd::prelude::*;

use crate::hangul::{Hangul, HangulError, HangulResult};
use crate::hangul_parser::HangulParser;
use crate::jamo::Jamo;
use crate::syllable::Syllable;
use crate::syllable::SyllableError;

verus! {

/// A romanization parser over the fixed table.
pub struct Parser {
    pub table: HangulParser,
}

impl Parser {
    /// The underlying table is the fixed romanization table.
    pub open spec fn wf(self) -> bool {
        self.table.wf()
    }

    /// Builds the fixed romanization table.
    pub fn new() -> (r: Parser)
        ensures
            r.wf(),
    {
        Parser { table: HangulParser::new() }
    }

    /// Tokenizes the input to its end, feeding every matched letter into
    /// the string, until the remainder stops shrinking; yields that final
    /// remainder. On an error the string keeps the letters already fed.
    pub fn parse<'a>(&self, hangul: &mut Hangul, input: &'a str) -> (r: HangulResult<&'a str>)
        ensures
            match self.table.parse_spec(old(hangul)@, input@) {
                Ok((sq, rem)) => (r matches Ok(t) && t@ == rem) && final(hangul)@ == sq,
                Err(e) => r == Err::<&'a str, HangulError>(HangulError::Syllable(e)),
            },
            old(hangul).wf() ==> final(hangul).wf(),
    {
        self.table.parse(hangul, input)
    }

    /// Tokenizes once and feeds the result into the string: a letter
    /// after a break forces a new syllable, any other letter is pushed,
    /// and an unmatched run is skipped silently. Yields the remainder.
    pub fn parse_token<'a>(&self, hangul: &mut Hangul, input: &'a str) -> (r: HangulResult<
        &'a str,
    >)
        ensures
            ({
                let (oj, br, rem) = self.table.parse_jamo_spec(input@);
                match oj {
                    None => *final(hangul) == *old(hangul) && (r matches Ok(t) && t@ == rem),
                    Some(j) => match (if br {
                        Hangul::break_with_seq(old(hangul)@, j)
                    } else {
                        Hangul::push_back_seq(old(hangul)@, j)
                    }) {
                        Ok(sq) => final(hangul)@ == sq && (r matches Ok(t) && t@ == rem),
                        Err(e) => *final(hangul) == *old(hangul) && r == Err::<&'a str,
                            HangulError,
                        >(HangulError::Syllable(e)),
                    },
                }
            }),
            old(hangul).wf() ==> final(hangul).wf(),
    {
        self.table.parse_token(hangul, input)
    }

    /// Every letter reachable below the table node for the given partial
    /// spelling.
    pub fn with_prefix(&self, token: &str) -> (r: Vec<Jamo>)
        ensures
            match self.table.tree.spec_subtree(token@) {
                Some(st) => r@.len() == st.all_spec().len() && (forall|m: int|
                    0 <= m < r@.len() ==> r@[m] == st.all_spec()[m]),
                None => r@.len() == 0,
            },
    {
        let chars = crate::ext::str_chars(token);
        let sub = match self.table.tree.get_tree(chars.as_slice()) {
            Some(t) => t,
            None => {
                return Vec::new();
            },
        };
        let vals = sub.all();
        let mut r: Vec<Jamo> = Vec::new();
        let mut m: usize = 0;
        while m < vals.len()
            invariant
                m <= vals@.len(),
                r@.len() == m,
                vals@.len() == sub.all_spec().len(),
                forall|k: int| 0 <= k < vals@.len() ==> *vals@[k] == sub.all_spec()[k],
                forall|k: int| 0 <= k < m ==> r@[k] == sub.all_spec()[k],
            decreases vals@.len() - m,
        {
            r.push(*vals[m]);
            m = m + 1;
        }
        r
    }
}

} // verus!
