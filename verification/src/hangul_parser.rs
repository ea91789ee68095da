//! The romanization tokenizer: longest-match lookup of Latin spellings in
//! a prefix tree, driving the syllable state machine.
//!
//! [`HangulParser::parse_jamo`] consumes leading break characters and
//! then the longest spelling of up to three characters that the fixed
//! table knows; [`HangulParser::parse`] repeats this, feeding each letter
//! into a [`Hangul`], until the input stops shrinking. A run that matches
//! nothing is skipped silently — it is not an error.

use vstd::prelude::*;

use crate::ext::{str_chars, Tree};
use crate::hangul::{Hangul, HangulError, HangulResult};
use crate::jamo::Jamo;
use crate::syllable::{Syllable, SyllableError};

verus! {

/// Whether the character forces a syllable boundary in romanized input.
pub open spec fn is_break_spec(c: char) -> bool {
    c == ' ' || c == '-'
}

/// The input with its leading break characters removed.
pub open spec fn skip_breaks(s: Seq<char>) -> Seq<char>
    decreases s.len(),
{
    if s.len() > 0 && is_break_spec(s[0]) {
        skip_breaks(s.drop_first())
    } else {
        s
    }
}

/// What remains after the breaks is a suffix: never longer than the
/// input, and exactly the input when the input does not open with a
/// break.
pub proof fn lemma_skip_breaks_len(s: Seq<char>)
    ensures
        skip_breaks(s).len() <= s.len(),
        s.len() > 0 && !is_break_spec(s[0]) ==> skip_breaks(s) == s,
        skip_breaks(s).len() == s.len() ==> skip_breaks(s) == s,
    decreases s.len(),
{
    if s.len() > 0 && is_break_spec(s[0]) {
        lemma_skip_breaks_len(s.drop_first());
    }
}

/// A parser over the fixed romanization table.
///
/// Well-formedness ([`HangulParser::wf`]): the tree holds exactly the
/// table — the canonical spelling of every letter maps to that letter,
/// and nothing else is stored.
pub struct HangulParser {
    pub tree: Tree<Jamo>,
}

impl HangulParser {
    /// The tree holds the canonical spelling of every letter and nothing
    /// else.
    pub open spec fn wf(self) -> bool {
        &&& self.tree.wf()
        &&& forall|j: Jamo| self.tree.spec_get(#[trigger] j.rr_spec()) == Some(j)
        &&& forall|k: Seq<char>|
            (#[trigger] self.tree.spec_get(k)) is Some ==> exists|j: Jamo|
                j.rr_spec() == k && self.tree.spec_get(k) == Some(j)
    }

    /// Builds the fixed romanization table: one entry per letter, keyed
    /// by its canonical spelling.
    #[verifier::loop_isolation(false)]
    pub fn new() -> (r: HangulParser)
        ensures
            r.wf(),
    {
        let mut tree: Tree<Jamo> = Tree::new();
        let all = Jamo::all();
        let mut idx: usize = 0;
        proof {
            crate::jamo::lemma_rr_injective();
            crate::jamo::lemma_jamo_all_complete();
        }
        while idx < all.len()
            invariant
                tree.wf(),
                idx <= all@.len(),
                forall|j: Jamo| all@.take(idx as int).contains(j)
                    ==> tree.spec_get(#[trigger] j.rr_spec()) == Some(j),
                forall|k: Seq<char>| (#[trigger] tree.spec_get(k)) is Some ==> exists|j: Jamo|
                    all@.take(idx as int).contains(j) && j.rr_spec() == k && tree.spec_get(k)
                        == Some(j),
            decreases all@.len() - idx,
        {
            let j = all[idx];
            let ghost pre = tree;
            tree.insert_str(j.rr(), j);
            proof {
                let s0 = all@.take(idx as int);
                let s1 = all@.take(idx as int + 1);
                assert(s1 =~= s0.push(j));
                assert(s1[idx as int] == j);
                assert(s1.contains(j));
                assert forall|x: Jamo| #[trigger] s0.contains(x) implies s1.contains(x) by {
                    let i = choose|i: int| 0 <= i < s0.len() && s0[i] == x;
                    assert(s1[i] == x);
                }
                assert forall|x: Jamo| #[trigger] s1.contains(x)
                    implies s0.contains(x) || x == j by {
                    let i = choose|i: int| 0 <= i < s1.len() && s1[i] == x;
                    if i < s0.len() {
                        assert(s0[i] == x);
                    }
                }
                assert forall|x: Jamo| s1.contains(x)
                    implies tree.spec_get(#[trigger] x.rr_spec()) == Some(x) by {
                    if x != j {
                        assert(x.rr_spec() != j.rr_spec());
                        assert(tree.spec_get(x.rr_spec()) == pre.spec_get(x.rr_spec()));
                    }
                }
                assert forall|k: Seq<char>| (#[trigger] tree.spec_get(k)) is Some
                    implies exists|x: Jamo|
                        s1.contains(x) && x.rr_spec() == k && tree.spec_get(k) == Some(x) by {
                    if k == j.rr_spec() {
                        assert(s1.contains(j) && j.rr_spec() == k && tree.spec_get(k) == Some(j));
                    } else {
                        assert(tree.spec_get(k) == pre.spec_get(k));
                        let x = choose|x: Jamo|
                            s0.contains(x) && x.rr_spec() == k && pre.spec_get(k) == Some(x);
                        assert(s1.contains(x) && x.rr_spec() == k && tree.spec_get(k) == Some(x));
                    }
                }
            }
            idx = idx + 1;
        }
        proof {
            assert(all@.take(all@.len() as int) =~= all@);
        }
        HangulParser { tree }
    }

    /// What one tokenization step yields: the matched letter where the
    /// table knows a spelling of up to three characters — longest first —
    /// whether a break (or the end of the input) preceded it, and the
    /// unconsumed remainder.
    pub open spec fn parse_jamo_spec(self, s: Seq<char>) -> (Option<Jamo>, bool, Seq<char>) {
        let u = skip_breaks(s);
        let br = u.len() == 0 || u.len() < s.len();
        if u.len() == 0 {
            (None, br, u)
        } else {
            let l3 = if u.len() < 3 {
                u.len() as int
            } else {
                3
            };
            let l2 = if u.len() < 2 {
                u.len() as int
            } else {
                2
            };
            if self.tree.spec_get(u.take(l3)) is Some {
                (Some(self.tree.spec_get(u.take(l3))->0), br, u.skip(l3))
            } else if self.tree.spec_get(u.take(l2)) is Some {
                (Some(self.tree.spec_get(u.take(l2))->0), br, u.skip(l2))
            } else if self.tree.spec_get(u.take(1)) is Some {
                (Some(self.tree.spec_get(u.take(1))->0), br, u.skip(1))
            } else {
                (None, br, u)
            }
        }
    }

    /// Looks the characters between two positions of the input up in the
    /// table.
    fn lookup(&self, input: &str, from: usize, to: usize) -> (r: Option<Jamo>)
        requires
            from <= to <= input@.len(),
        ensures
            r == self.tree.spec_get(input@.subrange(from as int, to as int)),
    {
        self.tree.get_str(input.substring_char(from, to))
    }

    /// Consumes leading break characters, then the longest spelling of up
    /// to three characters that the table knows. Yields the matched
    /// letter — `None` where nothing matches — whether a break preceded
    /// it, and the unconsumed remainder.
    #[verifier::loop_isolation(false)]
    pub fn parse_jamo<'a>(&self, input: &'a str) -> (r: (Option<Jamo>, bool, &'a str))
        ensures
            r.0 == self.parse_jamo_spec(input@).0,
            r.1 == self.parse_jamo_spec(input@).1,
            r.2@ == self.parse_jamo_spec(input@).2,
    {
        let n = input.unicode_len();
        let mut bi: usize = 0;
        let mut stop = false;
        proof {
            assert(input@.skip(0) =~= input@);
        }
        while bi < n && !stop
            invariant
                bi <= n,
                skip_breaks(input@) == skip_breaks(input@.skip(bi as int)),
                stop ==> bi < n && !is_break_spec(input@[bi as int]),
            decreases n - bi + (if stop { 0int } else { 1int }),
        {
            let c = input.get_char(bi);
            if c == ' ' || c == '-' {
                proof {
                    assert(input@.skip(bi as int).drop_first() =~= input@.skip(bi as int + 1));
                }
                bi = bi + 1;
            } else {
                stop = true;
            }
        }
        let ghost u = input@.skip(bi as int);
        proof {
            assert(skip_breaks(input@) == u);
            lemma_skip_breaks_len(input@);
        }
        let br = bi > 0 || bi == n;
        if bi == n {
            let rem = input.substring_char(n, n);
            proof {
                assert(rem@ =~= u);
            }
            return (None, br, rem);
        }
        let l3 = if n - bi < 3 {
            n - bi
        } else {
            3
        };
        let ghost gl3 = if u.len() < 3 {
            u.len() as int
        } else {
            3
        };
        proof {
            assert(input@.subrange(bi as int, bi as int + l3) =~= u.take(gl3));
        }
        match self.lookup(input, bi, bi + l3) {
            Some(j) => {
                let rem = input.substring_char(bi + l3, n);
                proof {
                    assert(rem@ =~= u.skip(gl3));
                }
                return (Some(j), br, rem);
            },
            None => {},
        }
        let l2 = if n - bi < 2 {
            n - bi
        } else {
            2
        };
        let ghost gl2 = if u.len() < 2 {
            u.len() as int
        } else {
            2
        };
        proof {
            assert(input@.subrange(bi as int, bi as int + l2) =~= u.take(gl2));
        }
        match self.lookup(input, bi, bi + l2) {
            Some(j) => {
                let rem = input.substring_char(bi + l2, n);
                proof {
                    assert(rem@ =~= u.skip(gl2));
                }
                return (Some(j), br, rem);
            },
            None => {},
        }
        proof {
            assert(input@.subrange(bi as int, bi as int + 1) =~= u.take(1));
        }
        match self.lookup(input, bi, bi + 1) {
            Some(j) => {
                let rem = input.substring_char(bi + 1, n);
                proof {
                    assert(rem@ =~= u.skip(1));
                }
                (Some(j), br, rem)
            },
            None => {
                let rem = input.substring_char(bi, n);
                proof {
                    assert(rem@ =~= u);
                }
                (None, br, rem)
            },
        }
    }

    /// Tokenizes once and feeds the result into the string: a letter
    /// after a break forces a new syllable, any other letter is pushed,
    /// and an unmatched run is skipped silently. Yields the remainder.
    pub fn parse_token<'a>(&self, hangul: &mut Hangul, input: &'a str) -> (r: HangulResult<
        &'a str,
    >)
        ensures
            ({
                let (oj, br, rem) = self.parse_jamo_spec(input@);
                match oj {
                    None => *final(hangul) == *old(hangul) && (r matches Ok(t) && t@ == rem),
                    Some(j) => match (if br {
                        Hangul::break_with_seq(old(hangul)@, j)
                    } else {
                        Hangul::push_back_seq(old(hangul)@, j)
                    }) {
                        Ok(sq) => final(hangul)@ == sq && (r matches Ok(t) && t@ == rem),
                        Err(e) => *final(hangul) == *old(hangul) && r == Err::<&'a str,
                            HangulError,
                        >(HangulError::Syllable(e)),
                    },
                }
            }),
            old(hangul).wf() ==> final(hangul).wf(),
    {
        match self.parse_jamo(input) {
            (Some(j), false, ret) => match hangul.push_back(j) {
                Ok(_) => Ok(ret),
                Err(e) => Err(e),
            },
            (Some(j), true, ret) => match hangul.break_with(j) {
                Ok(_) => Ok(ret),
                Err(e) => Err(e),
            },
            (None, _, ret) => Ok(ret),
        }
    }

    /// What repeated tokenization yields: the syllables after every
    /// matched letter has been fed in, and the remainder at which the
    /// input stopped shrinking — or the first error.
    pub open spec fn parse_spec(self, ss: Seq<Syllable>, s: Seq<char>) -> Result<
        (Seq<Syllable>, Seq<char>),
        SyllableError,
    >
        decreases s.len(),
    {
        let t = self.parse_jamo_spec(s);
        match t.0 {
            None => if t.2.len() < s.len() {
                self.parse_spec(ss, t.2)
            } else {
                Ok((ss, t.2))
            },
            Some(j) => match (if t.1 {
                Hangul::break_with_seq(ss, j)
            } else {
                Hangul::push_back_seq(ss, j)
            }) {
                Err(e) => Err(e),
                Ok(ss2) => if t.2.len() < s.len() {
                    self.parse_spec(ss2, t.2)
                } else {
                    Ok((ss2, t.2))
                },
            },
        }
    }

    /// Tokenizes the input to its end, feeding every matched letter into
    /// the string, until the remainder stops shrinking; yields that final
    /// remainder. On an error the string keeps the letters already fed.
    pub fn parse<'a>(&self, hangul: &mut Hangul, input: &'a str) -> (r: HangulResult<&'a str>)
        ensures
            match self.parse_spec(old(hangul)@, input@) {
                Ok((sq, rem)) => (r matches Ok(t) && t@ == rem) && final(hangul)@ == sq,
                Err(e) => r == Err::<&'a str, HangulError>(HangulError::Syllable(e)),
            },
            old(hangul).wf() ==> final(hangul).wf(),
    {
        let mut cur = input;
        let mut cur_len = cur.unicode_len();
        loop
            invariant
                cur_len == cur@.len(),
                self.parse_spec(old(hangul)@, input@) == self.parse_spec(hangul@, cur@),
                old(hangul).wf() ==> hangul.wf(),
            decreases cur@.len(),
        {
            let ghost pre_h = hangul@;
            let ghost pre_cur = cur@;
            proof {
                lemma_parse_jamo_len(*self, pre_cur);
            }
            let nxt = match self.parse_token(hangul, cur) {
                Ok(t) => t,
                Err(e) => {
                    return Err(e);
                },
            };
            let nxt_len = nxt.unicode_len();
            if nxt_len == cur_len {
                proof {
                    assert(self.parse_spec(pre_h, pre_cur) == Ok::<(Seq<Syllable>, Seq<char>),
                        SyllableError>((hangul@, nxt@)));
                }
                return Ok(nxt);
            }
            proof {
                assert(self.parse_spec(pre_h, pre_cur) == self.parse_spec(hangul@, nxt@));
            }
            cur = nxt;
            cur_len = nxt_len;
        }
    }

    /// What feeding tokens into one syllable yields: the syllable grown
    /// until a token would overflow it, fail, or not match, and the
    /// unconsumed remainder that seeds the next syllable.
    pub open spec fn parse_syllable_spec(self, syl: Syllable, s: Seq<char>) -> (Syllable, Seq<char>)
        decreases s.len(),
    {
        if s.len() == 0 {
            (syl, s)
        } else {
            let t = self.parse_jamo_spec(s);
            match t.0 {
                None => (syl, t.2),
                Some(j) => match syl.push_spec(j) {
                    Ok((s2, None)) => if t.2.len() < s.len() {
                        self.parse_syllable_spec(s2, t.2)
                    } else {
                        (s2, t.2)
                    },
                    _ => (syl, s),
                },
            }
        }
    }

    /// Builds a single fresh syllable from the input, stopping at the
    /// first token that would overflow it, fail, or not match; yields the
    /// syllable and the unconsumed remainder.
    pub fn parse_syllable<'a>(&self, input: &'a str) -> (r: (Syllable, &'a str))
        ensures
            r.0 == self.parse_syllable_spec(Syllable::empty_spec(), input@).0,
            r.1@ == self.parse_syllable_spec(Syllable::empty_spec(), input@).1,
            r.0.wf(),
    {
        let mut i = input;
        let mut i_len = i.unicode_len();
        let mut syl = Syllable::default();
        loop
            invariant
                i_len == i@.len(),
                syl.wf(),
                self.parse_syllable_spec(Syllable::empty_spec(), input@) == self.parse_syllable_spec(
                    syl,
                    i@,
                ),
            decreases i@.len(),
        {
            if i_len == 0 {
                return (syl, i);
            }
            let (jamo, pi) = match self.parse_jamo(i) {
                (Some(j), _, rst) => (j, rst),
                (None, _, ret) => {
                    return (syl, ret);
                },
            };
            let ghost pre = syl;
            proof {
                crate::syllable::lemma_push_spec_props(syl, jamo);
                lemma_skip_breaks_len(i@);
            }
            match syl.push(jamo) {
                Ok(None) => {},
                _ => {
                    return (syl, i);
                },
            }
            let pi_len = pi.unicode_len();
            i = pi;
            i_len = pi_len;
        }
    }

    /// Every full spelling and letter reachable below the table node for
    /// the given partial spelling, for "what can I type next" hints.
    pub fn with_prefix(&self, token: &str) -> (r: Vec<(String, Jamo)>)
        ensures
            match self.tree.spec_subtree(token@) {
                Some(st) => r@.len() == st.all_path_spec().len() && (forall|m: int|
                    0 <= m < r@.len() ==> r@[m].0@ == st.all_path_spec()[m].0
                        && r@[m].1 == st.all_path_spec()[m].1),
                None => r@.len() == 0,
            },
    {
        self.tree.with_prefix(token)
    }
}

/// One tokenization step never lengthens the input, and a matched letter
/// strictly shortens it.
pub proof fn lemma_parse_jamo_len(p: HangulParser, s: Seq<char>)
    ensures
        p.parse_jamo_spec(s).2.len() <= s.len(),
        p.parse_jamo_spec(s).0 is Some ==> p.parse_jamo_spec(s).2.len() < s.len(),
{
    lemma_skip_breaks_len(s);
}

/// Building one syllable consumes part of the input: the remainder is
/// never longer than what was given.
pub proof fn lemma_parse_syllable_len(p: HangulParser, syl: Syllable, s: Seq<char>)
    ensures
        p.parse_syllable_spec(syl, s).1.len() <= s.len(),
    decreases s.len(),
{
    if s.len() > 0 {
        lemma_parse_jamo_len(p, s);
        let t = p.parse_jamo_spec(s);
        match t.0 {
            Some(j) => match syl.push_spec(j) {
                Ok((s2, None)) => {
                    if t.2.len() < s.len() {
                        lemma_parse_syllable_len(p, s2, t.2);
                    }
                },
                _ => {},
            },
            None => {},
        }
    }
}

/// Every spelling in the fixed table parses back to its letter: on the
/// spelling alone, tokenization matches exactly that letter, reports no
/// break, and leaves an empty remainder.
pub proof fn lemma_table_roundtrip(p: HangulParser, j: Jamo)
    requires
        p.wf(),
    ensures
        p.parse_jamo_spec(j.rr_spec()).0 == Some(j),
        p.parse_jamo_spec(j.rr_spec()).1 == false,
        p.parse_jamo_spec(j.rr_spec()).2.len() == 0,
{
    let s = j.rr_spec();
    assert(1 <= s.len() <= 3);
    assert(!is_break_spec(s[0]));
    lemma_skip_breaks_len(s);
    assert(skip_breaks(s) == s);
    let l3 = if s.len() < 3 {
        s.len() as int
    } else {
        3
    };
    assert(s.take(l3) =~= s);
    assert(p.tree.spec_get(s) == Some(j));
    assert(s.skip(l3) =~= Seq::<char>::empty());
}

} // verus!
