//! An incremental Hangul composition engine.
//!
//! Single letters (jamo) or romanized text are folded, letter by letter,
//! into Unicode syllable blocks: [`jamo`] holds the letter classification
//! and combination tables, [`syllable`] the per-block state machine,
//! [`hangul`] the sequence of blocks, [`ext`] a prefix tree and a sorted
//! map, and [`parser`] / [`hangul_parser`] the romanization tokenizers
//! built on the tree. The remaining modules hold the plain text-widget
//! logic that a front end draws from.

use vstd::prelude::*;

pub mod elements;
pub mod ext;
pub mod hangul;
pub mod hangul_parser;
pub mod jamo;
pub mod parser;
pub mod syllable;
pub mod tui;

verus! {

/// Relies on `char::from_u32`: it returns `Some` exactly on Unicode scalar
/// values, that is below the surrogate range or between `0xE000` and
/// `0x10FFFF`, and the returned character is that scalar value.
#[verifier::external_body]
pub(crate) fn char_from_u32(u: u32) -> (r: Option<char>)
    ensures
        r == if u < 0xD800 || (0xE000 <= u && u <= 0x10FFFF) {
            Some(u as char)
        } else {
            None::<char>
        },
{
    char::from_u32(u)
}

/// Relies on `String::push`: it appends exactly the given character.
pub assume_specification[ String::push ](s: &mut String, c: char)
    ensures
        final(s)@ == old(s)@.push(c),
;

} // verus!
