//! What a markup source may hold for the parser to take it.
//!
//! The parser keeps the level of a heading and the depth of nested blocks in
//! sixteen bits, and fails where one of them does not fit. Every level of a
//! heading is a `#` of the source, and every block is opened by a marker that
//! holds a punctuation character, at most two blocks to a marker. A source
//! with few enough punctuation characters stays inside both.
//!
//! The limit says nothing of the stack. The parser calls itself once for
//! every level of nesting, so a source that nests blocks a thousand deep
//! needs more stack than a thread has by default. Like memory, the stack is
//! the caller's to provide.

use vstd::prelude::*;

verus! {

/// The most punctuation characters that a source may hold.
pub const MAX_MARKS: usize = 32766;

/// Whether `c` is a punctuation character of ASCII.
pub open spec fn is_mark(c: char) -> bool {
    let code = c as u32;
    ||| 0x21 <= code <= 0x2f
    ||| 0x3a <= code <= 0x40
    ||| 0x5b <= code <= 0x60
    ||| 0x7b <= code <= 0x7e
}

/// The number of punctuation characters in `text`.
pub open spec fn mark_count(text: Seq<char>) -> nat
    decreases text.len(),
{
    if text.len() == 0 {
        0
    } else if is_mark(text.last()) {
        mark_count(text.drop_last()) + 1
    } else {
        mark_count(text.drop_last())
    }
}

/// Whether the parser takes `text`: it holds no more than [`MAX_MARKS`]
/// punctuation characters.
pub open spec fn within_limits(text: Seq<char>) -> bool {
    mark_count(text) <= MAX_MARKS
}

/// Whether `c` is a punctuation character of ASCII.
pub fn marks(c: char) -> (mark: bool)
    ensures
        mark == is_mark(c),
{
    let code = c as u32;
    (0x21 <= code && code <= 0x2f) || (0x3a <= code && code <= 0x40) || (0x5b <= code && code
        <= 0x60) || (0x7b <= code && code <= 0x7e)
}

/// Whether the parser takes `src`.
pub fn fits(src: &str) -> (ok: bool)
    ensures
        ok == within_limits(src@),
{
    let mut count: usize = 0;
    for c in it: src.chars()
        invariant
            it.seq() == src@,
            count <= MAX_MARKS + 1,
            count == if mark_count(src@.take(it.index() as int)) <= MAX_MARKS {
                mark_count(src@.take(it.index() as int))
            } else {
                (MAX_MARKS + 1) as nat
            },
    {
        proof {
            let i = it.index() as int;
            assert(src@.take(i + 1).drop_last() =~= src@.take(i));
            assert(src@.take(i + 1).last() == c);
        }
        if marks(c) && count <= MAX_MARKS {
            count = count + 1;
        }
    }
    proof {
        assert(src@.take(src@.len() as int) =~= src@);
    }
    count <= MAX_MARKS
}

} // verus!
