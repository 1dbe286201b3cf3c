//! Text as the daemon reads it: characters, and the white space around them.

use vstd::prelude::*;
use vstd::string::*;

verus! {

/// Whether `c` is white space: one of the characters that Unicode gives the
/// property `White_Space`.
pub open spec fn is_white_space(c: char) -> bool {
    let code = c as u32;
    ||| 0x09 <= code <= 0x0d
    ||| code == 0x20
    ||| code == 0x85
    ||| code == 0xa0
    ||| code == 0x1680
    ||| 0x2000 <= code <= 0x200a
    ||| code == 0x2028
    ||| code == 0x2029
    ||| code == 0x202f
    ||| code == 0x205f
    ||| code == 0x3000
}

/// `text` without the white space at its start.
pub open spec fn trim_start(text: Seq<char>) -> Seq<char>
    decreases text.len(),
{
    if text.len() > 0 && is_white_space(text.first()) {
        trim_start(text.drop_first())
    } else {
        text
    }
}

/// `text` without the white space at its end.
pub open spec fn trim_end(text: Seq<char>) -> Seq<char>
    decreases text.len(),
{
    if text.len() > 0 && is_white_space(text.last()) {
        trim_end(text.drop_last())
    } else {
        text
    }
}

/// `text` without the white space at either end.
pub open spec fn trim(text: Seq<char>) -> Seq<char> {
    trim_end(trim_start(text))
}

/// Tells whether `c` is white space.
pub fn white_space(c: char) -> (white: bool)
    ensures
        white == is_white_space(c),
{
    let code: u32 = c as u32;
    (0x09 <= code && code <= 0x0d) || code == 0x20 || code == 0x85 || code == 0xa0 || code
        == 0x1680 || (0x2000 <= code && code <= 0x200a) || code == 0x2028 || code == 0x2029
        || code == 0x202f || code == 0x205f || code == 0x3000
}

/// The characters of `text`, one by one.
pub fn characters(text: &str) -> (chars: Vec<char>)
    ensures
        chars@ == text@,
{
    let mut chars: Vec<char> = Vec::new();
    for c in it: text.chars()
        invariant
            it.seq() == text@,
            chars@ == text@.take(it.index() as int),
    {
        chars.push(c);
    }
    chars
}

/// Finds where the white space at the start of `chars[from..to]` ends.
pub(crate) fn skip_white_space(chars: &Vec<char>, from: usize, to: usize) -> (at: usize)
    requires
        from <= to <= chars.len(),
    ensures
        from <= at <= to,
        trim_start(chars@.subrange(from as int, to as int)) == chars@.subrange(
            at as int,
            to as int,
        ),
{
    let mut at = from;
    while at < to && white_space(chars[at])
        invariant
            from <= at <= to <= chars.len(),
            trim_start(chars@.subrange(from as int, to as int)) == trim_start(
                chars@.subrange(at as int, to as int),
            ),
        decreases to - at,
    {
        proof {
            assert(chars@.subrange(at as int, to as int).drop_first() == chars@.subrange(
                at + 1,
                to as int,
            ));
        }
        at = at + 1;
    }
    at
}

/// Finds where the white space at the end of `chars[from..to]` begins.
pub(crate) fn drop_white_space(chars: &Vec<char>, from: usize, to: usize) -> (at: usize)
    requires
        from <= to <= chars.len(),
    ensures
        from <= at <= to,
        trim_end(chars@.subrange(from as int, to as int)) == chars@.subrange(
            from as int,
            at as int,
        ),
{
    let mut at = to;
    while from < at && white_space(chars[at - 1])
        invariant
            from <= at <= to <= chars.len(),
            trim_end(chars@.subrange(from as int, to as int)) == trim_end(
                chars@.subrange(from as int, at as int),
            ),
        decreases at,
    {
        proof {
            assert(chars@.subrange(from as int, at as int).drop_last() == chars@.subrange(
                from as int,
                at - 1,
            ));
        }
        at = at - 1;
    }
    at
}

} // verus!
