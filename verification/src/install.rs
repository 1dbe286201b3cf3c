//! What self-installation decides: whether it was asked for, where the
//! program is to live, and what the service descriptor says.

use vstd::prelude::*;
use vstd::string::*;
use crate::text::{characters, drop_white_space, skip_white_space, trim};

verus! {

/// The path that the template of the service descriptor names as the program.
pub const TEMPLATE_PROGRAM: &'static str = "/usr/local/bin/autoremove-quarantine";

/// The code of `c`, with an upper-case ASCII letter taken as its lower-case
/// one.
pub open spec fn folded(c: char) -> u32 {
    if 'A' <= c <= 'Z' {
        (c as u32 + 32) as u32
    } else {
        c as u32
    }
}

/// Whether two texts are the same but for the case of ASCII letters.
pub open spec fn same_ignoring_ascii_case(left: Seq<char>, right: Seq<char>) -> bool {
    &&& left.len() == right.len()
    &&& forall|i: int| 0 <= i < left.len() ==> folded(#[trigger] left[i]) == folded(right[i])
}

/// The word that asks for installation.
pub open spec fn install_word() -> Seq<char> {
    seq!['i', 'n', 's', 't', 'a', 'l', 'l']
}

/// Whether an argument of the command line asks for installation: white space
/// trimmed, it reads `install` in any mix of upper and lower case.
pub open spec fn asks_to_install(argument: Seq<char>) -> bool {
    same_ignoring_ascii_case(trim(argument), install_word())
}

fn fold(c: char) -> (code: u32)
    ensures
        code == folded(c),
{
    let code: u32 = c as u32;
    if 0x41 <= code && code <= 0x5a {
        code + 32
    } else {
        code
    }
}

fn is_install_argument(argument: &str) -> (asks: bool)
    ensures
        asks == asks_to_install(argument@),
{
    let chars = characters(argument);
    let from = skip_white_space(&chars, 0, chars.len());
    let to = drop_white_space(&chars, from, chars.len());
    let word: [char; 7] = ['i', 'n', 's', 't', 'a', 'l', 'l'];
    proof {
        assert(chars@.subrange(0, chars.len() as int) == chars@);
    }
    let ghost trimmed = chars@.subrange(from as int, to as int);
    if to - from != 7 {
        return false;
    }
    let mut at: usize = 0;
    while at < 7
        invariant
            at <= 7,
            to - from == 7,
            to <= chars.len(),
            trimmed == chars@.subrange(from as int, to as int),
            trimmed == trim(argument@),
            word@ == install_word(),
            forall|i: int| 0 <= i < at ==> folded(#[trigger] trimmed[i]) == folded(word@[i]),
        decreases 7 - at,
    {
        if fold(chars[from + at]) != fold(word[at]) {
            proof {
                assert(folded(trimmed[at as int]) != folded(install_word()[at as int]));
            }
            return false;
        }
        at = at + 1;
    }
    true
}

/// Tells whether the command line asks for installation: whether any of its
/// arguments does.
pub fn install_requested(arguments: &Vec<String>) -> (requested: bool)
    ensures
        requested == exists|i: int|
            0 <= i < arguments@.len() && asks_to_install(#[trigger] arguments@[i]@),
{
    let mut at: usize = 0;
    while at < arguments.len()
        invariant
            at <= arguments.len(),
            forall|i: int| 0 <= i < at ==> !asks_to_install(#[trigger] arguments@[i]@),
        decreases arguments.len() - at,
    {
        if is_install_argument(arguments[at].as_str()) {
            return true;
        }
        at = at + 1;
    }
    false
}

/// A directory as its path reads, component by component.
#[derive(Debug, PartialEq, Eq)]
pub struct Location {
    /// Whether the path begins at the root.
    pub rooted: bool,
    /// The components below the root, or from wherever the path begins.
    pub parts: Vec<String>,
}

/// Where the installed program lives.
#[derive(Clone, Copy, Debug, PartialEq, Eq, Structural)]
pub enum Placement {
    /// Where it is now.
    InPlace,
    /// As a copy among the user's own programs.
    Copied,
}

/// Whether `parts` begin with the components `first` and `second`.
pub open spec fn begins_with(parts: Seq<Seq<char>>, first: Seq<char>, second: Seq<char>) -> bool {
    parts.len() >= 2 && parts[0] == first && parts[1] == second
}

/// Whether a directory is one that programs are installed to: a directory
/// named `bin`, or one at or below `/opt/homebrew` or `/usr/local`.
pub open spec fn holds_programs(rooted: bool, parts: Seq<Seq<char>>) -> bool {
    ||| parts.len() > 0 && parts.last() == "bin"@
    ||| rooted && begins_with(parts, "opt"@, "homebrew"@)
    ||| rooted && begins_with(parts, "usr"@, "local"@)
}

fn reads(part: &String, word: &str) -> (same: bool)
    ensures
        same == (part@ == word@),
{
    let word = word.to_owned();
    *part == word
}

/// Decides where the installed program lives: where it is now, if it runs
/// from a directory that programs are installed to, and else as a copy.
pub fn place(directory: &Location) -> (placement: Placement)
    ensures
        placement == if holds_programs(directory.rooted, directory.parts.deep_view()) {
            Placement::InPlace
        } else {
            Placement::Copied
        },
{
    let parts = &directory.parts;
    let count = parts.len();
    if count > 0 && reads(&parts[count - 1], "bin") {
        return Placement::InPlace;
    }
    if directory.rooted && count >= 2 {
        if reads(&parts[0], "opt") && reads(&parts[1], "homebrew") {
            return Placement::InPlace;
        }
        if reads(&parts[0], "usr") && reads(&parts[1], "local") {
            return Placement::InPlace;
        }
    }
    Placement::Copied
}

/// `text` with each occurrence of `from` replaced by `to`, the occurrences
/// taken from the left and not overlapping. An empty `from` occurs nowhere.
pub open spec fn replace(text: Seq<char>, from: Seq<char>, to: Seq<char>) -> Seq<char>
    decreases text.len(),
{
    if from.len() == 0 || text.len() < from.len() {
        text
    } else if text.take(from.len() as int) == from {
        to + replace(text.skip(from.len() as int), from, to)
    } else {
        seq![text.first()] + replace(text.drop_first(), from, to)
    }
}

fn occurs_at(text: &Vec<char>, at: usize, word: &Vec<char>) -> (occurs: bool)
    requires
        at + word.len() <= text.len(),
    ensures
        occurs == (text@.skip(at as int).take(word.len() as int) == word@),
{
    let mut index: usize = 0;
    while index < word.len()
        invariant
            index <= word.len(),
            at + word.len() <= text.len(),
            forall|i: int| 0 <= i < index ==> text@[at + i] == #[trigger] word@[i],
        decreases word.len() - index,
    {
        if text[at + index] != word[index] {
            return false;
        }
        index = index + 1;
    }
    proof {
        assert(text@.skip(at as int).take(word.len() as int) == word@);
    }
    true
}

/// Writes the service descriptor: `template` with the path of the installed
/// program in every place where the template names [`TEMPLATE_PROGRAM`].
pub fn launch_agent(template: &str, program: &str) -> (descriptor: String)
    ensures
        descriptor@ == replace(template@, TEMPLATE_PROGRAM@, program@),
{
    let text = characters(template);
    let word = characters(TEMPLATE_PROGRAM);
    let total = text.len();
    let span = word.len();
    let mut descriptor = String::new();
    proof {
        reveal_strlit("/usr/local/bin/autoremove-quarantine");
        assert(text@.skip(0) == text@);
    }
    let mut copied: usize = 0;
    let mut at: usize = 0;
    while total - at >= span
        invariant
            text@ == template@,
            word@ == TEMPLATE_PROGRAM@,
            total == text.len(),
            span == word.len(),
            span > 0,
            copied <= at <= total,
            descriptor@ + replace(text@.skip(copied as int), word@, program@) == replace(
                text@,
                word@,
                program@,
            ),
            replace(text@.skip(copied as int), word@, program@) == text@.subrange(
                copied as int,
                at as int,
            ) + replace(text@.skip(at as int), word@, program@),
        decreases total - at,
    {
        let ghost here = text@.skip(at as int);
        if occurs_at(&text, at, &word) {
            descriptor.append(template.substring_char(copied, at));
            descriptor.append(program);
            proof {
                assert(here.skip(span as int) == text@.skip(at + span));
            }
            at = at + span;
            copied = at;
        } else {
            proof {
                assert(here.drop_first() == text@.skip(at + 1));
            }
            at = at + 1;
        }
    }
    descriptor.append(template.substring_char(copied, total));
    descriptor
}

} // verus!
