//! The watch list: the text that names the directories to watch.
//!
//! The text holds one directory per line. White space around a line does not
//! count. A line that is empty, or that begins with `#`, names nothing. A
//! directory that is not given from the root is taken from the home
//! directory.

use vstd::prelude::*;
use vstd::string::*;
use crate::text::{characters, drop_white_space, skip_white_space, trim};

verus! {

/// The length of the first line of `text`: the number of characters before
/// its first line feed, or all of them where it has none.
pub open spec fn first_line_len(text: Seq<char>) -> nat
    decreases text.len(),
{
    if text.len() == 0 || text.first() == '\n' {
        0
    } else {
        1 + first_line_len(text.drop_first())
    }
}

/// Whether a line, white space trimmed, names a directory.
pub open spec fn names_directory(entry: Seq<char>) -> bool {
    entry.len() > 0 && entry.first() != '#'
}

/// `entry` as a path from the root: itself where it begins at the root, else
/// appended to `home`, with a separator between the two unless `home` is
/// empty or brings one.
pub open spec fn resolve(home: Seq<char>, entry: Seq<char>) -> Seq<char> {
    if entry.len() > 0 && entry.first() == '/' {
        entry
    } else if home.len() == 0 || home.last() == '/' {
        home + entry
    } else {
        home + seq!['/'] + entry
    }
}

/// The directories that `text` names, in its order, each as a path from the
/// root.
pub open spec fn watch_list(text: Seq<char>, home: Seq<char>) -> Seq<Seq<char>>
    decreases text.len(),
{
    let len = first_line_len(text) as int;
    let entry = trim(text.take(len));
    let first = if names_directory(entry) {
        seq![resolve(home, entry)]
    } else {
        Seq::empty()
    };
    if len < text.len() {
        first + watch_list(text.skip(len + 1), home)
    } else {
        first
    }
}

fn line_end(chars: &Vec<char>, from: usize) -> (at: usize)
    requires
        from <= chars.len(),
    ensures
        from <= at <= chars.len(),
        at - from == first_line_len(chars@.skip(from as int)),
{
    let mut at = from;
    while at < chars.len() && chars[at] != '\n'
        invariant
            from <= at <= chars.len(),
            first_line_len(chars@.skip(from as int)) == (at - from) + first_line_len(
                chars@.skip(at as int),
            ),
        decreases chars.len() - at,
    {
        proof {
            assert(chars@.skip(at as int).drop_first() == chars@.skip(at + 1));
        }
        at = at + 1;
    }
    at
}

/// Resolves one entry of the watch list against the home directory.
pub fn resolve_entry(home: &str, entry: &str) -> (path: String)
    ensures
        path@ == resolve(home@, entry@),
{
    if entry.unicode_len() > 0 && entry.get_char(0) == '/' {
        return entry.to_owned();
    }
    let home_len = home.unicode_len();
    let mut path = home.to_owned();
    if home_len > 0 && home.get_char(home_len - 1) != '/' {
        proof {
            reveal_strlit("/");
        }
        path.append("/");
    }
    path.append(entry);
    path
}

/// Reads a watch list: returns the directories that `contents` names, in its
/// order, each as a path from the root, with `home` as the home directory.
pub fn parse_watch_list(contents: &str, home: &str) -> (targets: Vec<String>)
    ensures
        targets.deep_view() == watch_list(contents@, home@),
{
    let chars = characters(contents);
    let total = chars.len();
    let mut targets: Vec<String> = Vec::new();
    let mut start: usize = 0;
    let mut done = false;
    proof {
        assert(chars@.skip(0) == chars@);
    }
    while !done
        invariant
            chars@ == contents@,
            total == chars.len(),
            start <= total,
            !done ==> targets.deep_view() + watch_list(chars@.skip(start as int), home@)
                == watch_list(chars@, home@),
            done ==> targets.deep_view() == watch_list(chars@, home@),
        decreases total - start + (if done { 0int } else { 1int }),
    {
        let end = line_end(&chars, start);
        let from = skip_white_space(&chars, start, end);
        let to = drop_white_space(&chars, from, end);
        let ghost rest = chars@.skip(start as int);
        proof {
            assert(rest.take(end - start) == chars@.subrange(start as int, end as int));
            if end < total {
                assert(rest.skip(end - start + 1) == chars@.skip(end + 1));
            }
        }
        if from < to && chars[from] != '#' {
            let path = resolve_entry(home, contents.substring_char(from, to));
            targets.push(path);
        }
        if end < total {
            start = end + 1;
        } else {
            done = true;
        }
    }
    targets
}

} // verus!
