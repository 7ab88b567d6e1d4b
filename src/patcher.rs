//! Splicing text into a file at a (line, column) address without touching
//! any other character.
use crate::error::SyncError;
use crate::text::{chars_of, splice, splice_at};
use vstd::prelude::*;

verus! {

/// A splice point: `line` counts from 1, `column` counts characters from 0.
#[derive(Debug, Clone, Copy, PartialEq, Eq, Structural)]
pub struct SourceLocation {
    pub line: usize,
    pub column: usize,
}

/// Where the line begins that lies `k` line breaks after position `from`.
pub open spec fn line_start(s: Seq<char>, from: int, k: nat) -> Option<int>
    decreases s.len() - from,
{
    if k == 0 {
        Some(from)
    } else if from >= s.len() {
        None
    } else if s[from] == '\n' {
        line_start(s, from + 1, (k - 1) as nat)
    } else {
        line_start(s, from + 1, k)
    }
}

/// The position of the first line break at or after `from`, or the length of
/// `s` if there is none.
pub open spec fn line_end(s: Seq<char>, from: int) -> int
    decreases s.len() - from,
{
    if from >= s.len() {
        s.len() as int
    } else if s[from] == '\n' {
        from
    } else {
        line_end(s, from + 1)
    }
}

/// The character offset that `loc` addresses in `s`, if the line exists and
/// the column lies within it (its end included).
pub open spec fn location_offset(s: Seq<char>, loc: SourceLocation) -> Option<int> {
    if loc.line == 0 {
        None
    } else {
        match line_start(s, 0, (loc.line - 1) as nat) {
            Some(p) => if p + loc.column <= line_end(s, p) {
                Some(p + loc.column)
            } else {
                None
            },
            None => None,
        }
    }
}

proof fn lemma_line_start_bounds(s: Seq<char>, from: int, k: nat)
    requires
        0 <= from <= s.len(),
    ensures
        line_start(s, from, k) matches Some(p) ==> from <= p <= s.len(),
    decreases s.len() - from,
{
    if k != 0 && from < s.len() {
        if s[from] == '\n' {
            lemma_line_start_bounds(s, from + 1, (k - 1) as nat);
        } else {
            lemma_line_start_bounds(s, from + 1, k);
        }
    }
}

proof fn lemma_line_end_bounds(s: Seq<char>, from: int)
    requires
        0 <= from <= s.len(),
    ensures
        from <= line_end(s, from) <= s.len(),
    decreases s.len() - from,
{
    if from < s.len() && s[from] != '\n' {
        lemma_line_end_bounds(s, from + 1);
    }
}

/// An offset that a location resolves to lies within the text, its end included.
pub proof fn lemma_location_offset_bounds(s: Seq<char>, loc: SourceLocation)
    ensures
        location_offset(s, loc) matches Some(o) ==> 0 <= o <= s.len(),
{
    if loc.line != 0 {
        lemma_line_start_bounds(s, 0, (loc.line - 1) as nat);
        if let Some(p) = line_start(s, 0, (loc.line - 1) as nat) {
            lemma_line_end_bounds(s, p);
        }
    }
}

/// Resolves `loc` to a character offset in `text`.
pub fn resolve_location(text: &Vec<char>, loc: SourceLocation) -> (r: Option<usize>)
    ensures
        r matches Some(o) ==> location_offset(text@, loc) == Some(o as int),
        r is None ==> location_offset(text@, loc) is None,
        r matches Some(o) ==> o <= text@.len(),
{
    if loc.line == 0 {
        return None;
    }
    let ghost s = text@;
    let n = text.len();
    let mut i: usize = 0;
    let mut k: usize = loc.line - 1;
    while k > 0 && i < n
        invariant
            n == s.len(),
            s == text@,
            i <= n,
            line_start(s, 0, (loc.line - 1) as nat) == line_start(s, i as int, k as nat),
        decreases n - i,
    {
        if text[i] == '\n' {
            k = k - 1;
        }
        i = i + 1;
    }
    if k > 0 {
        return None;
    }
    let p = i;
    let mut j: usize = p;
    while j < n && text[j] != '\n'
        invariant
            n == s.len(),
            s == text@,
            p <= j <= n,
            line_end(s, p as int) == line_end(s, j as int),
        decreases n - j,
    {
        j = j + 1;
    }
    proof {
        lemma_line_end_bounds(s, j as int);
    }
    assert(line_start(s, 0, (loc.line - 1) as nat) == Some(p as int));
    if loc.column <= j - p {
        Some(p + loc.column)
    } else {
        None
    }
}

/// Inserts `contents` into `text` at `loc`; every other character keeps its
/// place relative to its neighbours. Fails when `loc` does not address a
/// position in `text`.
pub fn insert_at_loc(text: &str, loc: SourceLocation, contents: &str) -> (r: Result<String, SyncError>)
    ensures
        r matches Ok(out) ==> location_offset(text@, loc) matches Some(o) && out@ == splice(text@, o, contents@),
        r is Err <==> location_offset(text@, loc) is None,
        r matches Err(e) ==> e == SyncError::InvalidPatchLocation,
{
    let chars = chars_of(text);
    match resolve_location(&chars, loc) {
        Some(o) => {
            proof {
                lemma_line_start_bounds(text@, 0, (loc.line - 1) as nat);
                let p = line_start(text@, 0, (loc.line - 1) as nat)->Some_0;
                lemma_line_end_bounds(text@, p);
            }
            Ok(splice_at(text, o, contents))
        },
        None => Err(SyncError::InvalidPatchLocation),
    }
}

} // verus!
