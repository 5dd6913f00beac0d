//! The registry's answer: plain text, one entry `<id>,<name>` on each line.
//!
//! White space round a line is not part of it. Empty lines and lines that
//! start with `#` say nothing, and neither does a line without a comma. Of an
//! entry only the identifier is read.

use crate::identifier::{decode, decode_chars, listed_in, OneWireId, ParseError};
use crate::text::{
    chars_of, find_first, first_index, lemma_first_index_exists, lemma_first_index_is, trim,
    trim_chars,
};
use vstd::prelude::*;
use vstd::slice::slice_subrange;

verus! {

/// What one line of the registry says.
#[derive(Clone, Copy, Debug, PartialEq, Eq)]
pub enum Entry {
    /// Nothing: the line is empty, a comment, or has no comma.
    Skipped,
    /// That this identifier is authorized.
    Listed(OneWireId),
    /// Nothing that can be read: the text before the comma is no identifier.
    Rejected(ParseError),
}

/// A line whose identifier could not be read.
#[derive(Clone, Copy, Debug, PartialEq, Eq, Structural)]
pub struct Rejection {
    /// The number of the line, counted from zero.
    pub line: usize,
    /// Why its identifier could not be read.
    pub error: ParseError,
}

/// What the registry's answer holds.
#[derive(Debug, PartialEq, Eq)]
pub struct RegistryListing {
    /// The identifiers listed, each once, in the order in which they first
    /// appear.
    pub ids: Vec<OneWireId>,
    /// The lines that were dropped because their identifier could not be
    /// read, in order.
    pub rejected: Vec<Rejection>,
}

/// The lines of `body`: the texts between its line feeds.
pub open spec fn lines(body: Seq<char>) -> Seq<Seq<char>>
    decreases body.len(),
{
    match first_index(body, '\n') {
        None => seq![body],
        Some(i) => seq![body.take(i)] + lines(body.skip(i + 1)),
    }
}

/// What `line` says.
pub open spec fn entry_of(line: Seq<char>) -> Entry {
    let inner = trim(line);
    if inner.len() == 0 || inner[0] == '#' {
        Entry::Skipped
    } else {
        match first_index(inner, ',') {
            None => Entry::Skipped,
            Some(comma) => match decode(inner.take(comma)) {
                Ok(id) => Entry::Listed(id),
                Err(error) => Entry::Rejected(error),
            },
        }
    }
}

/// The identifiers that `lines` list, each once, in the order in which they
/// first appear.
pub open spec fn listed_ids(lines: Seq<Seq<char>>) -> Seq<OneWireId>
    decreases lines.len(),
{
    if lines.len() == 0 {
        Seq::empty()
    } else {
        let before = listed_ids(lines.drop_last());
        match entry_of(lines.last()) {
            Entry::Listed(id) => if before.contains(id) {
                before
            } else {
                before.push(id)
            },
            _ => before,
        }
    }
}

/// The lines among `lines` whose identifier cannot be read, in order.
pub open spec fn rejections(lines: Seq<Seq<char>>) -> Seq<Rejection>
    decreases lines.len(),
{
    if lines.len() == 0 {
        Seq::empty()
    } else {
        let before = rejections(lines.drop_last());
        match entry_of(lines.last()) {
            Entry::Rejected(error) => before.push(
                Rejection { line: (lines.len() - 1) as usize, error },
            ),
            _ => before,
        }
    }
}

/// No identifier is listed twice.
pub proof fn lemma_listed_ids_distinct(lines: Seq<Seq<char>>)
    ensures
        listed_ids(lines).no_duplicates(),
    decreases lines.len(),
{
    if lines.len() > 0 {
        lemma_listed_ids_distinct(lines.drop_last());
    }
}

/// What is listed does not depend on the lines that list nothing: such a
/// line can stand anywhere among the others, or be left out.
pub proof fn lemma_silent_line(before: Seq<Seq<char>>, line: Seq<char>, after: Seq<Seq<char>>)
    requires
        !(entry_of(line) is Listed),
    ensures
        listed_ids(before + seq![line] + after) == listed_ids(before + after),
    decreases after.len(),
{
    if after.len() == 0 {
        assert(before + after =~= before);
        assert((before + seq![line] + after).drop_last() =~= before);
    } else {
        lemma_silent_line(before, line, after.drop_last());
        assert((before + seq![line] + after).drop_last() =~= before + seq![line]
            + after.drop_last());
        assert((before + after).drop_last() =~= before + after.drop_last());
    }
}

/// A line feed between two texts separates the lines of the first from the
/// lines of the second.
pub proof fn lemma_lines_joined(first: Seq<char>, second: Seq<char>)
    ensures
        lines(first + seq!['\n'] + second) == lines(first) + lines(second),
    decreases first.len(),
{
    let joined = first + seq!['\n'] + second;
    match first_index(first, '\n') {
        None => {
            assert forall|k: int| 0 <= k < first.len() implies joined[k] != '\n' by {
                if first[k] == '\n' {
                    lemma_first_index_exists(first, '\n', k);
                }
            }
            lemma_first_index_is(joined, '\n', first.len() as int);
            assert(joined.take(first.len() as int) =~= first);
            assert(joined.skip(first.len() as int + 1) =~= second);
        },
        Some(i) => {
            lemma_first_index_is(joined, '\n', i);
            assert(joined.take(i) =~= first.take(i));
            assert(joined.skip(i + 1) =~= first.skip(i + 1) + seq!['\n'] + second);
            lemma_lines_joined(first.skip(i + 1), second);
        },
    }
}

/// A line that lists nothing can be taken out of the registry's answer:
/// the lines before and after it list what they list without it.
pub proof fn lemma_silent_line_in_body(before: Seq<char>, line: Seq<char>, after: Seq<char>)
    requires
        !line.contains('\n'),
        !(entry_of(line) is Listed),
    ensures
        listed_ids(lines(before + seq!['\n'] + line + seq!['\n'] + after)) == listed_ids(
            lines(before + seq!['\n'] + after),
        ),
{
    assert(before + seq!['\n'] + line + seq!['\n'] + after =~= before + seq!['\n'] + (line
        + seq!['\n'] + after));
    lemma_lines_joined(before, line + seq!['\n'] + after);
    lemma_lines_joined(line, after);
    lemma_lines_joined(before, after);
    assert(first_index(line, '\n') is None) by {
        if first_index(line, '\n') is Some {
            assert(line.contains(line[first_index(line, '\n').unwrap()]));
        }
    }
    assert(lines(line) =~= seq![line]);
    assert(lines(before) + (seq![line] + lines(after)) =~= lines(before) + seq![line] + lines(
        after,
    ));
    lemma_silent_line(lines(before), line, lines(after));
}

/// Reads one line that is given by its characters.
pub fn read_entry(line: &[char]) -> (entry: Entry)
    ensures
        entry == entry_of(line@),
{
    let inner = trim_chars(line);
    if inner.len() == 0 || inner[0] == '#' {
        return Entry::Skipped;
    }
    match find_first(inner, ',') {
        None => Entry::Skipped,
        Some(comma) => match decode_chars(slice_subrange(inner, 0, comma)) {
            Ok(id) => Entry::Listed(id),
            Err(error) => Entry::Rejected(error),
        },
    }
}

/// Reads one line of the registry.
pub fn parse_entry(line: &str) -> (entry: Entry)
    ensures
        entry == entry_of(line@),
{
    let chars = chars_of(line);
    read_entry(chars.as_slice())
}

/// Reads the registry's answer.
///
/// A line whose identifier cannot be read is reported and changes nothing
/// else: the other lines are read as if it were not there.
pub fn parse_registry(body: &str) -> (listing: RegistryListing)
    ensures
        listing.ids@ == listed_ids(lines(body@)),
        listing.ids@.no_duplicates(),
        listing.rejected@ == rejections(lines(body@)),
{
    let chars = chars_of(body);
    let all = chars.as_slice();
    let mut ids: Vec<OneWireId> = Vec::new();
    let mut rejected: Vec<Rejection> = Vec::new();
    let mut start: usize = 0;
    let mut line_no: usize = 0;
    let ghost mut done: Seq<Seq<char>> = Seq::empty();
    proof {
        assert(all@.skip(0) =~= all@);
        assert(done + lines(all@) =~= lines(all@));
    }
    loop
        invariant_except_break
            start <= all@.len(),
            line_no <= start,
            line_no == done.len(),
            lines(all@) == done + lines(all@.skip(start as int)),
            ids@ == listed_ids(done),
            rejected@ == rejections(done),
        ensures
            ids@ == listed_ids(lines(all@)),
            rejected@ == rejections(lines(all@)),
        decreases all@.len() - start,
    {
        let rest = slice_subrange(all, start, all.len());
        let found = find_first(rest, '\n');
        let line = match found {
            Some(end) => slice_subrange(rest, 0, end),
            None => rest,
        };
        let ghost seen = done.push(line@);
        proof {
            assert(seen.drop_last() =~= done);
            match found {
                Some(end) => {
                    assert(rest@.skip(end + 1) =~= all@.skip(start + end + 1));
                    assert(lines(all@) =~= seen + lines(all@.skip(start + end + 1)));
                },
                None => {
                    assert(lines(all@) =~= seen);
                },
            }
        }
        match read_entry(line) {
            Entry::Listed(id) => {
                if !listed_in(&ids, &id) {
                    ids.push(id);
                }
            },
            Entry::Rejected(error) => {
                rejected.push(Rejection { line: line_no, error });
            },
            Entry::Skipped => {},
        }
        proof {
            done = seen;
        }
        match found {
            Some(end) => {
                start = start + end + 1;
                line_no = line_no + 1;
            },
            None => {
                break ;
            },
        }
    }
    proof {
        lemma_listed_ids_distinct(lines(body@));
    }
    RegistryListing { ids, rejected }
}

} // verus!
