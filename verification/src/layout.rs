//! Tables laid out as text: the cells of a row separated by a comma and a
//! space, the rows by a line feed, nothing before the first and nothing
//! after the last.

use crate::interface::{table_of, texts_of};
use vstd::prelude::*;
use vstd::string::StringExecFns;

verus! {

/// The parts in their order, with the separator between every two
/// neighbours.
pub open spec fn joined(parts: Seq<Seq<char>>, separator: Seq<char>) -> Seq<char>
    decreases parts.len(),
{
    if parts.len() == 0 {
        Seq::empty()
    } else if parts.len() == 1 {
        parts[0]
    } else {
        joined(parts.drop_last(), separator) + separator + parts.last()
    }
}

/// The lines of a table, each the cells of one row with `", "` between
/// them.
pub open spec fn lines_of(table: Seq<Seq<Seq<char>>>) -> Seq<Seq<char>> {
    Seq::new(table.len(), |i: int| joined(table[i], ", "@))
}

/// A table as text: its lines with a line feed between them.
pub open spec fn laid_out(table: Seq<Seq<Seq<char>>>) -> Seq<char> {
    joined(lines_of(table), "\n"@)
}

/// What the parts written so far look like while a join is under way:
/// after each part but the last of all its separator follows at once.
pub open spec fn joined_so_far(parts: Seq<Seq<char>>, separator: Seq<char>, done: int) -> Seq<
    char,
> {
    if 0 < done < parts.len() {
        joined(parts.take(done), separator) + separator
    } else {
        joined(parts.take(done), separator)
    }
}

/// One more part, and its separator unless it is the last, takes a join
/// from `done` to `done + 1` parts.
pub proof fn lemma_join_next(parts: Seq<Seq<char>>, separator: Seq<char>, done: int)
    requires
        0 <= done < parts.len(),
    ensures
        joined_so_far(parts, separator, done + 1) == joined_so_far(parts, separator, done)
            + parts[done] + if done + 1 < parts.len() {
            separator
        } else {
            Seq::empty()
        },
{
    let longer = parts.take(done + 1);
    assert(longer.drop_last() =~= parts.take(done));
    assert(longer.last() == parts[done]);
    if done == 0 {
        assert(joined(parts.take(0), separator) =~= Seq::<char>::empty());
        assert(joined(longer, separator) == parts[0]);
        assert(joined_so_far(parts, separator, 1) =~= joined_so_far(parts, separator, 0)
            + parts[0] + if 1 < parts.len() {
            separator
        } else {
            Seq::empty()
        });
    } else {
        assert(joined(longer, separator) == joined(parts.take(done), separator) + separator
            + parts[done]);
        assert(joined_so_far(parts, separator, done + 1) =~= joined_so_far(
            parts,
            separator,
            done,
        ) + parts[done] + if done + 1 < parts.len() {
            separator
        } else {
            Seq::empty()
        });
    }
}

/// The cells of a row as one line, with `", "` between them.
pub fn layout_row(cells: &Vec<String>) -> (line: String)
    ensures
        line@ == joined(texts_of(cells@), ", "@),
{
    let ghost parts = texts_of(cells@);
    let mut string = String::new();
    let mut countj: usize = 0;
    while countj < cells.len()
        invariant
            countj <= cells.len(),
            parts == texts_of(cells@),
            string@ == joined_so_far(parts, ", "@, countj as int),
        decreases cells.len() - countj,
    {
        proof {
            lemma_join_next(parts, ", "@, countj as int);
        }
        string.append(cells[countj].as_str());
        if countj + 1 < cells.len() {
            string.append(", ");
        }
        countj += 1;
    }
    assert(parts.take(cells.len() as int) =~= parts);
    string
}

/// A table as text: one line per row, with a line feed between the lines.
pub fn layout_table(rows: &Vec<Vec<String>>) -> (text: String)
    ensures
        text@ == laid_out(table_of(rows@)),
{
    let ghost lines = lines_of(table_of(rows@));
    let mut string = String::new();
    let mut counti: usize = 0;
    while counti < rows.len()
        invariant
            counti <= rows.len(),
            lines == lines_of(table_of(rows@)),
            string@ == joined_so_far(lines, "\n"@, counti as int),
        decreases rows.len() - counti,
    {
        proof {
            lemma_join_next(lines, "\n"@, counti as int);
        }
        let line = layout_row(&rows[counti]);
        string.append(line.as_str());
        if counti + 1 < rows.len() {
            string.append("\n");
        }
        counti += 1;
    }
    assert(lines.take(rows.len() as int) =~= lines);
    string
}

} // verus!
