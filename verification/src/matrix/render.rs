//! The textual form of a matrix: nested brackets, entries separated by
//! commas, rows by a comma and a line break.

use vstd::prelude::*;

verus! {

/// The first `k` of `cells`, separated by `separator`.
pub open spec fn joined_cells(cells: Seq<Seq<char>>, k: int, separator: Seq<char>) -> Seq<char>
    decreases k,
{
    if k <= 0 {
        Seq::empty()
    } else if k == 1 {
        cells[0]
    } else {
        joined_cells(cells, k - 1, separator) + separator + cells[k - 1]
    }
}

/// A row in brackets, its cells separated by `separator`.
pub open spec fn rendered_row(cells: Seq<Seq<char>>, separator: Seq<char>) -> Seq<char> {
    seq!['['] + joined_cells(cells, cells.len() as int, separator) + seq![']']
}

/// The first `k` of `rows`, each in brackets, separated by a comma and a line
/// break.
pub open spec fn joined_rows(rows: Seq<Seq<Seq<char>>>, k: int, separator: Seq<char>) -> Seq<char>
    decreases k,
{
    if k <= 0 {
        Seq::empty()
    } else if k == 1 {
        rendered_row(rows[0], separator)
    } else {
        joined_rows(rows, k - 1, separator) + seq![',', '\n'] + rendered_row(
            rows[k - 1],
            separator,
        )
    }
}

/// A matrix between `open` and `close`, the cells of each row separated by
/// `separator`.
pub open spec fn rendered_between(
    rows: Seq<Seq<Seq<char>>>,
    open: Seq<char>,
    separator: Seq<char>,
    close: Seq<char>,
) -> Seq<char> {
    open + joined_rows(rows, rows.len() as int, separator) + close
}

/// The compact form of a matrix: `[[1,2],` and, on the next line, `[3,4]]`.
pub open spec fn rendered(rows: Seq<Seq<Seq<char>>>) -> Seq<char> {
    rendered_between(rows, seq!['['], seq![','], seq![']'])
}

/// The spaced form of a matrix: the brackets of the matrix on lines of their
/// own, and a blank after each comma inside a row.
pub open spec fn rendered_spaced(rows: Seq<Seq<Seq<char>>>) -> Seq<char> {
    rendered_between(rows, seq!['[', '\n'], seq![',', ' '], seq!['\n', ']'])
}

/// The texts of the cells as sequences of characters.
pub open spec fn cell_texts(cells: Seq<Vec<String>>) -> Seq<Seq<Seq<char>>> {
    Seq::new(cells.len(), |i: int| Seq::new(cells[i]@.len(), |j: int| cells[i]@[j]@))
}

/// Appends `piece` to `text`, by `String::push_str` of the standard
/// library, which is documented to append the given string slice to the end
/// of the string.
#[verifier::external_body]
fn push_str(text: &mut String, piece: &str)
    ensures
        final(text)@ == old(text)@ + piece@,
{
    text.push_str(piece);
}

/// The textual form of the matrix whose entries have the texts `cells`,
/// between `open` and `close`, with `separator` between the cells of a row.
fn render_between(cells: &Vec<Vec<String>>, open: &str, separator: &str, close: &str) -> (text:
    String)
    ensures
        text@ == rendered_between(cell_texts(cells@), open@, separator@, close@),
{
    let ghost rows = cell_texts(cells@);
    proof {
        reveal_strlit("[");
        reveal_strlit("]");
        reveal_strlit(",\n");
    }
    let mut text = String::new();
    push_str(&mut text, open);
    let mut i: usize = 0;
    while i < cells.len()
        invariant
            0 <= i <= cells.len(),
            rows == cell_texts(cells@),
            "["@ == seq!['['],
            "]"@ == seq![']'],
            ",\n"@ == seq![',', '\n'],
            text@ == open@ + joined_rows(rows, i as int, separator@),
        decreases cells.len() - i,
    {
        if i != 0 {
            push_str(&mut text, ",\n");
        }
        let ghost row_start = text@;
        push_str(&mut text, "[");
        let row = &cells[i];
        let ghost row_cells = rows[i as int];
        let mut j: usize = 0;
        while j < row.len()
            invariant
                0 <= j <= row.len(),
                0 <= i < cells.len(),
                row == cells@[i as int],
                rows == cell_texts(cells@),
                row_cells == rows[i as int],
                text@ == row_start + seq!['['] + joined_cells(row_cells, j as int, separator@),
            decreases row.len() - j,
        {
            if j != 0 {
                push_str(&mut text, separator);
            }
            push_str(&mut text, row[j].as_str());
            proof {
                assert(row_cells[j as int] == row@[j as int]@);
                assert(text@ =~= row_start + seq!['['] + joined_cells(
                    row_cells,
                    j + 1,
                    separator@,
                ));
            }
            j += 1;
        }
        push_str(&mut text, "]");
        proof {
            assert(row_cells.len() == row.len());
            assert(text@ =~= row_start + rendered_row(row_cells, separator@));
            assert(text@ =~= open@ + joined_rows(rows, i + 1, separator@));
        }
        i += 1;
    }
    push_str(&mut text, close);
    text
}

/// The compact textual form of the matrix whose entries have the texts
/// `cells`, row by row.
pub fn render(cells: &Vec<Vec<String>>) -> (text: String)
    ensures
        text@ == rendered(cell_texts(cells@)),
{
    proof {
        reveal_strlit("[");
        reveal_strlit("]");
        reveal_strlit(",");
        assert("["@ =~= seq!['[']);
        assert(","@ =~= seq![',']);
        assert("]"@ =~= seq![']']);
    }
    render_between(cells, "[", ",", "]")
}

/// The spaced textual form of the matrix whose entries have the texts
/// `cells`, row by row.
pub fn render_spaced(cells: &Vec<Vec<String>>) -> (text: String)
    ensures
        text@ == rendered_spaced(cell_texts(cells@)),
{
    proof {
        reveal_strlit("[\n");
        reveal_strlit("\n]");
        reveal_strlit(", ");
        assert("[\n"@ =~= seq!['[', '\n']);
        assert(", "@ =~= seq![',', ' ']);
        assert("\n]"@ =~= seq!['\n', ']']);
    }
    render_between(cells, "[\n", ", ", "\n]")
}

} // verus!
