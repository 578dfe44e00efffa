//! Workbooks: their sheets, read with the `calamine` crate, and the
//! documents that their rows give.

use crate::document::{
    document_id, document_id_string, have_content, ids_count_up, lemma_row_has_parts,
    row_has_value, row_pairs, row_parts, CsvDocument, DocumentView,
};
use crate::text::{decimal, decimal_string, is_blank, join, joined};
use vstd::prelude::*;
use vstd::string::*;

verus! {

/// A rectangle of worksheet cells, as the `calamine` crate holds it.
#[verifier::external_type_specification]
#[verifier::external_body]
#[verifier::reject_recursive_types(T)]
pub struct ExRange<T>(calamine::Range<T>);

/// The value of a worksheet cell, as the `calamine` crate holds it.
#[verifier::external_type_specification]
#[verifier::external_body]
pub struct ExData(calamine::Data);

/// The cells of a range as text, row by row from the top, each row from the
/// left.
pub uninterp spec fn range_cells(range: calamine::Range<calamine::Data>) -> Seq<Seq<Seq<char>>>;

/// Walks `Range::rows` of the `calamine` crate and writes each cell out with
/// its `Display` impl. The contract only gives the resulting texts a name.
#[verifier::external_body]
fn range_rows(range: &calamine::Range<calamine::Data>) -> (rows: Vec<Vec<String>>)
    ensures
        rows.deep_view() == range_cells(*range),
{
    range.rows().map(|row| row.iter().map(|cell| cell.to_string()).collect()).collect()
}

/// One sheet of a workbook.
pub struct Sheet {
    /// The name of the sheet.
    pub name: String,
    /// The used cells of the sheet, `None` where they could not be read.
    pub range: Option<calamine::Range<calamine::Data>>,
}

/// What a sheet holds, as mathematical values.
pub struct SheetView {
    pub name: Seq<char>,
    pub rows: Option<Seq<Seq<Seq<char>>>>,
}

impl View for Sheet {
    type V = SheetView;

    open spec fn view(&self) -> SheetView {
        SheetView {
            name: self.name@,
            rows: match self.range {
                Some(range) => Some(range_cells(range)),
                None => None,
            },
        }
    }
}

impl DeepView for Sheet {
    type V = SheetView;

    open spec fn deep_view(&self) -> SheetView {
        self@
    }
}

/// The content of a row of a workbook sheet: empty where the row has no
/// pair, else its provenance, sheet included, followed by its pairs.
pub open spec fn excel_row_content(
    filename: Seq<char>,
    sheet_name: Seq<char>,
    row_number: nat,
    headers: Seq<Seq<char>>,
    values: Seq<Seq<char>>,
) -> Seq<char> {
    let parts = row_parts(headers, values);
    if parts.len() == 0 {
        Seq::empty()
    } else {
        "From "@ + filename + " [Sheet: "@ + sheet_name + "], Row "@ + decimal(row_number) + ": "@
            + joined(parts, ", "@)
    }
}

/// Flattens a workbook row into its content.
pub fn flatten_excel_row_to_string(
    filename: &str,
    sheet_name: &str,
    row_number: usize,
    headers: &[String],
    values: &[String],
) -> (content: String)
    ensures
        content@ == excel_row_content(
            filename@,
            sheet_name@,
            row_number as nat,
            headers.deep_view(),
            values.deep_view(),
        ),
{
    let parts = row_pairs(headers, values);
    assert(parts.deep_view().len() == parts@.len());
    if parts.len() == 0 {
        return String::new();
    }
    let mut content = String::from_str("From ");
    content.append(filename);
    content.append(" [Sheet: ");
    content.append(sheet_name);
    content.append("], Row ");
    content.append(decimal_string(row_number).as_str());
    content.append(": ");
    content.append(join(&parts, ", ").as_str());
    content
}

/// The source of the documents of a sheet: the file's name with the sheet's
/// name in parentheses.
pub open spec fn sheet_source(filename: Seq<char>, sheet_name: Seq<char>) -> Seq<char> {
    filename + " ("@ + sheet_name + ")"@
}

/// The documents of the rows of a sheet below the header row and above row
/// `n`, the first of them with the index `first_id`. The header row has the
/// number 1, so the first data row has the number 2.
pub open spec fn excel_rows_documents(
    filename: Seq<char>,
    sheet_name: Seq<char>,
    rows: Seq<Seq<Seq<char>>>,
    n: int,
    first_id: nat,
) -> Seq<DocumentView>
    decreases n,
{
    if n <= 1 {
        Seq::empty()
    } else {
        let before = excel_rows_documents(filename, sheet_name, rows, n - 1, first_id);
        if row_parts(rows[0], rows[n - 1]).len() > 0 {
            before.push(
                DocumentView {
                    id: document_id(first_id + before.len()),
                    content: excel_row_content(filename, sheet_name, n as nat, rows[0], rows[n - 1]),
                    source_file: sheet_source(filename, sheet_name),
                    row_number: n as nat,
                },
            )
        } else {
            before
        }
    }
}

/// The documents of the rows of one sheet: none where it has no row or
/// where its header row is empty.
pub open spec fn sheet_rows_documents(
    filename: Seq<char>,
    sheet_name: Seq<char>,
    rows: Seq<Seq<Seq<char>>>,
    first_id: nat,
) -> Seq<DocumentView> {
    if rows.len() == 0 || rows[0].len() == 0 {
        Seq::empty()
    } else {
        excel_rows_documents(filename, sheet_name, rows, rows.len() as int, first_id)
    }
}

/// The documents of one sheet: none where its cells could not be read.
pub open spec fn excel_sheet_documents(filename: Seq<char>, sheet: SheetView, first_id: nat) -> Seq<
    DocumentView,
> {
    match sheet.rows {
        None => Seq::empty(),
        Some(rows) => sheet_rows_documents(filename, sheet.name, rows, first_id),
    }
}

/// The documents of a workbook: those of its sheets in order, numbered
/// through.
pub open spec fn excel_file_documents(
    filename: Seq<char>,
    sheets: Seq<SheetView>,
    first_id: nat,
) -> Seq<DocumentView>
    decreases sheets.len(),
{
    if sheets.len() == 0 {
        Seq::empty()
    } else {
        let before = excel_file_documents(filename, sheets.drop_last(), first_id);
        before + excel_sheet_documents(filename, sheets.last(), first_id + before.len())
    }
}

/// Turns the rows of one sheet into documents and appends them to
/// `documents`; the identifiers go on from the number of documents that are
/// already there. The first row holds the headers and has the number 1.
///
/// An empty sheet and a sheet with an empty header row give no documents.
/// A row becomes a document where it has a pair.
pub fn parse_sheet_rows(
    rows: &Vec<Vec<String>>,
    sheet_name: &str,
    filename: &str,
    documents: &mut Vec<CsvDocument>,
)
    ensures
        final(documents).deep_view() == old(documents).deep_view() + sheet_rows_documents(
            filename@,
            sheet_name@,
            rows.deep_view(),
            old(documents).len() as nat,
        ),
{
    let first = documents.len();
    assert(documents.deep_view() + Seq::<DocumentView>::empty() =~= documents.deep_view());
    if rows.len() == 0 {
        return ;
    }
    assert(rows.deep_view()[0] == rows@[0].deep_view());
    if rows[0].len() == 0 {
        return ;
    }
    let ghost cells = rows.deep_view();
    let ghost mut added: Seq<DocumentView> = Seq::empty();
    let mut r: usize = 1;
    while r < rows.len()
        invariant
            1 <= r <= rows.len(),
            first == old(documents).len(),
            cells == rows.deep_view(),
            added == excel_rows_documents(filename@, sheet_name@, cells, r as int, first as nat),
            documents.deep_view() == old(documents).deep_view() + added,
        decreases rows.len() - r,
    {
        proof {
            assert(documents.deep_view().len() == documents@.len());
            assert(old(documents).deep_view().len() == old(documents)@.len());
            assert(cells[0] == rows@[0].deep_view());
            assert(cells[r as int] == rows@[r as int].deep_view());
            reveal_strlit("From ");
        }
        let row_number = r + 1;
        let content = flatten_excel_row_to_string(
            filename,
            sheet_name,
            row_number,
            rows[0].as_slice(),
            rows[r].as_slice(),
        );
        if !content.as_str().is_empty() {
            let mut source_file = String::from_str(filename);
            source_file.append(" (");
            source_file.append(sheet_name);
            source_file.append(")");
            let id = document_id_string(documents.len());
            let document = CsvDocument { id, content, source_file, row_number };
            let ghost full = documents.deep_view();
            let ghost view = document@;
            proof {
                added = added.push(view);
            }
            documents.push(document);
            assert(documents.deep_view() =~= full.push(view));
            assert(full.push(view) =~= old(documents).deep_view() + added);
        }
        r = r + 1;
    }
}

/// Appends the documents of one sheet to `documents`.
fn parse_excel_sheet(sheet: &Sheet, filename: &str, documents: &mut Vec<CsvDocument>)
    ensures
        final(documents).deep_view() == old(documents).deep_view() + excel_sheet_documents(
            filename@,
            sheet@,
            old(documents).len() as nat,
        ),
{
    match &sheet.range {
        Some(range) => {
            let rows = range_rows(range);
            parse_sheet_rows(&rows, sheet.name.as_str(), filename, documents);
        },
        None => {
            assert(documents.deep_view() + Seq::<DocumentView>::empty() =~= documents.deep_view());
        },
    }
}

/// Parses the sheets of one workbook into documents and appends them to
/// `documents`; the identifiers go on from the number of documents that are
/// already there. Each sheet is a source of its own.
///
/// A sheet whose cells could not be read, an empty sheet and a sheet with an
/// empty header row give no documents.
pub fn parse_excel_file(sheets: &Vec<Sheet>, filename: &str, documents: &mut Vec<CsvDocument>)
    ensures
        final(documents).deep_view() == old(documents).deep_view() + excel_file_documents(
            filename@,
            sheets.deep_view(),
            old(documents).len() as nat,
        ),
{
    let ghost mut added: Seq<DocumentView> = Seq::empty();
    let mut i: usize = 0;
    assert(sheets.deep_view().take(0) =~= Seq::empty());
    assert(documents.deep_view() + added =~= documents.deep_view());
    while i < sheets.len()
        invariant
            i <= sheets.len(),
            added == excel_file_documents(
                filename@,
                sheets.deep_view().take(i as int),
                old(documents).len() as nat,
            ),
            documents.deep_view() == old(documents).deep_view() + added,
        decreases sheets.len() - i,
    {
        proof {
            assert(sheets.deep_view().take(i + 1).drop_last() =~= sheets.deep_view().take(i as int));
            assert(sheets.deep_view().take(i + 1).last() == sheets@[i as int]@);
            assert(documents.deep_view().len() == documents@.len());
            assert(old(documents).deep_view().len() == old(documents)@.len());
        }
        let ghost before = documents.deep_view();
        parse_excel_sheet(&sheets[i], filename, documents);
        proof {
            let more = excel_sheet_documents(filename@, sheets@[i as int]@, before.len());
            assert(documents.deep_view() =~= old(documents).deep_view() + (added + more));
            added = added + more;
        }
        i = i + 1;
    }
    assert(sheets.deep_view().take(i as int) =~= sheets.deep_view());
}

/// A row of a sheet whose values are all empty or whitespace has no pair
/// and no content.
pub proof fn lemma_blank_sheet_row_has_no_content(
    filename: Seq<char>,
    sheet_name: Seq<char>,
    row_number: nat,
    headers: Seq<Seq<char>>,
    values: Seq<Seq<char>>,
)
    requires
        forall|i: int| 0 <= i < values.len() ==> is_blank(#[trigger] values[i]),
    ensures
        row_parts(headers, values).len() == 0,
        excel_row_content(filename, sheet_name, row_number, headers, values).len() == 0,
{
    lemma_row_has_parts(headers, values);
}

proof fn lemma_excel_rows_prefix(
    filename: Seq<char>,
    sheet_name: Seq<char>,
    rows: Seq<Seq<Seq<char>>>,
    more: Seq<Seq<Seq<char>>>,
    n: int,
    first_id: nat,
)
    requires
        1 <= rows.len(),
        n <= rows.len() <= more.len(),
        forall|k: int| 0 <= k < rows.len() ==> rows[k] == more[k],
    ensures
        excel_rows_documents(filename, sheet_name, more, n, first_id) == excel_rows_documents(
            filename,
            sheet_name,
            rows,
            n,
            first_id,
        ),
    decreases n,
{
    if n > 1 {
        lemma_excel_rows_prefix(filename, sheet_name, rows, more, n - 1, first_id);
    }
}

/// A sheet row whose values are all empty or whitespace adds no document:
/// the documents of the sheet with it are those of the sheet without it.
pub proof fn lemma_blank_sheet_row_is_excluded(
    filename: Seq<char>,
    sheet_name: Seq<char>,
    rows: Seq<Seq<Seq<char>>>,
    values: Seq<Seq<char>>,
    first_id: nat,
)
    requires
        rows.len() >= 1,
        rows[0].len() > 0,
        forall|i: int| 0 <= i < values.len() ==> is_blank(#[trigger] values[i]),
    ensures
        sheet_rows_documents(filename, sheet_name, rows.push(values), first_id)
            == sheet_rows_documents(filename, sheet_name, rows, first_id),
{
    let more = rows.push(values);
    lemma_row_has_parts(more[0], values);
    lemma_excel_rows_prefix(filename, sheet_name, rows, more, rows.len() as int, first_id);
}

/// Each sheet of a workbook is a source of its own: different sheets of one
/// file have different sources, and none of them is the bare file name.
pub proof fn lemma_sheets_are_distinct_sources(
    filename: Seq<char>,
    first: Seq<char>,
    second: Seq<char>,
)
    ensures
        sheet_source(filename, first) == sheet_source(filename, second) ==> first == second,
        sheet_source(filename, first) != filename,
{
    reveal_strlit(" (");
    reveal_strlit(")");
    let open = " ("@;
    let close = ")"@;
    let one = sheet_source(filename, first);
    let two = sheet_source(filename, second);
    assert(one.len() == filename.len() + 3 + first.len());
    assert(two.len() == filename.len() + 3 + second.len());
    if one == two {
        let start = filename.len() as int + 2;
        assert(one.subrange(start, start + first.len()) =~= first);
        assert(two.subrange(start, start + second.len()) =~= second);
    }
}

/// The number of rows of a sheet, below the header row and above row `n`,
/// that have a value that is not blank at a header position.
pub open spec fn sheet_rows_kept(rows: Seq<Seq<Seq<char>>>, n: int) -> nat
    decreases n,
{
    if n <= 1 {
        0
    } else {
        let before = sheet_rows_kept(rows, n - 1);
        if row_has_value(rows[0], rows[n - 1]) {
            before + 1
        } else {
            before
        }
    }
}

/// The number of rows of a sheet that become documents.
pub open spec fn sheet_kept(sheet: SheetView) -> nat {
    match sheet.rows {
        None => 0,
        Some(rows) => if rows.len() == 0 || rows[0].len() == 0 {
            0
        } else {
            sheet_rows_kept(rows, rows.len() as int)
        },
    }
}

/// The number of rows of a workbook that become documents.
pub open spec fn workbook_kept(sheets: Seq<SheetView>) -> nat
    decreases sheets.len(),
{
    if sheets.len() == 0 {
        0
    } else {
        workbook_kept(sheets.drop_last()) + sheet_kept(sheets.last())
    }
}

proof fn lemma_sheet_rows(
    filename: Seq<char>,
    sheet_name: Seq<char>,
    rows: Seq<Seq<Seq<char>>>,
    n: int,
    first_id: nat,
)
    ensures
        excel_rows_documents(filename, sheet_name, rows, n, first_id).len() == sheet_rows_kept(
            rows,
            n,
        ),
        ids_count_up(excel_rows_documents(filename, sheet_name, rows, n, first_id), first_id),
        have_content(excel_rows_documents(filename, sheet_name, rows, n, first_id)),
    decreases n,
{
    reveal_strlit("From ");
    if n > 1 {
        lemma_sheet_rows(filename, sheet_name, rows, n - 1, first_id);
        lemma_row_has_parts(rows[0], rows[n - 1]);
    }
}

proof fn lemma_sheet(filename: Seq<char>, sheet: SheetView, first_id: nat)
    ensures
        excel_sheet_documents(filename, sheet, first_id).len() == sheet_kept(sheet),
        ids_count_up(excel_sheet_documents(filename, sheet, first_id), first_id),
        have_content(excel_sheet_documents(filename, sheet, first_id)),
{
    if let Some(rows) = sheet.rows {
        lemma_sheet_rows(filename, sheet.name, rows, rows.len() as int, first_id);
    }
}

pub(crate) proof fn lemma_workbook(filename: Seq<char>, sheets: Seq<SheetView>, first_id: nat)
    ensures
        excel_file_documents(filename, sheets, first_id).len() == workbook_kept(sheets),
        ids_count_up(excel_file_documents(filename, sheets, first_id), first_id),
        have_content(excel_file_documents(filename, sheets, first_id)),
    decreases sheets.len(),
{
    if sheets.len() > 0 {
        let before = excel_file_documents(filename, sheets.drop_last(), first_id);
        lemma_workbook(filename, sheets.drop_last(), first_id);
        lemma_sheet(filename, sheets.last(), first_id + before.len());
    }
}

} // verus!
