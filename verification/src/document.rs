//! Documents, and the pairs of header and value that a row is flattened
//! into.

use crate::text::{
    decimal, decimal_string, is_blank, lemma_blank_iff_trimmed_empty, lemma_decimal_injective,
    trim, trimmed,
};
use vstd::prelude::*;
use vstd::string::*;

verus! {

/// A document made from one table row, ready for embedding.
#[derive(Debug, Clone)]
pub struct CsvDocument {
    /// Identifier, unique within one ingestion run.
    pub id: String,
    /// The flattened content of the row.
    pub content: String,
    /// The file the row came from, with the sheet in parentheses for workbooks.
    pub source_file: String,
    /// Position of the row among the data rows of its table, counted from 1
    /// (workbook sheets count their header row too).
    pub row_number: usize,
}

/// What a document says, as mathematical values.
pub struct DocumentView {
    pub id: Seq<char>,
    pub content: Seq<char>,
    pub source_file: Seq<char>,
    pub row_number: nat,
}

impl View for CsvDocument {
    type V = DocumentView;

    open spec fn view(&self) -> DocumentView {
        DocumentView {
            id: self.id@,
            content: self.content@,
            source_file: self.source_file@,
            row_number: self.row_number as nat,
        }
    }
}

impl DeepView for CsvDocument {
    type V = DocumentView;

    open spec fn deep_view(&self) -> DocumentView {
        self@
    }
}

/// The identifier of the document with this index in its ingestion run.
pub open spec fn document_id(index: nat) -> Seq<char> {
    "doc_"@ + decimal(index)
}

/// Writes the identifier of the document with this index.
pub fn document_id_string(index: usize) -> (id: String)
    ensures
        id@ == document_id(index as nat),
{
    let mut id = String::from_str("doc_");
    id.append(decimal_string(index).as_str());
    id
}

/// Different indexes have different identifiers.
pub proof fn lemma_document_id_injective(a: nat, b: nat)
    requires
        document_id(a) == document_id(b),
    ensures
        a == b,
{
    let prefix = "doc_"@;
    assert((prefix + decimal(a)).skip(prefix.len() as int) =~= decimal(a));
    assert((prefix + decimal(b)).skip(prefix.len() as int) =~= decimal(b));
    lemma_decimal_injective(a, b);
}

/// Whether the documents in `documents` carry the identifiers that count up
/// from `first_id`.
pub open spec fn ids_count_up(documents: Seq<DocumentView>, first_id: nat) -> bool {
    forall|k: int|
        0 <= k < documents.len() ==> (#[trigger] documents[k]).id == document_id(first_id + k as nat)
}

/// Whether each of `documents` has content and comes from a numbered row.
pub open spec fn have_content(documents: Seq<DocumentView>) -> bool {
    forall|k: int|
        0 <= k < documents.len() ==> (#[trigger] documents[k]).content.len() > 0
            && documents[k].row_number >= 1
}

/// The `"<header>: <value>"` pairs of the first `n` header positions: one for
/// each position whose value is present and not blank, the value trimmed.
pub open spec fn row_parts_upto(headers: Seq<Seq<char>>, values: Seq<Seq<char>>, n: int) -> Seq<
    Seq<char>,
>
    decreases n,
{
    if n <= 0 {
        Seq::empty()
    } else {
        let before = row_parts_upto(headers, values, n - 1);
        if n - 1 < values.len() && trimmed(values[n - 1]).len() > 0 {
            before.push(headers[n - 1] + ": "@ + trimmed(values[n - 1]))
        } else {
            before
        }
    }
}

/// The `"<header>: <value>"` pairs of a row.
pub open spec fn row_parts(headers: Seq<Seq<char>>, values: Seq<Seq<char>>) -> Seq<Seq<char>> {
    row_parts_upto(headers, values, headers.len() as int)
}

/// Appends the pair of `header` and `value` to `parts` unless the value is blank.
fn push_part(parts: &mut Vec<String>, header: &str, value: &str)
    ensures
        final(parts).deep_view() == if trimmed(value@).len() > 0 {
            old(parts).deep_view().push(header@ + ": "@ + trimmed(value@))
        } else {
            old(parts).deep_view()
        },
{
    let value = trim(value);
    if !value.is_empty() {
        let mut part = String::from_str(header);
        part.append(": ");
        part.append(value);
        parts.push(part);
        assert(parts.deep_view() =~= old(parts).deep_view().push(part@));
    } else {
        assert(parts.deep_view() =~= old(parts).deep_view());
    }
}

/// Builds the pairs of a row: for each header position with a value that
/// is not blank, the header, a colon and the trimmed value.
pub fn row_pairs(headers: &[String], values: &[String]) -> (parts: Vec<String>)
    ensures
        parts.deep_view() == row_parts(headers.deep_view(), values.deep_view()),
{
    let mut parts: Vec<String> = Vec::new();
    let mut i: usize = 0;
    while i < headers.len()
        invariant
            i <= headers.len(),
            parts.deep_view() == row_parts_upto(headers.deep_view(), values.deep_view(), i as int),
        decreases headers.len() - i,
    {
        if i < values.len() {
            push_part(&mut parts, headers[i].as_str(), values[i].as_str());
        }
        i = i + 1;
    }
    parts
}

/// Whether a row has a value that is not blank at one of the first `n`
/// header positions.
pub open spec fn row_has_value_upto(headers: Seq<Seq<char>>, values: Seq<Seq<char>>, n: int) -> bool {
    exists|i: int| 0 <= i < n && i < values.len() && !is_blank(#[trigger] values[i])
}

/// Whether a row has a value that is not blank at a header position.
pub open spec fn row_has_value(headers: Seq<Seq<char>>, values: Seq<Seq<char>>) -> bool {
    row_has_value_upto(headers, values, headers.len() as int)
}

proof fn lemma_parts_upto(headers: Seq<Seq<char>>, values: Seq<Seq<char>>, n: int)
    requires
        0 <= n,
    ensures
        row_parts_upto(headers, values, n).len() > 0 <==> row_has_value_upto(headers, values, n),
    decreases n,
{
    if n > 0 {
        lemma_parts_upto(headers, values, n - 1);
        if n - 1 < values.len() {
            lemma_blank_iff_trimmed_empty(values[n - 1]);
        }
        if row_has_value_upto(headers, values, n) {
            let i = choose|i: int| 0 <= i < n && i < values.len() && !is_blank(#[trigger] values[i]);
            if i < n - 1 {
                assert(row_has_value_upto(headers, values, n - 1));
            }
        }
        if row_has_value_upto(headers, values, n - 1) {
            let i = choose|i: int|
                0 <= i < n - 1 && i < values.len() && !is_blank(#[trigger] values[i]);
            assert(0 <= i < n && i < values.len() && !is_blank(values[i]));
        }
    }
}

/// A row has a pair exactly where one of its values at a header position is
/// not blank.
pub proof fn lemma_row_has_parts(headers: Seq<Seq<char>>, values: Seq<Seq<char>>)
    ensures
        row_parts(headers, values).len() > 0 <==> row_has_value(headers, values),
{
    lemma_parts_upto(headers, values, headers.len() as int);
}

} // verus!
