//! Delimited tables: their records, read with the `csv` crate, and the
//! documents that their rows give.

use crate::document::{
    document_id, document_id_string, have_content, ids_count_up, lemma_row_has_parts,
    row_has_value, row_pairs, row_parts, CsvDocument, DocumentView,
};
use crate::text::{decimal, decimal_string, is_blank, join, joined, lossy_text, utf8_lossy};
use vstd::prelude::*;
use vstd::string::*;

verus! {

/// A record of a delimited table, as the `csv` crate holds it.
#[verifier::external_type_specification]
#[verifier::external_body]
pub struct ExByteRecord(csv::ByteRecord);

/// The fields of a record, each as its raw bytes.
pub uninterp spec fn record_fields(record: csv::ByteRecord) -> Seq<Seq<u8>>;

/// `ByteRecord::len` gives the number of fields in the record.
pub assume_specification[ csv::ByteRecord::len ](record: &csv::ByteRecord) -> (n: usize)
    ensures
        n == record_fields(*record).len(),
;

/// `ByteRecord::get` gives the bytes of field `i`, or `None` where the
/// record has no field `i`.
pub assume_specification[ csv::ByteRecord::get ](record: &csv::ByteRecord, i: usize) -> (field:
    Option<&[u8]>)
    ensures
        match field {
            Some(bytes) => i < record_fields(*record).len() && bytes@ == record_fields(
                *record,
            )[i as int],
            None => i >= record_fields(*record).len(),
        },
;

/// The fields of a record as text, each decoded leniently.
pub open spec fn record_texts(fields: Seq<Seq<u8>>) -> Seq<Seq<char>> {
    fields.map_values(|field: Seq<u8>| lossy_text(field))
}

/// The content of a row of a delimited table: empty where the row has no
/// pair, else its provenance followed by its pairs.
pub open spec fn csv_row_content(
    filename: Seq<char>,
    row_number: nat,
    headers: Seq<Seq<char>>,
    values: Seq<Seq<char>>,
) -> Seq<char> {
    let parts = row_parts(headers, values);
    if parts.len() == 0 {
        Seq::empty()
    } else {
        "From "@ + filename + ", Row "@ + decimal(row_number) + ": "@ + joined(parts, ", "@)
    }
}

/// Decodes the fields of a record leniently: bytes that are not valid
/// UTF-8 come out as the replacement character.
pub fn decode_record(record: &csv::ByteRecord) -> (values: Vec<String>)
    ensures
        values.deep_view() == record_texts(record_fields(*record)),
{
    let mut values: Vec<String> = Vec::new();
    let mut i: usize = 0;
    while i < record.len()
        invariant
            i <= record_fields(*record).len(),
            values.deep_view() == record_texts(record_fields(*record)).take(i as int),
        decreases record_fields(*record).len() - i,
    {
        if let Some(bytes) = record.get(i) {
            let text = utf8_lossy(bytes);
            let ghost before = values.deep_view();
            let ghost decoded = text@;
            values.push(text);
            assert(values.deep_view() =~= before.push(decoded));
            assert(before.push(decoded) =~= record_texts(record_fields(*record)).take(i + 1));
        }
        i = i + 1;
    }
    assert(values.deep_view() =~= record_texts(record_fields(*record)));
    values
}

/// Flattens the values of a row of a delimited table into its content.
pub fn flatten_values_to_string(
    filename: &str,
    row_number: usize,
    headers: &[String],
    values: &[String],
) -> (content: String)
    ensures
        content@ == csv_row_content(
            filename@,
            row_number as nat,
            headers.deep_view(),
            values.deep_view(),
        ),
{
    let parts = row_pairs(headers, values);
    assert(parts.deep_view().len() == parts@.len());
    if parts.len() == 0 {
        return String::new();
    }
    let mut content = String::from_str("From ");
    content.append(filename);
    content.append(", Row ");
    content.append(decimal_string(row_number).as_str());
    content.append(": ");
    content.append(join(&parts, ", ").as_str());
    content
}

/// Flattens a record of a delimited table into its content.
///
/// Fields that are not valid UTF-8 are decoded leniently; a record shorter
/// than the header row simply has no value at the missing positions.
pub fn flatten_row_to_string(
    filename: &str,
    row_number: usize,
    headers: &[String],
    record: &csv::ByteRecord,
) -> (content: String)
    ensures
        content@ == csv_row_content(
            filename@,
            row_number as nat,
            headers.deep_view(),
            record_texts(record_fields(*record)),
        ),
{
    let values = decode_record(record);
    flatten_values_to_string(filename, row_number, headers, values.as_slice())
}

/// Whether `byte` is ASCII whitespace: space, tab, line feed, form feed or
/// carriage return.
pub open spec fn is_ascii_whitespace(byte: u8) -> bool {
    byte == 0x20 || byte == 0x09 || byte == 0x0A || byte == 0x0C || byte == 0x0D
}

/// Whether `field` holds a byte that is not ASCII whitespace.
pub open spec fn field_has_ink(field: Seq<u8>) -> bool {
    exists|j: int| 0 <= j < field.len() && !is_ascii_whitespace(#[trigger] field[j])
}

/// Whether some field holds a byte that is not ASCII whitespace.
pub open spec fn has_ink(fields: Seq<Seq<u8>>) -> bool {
    exists|i: int| 0 <= i < fields.len() && field_has_ink(#[trigger] fields[i])
}

fn field_has_content(field: &[u8]) -> (found: bool)
    ensures
        found == field_has_ink(field@),
{
    let mut j: usize = 0;
    while j < field.len()
        invariant
            j <= field.len(),
            forall|k: int| 0 <= k < j ==> is_ascii_whitespace(#[trigger] field@[k]),
        decreases field.len() - j,
    {
        let byte = field[j];
        if !(byte == 0x20 || byte == 0x09 || byte == 0x0A || byte == 0x0C || byte == 0x0D) {
            return true;
        }
        j = j + 1;
    }
    false
}

/// Whether a record has any meaningful content: a field with a byte that is
/// not ASCII whitespace.
pub fn has_meaningful_content(record: &csv::ByteRecord) -> (found: bool)
    ensures
        found == has_ink(record_fields(*record)),
{
    let mut i: usize = 0;
    while i < record.len()
        invariant
            i <= record_fields(*record).len(),
            forall|k: int| 0 <= k < i ==> !field_has_ink(#[trigger] record_fields(*record)[k]),
        decreases record_fields(*record).len() - i,
    {
        if let Some(field) = record.get(i) {
            if field_has_content(field) {
                return true;
            }
        }
        i = i + 1;
    }
    false
}

/// The header row that the `csv` reader finds in `data`: its fields as raw
/// bytes, or `None` where the reader fails on it.
pub uninterp spec fn csv_header(data: Seq<u8>) -> Option<Seq<Seq<u8>>>;

/// The records that the `csv` reader finds in `data` after the header row,
/// in order: each as its fields, or `None` where the reader fails on it.
pub uninterp spec fn csv_rows(data: Seq<u8>) -> Seq<Option<Seq<Seq<u8>>>>;

/// What one read of the `csv` reader gave: the fields of the record, or
/// `None` where the reader failed.
pub open spec fn read_fields(read: Option<csv::ByteRecord>) -> Option<Seq<Seq<u8>>> {
    match read {
        Some(record) => Some(record_fields(record)),
        None => None,
    }
}

/// What a run of reads gave, read by read.
pub open spec fn reads_fields(reads: Seq<Option<csv::ByteRecord>>) -> Seq<Option<Seq<Seq<u8>>>> {
    reads.map_values(|read: Option<csv::ByteRecord>| read_fields(read))
}

/// Runs the `csv` crate's reader over `data`, with a header row expected and
/// records of any length accepted: `Reader::byte_headers` for the first
/// record, `Reader::byte_records` for the others, an error of the reader
/// turned into `None`. What the reader makes of the bytes depends on the
/// bytes alone; the contract gives it the names `csv_header` and `csv_rows`
/// and says nothing of what the records hold. It does say that none is
/// missing: the crate documents that no error can occur where records of
/// any length are read as raw bytes from memory.
#[verifier::external_body]
fn read_csv(data: &[u8]) -> (table: (Option<csv::ByteRecord>, Vec<Option<csv::ByteRecord>>))
    ensures
        read_fields(table.0) == csv_header(data@),
        reads_fields(table.1@) == csv_rows(data@),
        table.0 is Some,
        forall|i: int| 0 <= i < table.1@.len() ==> (#[trigger] table.1@[i]) is Some,
{
    let mut reader = csv::ReaderBuilder::new().has_headers(true).flexible(true).from_reader(data);
    let header = reader.byte_headers().ok().cloned();
    let records = reader.byte_records().map(|read| read.ok()).collect();
    (header, records)
}

/// Why a delimited table gave no documents.
#[derive(Debug, Clone, Copy, PartialEq, Eq)]
pub enum CsvFailure {
    /// The file could not be read.
    Unreadable,
    /// The reader failed on the header row.
    Headers,
    /// The reader failed on the data row with this number, counted from 1.
    Record { row: usize },
}

/// Whether a record of a delimited table becomes a document: it has a pair,
/// and a field with a byte that is not ASCII whitespace.
pub open spec fn csv_row_kept(headers: Seq<Seq<char>>, fields: Seq<Seq<u8>>) -> bool {
    row_parts(headers, record_texts(fields)).len() > 0 && has_ink(fields)
}

/// The documents of the data rows of a delimited table, the first of them
/// with the index `first_id`; the failure where the reader failed on a row.
pub open spec fn csv_rows_documents(
    filename: Seq<char>,
    headers: Seq<Seq<char>>,
    rows: Seq<Option<Seq<Seq<u8>>>>,
    first_id: nat,
) -> Result<Seq<DocumentView>, CsvFailure>
    decreases rows.len(),
{
    if rows.len() == 0 {
        Ok(Seq::empty())
    } else {
        match csv_rows_documents(filename, headers, rows.drop_last(), first_id) {
            Err(failure) => Err(failure),
            Ok(before) => match rows.last() {
                None => Err(CsvFailure::Record { row: rows.len() as usize }),
                Some(fields) => if csv_row_kept(headers, fields) {
                    Ok(
                        before.push(
                            DocumentView {
                                id: document_id(first_id + before.len()),
                                content: csv_row_content(
                                    filename,
                                    rows.len(),
                                    headers,
                                    record_texts(fields),
                                ),
                                source_file: filename,
                                row_number: rows.len(),
                            },
                        ),
                    )
                } else {
                    Ok(before)
                },
            },
        }
    }
}

/// The documents of a delimited table with this header row and these data
/// rows: a failure where the reader failed on the header row, none where
/// the header row is empty.
pub open spec fn csv_table_documents(
    filename: Seq<char>,
    header: Option<Seq<Seq<u8>>>,
    rows: Seq<Option<Seq<Seq<u8>>>>,
    first_id: nat,
) -> Result<Seq<DocumentView>, CsvFailure> {
    match header {
        None => Err(CsvFailure::Headers),
        Some(header) => if header.len() == 0 {
            Ok(Seq::empty())
        } else {
            csv_rows_documents(filename, record_texts(header), rows, first_id)
        },
    }
}

/// The documents of the delimited table in `data`.
pub open spec fn csv_file_documents(filename: Seq<char>, data: Seq<u8>, first_id: nat) -> Result<
    Seq<DocumentView>,
    CsvFailure,
> {
    csv_table_documents(filename, csv_header(data), csv_rows(data), first_id)
}

/// Turns the records of one delimited table into documents and appends
/// them to `documents`; the identifiers go on from the number of documents
/// that are already there. Row numbers count the data rows from 1.
///
/// A table without headers gives no documents. A row becomes a document
/// where it has a pair and a field with content. Where the header row or a
/// record is missing because the reader failed on it, the failure is
/// returned and `documents` is left as it was.
pub fn parse_csv_records(
    header: &Option<csv::ByteRecord>,
    records: &Vec<Option<csv::ByteRecord>>,
    filename: &str,
    documents: &mut Vec<CsvDocument>,
) -> (res: Result<(), CsvFailure>)
    ensures
        match res {
            Ok(()) => csv_table_documents(
                filename@,
                read_fields(*header),
                reads_fields(records@),
                old(documents).len() as nat,
            ) matches Ok(added) && final(documents).deep_view() == old(documents).deep_view()
                + added,
            Err(failure) => csv_table_documents(
                filename@,
                read_fields(*header),
                reads_fields(records@),
                old(documents).len() as nat,
            ) == Err::<Seq<DocumentView>, CsvFailure>(failure) && final(documents).deep_view()
                == old(documents).deep_view(),
        },
{
    let first = documents.len();
    let names = match header {
        Some(names) => names,
        None => {
            return Err(CsvFailure::Headers);
        },
    };
    let headers = decode_record(names);
    assert(headers.deep_view().len() == headers@.len());
    if headers.len() == 0 {
        assert(documents.deep_view() + Seq::<DocumentView>::empty() =~= documents.deep_view());
        return Ok(());
    }
    let ghost rows = reads_fields(records@);
    let ghost mut added: Seq<DocumentView> = Seq::empty();
    let mut i: usize = 0;
    assert(rows.take(0) =~= Seq::empty());
    assert(documents.deep_view() + added =~= documents.deep_view());
    while i < records.len()
        invariant
            i <= records.len(),
            first == old(documents).len(),
            read_fields(*header) == Some(record_fields(*names)),
            headers.deep_view() == record_texts(record_fields(*names)),
            headers.len() > 0,
            rows == reads_fields(records@),
            csv_rows_documents(filename@, headers.deep_view(), rows.take(i as int), first as nat)
                == Ok::<Seq<DocumentView>, CsvFailure>(added),
            documents.deep_view() == old(documents).deep_view() + added,
        decreases records.len() - i,
    {
        proof {
            assert(rows.take(i + 1).drop_last() =~= rows.take(i as int));
            assert(rows.take(i + 1).last() == read_fields(records@[i as int]));
            assert(documents.deep_view().len() == documents@.len());
            assert(old(documents).deep_view().len() == old(documents)@.len());
        }
        match &records[i] {
            None => {
                let ghost full = documents.deep_view();
                documents.truncate(first);
                proof {
                    assert(documents.deep_view() =~= full.take(first as int));
                    assert(full.take(first as int) =~= old(documents).deep_view());
                    lemma_csv_failure_stays(
                        filename@,
                        headers.deep_view(),
                        rows,
                        first as nat,
                        i + 1,
                    );
                }
                return Err(CsvFailure::Record { row: i + 1 });
            },
            Some(record) => {
                let row_number = i + 1;
                let content = flatten_row_to_string(filename, row_number, headers.as_slice(), record);
                proof {
                    reveal_strlit("From ");
                }
                if !content.as_str().is_empty() && has_meaningful_content(record) {
                    let id = document_id_string(documents.len());
                    let document = CsvDocument {
                        id,
                        content,
                        source_file: String::from_str(filename),
                        row_number,
                    };
                    let ghost full = documents.deep_view();
                    let ghost view = document@;
                    proof {
                        added = added.push(view);
                    }
                    documents.push(document);
                    assert(documents.deep_view() =~= full.push(view));
                    assert(full.push(view) =~= old(documents).deep_view() + added);
                }
            },
        }
        i = i + 1;
    }
    assert(rows.take(i as int) =~= rows);
    Ok(())
}

/// Parses one delimited table into documents and appends them to
/// `documents`, as `parse_csv_records` does with what the reader finds in
/// `data`. The reader fails on no record that it reads from memory, so
/// this succeeds on every input.
pub fn parse_csv_file(data: &[u8], filename: &str, documents: &mut Vec<CsvDocument>) -> (res:
    Result<(), CsvFailure>)
    ensures
        res is Ok,
        match res {
            Ok(()) => csv_file_documents(filename@, data@, old(documents).len() as nat) matches Ok(
                added,
            ) && final(documents).deep_view() == old(documents).deep_view() + added,
            Err(failure) => csv_file_documents(filename@, data@, old(documents).len() as nat)
                == Err::<Seq<DocumentView>, CsvFailure>(failure) && final(documents).deep_view()
                == old(documents).deep_view(),
        },
{
    let (header, records) = read_csv(data);
    proof {
        lemma_complete_table_gives_documents(
            filename@,
            read_fields(header),
            reads_fields(records@),
            documents.len() as nat,
        );
    }
    parse_csv_records(&header, &records, filename, documents)
}

proof fn lemma_complete_rows_give_documents(
    filename: Seq<char>,
    headers: Seq<Seq<char>>,
    rows: Seq<Option<Seq<Seq<u8>>>>,
    first_id: nat,
)
    requires
        forall|i: int| 0 <= i < rows.len() ==> (#[trigger] rows[i]) is Some,
    ensures
        csv_rows_documents(filename, headers, rows, first_id) is Ok,
    decreases rows.len(),
{
    if rows.len() > 0 {
        let before = rows.drop_last();
        assert forall|i: int| 0 <= i < before.len() implies (#[trigger] before[i]) is Some by {
            assert(before[i] == rows[i]);
        }
        lemma_complete_rows_give_documents(filename, headers, before, first_id);
    }
}

/// A table of which no record is missing gives documents and no failure.
pub proof fn lemma_complete_table_gives_documents(
    filename: Seq<char>,
    header: Option<Seq<Seq<u8>>>,
    rows: Seq<Option<Seq<Seq<u8>>>>,
    first_id: nat,
)
    requires
        header is Some,
        forall|i: int| 0 <= i < rows.len() ==> (#[trigger] rows[i]) is Some,
    ensures
        csv_table_documents(filename, header, rows, first_id) is Ok,
{
    lemma_complete_rows_give_documents(filename, record_texts(header->0), rows, first_id);
}

/// Once the reader has failed on a row, the rows after it change nothing.
proof fn lemma_csv_failure_stays(
    filename: Seq<char>,
    headers: Seq<Seq<char>>,
    rows: Seq<Option<Seq<Seq<u8>>>>,
    first_id: nat,
    n: int,
)
    requires
        0 <= n <= rows.len(),
        csv_rows_documents(filename, headers, rows.take(n), first_id) is Err,
    ensures
        csv_rows_documents(filename, headers, rows, first_id) == csv_rows_documents(
            filename,
            headers,
            rows.take(n),
            first_id,
        ),
    decreases rows.len() - n,
{
    if n == rows.len() {
        assert(rows.take(n) =~= rows);
    } else {
        assert(rows.take(n + 1).drop_last() =~= rows.take(n));
        lemma_csv_failure_stays(filename, headers, rows, first_id, n + 1);
    }
}

/// A row of a delimited table whose values are all empty or whitespace has
/// no pair and no content.
pub proof fn lemma_blank_row_has_no_content(
    filename: Seq<char>,
    row_number: nat,
    headers: Seq<Seq<char>>,
    values: Seq<Seq<char>>,
)
    requires
        forall|i: int| 0 <= i < values.len() ==> is_blank(#[trigger] values[i]),
    ensures
        row_parts(headers, values).len() == 0,
        csv_row_content(filename, row_number, headers, values).len() == 0,
{
    lemma_row_has_parts(headers, values);
}

/// A record of a delimited table whose values are all empty or whitespace
/// adds no document: the documents of the rows with it are those of the rows
/// without it.
pub proof fn lemma_blank_record_is_excluded(
    filename: Seq<char>,
    headers: Seq<Seq<char>>,
    rows: Seq<Option<Seq<Seq<u8>>>>,
    fields: Seq<Seq<u8>>,
    first_id: nat,
)
    requires
        forall|i: int| 0 <= i < fields.len() ==> is_blank(lossy_text(#[trigger] fields[i])),
    ensures
        csv_rows_documents(filename, headers, rows.push(Some(fields)), first_id)
            == csv_rows_documents(filename, headers, rows, first_id),
{
    let values = record_texts(fields);
    assert forall|i: int| 0 <= i < values.len() implies is_blank(#[trigger] values[i]) by {
        assert(values[i] == lossy_text(fields[i]));
    }
    lemma_row_has_parts(headers, values);
    assert(rows.push(Some(fields)).drop_last() =~= rows);
}

/// The number of data rows of a delimited table that become documents.
pub open spec fn csv_rows_kept(headers: Seq<Seq<char>>, rows: Seq<Option<Seq<Seq<u8>>>>) -> nat
    decreases rows.len(),
{
    if rows.len() == 0 {
        0
    } else {
        let before = csv_rows_kept(headers, rows.drop_last());
        match rows.last() {
            Some(fields) => if row_has_value(headers, record_texts(fields)) && has_ink(fields) {
                before + 1
            } else {
                before
            },
            None => before,
        }
    }
}

pub(crate) proof fn lemma_csv_rows(
    filename: Seq<char>,
    headers: Seq<Seq<char>>,
    rows: Seq<Option<Seq<Seq<u8>>>>,
    first_id: nat,
)
    ensures
        csv_rows_documents(filename, headers, rows, first_id) matches Ok(documents) ==> {
            &&& documents.len() == csv_rows_kept(headers, rows)
            &&& ids_count_up(documents, first_id)
            &&& have_content(documents)
        },
    decreases rows.len(),
{
    reveal_strlit("From ");
    if rows.len() > 0 {
        lemma_csv_rows(filename, headers, rows.drop_last(), first_id);
        if let Some(fields) = rows.last() {
            lemma_row_has_parts(headers, record_texts(fields));
        }
    }
}

} // verus!
