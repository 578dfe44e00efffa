use calamine::{Data, Range};
use csv::ByteRecord;
use csv_rag::csv_loader::{
    classify_extension, kind_of_extension, load_csvs_from_directory, FileData, FileKind, Folder,
    FolderEntry, LoadError,
};
use csv_rag::document::{document_id_string, row_pairs, CsvDocument};
use csv_rag::table::{
    decode_record, flatten_row_to_string, flatten_values_to_string, has_meaningful_content,
    parse_csv_file, parse_csv_records, CsvFailure,
};
use csv_rag::workbook::{flatten_excel_row_to_string, parse_excel_file, parse_sheet_rows, Sheet};

fn strings(values: &[&str]) -> Vec<String> {
    values.iter().map(|value| value.to_string()).collect()
}

fn entry(filename: &str, extension: &str, data: FileData) -> Option<FolderEntry> {
    Some(FolderEntry {
        filename: filename.to_string(),
        extension: extension.to_string(),
        data,
    })
}

fn table(filename: &str, data: &str) -> Option<FolderEntry> {
    entry(filename, "csv", FileData::Table(data.as_bytes().to_vec()))
}

fn sheet(name: &str, rows: &[&[&str]]) -> Sheet {
    let width = rows.iter().map(|row| row.len()).max().unwrap_or(0);
    let range = if rows.is_empty() || width == 0 {
        Range::empty()
    } else {
        let mut range = Range::new((0, 0), (rows.len() as u32 - 1, width as u32 - 1));
        for (r, row) in rows.iter().enumerate() {
            for (c, cell) in row.iter().enumerate() {
                range.set_value((r as u32, c as u32), Data::String(cell.to_string()));
            }
        }
        range
    };
    Sheet { name: name.to_string(), range: Some(range) }
}

#[test]
fn test_flatten_row() {
    let headers = vec!["Name".to_string(), "Age".to_string(), "City".to_string()];
    let record = csv::ByteRecord::from(vec!["John Doe", "30", "New York"]);

    let result = flatten_row_to_string("test.csv", 1, &headers, &record);

    assert!(result.contains("From test.csv, Row 1:"));
    assert!(result.contains("Name: John Doe"));
    assert!(result.contains("Age: 30"));
    assert!(result.contains("City: New York"));
}

#[test]
fn flatten_row_gives_the_exact_content() {
    let headers = strings(&["Name", "Age", "City"]);
    let record = ByteRecord::from(vec!["John Doe", "30", "New York"]);
    assert_eq!(
        flatten_row_to_string("test.csv", 1, &headers, &record),
        "From test.csv, Row 1: Name: John Doe, Age: 30, City: New York"
    );
}

#[test]
fn flatten_row_trims_values_and_passes_over_blank_ones() {
    let headers = strings(&["Name", "Age", "City"]);
    let record = ByteRecord::from(vec!["  Ada ", "   ", "\tLondon\n"]);
    assert_eq!(
        flatten_row_to_string("people.csv", 12, &headers, &record),
        "From people.csv, Row 12: Name: Ada, City: London"
    );
}

#[test]
fn flatten_row_of_blank_values_is_empty() {
    let headers = strings(&["Name", "Age"]);
    assert_eq!(flatten_row_to_string("a.csv", 3, &headers, &ByteRecord::from(vec!["", " \t"])), "");
    assert_eq!(flatten_row_to_string("a.csv", 3, &headers, &ByteRecord::new()), "");
    assert_eq!(flatten_row_to_string("a.csv", 3, &[], &ByteRecord::from(vec!["x"])), "");
}

#[test]
fn flatten_row_takes_ragged_records() {
    let headers = strings(&["A", "B", "C"]);
    let short = ByteRecord::from(vec!["1"]);
    assert_eq!(flatten_row_to_string("r.csv", 1, &headers, &short), "From r.csv, Row 1: A: 1");
    let long = ByteRecord::from(vec!["1", "2", "3", "4"]);
    assert_eq!(
        flatten_row_to_string("r.csv", 2, &headers, &long),
        "From r.csv, Row 2: A: 1, B: 2, C: 3"
    );
}

#[test]
fn flatten_row_decodes_invalid_bytes_leniently() {
    let headers = strings(&["Name"]);
    let mut record = ByteRecord::new();
    record.push_field(b"Caf\xe9 \xff!");
    assert_eq!(
        flatten_row_to_string("bad.csv", 1, &headers, &record),
        "From bad.csv, Row 1: Name: Caf\u{fffd} \u{fffd}!"
    );
}

#[test]
fn flatten_row_decodes_valid_utf8_as_it_is() {
    let headers = strings(&["Stadt"]);
    let record = ByteRecord::from(vec!["Zürich"]);
    assert_eq!(
        flatten_row_to_string("orte.csv", 2, &headers, &record),
        "From orte.csv, Row 2: Stadt: Zürich"
    );
}

#[test]
fn flatten_excel_row_gives_the_exact_content() {
    let headers = strings(&["Name", "Age", "City"]);
    let values = strings(&["John Doe", "30", "New York"]);
    assert_eq!(
        flatten_excel_row_to_string("book.xlsx", "Sheet1", 2, &headers, &values),
        "From book.xlsx [Sheet: Sheet1], Row 2: Name: John Doe, Age: 30, City: New York"
    );
}

#[test]
fn flatten_excel_row_of_blank_values_is_empty() {
    let headers = strings(&["Name", "Age"]);
    assert_eq!(
        flatten_excel_row_to_string("book.xlsx", "S", 2, &headers, &strings(&["", "  "])),
        ""
    );
    assert_eq!(flatten_excel_row_to_string("book.xlsx", "S", 2, &headers, &[]), "");
}

#[test]
fn flatten_excel_row_takes_ragged_rows() {
    let headers = strings(&["A", "B"]);
    assert_eq!(
        flatten_excel_row_to_string("b.xls", "Data", 7, &headers, &strings(&[" ", "x", "y"])),
        "From b.xls [Sheet: Data], Row 7: B: x"
    );
}

#[test]
fn has_meaningful_content_looks_for_a_byte_that_is_no_whitespace() {
    assert!(has_meaningful_content(&ByteRecord::from(vec!["", " x "])));
    assert!(has_meaningful_content(&ByteRecord::from(vec!["\u{a0}"])));
    assert!(!has_meaningful_content(&ByteRecord::from(vec!["", " \t\r\n\x0c"])));
    assert!(!has_meaningful_content(&ByteRecord::new()));
    assert!(has_meaningful_content(&ByteRecord::from(vec!["\x0b"])));
}

#[test]
fn document_ids_are_written_with_their_index() {
    assert_eq!(document_id_string(0), "doc_0");
    assert_eq!(document_id_string(41), "doc_41");
}

#[test]
fn parse_csv_file_makes_a_document_of_each_row_with_content() {
    let data = "Name,Age,City\nJohn Doe,30,New York\n,,\n  , ,\t\nJane,,Paris\n";
    let mut documents = Vec::new();
    assert_eq!(parse_csv_file(data.as_bytes(), "test.csv", &mut documents), Ok(()));
    assert_eq!(documents.len(), 2);
    assert_eq!(documents[0].id, "doc_0");
    assert_eq!(
        documents[0].content,
        "From test.csv, Row 1: Name: John Doe, Age: 30, City: New York"
    );
    assert_eq!(documents[0].source_file, "test.csv");
    assert_eq!(documents[0].row_number, 1);
    assert_eq!(documents[1].id, "doc_1");
    assert_eq!(documents[1].content, "From test.csv, Row 4: Name: Jane, City: Paris");
    assert_eq!(documents[1].row_number, 4);
}

#[test]
fn parse_csv_file_goes_on_from_the_documents_that_are_there() {
    let mut documents = vec![CsvDocument {
        id: "doc_0".to_string(),
        content: "earlier".to_string(),
        source_file: "first.csv".to_string(),
        row_number: 1,
    }];
    assert_eq!(parse_csv_file(b"A\nx\ny\n", "second.csv", &mut documents), Ok(()));
    assert_eq!(documents.len(), 3);
    assert_eq!(documents[0].content, "earlier");
    assert_eq!(documents[1].id, "doc_1");
    assert_eq!(documents[2].id, "doc_2");
    assert_eq!(documents[2].content, "From second.csv, Row 2: A: y");
}

#[test]
fn parse_csv_file_takes_ragged_rows() {
    let mut documents = Vec::new();
    assert_eq!(parse_csv_file(b"A,B,C\n1\n1,2,3,4\n", "r.csv", &mut documents), Ok(()));
    assert_eq!(documents.len(), 2);
    assert_eq!(documents[0].content, "From r.csv, Row 1: A: 1");
    assert_eq!(documents[1].content, "From r.csv, Row 2: A: 1, B: 2, C: 3");
}

#[test]
fn parse_csv_file_without_rows_gives_no_documents() {
    let mut documents = Vec::new();
    assert_eq!(parse_csv_file(b"", "empty.csv", &mut documents), Ok(()));
    assert_eq!(parse_csv_file(b"Name,Age\n", "header.csv", &mut documents), Ok(()));
    assert!(documents.is_empty());
}

#[test]
fn parse_csv_file_does_not_stop_at_invalid_encoding() {
    let mut documents = Vec::new();
    assert_eq!(parse_csv_file(b"N\xe4me,Ort\nJ\xfcrgen,K\xf6ln\n", "latin.csv", &mut documents), Ok(()));
    assert_eq!(documents.len(), 1);
    assert_eq!(
        documents[0].content,
        "From latin.csv, Row 1: N\u{fffd}me: J\u{fffd}rgen, Ort: K\u{fffd}ln"
    );
}

#[test]
fn parse_csv_file_reads_quoted_fields() {
    let mut documents = Vec::new();
    assert_eq!(
        parse_csv_file(b"Name,Note\n\"Doe, John\",\"said \"\"hi\"\"\"\n", "q.csv", &mut documents),
        Ok(())
    );
    assert_eq!(documents.len(), 1);
    assert_eq!(documents[0].content, "From q.csv, Row 1: Name: Doe, John, Note: said \"hi\"");
}

#[test]
fn parse_csv_records_numbers_the_rows_from_one() {
    let header = Some(ByteRecord::from(vec!["A", "B"]));
    let records = vec![
        Some(ByteRecord::from(vec!["x", ""])),
        Some(ByteRecord::from(vec![" ", ""])),
        Some(ByteRecord::from(vec!["", "y"])),
    ];
    let mut documents = Vec::new();
    assert_eq!(parse_csv_records(&header, &records, "f.csv", &mut documents), Ok(()));
    assert_eq!(documents.len(), 2);
    assert_eq!(documents[0].content, "From f.csv, Row 1: A: x");
    assert_eq!(documents[1].content, "From f.csv, Row 3: B: y");
    assert_eq!(documents[1].id, "doc_1");
    assert_eq!(documents[1].row_number, 3);
}

#[test]
fn parse_csv_records_fails_at_a_missing_record_and_changes_nothing() {
    let header = Some(ByteRecord::from(vec!["A"]));
    let records = vec![Some(ByteRecord::from(vec!["x"])), None, Some(ByteRecord::from(vec!["y"]))];
    let mut documents = vec![CsvDocument {
        id: "doc_0".to_string(),
        content: "earlier".to_string(),
        source_file: "first.csv".to_string(),
        row_number: 1,
    }];
    assert_eq!(
        parse_csv_records(&header, &records, "f.csv", &mut documents),
        Err(CsvFailure::Record { row: 2 })
    );
    assert_eq!(documents.len(), 1);
    assert_eq!(documents[0].content, "earlier");
}

#[test]
fn parse_csv_records_fails_at_a_missing_header_row() {
    let records = vec![Some(ByteRecord::from(vec!["x"]))];
    let mut documents = Vec::new();
    assert_eq!(
        parse_csv_records(&None, &records, "f.csv", &mut documents),
        Err(CsvFailure::Headers)
    );
    assert!(documents.is_empty());
}

#[test]
fn parse_csv_records_with_an_empty_header_gives_no_documents() {
    let records = vec![Some(ByteRecord::from(vec!["x"])), None];
    let mut documents = Vec::new();
    assert_eq!(
        parse_csv_records(&Some(ByteRecord::new()), &records, "f.csv", &mut documents),
        Ok(())
    );
    assert!(documents.is_empty());
}

#[test]
fn row_pairs_pair_each_header_with_its_trimmed_value() {
    let headers = strings(&["Name", "Age", "City"]);
    assert_eq!(
        row_pairs(&headers, &strings(&[" John Doe", "30 ", "New York"])),
        vec!["Name: John Doe", "Age: 30", "City: New York"]
    );
    assert_eq!(row_pairs(&headers, &strings(&["", " ", "x", "beyond"])), vec!["City: x"]);
    assert!(row_pairs(&headers, &strings(&["", "\t"])).is_empty());
    assert!(row_pairs(&[], &strings(&["x"])).is_empty());
}

#[test]
fn decode_record_decodes_each_field() {
    let mut record = ByteRecord::new();
    record.push_field(b"plain");
    record.push_field(b"");
    record.push_field("gr\u{fc}n".as_bytes());
    record.push_field(b"\xc3\x28");
    assert_eq!(decode_record(&record), vec!["plain", "", "gr\u{fc}n", "\u{fffd}("]);
    assert!(decode_record(&ByteRecord::new()).is_empty());
}

#[test]
fn flatten_values_gives_the_exact_content() {
    let headers = strings(&["Name", "Age", "City"]);
    let values = strings(&["John Doe", "30", "New York"]);
    assert_eq!(
        flatten_values_to_string("test.csv", 1, &headers, &values),
        "From test.csv, Row 1: Name: John Doe, Age: 30, City: New York"
    );
    assert_eq!(flatten_values_to_string("test.csv", 1, &headers, &strings(&["", " "])), "");
}

#[test]
fn parse_sheet_rows_numbers_the_first_data_row_two() {
    let rows = vec![strings(&["Name", "Age"]), strings(&["Ada", "36"]), strings(&["", " "]), strings(&["Bob", ""])];
    let mut documents = Vec::new();
    parse_sheet_rows(&rows, "People", "book.xlsx", &mut documents);
    assert_eq!(documents.len(), 2);
    assert_eq!(documents[0].id, "doc_0");
    assert_eq!(documents[0].content, "From book.xlsx [Sheet: People], Row 2: Name: Ada, Age: 36");
    assert_eq!(documents[0].source_file, "book.xlsx (People)");
    assert_eq!(documents[0].row_number, 2);
    assert_eq!(documents[1].id, "doc_1");
    assert_eq!(documents[1].content, "From book.xlsx [Sheet: People], Row 4: Name: Bob");
    assert_eq!(documents[1].row_number, 4);
}

#[test]
fn parse_sheet_rows_passes_over_empty_sheets_and_empty_headers() {
    let mut documents = Vec::new();
    parse_sheet_rows(&Vec::new(), "S", "b.xlsx", &mut documents);
    parse_sheet_rows(&vec![strings(&["A"])], "S", "b.xlsx", &mut documents);
    parse_sheet_rows(&vec![Vec::new(), strings(&["x"])], "S", "b.xlsx", &mut documents);
    assert!(documents.is_empty());
}

#[test]
fn parse_excel_file_numbers_through_the_sheets() {
    let sheets = vec![
        sheet("First", &[&["Name"], &["Ada"], &["Bob"]]),
        sheet("Empty", &[]),
        Sheet { name: "Broken".to_string(), range: None },
        sheet("Second", &[&["City", "Land"], &["Bern", "CH"]]),
    ];
    let mut documents = Vec::new();
    parse_excel_file(&sheets, "book.xlsx", &mut documents);
    assert_eq!(documents.len(), 3);
    assert_eq!(documents[0].id, "doc_0");
    assert_eq!(documents[1].id, "doc_1");
    assert_eq!(documents[1].source_file, "book.xlsx (First)");
    assert_eq!(documents[1].row_number, 3);
    assert_eq!(documents[2].id, "doc_2");
    assert_eq!(documents[2].source_file, "book.xlsx (Second)");
    assert_eq!(documents[2].content, "From book.xlsx [Sheet: Second], Row 2: City: Bern, Land: CH");
}

#[test]
fn parse_excel_file_writes_cells_out_as_calamine_shows_them() {
    let mut range = Range::new((0, 0), (1, 4));
    for (c, header) in ["Text", "Whole", "Part", "Flag", "Blank"].iter().enumerate() {
        range.set_value((0, c as u32), Data::String(header.to_string()));
    }
    range.set_value((1, 0), Data::String(" padded ".to_string()));
    range.set_value((1, 1), Data::Int(42));
    range.set_value((1, 2), Data::Float(1.5));
    range.set_value((1, 3), Data::Bool(true));
    let sheets = vec![Sheet { name: "Mix".to_string(), range: Some(range) }];
    let mut documents = Vec::new();
    parse_excel_file(&sheets, "mix.xlsx", &mut documents);
    assert_eq!(documents.len(), 1);
    assert_eq!(
        documents[0].content,
        "From mix.xlsx [Sheet: Mix], Row 2: Text: padded, Whole: 42, Part: 1.5, Flag: true"
    );
}

#[test]
fn classify_extension_knows_one_table_format_and_four_workbook_formats() {
    assert_eq!(classify_extension("csv"), FileKind::Table);
    assert_eq!(classify_extension("xlsx"), FileKind::Workbook);
    assert_eq!(classify_extension("xls"), FileKind::Workbook);
    assert_eq!(classify_extension("xlsm"), FileKind::Workbook);
    assert_eq!(classify_extension("xlsb"), FileKind::Workbook);
}

#[test]
fn kind_of_extension_takes_lower_case_only() {
    assert_eq!(kind_of_extension("csv"), FileKind::Table);
    assert_eq!(kind_of_extension("xlsm"), FileKind::Workbook);
    assert_eq!(kind_of_extension("CSV"), FileKind::Unsupported);
    assert_eq!(kind_of_extension("Xlsx"), FileKind::Unsupported);
    assert_eq!(kind_of_extension(""), FileKind::Unsupported);
}

#[test]
fn classify_extension_ignores_case() {
    assert_eq!(classify_extension("CSV"), FileKind::Table);
    assert_eq!(classify_extension("Xlsx"), FileKind::Workbook);
    assert_eq!(classify_extension("XLSB"), FileKind::Workbook);
}

#[test]
fn classify_extension_passes_over_everything_else() {
    assert_eq!(classify_extension(""), FileKind::Unsupported);
    assert_eq!(classify_extension("txt"), FileKind::Unsupported);
    assert_eq!(classify_extension("ods"), FileKind::Unsupported);
    assert_eq!(classify_extension("csv "), FileKind::Unsupported);
    assert_eq!(classify_extension("xlsxx"), FileKind::Unsupported);
}

#[test]
fn load_fails_where_the_folder_is_missing() {
    let error = load_csvs_from_directory("/no/such", &Folder::Missing).unwrap_err();
    assert!(matches!(&error, LoadError::NotFound { path } if path == "/no/such"));
    assert_eq!(error.message(), "Directory does not exist: /no/such");
}

#[test]
fn load_fails_where_the_path_is_no_directory() {
    let error = load_csvs_from_directory("/etc/hosts", &Folder::NotADirectory).unwrap_err();
    assert!(matches!(&error, LoadError::NotADirectory { path } if path == "/etc/hosts"));
    assert_eq!(error.message(), "Path is not a directory: /etc/hosts");
}

#[test]
fn load_fails_where_the_folder_cannot_be_listed() {
    let error = load_csvs_from_directory("/root", &Folder::Unreadable).unwrap_err();
    assert!(matches!(error, LoadError::ReadDirectory));
    assert_eq!(error.message(), "Failed to read directory");
}

#[test]
fn load_fails_at_an_entry_that_cannot_be_read() {
    let folder = Folder::Listing(vec![table("a.csv", "A\nx\n"), None]);
    let error = load_csvs_from_directory("data", &folder).unwrap_err();
    assert!(matches!(error, LoadError::ReadEntry));
    assert_eq!(error.message(), "Failed to read directory entry");
}

#[test]
fn load_fails_at_a_table_that_was_not_read() {
    let folder = Folder::Listing(vec![entry("a.csv", "csv", FileData::Unread)]);
    let error = load_csvs_from_directory("data", &folder).unwrap_err();
    assert!(matches!(
        &error,
        LoadError::Csv { filename, cause: CsvFailure::Unreadable } if filename == "a.csv"
    ));
    assert_eq!(error.message(), "Failed to parse CSV file: a.csv");
}

#[test]
fn load_fails_at_a_workbook_that_was_not_opened() {
    let folder = Folder::Listing(vec![
        table("a.csv", "A\nx\n"),
        entry("b.XLSX", "XLSX", FileData::Unread),
        table("c.csv", "A\ny\n"),
    ]);
    let error = load_csvs_from_directory("data", &folder).unwrap_err();
    assert!(matches!(&error, LoadError::Excel { filename } if filename == "b.XLSX"));
    assert_eq!(error.message(), "Failed to parse Excel file: b.XLSX");
}

#[test]
fn load_passes_over_unsupported_files() {
    let folder = Folder::Listing(vec![
        entry("notes.txt", "txt", FileData::Unread),
        entry("README", "", FileData::Table(b"A\nx\n".to_vec())),
        entry("sheet.ods", "ods", FileData::Unread),
    ]);
    let documents = load_csvs_from_directory("data", &folder).unwrap();
    assert!(documents.is_empty());
}

#[test]
fn load_of_an_empty_folder_gives_no_documents() {
    let documents = load_csvs_from_directory("data", &Folder::Listing(Vec::new())).unwrap();
    assert!(documents.is_empty());
}

#[test]
fn load_numbers_the_documents_through_all_files_and_sheets() {
    let folder = Folder::Listing(vec![
        table("a.csv", "Name\nAda\n \nBob\n"),
        entry("skip.md", "md", FileData::Unread),
        entry(
            "b.xlsx",
            "xlsx",
            FileData::Workbook(vec![
                sheet("One", &[&["K"], &["v1"]]),
                sheet("Two", &[&["K"], &[""], &["v2"]]),
            ]),
        ),
        table("c.CSV", "X,Y\n1,2\n"),
    ]);
    let documents = load_csvs_from_directory("data", &folder).unwrap();
    assert_eq!(documents.len(), 5);
    for (index, document) in documents.iter().enumerate() {
        assert_eq!(document.id, format!("doc_{}", index));
    }
    let sources: Vec<&str> = documents.iter().map(|d| d.source_file.as_str()).collect();
    assert_eq!(sources, vec!["a.csv", "a.csv", "b.xlsx (One)", "b.xlsx (Two)", "c.CSV"]);
    let rows: Vec<usize> = documents.iter().map(|d| d.row_number).collect();
    assert_eq!(rows, vec![1, 3, 2, 3, 1]);
    assert_eq!(documents[4].content, "From c.CSV, Row 1: X: 1, Y: 2");
}

#[test]
fn load_leaves_out_rows_without_content() {
    let folder = Folder::Listing(vec![table("a.csv", "A,B\n,\n  ,\t\nx,\n")]);
    let documents = load_csvs_from_directory("data", &folder).unwrap();
    assert_eq!(documents.len(), 1);
    assert_eq!(documents[0].id, "doc_0");
    assert_eq!(documents[0].row_number, 3);
}
