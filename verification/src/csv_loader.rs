//! The document normalizer: turns the supported files of a folder into
//! text documents that carry their provenance.

use crate::document::{
    document_id, have_content, ids_count_up, lemma_document_id_injective, CsvDocument,
    DocumentView,
};
use crate::table::{
    csv_file_documents, csv_header, csv_rows, csv_rows_kept, lemma_csv_rows, parse_csv_file,
    record_texts, CsvFailure,
};
use crate::text::{lowercase, same_text, to_lowercase};
use crate::workbook::{
    excel_file_documents, lemma_workbook, parse_excel_file, workbook_kept, Sheet, SheetView,
};
use vstd::prelude::*;
use vstd::string::*;

verus! {

/// What the normalizer makes of a file, by its extension.
#[derive(Debug, Clone, Copy, PartialEq, Eq)]
pub enum FileKind {
    /// A delimited table.
    Table,
    /// A spreadsheet workbook.
    Workbook,
    /// Anything else: passed over in silence.
    Unsupported,
}

/// The kind of a file whose extension, in lower case, is `extension`.
pub open spec fn file_kind(extension: Seq<char>) -> FileKind {
    if extension == "csv"@ {
        FileKind::Table
    } else if extension == "xlsx"@ || extension == "xls"@ || extension == "xlsm"@ || extension
        == "xlsb"@ {
        FileKind::Workbook
    } else {
        FileKind::Unsupported
    }
}

/// Classifies a file by its extension in lower case.
pub fn kind_of_extension(extension: &str) -> (kind: FileKind)
    ensures
        kind == file_kind(extension@),
{
    if same_text(extension, "csv") {
        FileKind::Table
    } else if same_text(extension, "xlsx") || same_text(extension, "xls") || same_text(
        extension,
        "xlsm",
    ) || same_text(extension, "xlsb") {
        FileKind::Workbook
    } else {
        FileKind::Unsupported
    }
}

/// Classifies a file by its extension, whatever its case.
pub fn classify_extension(extension: &str) -> (kind: FileKind)
    ensures
        kind == file_kind(lowercase(extension@)),
{
    kind_of_extension(to_lowercase(extension).as_str())
}

/// What was read of a file.
pub enum FileData {
    /// The bytes of a delimited table.
    Table(Vec<u8>),
    /// The sheets of a workbook.
    Workbook(Vec<Sheet>),
    /// Nothing: the file was not asked for, or could not be read or opened.
    Unread,
}

/// One entry of a folder.
pub struct FolderEntry {
    /// The name of the file.
    pub filename: String,
    /// Its extension, without the dot; empty where it has none.
    pub extension: String,
    /// What was read of it.
    pub data: FileData,
}

/// What the file system showed at the path of a folder.
pub enum Folder {
    /// Nothing is there.
    Missing,
    /// Something is there that is no directory.
    NotADirectory,
    /// The directory could not be listed.
    Unreadable,
    /// The entries of the directory, in the order of its listing; `None`
    /// for an entry that could not be read.
    Listing(Vec<Option<FolderEntry>>),
}

/// `FileData` as mathematical values.
pub enum FileDataView {
    Table(Seq<u8>),
    Workbook(Seq<SheetView>),
    Unread,
}

/// `FolderEntry` as mathematical values.
pub struct FolderEntryView {
    pub filename: Seq<char>,
    pub extension: Seq<char>,
    pub data: FileDataView,
}

/// `Folder` as mathematical values.
pub enum FolderView {
    Missing,
    NotADirectory,
    Unreadable,
    Listing(Seq<Option<FolderEntryView>>),
}

impl View for FileData {
    type V = FileDataView;

    open spec fn view(&self) -> FileDataView {
        match self {
            FileData::Table(data) => FileDataView::Table(data@),
            FileData::Workbook(sheets) => FileDataView::Workbook(sheets.deep_view()),
            FileData::Unread => FileDataView::Unread,
        }
    }
}

impl View for FolderEntry {
    type V = FolderEntryView;

    open spec fn view(&self) -> FolderEntryView {
        FolderEntryView {
            filename: self.filename@,
            extension: self.extension@,
            data: self.data@,
        }
    }
}

impl DeepView for FolderEntry {
    type V = FolderEntryView;

    open spec fn deep_view(&self) -> FolderEntryView {
        self@
    }
}

impl View for Folder {
    type V = FolderView;

    open spec fn view(&self) -> FolderView {
        match self {
            Folder::Missing => FolderView::Missing,
            Folder::NotADirectory => FolderView::NotADirectory,
            Folder::Unreadable => FolderView::Unreadable,
            Folder::Listing(entries) => FolderView::Listing(entries.deep_view()),
        }
    }
}

/// Why a folder gave no documents.
#[derive(Debug, Clone)]
pub enum LoadError {
    /// Nothing exists at the path.
    NotFound { path: String },
    /// The path leads to something that is no directory.
    NotADirectory { path: String },
    /// The directory could not be listed.
    ReadDirectory,
    /// An entry of the directory could not be read.
    ReadEntry,
    /// A delimited table could not be parsed.
    Csv { filename: String, cause: CsvFailure },
    /// A workbook could not be opened.
    Excel { filename: String },
}

/// `LoadError` as mathematical values.
pub enum LoadErrorView {
    NotFound { path: Seq<char> },
    NotADirectory { path: Seq<char> },
    ReadDirectory,
    ReadEntry,
    Csv { filename: Seq<char>, cause: CsvFailure },
    Excel { filename: Seq<char> },
}

impl View for LoadError {
    type V = LoadErrorView;

    open spec fn view(&self) -> LoadErrorView {
        match self {
            LoadError::NotFound { path } => LoadErrorView::NotFound { path: path@ },
            LoadError::NotADirectory { path } => LoadErrorView::NotADirectory { path: path@ },
            LoadError::ReadDirectory => LoadErrorView::ReadDirectory,
            LoadError::ReadEntry => LoadErrorView::ReadEntry,
            LoadError::Csv { filename, cause } => LoadErrorView::Csv {
                filename: filename@,
                cause: *cause,
            },
            LoadError::Excel { filename } => LoadErrorView::Excel { filename: filename@ },
        }
    }
}

/// What a load error says.
pub open spec fn load_error_message(error: LoadErrorView) -> Seq<char> {
    match error {
        LoadErrorView::NotFound { path } => "Directory does not exist: "@ + path,
        LoadErrorView::NotADirectory { path } => "Path is not a directory: "@ + path,
        LoadErrorView::ReadDirectory => "Failed to read directory"@,
        LoadErrorView::ReadEntry => "Failed to read directory entry"@,
        LoadErrorView::Csv { filename, cause } => "Failed to parse CSV file: "@ + filename,
        LoadErrorView::Excel { filename } => "Failed to parse Excel file: "@ + filename,
    }
}

impl LoadError {
    /// What the error says.
    pub fn message(&self) -> (text: String)
        ensures
            text@ == load_error_message(self@),
    {
        match self {
            LoadError::NotFound { path } => {
                let mut text = String::from_str("Directory does not exist: ");
                text.append(path.as_str());
                text
            },
            LoadError::NotADirectory { path } => {
                let mut text = String::from_str("Path is not a directory: ");
                text.append(path.as_str());
                text
            },
            LoadError::ReadDirectory => String::from_str("Failed to read directory"),
            LoadError::ReadEntry => String::from_str("Failed to read directory entry"),
            LoadError::Csv { filename, cause } => {
                let mut text = String::from_str("Failed to parse CSV file: ");
                text.append(filename.as_str());
                text
            },
            LoadError::Excel { filename } => {
                let mut text = String::from_str("Failed to parse Excel file: ");
                text.append(filename.as_str());
                text
            },
        }
    }
}

/// The documents of one folder entry, the first of them with the index
/// `first_id`: none for an unsupported file, a failure for an entry that
/// could not be read and for a supported file whose contents are missing.
pub open spec fn entry_documents(entry: Option<FolderEntryView>, first_id: nat) -> Result<
    Seq<DocumentView>,
    LoadErrorView,
> {
    match entry {
        None => Err(LoadErrorView::ReadEntry),
        Some(entry) => match file_kind(lowercase(entry.extension)) {
            FileKind::Unsupported => Ok(Seq::empty()),
            FileKind::Table => match entry.data {
                FileDataView::Table(data) => match csv_file_documents(
                    entry.filename,
                    data,
                    first_id,
                ) {
                    Ok(documents) => Ok(documents),
                    Err(cause) => Err(LoadErrorView::Csv { filename: entry.filename, cause }),
                },
                _ => Err(
                    LoadErrorView::Csv { filename: entry.filename, cause: CsvFailure::Unreadable },
                ),
            },
            FileKind::Workbook => match entry.data {
                FileDataView::Workbook(sheets) => Ok(
                    excel_file_documents(entry.filename, sheets, first_id),
                ),
                _ => Err(LoadErrorView::Excel { filename: entry.filename }),
            },
        },
    }
}

/// The documents of the entries of a folder, in the order of its listing and
/// numbered through from 0; the failure of the first entry that fails.
pub open spec fn listing_documents(entries: Seq<Option<FolderEntryView>>) -> Result<
    Seq<DocumentView>,
    LoadErrorView,
>
    decreases entries.len(),
{
    if entries.len() == 0 {
        Ok(Seq::empty())
    } else {
        match listing_documents(entries.drop_last()) {
            Err(error) => Err(error),
            Ok(before) => match entry_documents(entries.last(), before.len()) {
                Err(error) => Err(error),
                Ok(documents) => Ok(before + documents),
            },
        }
    }
}

/// The documents of a folder.
pub open spec fn folder_documents(path: Seq<char>, folder: FolderView) -> Result<
    Seq<DocumentView>,
    LoadErrorView,
> {
    match folder {
        FolderView::Missing => Err(LoadErrorView::NotFound { path }),
        FolderView::NotADirectory => Err(LoadErrorView::NotADirectory { path }),
        FolderView::Unreadable => Err(LoadErrorView::ReadDirectory),
        FolderView::Listing(entries) => listing_documents(entries),
    }
}

/// Appends the documents of one folder entry to `documents`.
fn load_entry(entry: &Option<FolderEntry>, documents: &mut Vec<CsvDocument>) -> (res: Result<
    (),
    LoadError,
>)
    ensures
        match res {
            Ok(()) => entry_documents(entry.deep_view(), old(documents).len() as nat) matches Ok(
                added,
            ) && final(documents).deep_view() == old(documents).deep_view() + added,
            Err(error) => entry_documents(entry.deep_view(), old(documents).len() as nat) == Err::<
                Seq<DocumentView>,
                LoadErrorView,
            >(error@),
        },
{
    let entry = match entry {
        Some(entry) => entry,
        None => {
            return Err(LoadError::ReadEntry);
        },
    };
    match classify_extension(entry.extension.as_str()) {
        FileKind::Unsupported => {
            assert(documents.deep_view() + Seq::<DocumentView>::empty() =~= documents.deep_view());
            Ok(())
        },
        FileKind::Table => match &entry.data {
            FileData::Table(data) => match parse_csv_file(
                data.as_slice(),
                entry.filename.as_str(),
                documents,
            ) {
                Ok(()) => Ok(()),
                Err(cause) => Err(LoadError::Csv { filename: entry.filename.clone(), cause }),
            },
            _ => Err(
                LoadError::Csv { filename: entry.filename.clone(), cause: CsvFailure::Unreadable },
            ),
        },
        FileKind::Workbook => match &entry.data {
            FileData::Workbook(sheets) => {
                parse_excel_file(sheets, entry.filename.as_str(), documents);
                Ok(())
            },
            _ => Err(LoadError::Excel { filename: entry.filename.clone() }),
        },
    }
}

/// Turns the supported files of a folder into documents, in the order of the
/// folder's listing; unsupported files are passed over. The identifiers count
/// up from `doc_0` through all files and sheets.
///
/// Fails where the folder is missing, is no directory or cannot be listed,
/// and with the failure of the first entry that fails: one file that cannot
/// be parsed fails the whole folder.
pub fn load_csvs_from_directory(folder_path: &str, folder: &Folder) -> (res: Result<
    Vec<CsvDocument>,
    LoadError,
>)
    ensures
        match res {
            Ok(documents) => folder_documents(folder_path@, folder@) == Ok::<
                Seq<DocumentView>,
                LoadErrorView,
            >(documents.deep_view()),
            Err(error) => folder_documents(folder_path@, folder@) == Err::<
                Seq<DocumentView>,
                LoadErrorView,
            >(error@),
        },
{
    let entries = match folder {
        Folder::Missing => {
            return Err(LoadError::NotFound { path: String::from_str(folder_path) });
        },
        Folder::NotADirectory => {
            return Err(LoadError::NotADirectory { path: String::from_str(folder_path) });
        },
        Folder::Unreadable => {
            return Err(LoadError::ReadDirectory);
        },
        Folder::Listing(entries) => entries,
    };
    let mut all_documents: Vec<CsvDocument> = Vec::new();
    let mut i: usize = 0;
    assert(entries.deep_view().take(0) =~= Seq::empty());
    assert(all_documents.deep_view() =~= Seq::empty());
    while i < entries.len()
        invariant
            i <= entries.len(),
            folder@ == FolderView::Listing(entries.deep_view()),
            listing_documents(entries.deep_view().take(i as int)) == Ok::<
                Seq<DocumentView>,
                LoadErrorView,
            >(all_documents.deep_view()),
        decreases entries.len() - i,
    {
        proof {
            assert(entries.deep_view().take(i + 1).drop_last() =~= entries.deep_view().take(
                i as int,
            ));
            assert(entries.deep_view().take(i + 1).last() == entries@[i as int].deep_view());
            assert(all_documents.deep_view().len() == all_documents@.len());
        }
        match load_entry(&entries[i], &mut all_documents) {
            Ok(()) => {},
            Err(error) => {
                proof {
                    lemma_listing_failure_stays(entries.deep_view(), i + 1);
                }
                return Err(error);
            },
        }
        i = i + 1;
    }
    assert(entries.deep_view().take(i as int) =~= entries.deep_view());
    Ok(all_documents)
}

/// Once an entry has failed, the entries after it change nothing.
proof fn lemma_listing_failure_stays(entries: Seq<Option<FolderEntryView>>, n: int)
    requires
        0 <= n <= entries.len(),
        listing_documents(entries.take(n)) is Err,
    ensures
        listing_documents(entries) == listing_documents(entries.take(n)),
    decreases entries.len() - n,
{
    if n == entries.len() {
        assert(entries.take(n) =~= entries);
    } else {
        assert(entries.take(n + 1).drop_last() =~= entries.take(n));
        lemma_listing_failure_stays(entries, n + 1);
    }
}

/// The number of rows of a folder entry that become documents.
pub open spec fn entry_kept(entry: Option<FolderEntryView>) -> nat {
    match entry {
        None => 0,
        Some(entry) => match (file_kind(lowercase(entry.extension)), entry.data) {
            (FileKind::Table, FileDataView::Table(data)) => match csv_header(data) {
                Some(header) => if header.len() == 0 {
                    0
                } else {
                    csv_rows_kept(record_texts(header), csv_rows(data))
                },
                None => 0,
            },
            (FileKind::Workbook, FileDataView::Workbook(sheets)) => workbook_kept(sheets),
            _ => 0,
        },
    }
}

/// The number of rows of a folder that become documents: the sum over its
/// entries, and so over all files and sheets.
pub open spec fn listing_kept(entries: Seq<Option<FolderEntryView>>) -> nat
    decreases entries.len(),
{
    if entries.len() == 0 {
        0
    } else {
        listing_kept(entries.drop_last()) + entry_kept(entries.last())
    }
}

proof fn lemma_entry(entry: Option<FolderEntryView>, first_id: nat)
    ensures
        entry_documents(entry, first_id) matches Ok(documents) ==> {
            &&& documents.len() == entry_kept(entry)
            &&& ids_count_up(documents, first_id)
            &&& have_content(documents)
        },
{
    if let Some(entry) = entry {
        match entry.data {
            FileDataView::Table(data) => {
                if let Some(header) = csv_header(data) {
                    lemma_csv_rows(entry.filename, record_texts(header), csv_rows(data), first_id);
                }
            },
            FileDataView::Workbook(sheets) => {
                lemma_workbook(entry.filename, sheets, first_id);
            },
            FileDataView::Unread => {},
        }
    }
}

proof fn lemma_listing(entries: Seq<Option<FolderEntryView>>)
    ensures
        listing_documents(entries) matches Ok(documents) ==> {
            &&& documents.len() == listing_kept(entries)
            &&& ids_count_up(documents, 0)
            &&& have_content(documents)
        },
    decreases entries.len(),
{
    if entries.len() > 0 {
        lemma_listing(entries.drop_last());
        if let Ok(before) = listing_documents(entries.drop_last()) {
            lemma_entry(entries.last(), before.len());
        }
    }
}

/// The number of documents of a folder is the number of its rows, over all
/// files and sheets, that have a value that is not blank.
pub proof fn lemma_documents_count_kept_rows(
    path: Seq<char>,
    entries: Seq<Option<FolderEntryView>>,
)
    ensures
        folder_documents(path, FolderView::Listing(entries)) matches Ok(documents)
            ==> documents.len() == listing_kept(entries),
{
    lemma_listing(entries);
}

/// A document exists only with content: every document of a folder has a
/// content that is not empty, and comes from a row with a number from 1 on.
pub proof fn lemma_documents_have_content(path: Seq<char>, folder: FolderView)
    ensures
        folder_documents(path, folder) matches Ok(documents) ==> have_content(documents),
{
    if let FolderView::Listing(entries) = folder {
        lemma_listing(entries);
    }
}

/// The identifiers of the documents of a folder count up from `doc_0` in
/// the order of discovery, without gaps and without repeats.
pub proof fn lemma_document_ids_contiguous(path: Seq<char>, folder: FolderView)
    ensures
        folder_documents(path, folder) matches Ok(documents) ==> {
            &&& forall|k: int|
                0 <= k < documents.len() ==> (#[trigger] documents[k]).id == document_id(k as nat)
            &&& forall|j: int, k: int|
                0 <= j < k < documents.len() ==> (#[trigger] documents[j]).id != (
                #[trigger] documents[k]).id
        },
{
    if let FolderView::Listing(entries) = folder {
        lemma_listing(entries);
        if let Ok(documents) = listing_documents(entries) {
            assert forall|j: int, k: int| 0 <= j < k < documents.len() implies (
            #[trigger] documents[j]).id != (#[trigger] documents[k]).id by {
                if documents[j].id == documents[k].id {
                    lemma_document_id_injective(j as nat, k as nat);
                }
            }
        }
    }
}

} // verus!
