//! The coordinator's state, and the plain values that go in and out of its
//! calls.

use crate::document::DocumentView;
use crate::embeddings::VectorIndex;
use vstd::prelude::*;
use vstd::string::*;

verus! {

/// The chat model that is selected until another one is.
pub const DEFAULT_CHAT_MODEL: &'static str = "llama3";

/// An installed index with the folder it was built from: the unit that is
/// installed and replaced as a whole.
pub struct Snapshot {
    /// The index that queries are answered from.
    pub index: VectorIndex,
    /// The folder that was ingested.
    pub data_folder: String,
}

/// `Snapshot` as mathematical values.
pub struct SnapshotView {
    pub documents: Seq<DocumentView>,
    pub data_folder: Seq<char>,
}

impl View for Snapshot {
    type V = SnapshotView;

    open spec fn view(&self) -> SnapshotView {
        SnapshotView { documents: self.index@, data_folder: self.data_folder@ }
    }
}

/// The state of the coordinator: empty while `snapshot` is `None`, ready
/// once one is installed.
pub struct AppState {
    /// The installed index and its folder, `None` until a folder with
    /// documents has been ingested.
    pub snapshot: Option<Snapshot>,
    /// The name of the selected chat model.
    pub selected_model: String,
}

/// `AppState` as mathematical values.
pub struct AppStateView {
    pub snapshot: Option<SnapshotView>,
    pub selected_model: Seq<char>,
}

/// The state without an index and with this chat model selected.
pub open spec fn empty_state(selected_model: Seq<char>) -> AppStateView {
    AppStateView { snapshot: None, selected_model }
}

impl View for AppState {
    type V = AppStateView;

    open spec fn view(&self) -> AppStateView {
        AppStateView {
            snapshot: match self.snapshot {
                Some(snapshot) => Some(snapshot@),
                None => None,
            },
            selected_model: self.selected_model@,
        }
    }
}

impl AppState {
    /// The empty state, with the default chat model selected.
    pub fn new() -> (state: AppState)
        ensures
            state@ == empty_state(DEFAULT_CHAT_MODEL@),
    {
        AppState { snapshot: None, selected_model: String::from_str(DEFAULT_CHAT_MODEL) }
    }
}

impl Default for AppState {
    fn default() -> (state: AppState)
        ensures
            state@ == empty_state(DEFAULT_CHAT_MODEL@),
    {
        AppState::new()
    }
}

/// What the coordinator shows of its state.
#[derive(Debug, Clone)]
pub struct AppStatus {
    /// Whether an index is installed.
    pub is_indexed: bool,
    /// The number of installed documents, 0 where no index is installed.
    pub document_count: usize,
    /// The folder that was ingested, `None` where no index is installed.
    pub data_folder: Option<String>,
    /// The name of the selected chat model.
    pub selected_model: String,
}

/// `AppStatus` as mathematical values.
pub struct AppStatusView {
    pub is_indexed: bool,
    pub document_count: nat,
    pub data_folder: Option<Seq<char>>,
    pub selected_model: Seq<char>,
}

impl View for AppStatus {
    type V = AppStatusView;

    open spec fn view(&self) -> AppStatusView {
        AppStatusView {
            is_indexed: self.is_indexed,
            document_count: self.document_count as nat,
            data_folder: match self.data_folder {
                Some(folder) => Some(folder@),
                None => None,
            },
            selected_model: self.selected_model@,
        }
    }
}

/// A model as the chat-model discovery call offers it.
#[derive(Debug, Clone)]
pub struct OllamaModel {
    pub name: String,
    pub size: u64,
    pub modified_at: String,
}

/// What the generation service lists: its models.
#[derive(Debug, Clone)]
pub struct OllamaTagsResponse {
    pub models: Vec<OllamaModelInfo>,
}

/// A model as the generation service lists it.
#[derive(Debug, Clone)]
pub struct OllamaModelInfo {
    pub name: String,
    pub size: u64,
    pub modified_at: String,
    /// Absent where the service sent none.
    pub details: Option<OllamaModelDetails>,
}

/// The details of a listed model.
#[derive(Debug, Clone)]
pub struct OllamaModelDetails {
    pub family: Option<String>,
    pub parameter_size: Option<String>,
}

/// What an ingestion call reports.
#[derive(Debug, Clone)]
pub struct IngestResult {
    /// Whether an index was installed.
    pub success: bool,
    /// The number of documents that were made and indexed.
    pub documents_ingested: usize,
    /// The number of distinct sources among them; each sheet of a workbook
    /// is a source of its own.
    pub files_processed: usize,
    /// The report in words.
    pub message: String,
}

/// `IngestResult` as mathematical values.
pub struct IngestResultView {
    pub success: bool,
    pub documents_ingested: nat,
    pub files_processed: nat,
    pub message: Seq<char>,
}

impl View for IngestResult {
    type V = IngestResultView;

    open spec fn view(&self) -> IngestResultView {
        IngestResultView {
            success: self.success,
            documents_ingested: self.documents_ingested as nat,
            files_processed: self.files_processed as nat,
            message: self.message@,
        }
    }
}

/// What a question-answering call reports.
#[derive(Debug, Clone)]
pub struct QueryResult {
    /// The answer.
    pub answer: String,
    /// The citations of the documents that the answer rests on, in the
    /// order of their retrieval.
    pub sources: Vec<String>,
}

/// `QueryResult` as mathematical values.
pub struct QueryResultView {
    pub answer: Seq<char>,
    pub sources: Seq<Seq<char>>,
}

impl View for QueryResult {
    type V = QueryResultView;

    open spec fn view(&self) -> QueryResultView {
        QueryResultView { answer: self.answer@, sources: self.sources.deep_view() }
    }
}

} // verus!
