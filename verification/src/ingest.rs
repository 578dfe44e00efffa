//! The ingestion call and the status query of the coordinator.

use crate::csv_loader::{
    folder_documents, load_csvs_from_directory, load_error_message, Folder, FolderView,
};
use crate::document::{CsvDocument, DocumentView};
use crate::embeddings::{
    built_index, index_error_message, reply_view, EmbeddingReply, VectorIndex,
};
use crate::state::{
    AppState, AppStateView, AppStatus, AppStatusView, IngestResult, IngestResultView, Snapshot,
    SnapshotView,
};
use crate::text::{decimal, decimal_string, same_text};
use vstd::prelude::*;
use vstd::string::*;

verus! {

/// The sources of `documents`, in order.
pub open spec fn sources(documents: Seq<DocumentView>) -> Seq<Seq<char>> {
    documents.map_values(|document: DocumentView| document.source_file)
}

/// The number of distinct sources among `documents`.
pub open spec fn distinct_sources(documents: Seq<DocumentView>) -> nat {
    sources(documents).to_set().len()
}

/// Documents have at least one source and no more sources than there are
/// documents.
pub proof fn lemma_sources_are_bounded(documents: Seq<DocumentView>)
    ensures
        distinct_sources(documents) <= documents.len(),
        documents.len() > 0 ==> distinct_sources(documents) >= 1,
{
    let all = sources(documents);
    all.lemma_cardinality_of_set();
    if documents.len() > 0 {
        assert(all.to_set().contains(all[0]));
        vstd::seq_lib::seq_to_set_is_finite(all);
        if all.to_set().len() == 0 {
            all.to_set().lemma_len0_is_empty();
        }
    }
}

fn holds(seen: &Vec<String>, source: &str) -> (found: bool)
    ensures
        found == seen.deep_view().contains(source@),
{
    let mut i: usize = 0;
    while i < seen.len()
        invariant
            i <= seen.len(),
            forall|k: int| 0 <= k < i ==> seen.deep_view()[k] != source@,
        decreases seen.len() - i,
    {
        assert(seen.deep_view()[i as int] == seen@[i as int]@);
        if same_text(seen[i].as_str(), source) {
            return true;
        }
        i = i + 1;
    }
    assert(seen.deep_view().len() == seen@.len());
    false
}

/// Counts the distinct sources among `documents`.
pub fn count_distinct_sources(documents: &Vec<CsvDocument>) -> (count: usize)
    ensures
        count == distinct_sources(documents.deep_view()),
{
    let ghost all = sources(documents.deep_view());
    let mut seen: Vec<String> = Vec::new();
    let mut i: usize = 0;
    assert(seen.deep_view() =~= Seq::empty());
    assert(all.take(0).to_set() =~= seen.deep_view().to_set());
    while i < documents.len()
        invariant
            i <= documents.len(),
            all == sources(documents.deep_view()),
            seen.deep_view().no_duplicates(),
            seen.deep_view().to_set() == all.take(i as int).to_set(),
            seen.len() <= i,
        decreases documents.len() - i,
    {
        let source = &documents[i].source_file;
        proof {
            assert(documents.deep_view()[i as int] == documents@[i as int]@);
            assert(all.take(i + 1) =~= all.take(i as int).push(source@));
            all.take(i as int).lemma_push_to_set_commute(source@);
            assert(seen.deep_view().len() == seen@.len());
        }
        if !holds(&seen, source.as_str()) {
            let ghost before = seen.deep_view();
            seen.push(source.clone());
            proof {
                assert(seen.deep_view() =~= before.push(source@));
                before.lemma_push_to_set_commute(source@);
            }
        } else {
            assert(seen.deep_view().to_set().insert(source@) =~= seen.deep_view().to_set());
        }
        i = i + 1;
    }
    proof {
        assert(all.take(i as int) =~= all);
        seen.deep_view().unique_seq_to_set();
        assert(seen.deep_view().len() == seen@.len());
    }
    seen.len()
}

/// What the coordinator shows of a state.
pub open spec fn status_of(state: AppStateView) -> AppStatusView {
    match state.snapshot {
        Some(snapshot) => AppStatusView {
            is_indexed: true,
            document_count: snapshot.documents.len(),
            data_folder: Some(snapshot.data_folder),
            selected_model: state.selected_model,
        },
        None => AppStatusView {
            is_indexed: false,
            document_count: 0,
            data_folder: None,
            selected_model: state.selected_model,
        },
    }
}

/// The status query: whether an index is installed, how many documents it
/// holds, which folder it was built from, and the selected chat model.
pub fn get_status(state: &AppState) -> (status: AppStatus)
    ensures
        status@ == status_of(state@),
{
    match &state.snapshot {
        Some(snapshot) => AppStatus {
            is_indexed: true,
            document_count: snapshot.index.len(),
            data_folder: Some(snapshot.data_folder.clone()),
            selected_model: state.selected_model.clone(),
        },
        None => AppStatus {
            is_indexed: false,
            document_count: 0,
            data_folder: None,
            selected_model: state.selected_model.clone(),
        },
    }
}

/// What has happened for an ingestion call.
pub enum IngestEvent {
    /// The folder was looked at: this is what the file system showed.
    Listed(Folder),
    /// The embedding service has answered for the documents that the call
    /// asked it to embed.
    Embedded { documents: Vec<CsvDocument>, reply: EmbeddingReply },
}

/// What an ingestion call does next.
pub enum IngestStep {
    /// Have these documents embedded, and come back with `Embedded`.
    Embed(Vec<CsvDocument>),
    /// The call is over: this is its report, or why it failed.
    Finished(Result<IngestResult, String>),
}

/// `IngestEvent` as mathematical values.
pub enum IngestEventView {
    Listed(FolderView),
    Embedded { documents: Seq<DocumentView>, reply: Result<usize, Seq<char>> },
}

/// `IngestStep` as mathematical values.
pub enum IngestStepView {
    Embed(Seq<DocumentView>),
    Finished(Result<IngestResultView, Seq<char>>),
}

impl View for IngestEvent {
    type V = IngestEventView;

    open spec fn view(&self) -> IngestEventView {
        match self {
            IngestEvent::Listed(folder) => IngestEventView::Listed(folder@),
            IngestEvent::Embedded { documents, reply } => IngestEventView::Embedded {
                documents: documents.deep_view(),
                reply: reply_view(*reply),
            },
        }
    }
}

impl View for IngestStep {
    type V = IngestStepView;

    open spec fn view(&self) -> IngestStepView {
        match self {
            IngestStep::Embed(documents) => IngestStepView::Embed(documents.deep_view()),
            IngestStep::Finished(Ok(result)) => IngestStepView::Finished(Ok(result@)),
            IngestStep::Finished(Err(message)) => IngestStepView::Finished(Err(message@)),
        }
    }
}

/// The report of a folder that gave no document.
pub open spec fn no_data_result() -> IngestResultView {
    IngestResultView {
        success: false,
        documents_ingested: 0,
        files_processed: 0,
        message: "No CSV files found or all files were empty"@,
    }
}

/// The report of a folder whose documents were indexed.
pub open spec fn indexed_result(documents: Seq<DocumentView>) -> IngestResultView {
    IngestResultView {
        success: true,
        documents_ingested: documents.len(),
        files_processed: distinct_sources(documents),
        message: "Successfully indexed "@ + decimal(documents.len()) + " rows from "@ + decimal(
            distinct_sources(documents),
        ) + " CSV file(s)"@,
    }
}

/// The state after an ingestion event and the step that follows it.
///
/// A folder that cannot be loaded fails the call and leaves the state as
/// it was. A folder without documents empties the state and is reported as
/// no failure. A folder with documents asks for their embedding; once that
/// has come back, the new index is installed together with its folder, or
/// the call fails and the state stays as it was.
pub open spec fn ingest_transition(
    state: AppStateView,
    folder_path: Seq<char>,
    event: IngestEventView,
) -> (AppStateView, IngestStepView) {
    match event {
        IngestEventView::Listed(folder) => match folder_documents(folder_path, folder) {
            Err(error) => (
                state,
                IngestStepView::Finished(Err("Failed to load CSVs: "@ + load_error_message(error))),
            ),
            Ok(documents) => if documents.len() == 0 {
                (
                    AppStateView { snapshot: None, selected_model: state.selected_model },
                    IngestStepView::Finished(Ok(no_data_result())),
                )
            } else {
                (state, IngestStepView::Embed(documents))
            },
        },
        IngestEventView::Embedded { documents, reply } => match built_index(documents, reply) {
            Err(error) => (
                state,
                IngestStepView::Finished(
                    Err("Failed to build vector index: "@ + index_error_message(error)),
                ),
            ),
            Ok(installed) => (
                AppStateView {
                    snapshot: Some(SnapshotView { documents: installed, data_folder: folder_path }),
                    selected_model: state.selected_model,
                },
                IngestStepView::Finished(Ok(indexed_result(documents))),
            ),
        },
    }
}

/// The ingestion call, one step at a time: takes what has happened and
/// says what to do next.
///
/// The call starts with `Listed` and what the file system showed at
/// `folder_path`. It ends with `Finished`, or asks with `Embed` for the
/// embedding of the folder's documents and goes on with `Embedded`. The
/// state changes in one piece: index, folder and count are installed
/// together or not at all.
pub fn ingest_csvs(state: &mut AppState, folder_path: String, event: IngestEvent) -> (step:
    IngestStep)
    ensures
        (final(state)@, step@) == ingest_transition(old(state)@, folder_path@, event@),
{
    match event {
        IngestEvent::Listed(folder) => {
            let documents = match load_csvs_from_directory(folder_path.as_str(), &folder) {
                Ok(documents) => documents,
                Err(error) => {
                    let mut message = String::from_str("Failed to load CSVs: ");
                    message.append(error.message().as_str());
                    return IngestStep::Finished(Err(message));
                },
            };
            assert(documents.deep_view().len() == documents@.len());
            if documents.len() == 0 {
                state.snapshot = None;
                return IngestStep::Finished(
                    Ok(
                        IngestResult {
                            success: false,
                            documents_ingested: 0,
                            files_processed: 0,
                            message: String::from_str("No CSV files found or all files were empty"),
                        },
                    ),
                );
            }
            IngestStep::Embed(documents)
        },
        IngestEvent::Embedded { documents, reply } => {
            let doc_count = documents.len();
            let file_count = count_distinct_sources(&documents);
            assert(documents.deep_view().len() == documents@.len());
            let index = match VectorIndex::from_documents(documents, reply) {
                Ok(index) => index,
                Err(error) => {
                    let mut message = String::from_str("Failed to build vector index: ");
                    message.append(error.message().as_str());
                    return IngestStep::Finished(Err(message));
                },
            };
            state.snapshot = Some(Snapshot { index, data_folder: folder_path });
            let mut message = String::from_str("Successfully indexed ");
            message.append(decimal_string(doc_count).as_str());
            message.append(" rows from ");
            message.append(decimal_string(file_count).as_str());
            message.append(" CSV file(s)");
            IngestStep::Finished(
                Ok(
                    IngestResult {
                        success: true,
                        documents_ingested: doc_count,
                        files_processed: file_count,
                        message,
                    },
                ),
            )
        },
    }
}

} // verus!
