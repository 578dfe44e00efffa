//! What holds of the coordinator over several calls: when a question can
//! be answered, and what a new ingestion leaves of the old one.

use crate::csv_loader::{folder_documents, FolderView, LoadErrorView};
use crate::document::DocumentView;
use crate::embeddings::{
    citation, citations, lemma_search_is_bounded, request_for, search_result,
    GenerationRequestView, EMBEDDING_MODEL, NO_INFORMATION_ANSWER,
};
use crate::ingest::{
    indexed_result, ingest_transition, status_of, IngestEventView, IngestStepView,
};
use crate::query::{
    query_transition, QueryEventView, QueryStepView, NOT_INDEXED, TOP_K_RESULTS,
};
use crate::state::{
    empty_state, AppStateView, QueryResultView, SnapshotView, DEFAULT_CHAT_MODEL,
};
use vstd::prelude::*;

verus! {

/// The state that the coordinator starts in.
pub open spec fn initial_state() -> AppStateView {
    empty_state(DEFAULT_CHAT_MODEL@)
}

/// The snapshot of the documents of a folder.
pub open spec fn snapshot_of(documents: Seq<DocumentView>, folder_path: Seq<char>) -> SnapshotView {
    SnapshotView { documents, data_folder: folder_path }
}

/// The event that the embedding service has answered for `documents`.
pub open spec fn embedded(
    documents: Seq<DocumentView>,
    reply: Result<usize, Seq<char>>,
) -> IngestEventView {
    IngestEventView::Embedded { documents, reply }
}

/// The step that asks for the similarities of the installed documents.
pub open spec fn search_step(query: Seq<char>) -> QueryStepView {
    QueryStepView::Search { query, model: EMBEDDING_MODEL@ }
}

/// The step that asks the generation service to answer from `retrieved`.
pub open spec fn generate_step(
    request: GenerationRequestView,
    retrieved: Seq<DocumentView>,
) -> QueryStepView {
    QueryStepView::Generate { request, retrieved }
}

/// The event that the generation service has answered a request made from
/// `retrieved`.
pub open spec fn generated(
    retrieved: Seq<DocumentView>,
    reply: Result<Seq<char>, Seq<char>>,
) -> QueryEventView {
    QueryEventView::Generated { retrieved, reply }
}

/// An answer with the citations of the documents it rests on.
pub open spec fn cited_answer(answer: Seq<char>, retrieved: Seq<DocumentView>) -> QueryResultView {
    QueryResultView { answer, sources: citations(retrieved) }
}

/// The answer where nothing was retrieved: fixed, and without citations.
pub open spec fn no_information() -> QueryResultView {
    QueryResultView { answer: NO_INFORMATION_ANSWER@, sources: Seq::empty() }
}

/// The status says "indexed" exactly while an index is installed, and then
/// counts the documents of that index and names its folder; else it counts
/// none and names no folder.
pub proof fn lemma_status_is_consistent(state: AppStateView)
    ensures
        status_of(state).is_indexed <==> state.snapshot is Some,
        status_of(state).selected_model == state.selected_model,
        match state.snapshot {
            Some(snapshot) => status_of(state).document_count == snapshot.documents.len()
                && status_of(state).data_folder == Some(snapshot.data_folder),
            None => status_of(state).document_count == 0 && status_of(state).data_folder
                == None::<Seq<char>>,
        },
{
}

/// While no index is installed, as before the first successful ingestion,
/// a question is answered with `NOT_INDEXED`, whatever has happened.
pub proof fn lemma_question_needs_index(
    state: AppStateView,
    query: Seq<char>,
    event: QueryEventView,
)
    requires
        state.snapshot is None,
    ensures
        query_transition(state, query, event) == QueryStepView::Finished(Err(NOT_INDEXED@)),
        query_transition(initial_state(), query, event) == QueryStepView::Finished(
            Err(NOT_INDEXED@),
        ),
{
}

/// Ingesting a folder with documents, with one vector returned for each of
/// them, installs their index, and the question that failed before is then
/// taken up: it asks for the similarities of the installed documents.
pub proof fn lemma_question_after_ingestion(
    state: AppStateView,
    folder_path: Seq<char>,
    folder: FolderView,
    documents: Seq<DocumentView>,
    query: Seq<char>,
)
    requires
        folder_documents(folder_path, folder) == Ok::<Seq<DocumentView>, LoadErrorView>(documents),
        0 < documents.len() <= usize::MAX,
    ensures
        ingest_transition(state, folder_path, IngestEventView::Listed(folder)) == (
            state,
            IngestStepView::Embed(documents),
        ),
        ingest_transition(
            state,
            folder_path,
            embedded(documents, Ok(documents.len() as usize)),
        ).1 == IngestStepView::Finished(Ok(indexed_result(documents))),
        ingest_transition(
            state,
            folder_path,
            embedded(documents, Ok(documents.len() as usize)),
        ).0.snapshot == Some(snapshot_of(documents, folder_path)),
        query_transition(
            ingest_transition(
                state,
                folder_path,
                embedded(documents, Ok(documents.len() as usize)),
            ).0,
            query,
            QueryEventView::Asked,
        ) == search_step(query),
{
}

/// With an index installed and both services answering, a question
/// succeeds: the similarities give retrieved documents, at least one and
/// `TOP_K_RESULTS` at most, and with them the request to the generation
/// service; the answer of that service ends the call without failure.
pub proof fn lemma_question_succeeds_with_services(
    state: AppStateView,
    query: Seq<char>,
    scores: Seq<u64>,
    answer: Seq<char>,
)
    requires
        state.snapshot matches Some(snapshot) && snapshot.documents.len() > 0 && scores.len()
            == snapshot.documents.len(),
    ensures
        search_result(state.snapshot->0.documents, Ok(scores), TOP_K_RESULTS as nat) matches Ok(
            retrieved,
        ) && 0 < retrieved.len() <= TOP_K_RESULTS && query_transition(
            state,
            query,
            QueryEventView::Retrieved(Ok(scores)),
        ) == generate_step(request_for(query, retrieved, state.selected_model), retrieved)
            && query_transition(state, query, generated(retrieved, Ok(answer)))
            == QueryStepView::Finished(Ok(cited_answer(answer, retrieved))),
{
    lemma_search_is_bounded(state.snapshot->0.documents, Ok(scores), TOP_K_RESULTS as nat);
}

/// Where the search hands out no document, the question is answered with
/// the fixed answer and no citation, and no request to the generation
/// service is made.
pub proof fn lemma_nothing_retrieved_is_answered_at_once(
    state: AppStateView,
    query: Seq<char>,
    scores: Result<Seq<u64>, Seq<char>>,
)
    requires
        state.snapshot matches Some(snapshot) && search_result(
            snapshot.documents,
            scores,
            TOP_K_RESULTS as nat,
        ) == Ok::<Seq<DocumentView>, Seq<char>>(Seq::empty()),
    ensures
        query_transition(state, query, QueryEventView::Retrieved(scores))
            == QueryStepView::Finished(Ok(no_information())),
{
}

/// Once the generation service has answered, the question is answered with
/// its answer and with one citation for each retrieved document, in the
/// order of their retrieval.
pub proof fn lemma_answer_cites_each_document(
    state: AppStateView,
    query: Seq<char>,
    retrieved: Seq<DocumentView>,
    answer: Seq<char>,
)
    requires
        state.snapshot is Some,
    ensures
        query_transition(state, query, generated(retrieved, Ok(answer))) == QueryStepView::Finished(
            Ok(cited_answer(answer, retrieved)),
        ),
        cited_answer(answer, retrieved).sources.len() == retrieved.len(),
        forall|k: int|
            0 <= k < retrieved.len() ==> #[trigger] cited_answer(answer, retrieved).sources[k]
                == citation(retrieved[k]),
{
}

/// A successful ingestion replaces what an earlier one installed: count,
/// folder and documents are those of the new folder whatever the state was
/// before, and a search hands out documents of the new folder only.
pub proof fn lemma_reingestion_replaces(
    state: AppStateView,
    folder_path: Seq<char>,
    documents: Seq<DocumentView>,
    reply: Result<usize, Seq<char>>,
    scores: Result<Seq<u64>, Seq<char>>,
    top_k: nat,
)
    requires
        ingest_transition(
            state,
            folder_path,
            embedded(documents, reply),
        ).1 matches IngestStepView::Finished(Ok(_)),
    ensures
        ({
            let after = ingest_transition(state, folder_path, embedded(documents, reply)).0;
            &&& after.snapshot == Some(snapshot_of(documents, folder_path))
            &&& after.selected_model == state.selected_model
            &&& status_of(after).is_indexed
            &&& status_of(after).document_count == documents.len()
            &&& status_of(after).data_folder == Some(folder_path)
            &&& search_result(documents, scores, top_k) matches Ok(found) ==> forall|k: int|
                0 <= k < found.len() ==> documents.contains(#[trigger] found[k])
        }),
{
    lemma_search_is_bounded(documents, scores, top_k);
}

/// An ingestion that fails, at the folder or at the embedding service,
/// leaves the state as it was.
pub proof fn lemma_failed_ingestion_changes_nothing(
    state: AppStateView,
    folder_path: Seq<char>,
    event: IngestEventView,
)
    requires
        ingest_transition(state, folder_path, event).1 matches IngestStepView::Finished(Err(_)),
    ensures
        ingest_transition(state, folder_path, event).0 == state,
{
}

} // verus!
