//! The question-answering call and the model selection call of the
//! coordinator.

use crate::document::DocumentView;
use crate::embeddings::{
    citations, generate_rag_response, request_for, respond, scores_view, search_result,
    EmbeddableDocument, GenerationReply, GenerationRequest, GenerationRequestView, Respond,
    EMBEDDING_MODEL, NO_INFORMATION_ANSWER,
};
use crate::state::{AppState, AppStateView, QueryResult, QueryResultView};
use vstd::prelude::*;
use vstd::string::*;

verus! {

/// The number of documents that are retrieved for a question.
pub const TOP_K_RESULTS: usize = 5;

/// What a question is answered with while no index is installed.
pub const NOT_INDEXED: &'static str =
    "No data has been indexed yet. Please ingest CSV files first.";

/// What has happened for a question-answering call.
pub enum QueryEvent {
    /// The question was asked.
    Asked,
    /// The similarities that the call asked for have come back: for each
    /// installed document, in the order of the index, its similarity to
    /// the query, higher for more similar; or why the query could not be
    /// embedded.
    Retrieved(Result<Vec<u64>, String>),
    /// The generation service has answered the request that the call made
    /// from these retrieved documents.
    Generated { retrieved: Vec<EmbeddableDocument>, reply: GenerationReply },
}

/// What a question-answering call does next.
pub enum QueryStep {
    /// Embed `query` with `model`, as the installed documents were, and
    /// come back with the similarity of each of them to the query as
    /// `Retrieved`.
    Search { query: String, model: String },
    /// Send `request` to the generation service and come back with its
    /// reply and these documents as `Generated`.
    Generate { request: GenerationRequest, retrieved: Vec<EmbeddableDocument> },
    /// The call is over: this is its answer, or why it failed.
    Finished(Result<QueryResult, String>),
}

/// `QueryEvent` as mathematical values.
pub enum QueryEventView {
    Asked,
    Retrieved(Result<Seq<u64>, Seq<char>>),
    Generated { retrieved: Seq<DocumentView>, reply: Result<Seq<char>, Seq<char>> },
}

/// `QueryStep` as mathematical values.
pub enum QueryStepView {
    Search { query: Seq<char>, model: Seq<char> },
    Generate { request: GenerationRequestView, retrieved: Seq<DocumentView> },
    Finished(Result<QueryResultView, Seq<char>>),
}

/// A reply of the generation service as mathematical values.
pub open spec fn generation_reply_view(reply: Result<String, String>) -> Result<
    Seq<char>,
    Seq<char>,
> {
    match reply {
        Ok(answer) => Ok(answer@),
        Err(detail) => Err(detail@),
    }
}

impl View for QueryEvent {
    type V = QueryEventView;

    open spec fn view(&self) -> QueryEventView {
        match self {
            QueryEvent::Asked => QueryEventView::Asked,
            QueryEvent::Retrieved(scores) => QueryEventView::Retrieved(scores_view(*scores)),
            QueryEvent::Generated { retrieved, reply } => QueryEventView::Generated {
                retrieved: retrieved.deep_view(),
                reply: generation_reply_view(*reply),
            },
        }
    }
}

impl View for QueryStep {
    type V = QueryStepView;

    open spec fn view(&self) -> QueryStepView {
        match self {
            QueryStep::Search { query, model } => QueryStepView::Search {
                query: query@,
                model: model@,
            },
            QueryStep::Generate { request, retrieved } => QueryStepView::Generate {
                request: request@,
                retrieved: retrieved.deep_view(),
            },
            QueryStep::Finished(Ok(result)) => QueryStepView::Finished(Ok(result@)),
            QueryStep::Finished(Err(message)) => QueryStepView::Finished(Err(message@)),
        }
    }
}

/// The step that follows an event of a question-answering call.
///
/// While no index is installed every event ends the call with
/// `NOT_INDEXED`. With an index, the question asks for the similarities of
/// the installed documents; these give the retrieved documents, the
/// `TOP_K_RESULTS` most similar ones, and these either the fixed answer
/// (none retrieved) or a request to the generation service; the reply of
/// that service gives the answer with one citation for each retrieved
/// document. A failure of either service ends the call with that failure.
pub open spec fn query_transition(
    state: AppStateView,
    query: Seq<char>,
    event: QueryEventView,
) -> QueryStepView {
    match state.snapshot {
        None => QueryStepView::Finished(Err(NOT_INDEXED@)),
        Some(snapshot) => match event {
            QueryEventView::Asked => QueryStepView::Search { query, model: EMBEDDING_MODEL@ },
            QueryEventView::Retrieved(scores) => match search_result(
                snapshot.documents,
                scores,
                TOP_K_RESULTS as nat,
            ) {
                Err(detail) => QueryStepView::Finished(
                    Err("Search failed: "@ + "Failed to search vector store"@),
                ),
                Ok(retrieved) => if retrieved.len() == 0 {
                    QueryStepView::Finished(
                        Ok(
                            QueryResultView {
                                answer: NO_INFORMATION_ANSWER@,
                                sources: Seq::empty(),
                            },
                        ),
                    )
                } else {
                    QueryStepView::Generate {
                        request: request_for(query, retrieved, state.selected_model),
                        retrieved,
                    }
                },
            },
            QueryEventView::Generated { retrieved, reply } => match reply {
                Err(detail) => QueryStepView::Finished(
                    Err("Failed to generate response: "@ + "Failed to generate response from LLM"@),
                ),
                Ok(answer) => QueryStepView::Finished(
                    Ok(QueryResultView { answer, sources: citations(retrieved) }),
                ),
            },
        },
    }
}

/// The question-answering call, one step at a time: takes what has
/// happened and says what to do next.
///
/// The call starts with `Asked` and ends with `Finished`. In between it
/// asks with `Search` for the similarities of the installed documents and
/// goes on with `Retrieved`, then asks with `Generate` for the answer of
/// the generation service and goes on with `Generated`. Where nothing is
/// retrieved the call ends with the fixed answer and the generation
/// service is not asked.
pub fn ask_question(state: &AppState, query: &str, event: QueryEvent) -> (step: QueryStep)
    ensures
        step@ == query_transition(state@, query@, event@),
{
    let snapshot = match &state.snapshot {
        Some(snapshot) => snapshot,
        None => {
            return QueryStep::Finished(Err(String::from_str(NOT_INDEXED)));
        },
    };
    match event {
        QueryEvent::Asked => QueryStep::Search {
            query: String::from_str(query),
            model: String::from_str(snapshot.index.embedding_model()),
        },
        QueryEvent::Retrieved(scores) => {
            let retrieved = match snapshot.index.search(scores, TOP_K_RESULTS) {
                Ok(retrieved) => retrieved,
                Err(error) => {
                    let mut message = String::from_str("Search failed: ");
                    message.append(error.message().as_str());
                    return QueryStep::Finished(Err(message));
                },
            };
            match respond(query, &retrieved, state.selected_model.as_str()) {
                Respond::Answer { answer, citations } => {
                    QueryStep::Finished(Ok(QueryResult { answer, sources: citations }))
                },
                Respond::Ask(request) => QueryStep::Generate { request, retrieved },
            }
        },
        QueryEvent::Generated { retrieved, reply } => {
            match generate_rag_response(&retrieved, reply) {
                Ok((answer, sources)) => QueryStep::Finished(Ok(QueryResult { answer, sources })),
                Err(error) => {
                    let mut message = String::from_str("Failed to generate response: ");
                    message.append(error.message().as_str());
                    QueryStep::Finished(Err(message))
                },
            }
        },
    }
}

/// The model selection call: selects the chat model and leaves the rest of
/// the state as it is. It succeeds in every state.
pub fn set_chat_model(state: &mut AppState, model_name: String)
    ensures
        final(state)@.snapshot == old(state)@.snapshot,
        final(state)@.selected_model == model_name@,
{
    state.selected_model = model_name;
}

} // verus!
