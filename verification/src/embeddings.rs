//! The embedding index and the responder: which documents are installed,
//! which of them a search hands out, and what is asked of the generation
//! service on their behalf.

use crate::document::{CsvDocument, DocumentView};
use crate::ranking::{
    is_top_ranking, lemma_top_ranking_is_best, positions, rank_top, ranks_before, smaller,
    top_ranking,
};
use crate::text::{decimal, decimal_string, join, joined};
use vstd::prelude::*;
use vstd::string::*;

verus! {

/// The embedding model that every index is built and searched with.
pub const EMBEDDING_MODEL: &'static str = "nomic-embed-text";

/// A document as the index holds it.
#[derive(Debug, Clone, PartialEq, Eq)]
pub struct EmbeddableDocument {
    /// Identifier, unique within one ingestion run.
    pub id: String,
    /// The content that is embedded.
    pub content: String,
    /// The source the document is attributed to.
    pub source_file: String,
    /// The row the document is attributed to.
    pub row_number: usize,
}

impl View for EmbeddableDocument {
    type V = DocumentView;

    open spec fn view(&self) -> DocumentView {
        DocumentView {
            id: self.id@,
            content: self.content@,
            source_file: self.source_file@,
            row_number: self.row_number as nat,
        }
    }
}

impl DeepView for EmbeddableDocument {
    type V = DocumentView;

    open spec fn deep_view(&self) -> DocumentView {
        self@
    }
}

impl vstd::std_specs::convert::FromSpecImpl<CsvDocument> for EmbeddableDocument {
    open spec fn obeys_from_spec() -> bool {
        true
    }

    open spec fn from_spec(doc: CsvDocument) -> EmbeddableDocument {
        EmbeddableDocument {
            id: doc.id,
            content: doc.content,
            source_file: doc.source_file,
            row_number: doc.row_number,
        }
    }
}

impl From<CsvDocument> for EmbeddableDocument {
    /// Takes the fields over as they are.
    fn from(doc: CsvDocument) -> (embeddable: EmbeddableDocument) {
        EmbeddableDocument {
            id: doc.id,
            content: doc.content,
            source_file: doc.source_file,
            row_number: doc.row_number,
        }
    }
}

/// Why no index was built.
#[derive(Debug, Clone)]
pub enum IndexError {
    /// There was no document to embed.
    EmptyBatch,
    /// The embedding service could not be reached, or did not return one
    /// vector for each document; `detail` says which.
    EmbeddingService { detail: String },
}

/// `IndexError` as mathematical values.
pub enum IndexErrorView {
    EmptyBatch,
    EmbeddingService { detail: Seq<char> },
}

impl View for IndexError {
    type V = IndexErrorView;

    open spec fn view(&self) -> IndexErrorView {
        match self {
            IndexError::EmptyBatch => IndexErrorView::EmptyBatch,
            IndexError::EmbeddingService { detail } => IndexErrorView::EmbeddingService {
                detail: detail@,
            },
        }
    }
}

/// What an index error says.
pub open spec fn index_error_message(error: IndexErrorView) -> Seq<char> {
    match error {
        IndexErrorView::EmptyBatch => "No documents to embed"@,
        IndexErrorView::EmbeddingService { detail } =>
            "Failed to build embeddings - is Ollama running with nomic-embed-text?"@,
    }
}

impl IndexError {
    /// What the error says.
    pub fn message(&self) -> (text: String)
        ensures
            text@ == index_error_message(self@),
    {
        match self {
            IndexError::EmptyBatch => String::from_str("No documents to embed"),
            IndexError::EmbeddingService { detail } => String::from_str(
                "Failed to build embeddings - is Ollama running with nomic-embed-text?",
            ),
        }
    }
}

/// What the embedding service made of a batch: the number of vectors it
/// returned, or why it returned none.
pub type EmbeddingReply = Result<usize, String>;

/// What building an index from `documents` gives, once the embedding
/// service has answered with `reply`.
pub open spec fn built_index(documents: Seq<DocumentView>, reply: Result<usize, Seq<char>>) -> Result<
    Seq<DocumentView>,
    IndexErrorView,
> {
    if documents.len() == 0 {
        Err(IndexErrorView::EmptyBatch)
    } else {
        match reply {
            Err(detail) => Err(IndexErrorView::EmbeddingService { detail }),
            Ok(vectors) => if vectors == documents.len() {
                Ok(documents)
            } else {
                Err(
                    IndexErrorView::EmbeddingService {
                        detail: "the service did not return one vector for each document"@,
                    },
                )
            },
        }
    }
}

/// An embedding reply as mathematical values.
pub open spec fn reply_view(reply: Result<usize, String>) -> Result<usize, Seq<char>> {
    match reply {
        Ok(vectors) => Ok(vectors),
        Err(detail) => Err(detail@),
    }
}

/// The documents at the positions of `ranking`, in its order.
pub open spec fn documents_at(documents: Seq<DocumentView>, ranking: Seq<int>) -> Seq<DocumentView> {
    ranking.map_values(|p: int| documents[p])
}

/// What a search gives, once the similarity of each installed document to
/// the query has come back as `scores`: the `top_k` most similar documents,
/// most similar first, or all of them where no more are installed.
pub open spec fn search_result(
    documents: Seq<DocumentView>,
    scores: Result<Seq<u64>, Seq<char>>,
    top_k: nat,
) -> Result<Seq<DocumentView>, Seq<char>> {
    match scores {
        Err(detail) => Err(detail),
        Ok(scores) => if scores.len() == documents.len() {
            Ok(documents_at(documents, top_ranking(scores, top_k)))
        } else {
            Err("the service did not return one similarity for each document"@)
        },
    }
}

/// Similarities as mathematical values.
pub open spec fn scores_view(scores: Result<Vec<u64>, String>) -> Result<Seq<u64>, Seq<char>> {
    match scores {
        Ok(scores) => Ok(scores@),
        Err(detail) => Err(detail@),
    }
}

/// Why a search gave no documents: the query could not be embedded, or the
/// similarities that came back do not fit the index.
#[derive(Debug, Clone)]
pub struct SearchError {
    /// What the service said.
    pub detail: String,
}

impl SearchError {
    /// What the error says.
    pub fn message(&self) -> (text: String)
        ensures
            text@ == "Failed to search vector store"@,
    {
        String::from_str("Failed to search vector store")
    }
}

/// The installed documents of one ingestion run, in the order in which they
/// were handed in. Never empty, never changed: a new run builds a new index.
///
/// The vectors themselves stay with the embedding service's client; the
/// index holds the documents that they stand for.
pub struct VectorIndex {
    documents: Vec<EmbeddableDocument>,
    embedding_model: String,
}

impl View for VectorIndex {
    type V = Seq<DocumentView>;

    closed spec fn view(&self) -> Seq<DocumentView> {
        self.documents.deep_view()
    }
}

/// A search hands out as many documents as were asked for, or all where
/// no more are installed, and none where none were asked for; each is an
/// installed document.
pub proof fn lemma_search_is_bounded(
    documents: Seq<DocumentView>,
    scores: Result<Seq<u64>, Seq<char>>,
    top_k: nat,
)
    ensures
        search_result(documents, scores, top_k) matches Ok(found) ==> {
            &&& found.len() == smaller(top_k, documents.len())
            &&& found.len() <= top_k
            &&& found.len() <= documents.len()
            &&& top_k == 0 ==> found.len() == 0
            &&& forall|k: int| 0 <= k < found.len() ==> documents.contains(#[trigger] found[k])
        },
{
    if let Ok(scores) = scores {
        if scores.len() == documents.len() {
            lemma_top_ranking_is_best(scores, scores.len() as int, top_k);
            let ranking = top_ranking(scores, top_k);
            let found = documents_at(documents, ranking);
            assert forall|k: int| 0 <= k < found.len() implies documents.contains(
                #[trigger] found[k],
            ) by {
                assert(0 <= ranking[k] < documents.len());
                assert(found[k] == documents[ranking[k]]);
            }
        }
    }
}

/// A search ranks by similarity: what it hands out comes from positions of
/// the index of which each is at least as similar to the query as the
/// next, and at least as similar as every position that is left out.
pub proof fn lemma_search_ranks_by_similarity(
    documents: Seq<DocumentView>,
    scores: Seq<u64>,
    top_k: nat,
)
    requires
        scores.len() == documents.len(),
    ensures
        search_result(documents, Ok(scores), top_k) == Ok::<Seq<DocumentView>, Seq<char>>(
            documents_at(documents, top_ranking(scores, top_k)),
        ),
        forall|i: int, j: int|
            0 <= i < j < top_ranking(scores, top_k).len() ==> scores[#[trigger] top_ranking(
                scores,
                top_k,
            )[i]] >= scores[#[trigger] top_ranking(scores, top_k)[j]],
        forall|i: int, p: int|
            0 <= i < top_ranking(scores, top_k).len() && 0 <= p < scores.len() && !top_ranking(
                scores,
                top_k,
            ).contains(p) ==> scores[#[trigger] top_ranking(scores, top_k)[i]]
                >= #[trigger] scores[p],
{
    lemma_top_ranking_is_best(scores, scores.len() as int, top_k);
    let ranking = top_ranking(scores, top_k);
    assert forall|i: int, j: int| 0 <= i < j < ranking.len() implies scores[#[trigger] ranking[i]]
        >= scores[#[trigger] ranking[j]] by {
        assert(ranks_before(scores, ranking[i], ranking[j]));
    }
    assert forall|i: int, p: int|
        0 <= i < ranking.len() && 0 <= p < scores.len() && !ranking.contains(p) implies scores[
    #[trigger] ranking[i]] >= #[trigger] scores[p] by {
        assert(ranks_before(scores, ranking[i], p));
    }
}

impl VectorIndex {
    #[verifier::type_invariant]
    spec fn inhabited(&self) -> bool {
        self.documents@.len() > 0 && self.embedding_model@ == EMBEDDING_MODEL@
    }

    /// Builds the index of `documents` once the embedding service has
    /// answered for them.
    ///
    /// Fails with `EmptyBatch` where there is no document, whatever the
    /// reply, and with `EmbeddingService` where the service failed or did
    /// not return one vector for each document. Nothing is installed on
    /// failure: a build is all or nothing.
    pub fn from_documents(documents: Vec<CsvDocument>, reply: EmbeddingReply) -> (res: Result<
        VectorIndex,
        IndexError,
    >)
        ensures
            match res {
                Ok(index) => built_index(documents.deep_view(), reply_view(reply)) == Ok::<
                    Seq<DocumentView>,
                    IndexErrorView,
                >(index@),
                Err(error) => built_index(documents.deep_view(), reply_view(reply)) == Err::<
                    Seq<DocumentView>,
                    IndexErrorView,
                >(error@),
            },
    {
        if documents.len() == 0 {
            return Err(IndexError::EmptyBatch);
        }
        let vectors = match reply {
            Ok(vectors) => vectors,
            Err(detail) => {
                return Err(IndexError::EmbeddingService { detail });
            },
        };
        if vectors != documents.len() {
            return Err(
                IndexError::EmbeddingService {
                    detail: String::from_str(
                        "the service did not return one vector for each document",
                    ),
                },
            );
        }
        let ghost views = documents.deep_view();
        let mut embeddable: Vec<EmbeddableDocument> = Vec::new();
        assert(embeddable.deep_view() =~= views.take(0));
        for document in iter: documents
            invariant
                iter.seq().len() == views.len(),
                forall|k: int| 0 <= k < views.len() ==> (#[trigger] iter.seq()[k])@ == views[k],
                embeddable.deep_view() == views.take(iter.index() as int),
        {
            let ghost before = embeddable.deep_view();
            let ghost view = document@;
            embeddable.push(EmbeddableDocument::from(document));
            proof {
                assert(embeddable.deep_view() =~= before.push(view));
                assert(before.push(view) =~= views.take(iter.index() + 1));
            }
        }
        assert(embeddable.deep_view() =~= views);
        Ok(VectorIndex { documents: embeddable, embedding_model: String::from_str(EMBEDDING_MODEL) })
    }

    /// The number of installed documents.
    pub fn len(&self) -> (n: usize)
        ensures
            n == self@.len(),
            n > 0,
    {
        proof {
            use_type_invariant(self);
            assert(self.documents.deep_view().len() == self.documents@.len());
        }
        self.documents.len()
    }

    /// The installed documents, in the order in which they were handed in.
    pub fn documents(&self) -> (documents: &Vec<EmbeddableDocument>)
        ensures
            documents.deep_view() == self@,
    {
        &self.documents
    }

    /// The name of the embedding model that the index was built with, and
    /// that queries against it have to be embedded with.
    pub fn embedding_model(&self) -> (model: &str)
        ensures
            model@ == EMBEDDING_MODEL@,
    {
        proof {
            use_type_invariant(self);
        }
        self.embedding_model.as_str()
    }

    /// Hands out the documents that are the most similar to a query.
    ///
    /// `scores` is what the embedding service made of the query: for each
    /// installed document, in the order of the index, its similarity to the
    /// query, higher for more similar; or why the query could not be
    /// embedded. The result holds the `top_k` most similar documents, most
    /// similar first, or all of them where no more are installed; among
    /// equally similar documents the one installed first comes first. With
    /// `top_k` 0 it is empty.
    pub fn search(&self, scores: Result<Vec<u64>, String>, top_k: usize) -> (res: Result<
        Vec<EmbeddableDocument>,
        SearchError,
    >)
        ensures
            match res {
                Ok(found) => {
                    &&& search_result(self@, scores_view(scores), top_k as nat) == Ok::<
                        Seq<DocumentView>,
                        Seq<char>,
                    >(found.deep_view())
                    &&& found.len() == smaller(top_k as nat, self@.len())
                    &&& forall|k: int| 0 <= k < found.len() ==> self@.contains(#[trigger] found[k]@)
                },
                Err(error) => search_result(self@, scores_view(scores), top_k as nat) == Err::<
                    Seq<DocumentView>,
                    Seq<char>,
                >(error.detail@),
            },
    {
        let scores = match scores {
            Ok(scores) => scores,
            Err(detail) => {
                return Err(SearchError { detail });
            },
        };
        proof {
            assert(self.documents.deep_view().len() == self.documents@.len());
        }
        if scores.len() != self.documents.len() {
            return Err(
                SearchError {
                    detail: String::from_str(
                        "the service did not return one similarity for each document",
                    ),
                },
            );
        }
        let ranking = rank_top(&scores, top_k);
        let ghost places = positions(ranking@);
        let mut found: Vec<EmbeddableDocument> = Vec::new();
        let mut i: usize = 0;
        assert(found.deep_view() =~= documents_at(self@, places.take(0)));
        while i < ranking.len()
            invariant
                i <= ranking.len(),
                places == positions(ranking@),
                is_top_ranking(scores@, scores.len() as int, top_k as nat, places),
                scores.len() == self.documents.len(),
                found.deep_view() == documents_at(self@, places.take(i as int)),
            decreases ranking.len() - i,
        {
            let ghost before = found.deep_view();
            assert(0 <= places[i as int] < scores.len());
            let document = &self.documents[ranking[i]];
            let copy = EmbeddableDocument {
                id: document.id.clone(),
                content: document.content.clone(),
                source_file: document.source_file.clone(),
                row_number: document.row_number,
            };
            proof {
                assert(self@[places[i as int]] == document@);
                assert(documents_at(self@, places.take(i + 1)) =~= documents_at(
                    self@,
                    places.take(i as int),
                ).push(copy@));
            }
            found.push(copy);
            assert(found.deep_view() =~= before.push(copy@));
            i = i + 1;
        }
        proof {
            assert(places.take(i as int) =~= places);
            lemma_search_is_bounded(self@, Ok(scores@), top_k as nat);
            assert(found.deep_view().len() == found@.len());
            assert forall|k: int| 0 <= k < found.len() implies self@.contains(
                #[trigger] found[k]@,
            ) by {
                assert(found.deep_view()[k] == found[k]@);
            }
        }
        Ok(found)
    }
}

/// The persona and the rules that every generation request starts with.
pub const CUSTOMER_DISCOVERY_PREAMBLE: &'static str =
    "You are a Customer Discovery Specialist for Inis Informatics, an expert consultant analyzing interview notes and customer research data.\n\nYour role:\n- Analyze customer interview data to extract actionable insights\n- Identify patterns, pain points, and opportunities from the research\n- Provide concise, evidence-based answers grounded ONLY in the provided data\n- Cite specific rows/sources when making claims\n- Be direct and business-focused in your responses\n\nImportant guidelines:\n- NEVER make up information not present in the data\n- If asked about something not in the data, clearly state that the information is not available\n- Focus on patterns across multiple data points when possible\n- Highlight direct quotes when relevant\n- Keep responses concise and actionable\n\nYou are reviewing spreadsheet data from customer discovery interviews. Each piece of context includes the source file and row number for reference.";

/// The answer where nothing was retrieved.
pub const NO_INFORMATION_ANSWER: &'static str =
    "No relevant information found in the indexed data.";

/// The contents of `documents`, in order.
pub open spec fn contents(documents: Seq<DocumentView>) -> Seq<Seq<char>> {
    documents.map_values(|document: DocumentView| document.content)
}

/// The context of a generation request: the contents of the retrieved
/// documents in order, a blank line between each two.
pub open spec fn context_text(documents: Seq<DocumentView>) -> Seq<char> {
    joined(contents(documents), "\n\n"@)
}

/// The citation of a document: its source and its row.
pub open spec fn citation(document: DocumentView) -> Seq<char> {
    document.source_file + ", Row "@ + decimal(document.row_number)
}

/// The citations of `documents`: one for each, in the same order.
pub open spec fn citations(documents: Seq<DocumentView>) -> Seq<Seq<char>> {
    documents.map_values(|document: DocumentView| citation(document))
}

/// The citations follow the documents index by index: there are as many,
/// and each is the citation of the document at its place, whatever the
/// documents hold.
pub proof fn lemma_citations_follow_documents(documents: Seq<DocumentView>)
    ensures
        citations(documents).len() == documents.len(),
        forall|k: int|
            0 <= k < documents.len() ==> #[trigger] citations(documents)[k] == citation(
                documents[k],
            ),
{
}

/// The prompt of a generation request: the data block with the context
/// between its delimiters, then the question, then the reminder to answer
/// from the data alone.
pub open spec fn prompt_text(context: Seq<char>, query: Seq<char>) -> Seq<char> {
    "Based on the following interview data from our customer discovery research:\n\n---BEGIN DATA---\n"@
        + context + "\n---END DATA---\n\nQuestion: "@ + query
        + "\n\nRemember: Answer ONLY based on the data provided above. If the information is not in the data, say so."@
}

/// Builds the context of a generation request.
pub fn build_context(documents: &Vec<EmbeddableDocument>) -> (context: String)
    ensures
        context@ == context_text(documents.deep_view()),
{
    let mut parts: Vec<String> = Vec::new();
    let mut i: usize = 0;
    assert(parts.deep_view() =~= contents(documents.deep_view()).take(0));
    while i < documents.len()
        invariant
            i <= documents.len(),
            parts.deep_view() == contents(documents.deep_view()).take(i as int),
        decreases documents.len() - i,
    {
        let ghost before = parts.deep_view();
        let content = documents[i].content.clone();
        proof {
            assert(documents.deep_view()[i as int] == documents@[i as int]@);
        }
        parts.push(content);
        proof {
            assert(parts.deep_view() =~= before.push(content@));
            assert(before.push(content@) =~= contents(documents.deep_view()).take(i + 1));
        }
        i = i + 1;
    }
    assert(parts.deep_view() =~= contents(documents.deep_view()));
    join(&parts, "\n\n")
}

/// Builds the citations of the retrieved documents: one for each, index by
/// index, whatever the documents hold.
pub fn build_sources(documents: &Vec<EmbeddableDocument>) -> (sources: Vec<String>)
    ensures
        sources.deep_view() == citations(documents.deep_view()),
        sources.len() == documents.len(),
{
    let mut sources: Vec<String> = Vec::new();
    let mut i: usize = 0;
    assert(sources.deep_view() =~= citations(documents.deep_view()).take(0));
    while i < documents.len()
        invariant
            i <= documents.len(),
            sources.len() == i,
            sources.deep_view() == citations(documents.deep_view()).take(i as int),
        decreases documents.len() - i,
    {
        let ghost before = sources.deep_view();
        let document = &documents[i];
        proof {
            assert(documents.deep_view()[i as int] == document@);
        }
        let mut source = document.source_file.clone();
        source.append(", Row ");
        source.append(decimal_string(document.row_number).as_str());
        sources.push(source);
        proof {
            assert(sources.deep_view() =~= before.push(source@));
            assert(before.push(source@) =~= citations(documents.deep_view()).take(i + 1));
        }
        i = i + 1;
    }
    assert(sources.deep_view() =~= citations(documents.deep_view()));
    sources
}

/// Builds the prompt of a generation request.
pub fn build_prompt(context: &str, query: &str) -> (prompt: String)
    ensures
        prompt@ == prompt_text(context@, query@),
{
    let mut prompt = String::from_str(
        "Based on the following interview data from our customer discovery research:\n\n---BEGIN DATA---\n",
    );
    prompt.append(context);
    prompt.append("\n---END DATA---\n\nQuestion: ");
    prompt.append(query);
    prompt.append(
        "\n\nRemember: Answer ONLY based on the data provided above. If the information is not in the data, say so.",
    );
    prompt
}

/// What is asked of the generation service.
#[derive(Debug, Clone)]
pub struct GenerationRequest {
    /// The chat model to ask.
    pub model: String,
    /// The persona and the rules.
    pub preamble: String,
    /// The data and the question.
    pub prompt: String,
}

/// `GenerationRequest` as mathematical values.
pub struct GenerationRequestView {
    pub model: Seq<char>,
    pub preamble: Seq<char>,
    pub prompt: Seq<char>,
}

impl View for GenerationRequest {
    type V = GenerationRequestView;

    open spec fn view(&self) -> GenerationRequestView {
        GenerationRequestView { model: self.model@, preamble: self.preamble@, prompt: self.prompt@ }
    }
}

/// The request that answers `query` from `documents` with the chat model
/// `model`.
pub open spec fn request_for(
    query: Seq<char>,
    documents: Seq<DocumentView>,
    model: Seq<char>,
) -> GenerationRequestView {
    GenerationRequestView {
        model,
        preamble: CUSTOMER_DISCOVERY_PREAMBLE@,
        prompt: prompt_text(context_text(documents), query),
    }
}

/// Builds the request that answers `query` from the retrieved documents.
pub fn generation_request(
    query: &str,
    context_docs: &Vec<EmbeddableDocument>,
    model_name: &str,
) -> (request: GenerationRequest)
    ensures
        request@ == request_for(query@, context_docs.deep_view(), model_name@),
{
    let context = build_context(context_docs);
    GenerationRequest {
        model: String::from_str(model_name),
        preamble: String::from_str(CUSTOMER_DISCOVERY_PREAMBLE),
        prompt: build_prompt(context.as_str(), query),
    }
}

/// Why no answer was generated: the generation service could not be
/// reached, or failed.
#[derive(Debug, Clone)]
pub struct GenerationError {
    /// What the service said.
    pub detail: String,
}

impl GenerationError {
    /// What the error says.
    pub fn message(&self) -> (text: String)
        ensures
            text@ == "Failed to generate response from LLM"@,
    {
        String::from_str("Failed to generate response from LLM")
    }
}

/// What the generation service made of a request: its answer, or why it
/// gave none.
pub type GenerationReply = Result<String, String>;

/// Pairs the answer of the generation service with the citations of the
/// documents that the request was built from: one citation for each
/// document, in the order of the documents. A failure of the service is
/// handed on.
pub fn generate_rag_response(context_docs: &Vec<EmbeddableDocument>, reply: GenerationReply) -> (res:
    Result<(String, Vec<String>), GenerationError>)
    ensures
        match res {
            Ok((answer, sources)) => {
                &&& reply matches Ok(text)
                &&& answer@ == text@
                &&& sources.deep_view() == citations(context_docs.deep_view())
                &&& sources.len() == context_docs.len()
            },
            Err(error) => reply matches Err(detail) && error.detail@ == detail@,
        },
{
    match reply {
        Ok(answer) => Ok((answer, build_sources(context_docs))),
        Err(detail) => Err(GenerationError { detail }),
    }
}

/// What answering from the retrieved documents takes.
pub enum Respond {
    /// Nothing was retrieved: this is the answer, with no citations, and
    /// the generation service is not asked.
    Answer { answer: String, citations: Vec<String> },
    /// Ask the generation service; `generate_rag_response` takes its reply.
    Ask(GenerationRequest),
}

/// `Respond` as mathematical values.
pub enum RespondView {
    Answer { answer: Seq<char>, citations: Seq<Seq<char>> },
    Ask(GenerationRequestView),
}

impl View for Respond {
    type V = RespondView;

    open spec fn view(&self) -> RespondView {
        match self {
            Respond::Answer { answer, citations } => RespondView::Answer {
                answer: answer@,
                citations: citations.deep_view(),
            },
            Respond::Ask(request) => RespondView::Ask(request@),
        }
    }
}

/// How `query` is answered from the retrieved documents: with the fixed
/// answer and no citation where there are none, else by a request to the
/// generation service.
pub open spec fn response_to(
    query: Seq<char>,
    retrieved: Seq<DocumentView>,
    model: Seq<char>,
) -> RespondView {
    if retrieved.len() == 0 {
        RespondView::Answer { answer: NO_INFORMATION_ANSWER@, citations: Seq::empty() }
    } else {
        RespondView::Ask(request_for(query, retrieved, model))
    }
}

/// Decides how to answer `query` from the retrieved documents: with the
/// fixed answer where there are none, without asking the generation
/// service, else by a request to that service.
pub fn respond(query: &str, retrieved: &Vec<EmbeddableDocument>, model: &str) -> (step: Respond)
    ensures
        step@ == response_to(query@, retrieved.deep_view(), model@),
{
    assert(retrieved.deep_view().len() == retrieved@.len());
    if retrieved.len() == 0 {
        let citations: Vec<String> = Vec::new();
        assert(citations.deep_view() =~= Seq::empty());
        Respond::Answer { answer: String::from_str(NO_INFORMATION_ANSWER), citations }
    } else {
        Respond::Ask(generation_request(query, retrieved, model))
    }
}

} // verus!
