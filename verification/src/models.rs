//! The chat-model discovery call and the service health call: what to make
//! of the generation service's list of models.

use crate::embeddings::EMBEDDING_MODEL;
use crate::state::{OllamaModel, OllamaModelInfo, OllamaTagsResponse};
use crate::text::{contains, lowercase, occurs_in, to_lowercase};
use vstd::prelude::*;
use vstd::string::*;

verus! {

/// Whether a model name, in lower case, holds one of the known names of
/// embedding-only models.
pub open spec fn names_embedding_model(lower: Seq<char>) -> bool {
    ||| occurs_in("nomic-embed-text"@, lower)
    ||| occurs_in("all-minilm"@, lower)
    ||| occurs_in("mxbai-embed-large"@, lower)
    ||| occurs_in("bge-m3"@, lower)
    ||| occurs_in("bge-large"@, lower)
    ||| occurs_in("snowflake-arctic-embed"@, lower)
    ||| occurs_in("paraphrase-multilingual"@, lower)
    ||| occurs_in("granite-embedding"@, lower)
    ||| occurs_in("embeddinggemma"@, lower)
    ||| occurs_in("qwen3-embedding"@, lower)
}

/// Whether a model is for embedding only, by its name in any case.
pub open spec fn is_embedding_name(name: Seq<char>) -> bool {
    names_embedding_model(lowercase(name))
}

/// Tells whether a model name in lower case holds one of the known names
/// of embedding-only models.
pub fn holds_embedding_name(lower: &str) -> (embedding: bool)
    ensures
        embedding == names_embedding_model(lower@),
{
    contains(lower, "nomic-embed-text") || contains(lower, "all-minilm") || contains(
        lower,
        "mxbai-embed-large",
    ) || contains(lower, "bge-m3") || contains(lower, "bge-large") || contains(
        lower,
        "snowflake-arctic-embed",
    ) || contains(lower, "paraphrase-multilingual") || contains(lower, "granite-embedding")
        || contains(lower, "embeddinggemma") || contains(lower, "qwen3-embedding")
}

/// Tells whether a model is for embedding only, whatever the case of its
/// name: such models are not offered for chat.
pub fn is_embedding_model(name: &str) -> (embedding: bool)
    ensures
        embedding == is_embedding_name(name@),
{
    holds_embedding_name(to_lowercase(name).as_str())
}

/// What came of asking the generation service for its models.
pub enum TagsReply {
    /// The service could not be reached; the text says why.
    Unreachable(String),
    /// The service answered with a status that is no success; the text is
    /// that status.
    Status(String),
    /// The service answered, and its answer could not be read; the text
    /// says why.
    Malformed(String),
    /// The models that the service listed.
    Tags(OllamaTagsResponse),
}

/// A listed model as mathematical values.
pub struct ModelView {
    pub name: Seq<char>,
    pub size: u64,
    pub modified_at: Seq<char>,
}

impl View for OllamaModel {
    type V = ModelView;

    open spec fn view(&self) -> ModelView {
        ModelView { name: self.name@, size: self.size, modified_at: self.modified_at@ }
    }
}

impl DeepView for OllamaModel {
    type V = ModelView;

    open spec fn deep_view(&self) -> ModelView {
        self@
    }
}

impl View for OllamaModelInfo {
    type V = ModelView;

    open spec fn view(&self) -> ModelView {
        ModelView { name: self.name@, size: self.size, modified_at: self.modified_at@ }
    }
}

impl DeepView for OllamaModelInfo {
    type V = ModelView;

    open spec fn deep_view(&self) -> ModelView {
        self@
    }
}

/// `TagsReply` as mathematical values.
pub enum TagsReplyView {
    Unreachable(Seq<char>),
    Status(Seq<char>),
    Malformed(Seq<char>),
    Tags(Seq<ModelView>),
}

impl View for TagsReply {
    type V = TagsReplyView;

    open spec fn view(&self) -> TagsReplyView {
        match self {
            TagsReply::Unreachable(detail) => TagsReplyView::Unreachable(detail@),
            TagsReply::Status(status) => TagsReplyView::Status(status@),
            TagsReply::Malformed(detail) => TagsReplyView::Malformed(detail@),
            TagsReply::Tags(tags) => TagsReplyView::Tags(tags.models.deep_view()),
        }
    }
}

/// The models among `models` that are offered for chat: those that are not
/// for embedding only, in the order of the listing.
pub open spec fn chat_models(models: Seq<ModelView>) -> Seq<ModelView>
    decreases models.len(),
{
    if models.len() == 0 {
        Seq::empty()
    } else {
        let before = chat_models(models.drop_last());
        if is_embedding_name(models.last().name) {
            before
        } else {
            before.push(models.last())
        }
    }
}

/// What the chat-model discovery call gives for a reply of the service.
pub open spec fn available_models(reply: TagsReplyView) -> Result<Seq<ModelView>, Seq<char>> {
    match reply {
        TagsReplyView::Unreachable(detail) => Err(
            "Failed to connect to Ollama: "@ + detail + ". Is Ollama running?"@,
        ),
        TagsReplyView::Status(status) => Err("Ollama returned error status: "@ + status),
        TagsReplyView::Malformed(detail) => Err("Failed to parse Ollama response: "@ + detail),
        TagsReplyView::Tags(models) => Ok(chat_models(models)),
    }
}

/// The chat-model discovery call: the models of the generation service
/// without those that are for embedding only, or why there is no list.
pub fn list_available_models(reply: TagsReply) -> (res: Result<Vec<OllamaModel>, String>)
    ensures
        match res {
            Ok(models) => available_models(reply@) == Ok::<Seq<ModelView>, Seq<char>>(
                models.deep_view(),
            ),
            Err(message) => available_models(reply@) == Err::<Seq<ModelView>, Seq<char>>(message@),
        },
{
    let tags = match reply {
        TagsReply::Unreachable(detail) => {
            let mut message = String::from_str("Failed to connect to Ollama: ");
            message.append(detail.as_str());
            message.append(". Is Ollama running?");
            return Err(message);
        },
        TagsReply::Status(status) => {
            let mut message = String::from_str("Ollama returned error status: ");
            message.append(status.as_str());
            return Err(message);
        },
        TagsReply::Malformed(detail) => {
            let mut message = String::from_str("Failed to parse Ollama response: ");
            message.append(detail.as_str());
            return Err(message);
        },
        TagsReply::Tags(tags) => tags,
    };
    let ghost listed = tags.models.deep_view();
    let mut models: Vec<OllamaModel> = Vec::new();
    assert(models.deep_view() =~= Seq::empty());
    assert(listed.take(0) =~= Seq::empty());
    for info in iter: tags.models
        invariant
            iter.seq().len() == listed.len(),
            forall|k: int| 0 <= k < listed.len() ==> (#[trigger] iter.seq()[k])@ == listed[k],
            models.deep_view() == chat_models(listed.take(iter.index() as int)),
    {
        proof {
            assert(listed.take(iter.index() + 1).drop_last() =~= listed.take(iter.index() as int));
            assert(listed.take(iter.index() + 1).last() == info@);
        }
        if !is_embedding_model(info.name.as_str()) {
            let ghost before = models.deep_view();
            let model = OllamaModel {
                name: info.name,
                size: info.size,
                modified_at: info.modified_at,
            };
            let ghost view = model@;
            models.push(model);
            assert(models.deep_view() =~= before.push(view));
        }
    }
    assert(listed.take(listed.len() as int) =~= listed);
    Ok(models)
}

/// What the service health call reports.
#[derive(Debug, Clone)]
pub struct OllamaStatus {
    /// Whether the generation service answered with a list of models.
    pub is_running: bool,
    /// Whether the embedding model is among them.
    pub has_embedding_model: bool,
    /// How many of them are offered for chat.
    pub chat_models_count: usize,
    /// The report in words.
    pub message: String,
}

/// `OllamaStatus` as mathematical values.
pub struct OllamaStatusView {
    pub is_running: bool,
    pub has_embedding_model: bool,
    pub chat_models_count: nat,
    pub message: Seq<char>,
}

impl View for OllamaStatus {
    type V = OllamaStatusView;

    open spec fn view(&self) -> OllamaStatusView {
        OllamaStatusView {
            is_running: self.is_running,
            has_embedding_model: self.has_embedding_model,
            chat_models_count: self.chat_models_count as nat,
            message: self.message@,
        }
    }
}

/// Whether one of `models` carries the name of the embedding model, in
/// that very case.
pub open spec fn lists_embedding_model(models: Seq<ModelView>) -> bool {
    exists|k: int| 0 <= k < models.len() && occurs_in(EMBEDDING_MODEL@, (#[trigger] models[k]).name)
}

/// The report on a service that did not list its models.
pub open spec fn not_running(message: Seq<char>) -> OllamaStatusView {
    OllamaStatusView {
        is_running: false,
        has_embedding_model: false,
        chat_models_count: 0,
        message,
    }
}

/// What the service health call gives for a reply of the service.
pub open spec fn service_status(reply: TagsReplyView) -> Result<OllamaStatusView, Seq<char>> {
    match reply {
        TagsReplyView::Unreachable(detail) => Ok(
            not_running("Ollama is not running. Start it with: ollama serve"@),
        ),
        TagsReplyView::Status(status) => Ok(not_running("Ollama returned error: "@ + status)),
        TagsReplyView::Malformed(detail) => Err("Failed to parse response: "@ + detail),
        TagsReplyView::Tags(models) => Ok(
            OllamaStatusView {
                is_running: true,
                has_embedding_model: lists_embedding_model(models),
                chat_models_count: chat_models(models).len(),
                message: if lists_embedding_model(models) {
                    "Ollama is ready"@
                } else {
                    "Ollama is running but nomic-embed-text is not installed. Run: ollama pull nomic-embed-text"@
                },
            },
        ),
    }
}

/// The service health call: whether the generation service is running,
/// whether the embedding model is installed, and how many models are
/// offered for chat. Only an answer that cannot be read is a failure.
pub fn check_ollama_status(reply: TagsReply) -> (res: Result<OllamaStatus, String>)
    ensures
        match res {
            Ok(status) => service_status(reply@) == Ok::<OllamaStatusView, Seq<char>>(status@),
            Err(message) => service_status(reply@) == Err::<OllamaStatusView, Seq<char>>(message@),
        },
{
    let tags = match reply {
        TagsReply::Unreachable(_) => {
            return Ok(
                OllamaStatus {
                    is_running: false,
                    has_embedding_model: false,
                    chat_models_count: 0,
                    message: String::from_str("Ollama is not running. Start it with: ollama serve"),
                },
            );
        },
        TagsReply::Status(status) => {
            let mut message = String::from_str("Ollama returned error: ");
            message.append(status.as_str());
            return Ok(
                OllamaStatus {
                    is_running: false,
                    has_embedding_model: false,
                    chat_models_count: 0,
                    message,
                },
            );
        },
        TagsReply::Malformed(detail) => {
            let mut message = String::from_str("Failed to parse response: ");
            message.append(detail.as_str());
            return Err(message);
        },
        TagsReply::Tags(tags) => tags,
    };
    let ghost listed = tags.models.deep_view();
    let mut has_embedding_model = false;
    let mut chat_models_count: usize = 0;
    let mut i: usize = 0;
    assert(listed.take(0) =~= Seq::empty());
    while i < tags.models.len()
        invariant
            i <= tags.models.len(),
            listed == tags.models.deep_view(),
            has_embedding_model == lists_embedding_model(listed.take(i as int)),
            chat_models_count == chat_models(listed.take(i as int)).len(),
            chat_models_count <= i,
        decreases tags.models.len() - i,
    {
        let name = tags.models[i].name.as_str();
        proof {
            let next = listed.take(i + 1);
            assert(next.drop_last() =~= listed.take(i as int));
            assert(next.last() == tags.models@[i as int]@);
            if lists_embedding_model(listed.take(i as int)) {
                let k = choose|k: int|
                    0 <= k < listed.take(i as int).len() && occurs_in(
                        EMBEDDING_MODEL@,
                        (#[trigger] listed.take(i as int)[k]).name,
                    );
                assert(next[k] == listed.take(i as int)[k]);
            }
            if lists_embedding_model(next) {
                let k = choose|k: int|
                    0 <= k < next.len() && occurs_in(EMBEDDING_MODEL@, (#[trigger] next[k]).name);
                if k < i {
                    assert(listed.take(i as int)[k] == next[k]);
                }
            }
        }
        if contains(name, EMBEDDING_MODEL) {
            assert(occurs_in(EMBEDDING_MODEL@, listed.take(i + 1)[i as int].name));
            has_embedding_model = true;
        }
        if !is_embedding_model(name) {
            chat_models_count = chat_models_count + 1;
        }
        i = i + 1;
    }
    assert(listed.take(i as int) =~= listed);
    let message = if has_embedding_model {
        String::from_str("Ollama is ready")
    } else {
        String::from_str(
            "Ollama is running but nomic-embed-text is not installed. Run: ollama pull nomic-embed-text",
        )
    };
    Ok(OllamaStatus { is_running: true, has_embedding_model, chat_models_count, message })
}

} // verus!
