use csv_rag::csv_loader::{FileData, Folder, FolderEntry};
use csv_rag::document::CsvDocument;
use csv_rag::embeddings::EmbeddableDocument;
use csv_rag::ingest::{count_distinct_sources, get_status, ingest_csvs, IngestEvent, IngestStep};
use csv_rag::query::{ask_question, set_chat_model, QueryEvent, QueryStep, NOT_INDEXED, TOP_K_RESULTS};
use csv_rag::state::{AppState, IngestResult, QueryResult};

fn folder(files: &[(&str, &str)]) -> Folder {
    Folder::Listing(
        files
            .iter()
            .map(|(filename, data)| {
                Some(FolderEntry {
                    filename: filename.to_string(),
                    extension: "csv".to_string(),
                    data: FileData::Table(data.as_bytes().to_vec()),
                })
            })
            .collect(),
    )
}

fn listed(state: &mut AppState, path: &str, files: &[(&str, &str)]) -> IngestStep {
    ingest_csvs(state, path.to_string(), IngestEvent::Listed(folder(files)))
}

fn to_embed(step: IngestStep) -> Vec<CsvDocument> {
    match step {
        IngestStep::Embed(documents) => documents,
        IngestStep::Finished(_) => panic!("the documents were to be embedded"),
    }
}

fn report(step: IngestStep) -> Result<IngestResult, String> {
    match step {
        IngestStep::Finished(report) => report,
        IngestStep::Embed(_) => panic!("the call was to be over"),
    }
}

fn ingest(state: &mut AppState, path: &str, files: &[(&str, &str)]) -> IngestResult {
    let documents = to_embed(listed(state, path, files));
    let reply = Ok(documents.len());
    report(ingest_csvs(state, path.to_string(), IngestEvent::Embedded { documents, reply })).unwrap()
}

fn answer(step: QueryStep) -> Result<QueryResult, String> {
    match step {
        QueryStep::Finished(answer) => answer,
        _ => panic!("the call was to be over"),
    }
}

fn retrieve(state: &AppState, query: &str, scores: &[u64]) -> QueryStep {
    ask_question(state, query, QueryEvent::Retrieved(Ok(scores.to_vec())))
}

#[test]
fn new_state_is_empty_with_the_default_model() {
    let status = get_status(&AppState::new());
    assert!(!status.is_indexed);
    assert_eq!(status.document_count, 0);
    assert_eq!(status.data_folder, None);
    assert_eq!(status.selected_model, "llama3");
    let status = get_status(&AppState::default());
    assert!(!status.is_indexed);
    assert_eq!(status.selected_model, "llama3");
}

#[test]
fn set_chat_model_changes_the_model_alone() {
    let mut state = AppState::new();
    set_chat_model(&mut state, "mistral".to_string());
    let status = get_status(&state);
    assert_eq!(status.selected_model, "mistral");
    assert!(!status.is_indexed);
    ingest(&mut state, "data", &[("a.csv", "A\nx\n")]);
    set_chat_model(&mut state, "phi3".to_string());
    let status = get_status(&state);
    assert_eq!(status.selected_model, "phi3");
    assert!(status.is_indexed);
    assert_eq!(status.document_count, 1);
    assert_eq!(status.data_folder, Some("data".to_string()));
}

#[test]
fn count_distinct_sources_counts_each_source_once() {
    let source = |name: &str| CsvDocument {
        id: String::new(),
        content: String::new(),
        source_file: name.to_string(),
        row_number: 1,
    };
    assert_eq!(count_distinct_sources(&Vec::new()), 0);
    assert_eq!(count_distinct_sources(&vec![source("a.csv")]), 1);
    let mixed = vec![
        source("a.csv"),
        source("b.xlsx (One)"),
        source("a.csv"),
        source("b.xlsx (Two)"),
        source("b.xlsx (One)"),
        source("b.xlsx"),
    ];
    assert_eq!(count_distinct_sources(&mixed), 4);
}

#[test]
fn ingestion_installs_index_folder_and_count_together() {
    let mut state = AppState::new();
    let result = ingest(&mut state, "/data/one", &[("a.csv", "A\nx\ny\n"), ("b.csv", "B\nz\n")]);
    assert!(result.success);
    assert_eq!(result.documents_ingested, 3);
    assert_eq!(result.files_processed, 2);
    assert_eq!(result.message, "Successfully indexed 3 rows from 2 CSV file(s)");
    let status = get_status(&state);
    assert!(status.is_indexed);
    assert_eq!(status.document_count, 3);
    assert_eq!(status.data_folder, Some("/data/one".to_string()));
    assert_eq!(status.selected_model, "llama3");
}

#[test]
fn ingestion_asks_for_the_embedding_of_the_documents() {
    let mut state = AppState::new();
    let documents = to_embed(listed(&mut state, "data", &[("a.csv", "A\nx\n\ny\n")]));
    assert_eq!(documents.len(), 2);
    assert_eq!(documents[0].id, "doc_0");
    assert_eq!(documents[1].content, "From a.csv, Row 2: A: y");
    assert!(!get_status(&state).is_indexed);
}

#[test]
fn ingestion_of_a_folder_without_documents_is_no_failure() {
    let mut state = AppState::new();
    let result = report(listed(&mut state, "data", &[("a.csv", "A,B\n , \n")])).unwrap();
    assert!(!result.success);
    assert_eq!(result.documents_ingested, 0);
    assert_eq!(result.files_processed, 0);
    assert_eq!(result.message, "No CSV files found or all files were empty");
    assert!(!get_status(&state).is_indexed);
}

#[test]
fn ingestion_of_a_folder_without_documents_empties_the_state() {
    let mut state = AppState::new();
    ingest(&mut state, "first", &[("a.csv", "A\nx\n")]);
    let result = report(listed(&mut state, "second", &[])).unwrap();
    assert!(!result.success);
    let status = get_status(&state);
    assert!(!status.is_indexed);
    assert_eq!(status.document_count, 0);
    assert_eq!(status.data_folder, None);
}

#[test]
fn ingestion_fails_where_the_folder_cannot_be_loaded() {
    let mut state = AppState::new();
    ingest(&mut state, "first", &[("a.csv", "A\nx\n")]);
    let step = ingest_csvs(&mut state, "gone".to_string(), IngestEvent::Listed(Folder::Missing));
    assert_eq!(
        report(step).unwrap_err(),
        "Failed to load CSVs: Directory does not exist: gone"
    );
    let status = get_status(&state);
    assert!(status.is_indexed);
    assert_eq!(status.data_folder, Some("first".to_string()));
}

#[test]
fn ingestion_fails_where_the_embedding_service_fails() {
    let mut state = AppState::new();
    ingest(&mut state, "first", &[("a.csv", "A\nx\n")]);
    let documents = to_embed(listed(&mut state, "second", &[("b.csv", "B\ny\nz\n")]));
    let event = IngestEvent::Embedded { documents, reply: Err("connection refused".to_string()) };
    assert_eq!(
        report(ingest_csvs(&mut state, "second".to_string(), event)).unwrap_err(),
        "Failed to build vector index: Failed to build embeddings - is Ollama running with nomic-embed-text?"
    );
    let status = get_status(&state);
    assert!(status.is_indexed);
    assert_eq!(status.document_count, 1);
    assert_eq!(status.data_folder, Some("first".to_string()));
}

#[test]
fn ingestion_fails_where_nothing_was_embedded() {
    let mut state = AppState::new();
    let event = IngestEvent::Embedded { documents: Vec::new(), reply: Ok(0) };
    assert_eq!(
        report(ingest_csvs(&mut state, "data".to_string(), event)).unwrap_err(),
        "Failed to build vector index: No documents to embed"
    );
    assert!(!get_status(&state).is_indexed);
}

#[test]
fn question_before_ingestion_fails_and_after_it_is_taken_up() {
    let mut state = AppState::new();
    let before = answer(ask_question(&state, "What hurts?", QueryEvent::Asked));
    assert_eq!(
        before.unwrap_err(),
        "No data has been indexed yet. Please ingest CSV files first."
    );
    assert_eq!(answer(retrieve(&state, "What hurts?", &[1])).unwrap_err(), NOT_INDEXED);
    ingest(&mut state, "data", &[("a.csv", "Pain\nslow exports\n")]);
    match ask_question(&state, "What hurts?", QueryEvent::Asked) {
        QueryStep::Search { query, model } => {
            assert_eq!(query, "What hurts?");
            assert_eq!(model, "nomic-embed-text");
        }
        _ => panic!("the question was to be taken up"),
    }
}

#[test]
fn question_is_answered_from_the_retrieved_documents() {
    let mut state = AppState::new();
    ingest(&mut state, "data", &[("a.csv", "Pain\nslow exports\nlost files\n")]);
    set_chat_model(&mut state, "mistral".to_string());
    let (request, retrieved) = match retrieve(&state, "What hurts?", &[3, 8]) {
        QueryStep::Generate { request, retrieved } => (request, retrieved),
        _ => panic!("the generation service was to be asked"),
    };
    assert_eq!(request.model, "mistral");
    assert!(request.prompt.contains(
        "---BEGIN DATA---\nFrom a.csv, Row 2: Pain: lost files\n\nFrom a.csv, Row 1: Pain: slow exports\n---END DATA---"
    ));
    assert!(request.prompt.contains("Question: What hurts?"));
    assert_eq!(retrieved.len(), 2);
    let event = QueryEvent::Generated { retrieved, reply: Ok("Exports are slow.".to_string()) };
    let result = answer(ask_question(&state, "What hurts?", event)).unwrap();
    assert_eq!(result.answer, "Exports are slow.");
    assert_eq!(result.sources, vec!["a.csv, Row 2", "a.csv, Row 1"]);
}

#[test]
fn question_retrieves_five_documents_at_most() {
    let mut state = AppState::new();
    ingest(&mut state, "data", &[("a.csv", "K\n1\n2\n3\n4\n5\n6\n7\n")]);
    assert_eq!(TOP_K_RESULTS, 5);
    match retrieve(&state, "?", &[1, 2, 3, 4, 5, 6, 7]) {
        QueryStep::Generate { retrieved, .. } => {
            let found: Vec<&str> = retrieved.iter().map(|d| d.id.as_str()).collect();
            assert_eq!(found, vec!["doc_6", "doc_5", "doc_4", "doc_3", "doc_2"]);
        }
        _ => panic!("the generation service was to be asked"),
    }
}

#[test]
fn question_fails_where_a_similarity_is_missing() {
    let mut state = AppState::new();
    ingest(&mut state, "data", &[("a.csv", "A\nx\ny\n")]);
    assert_eq!(
        answer(retrieve(&state, "What hurts?", &[4])).unwrap_err(),
        "Search failed: Failed to search vector store"
    );
}

#[test]
fn question_fails_where_the_search_fails() {
    let mut state = AppState::new();
    ingest(&mut state, "data", &[("a.csv", "A\nx\n")]);
    let step = ask_question(&state, "?", QueryEvent::Retrieved(Err("timeout".to_string())));
    assert_eq!(answer(step).unwrap_err(), "Search failed: Failed to search vector store");
}

#[test]
fn question_fails_where_the_generation_fails() {
    let mut state = AppState::new();
    ingest(&mut state, "data", &[("a.csv", "A\nx\n")]);
    let retrieved = vec![EmbeddableDocument {
        id: "doc_0".to_string(),
        content: "From a.csv, Row 1: A: x".to_string(),
        source_file: "a.csv".to_string(),
        row_number: 1,
    }];
    let event = QueryEvent::Generated { retrieved, reply: Err("model not found".to_string()) };
    assert_eq!(
        answer(ask_question(&state, "?", event)).unwrap_err(),
        "Failed to generate response: Failed to generate response from LLM"
    );
}

#[test]
fn reingestion_replaces_count_folder_and_documents() {
    let mut state = AppState::new();
    ingest(&mut state, "/data/one", &[("old.csv", "K\na\nb\nc\n")]);
    let result = ingest(&mut state, "/data/two", &[("new.csv", "K\nz\n")]);
    assert_eq!(result.documents_ingested, 1);
    let status = get_status(&state);
    assert!(status.is_indexed);
    assert_eq!(status.document_count, 1);
    assert_eq!(status.data_folder, Some("/data/two".to_string()));
    match retrieve(&state, "?", &[9]) {
        QueryStep::Generate { retrieved, .. } => {
            assert_eq!(retrieved.len(), 1);
            assert_eq!(retrieved[0].source_file, "new.csv");
            assert_eq!(retrieved[0].content, "From new.csv, Row 1: K: z");
        }
        _ => panic!("the generation service was to be asked"),
    }
    assert!(answer(retrieve(&state, "?", &[9, 8, 7])).is_err());
}
