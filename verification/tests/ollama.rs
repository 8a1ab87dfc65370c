use rust_a_rag_us::data::{Collection, EmbeddedDocument, EmbeddedMetadata};
use rust_a_rag_us::ollama::{answer, context, Llm, PROMPT, PROMPT_SUMMARY};

fn found(text: &str) -> EmbeddedDocument {
    EmbeddedDocument {
        text_embeddings: Vec::new(),
        metadata: EmbeddedMetadata {
            id: "id".to_string(),
            title: "t".to_string(),
            url: "u".to_string(),
            text: text.to_string(),
            timestamp: "1970-01-01T00:00:00+00:00".to_string(),
            collection: Collection::Basic,
        },
    }
}

#[test]
fn prompts_hold_their_placeholders() {
    assert_eq!(PROMPT.matches("{context}").count(), 1);
    assert_eq!(PROMPT.matches("{question}").count(), 1);
    assert_eq!(PROMPT_SUMMARY.matches("{context}").count(), 1);
    assert!(PROMPT.starts_with("You are a customer support agent"));
    assert!(PROMPT.ends_with("\nContext:\n{context}\n\nQuestion: {question}\nHelpful answer thats includes a heading derived from the question:"));
    assert!(PROMPT_SUMMARY.ends_with("summarization process.\nContext:\n{context}\n"));
}

#[test]
fn context_is_a_bulleted_list() {
    assert_eq!(context(&Vec::new()), "");
    assert_eq!(context(&vec![found("one"), found("two")]), "- one\n- two\n");
}

#[test]
fn answer_fills_the_prompt() {
    let prompt = answer("What is it?", &vec![found("one"), found("two")]);
    let head = &PROMPT[..PROMPT.find("{context}").unwrap()];
    assert_eq!(
        prompt,
        format!(
            "{}- one\n- two\n\n\nQuestion: What is it?\nHelpful answer thats includes a heading derived from the question:",
            head
        )
    );
}

#[test]
fn answer_without_documents_has_an_empty_context() {
    let prompt = answer("q", &Vec::new());
    assert!(prompt.contains("\nContext:\n\n\nQuestion: q\n"));
}

#[test]
fn question_is_put_in_after_the_context() {
    let prompt = answer("why", &vec![found("see {question}")]);
    assert!(prompt.contains("- see why\n"));
    let other = answer("about {context}", &vec![found("one")]);
    assert!(other.contains("Question: about {context}\n"));
}

#[test]
fn generate_carries_model_and_prompt() {
    let llm = Llm::new("localhost".to_string(), 11434);
    assert_eq!(llm.host, "localhost");
    assert_eq!(llm.port, 11434);
    let request = llm.generate("orca2:13b", "a prompt");
    assert_eq!(request.model, "orca2:13b");
    assert_eq!(request.prompt, "a prompt");
}

#[test]
fn summarize_fills_the_summary_prompt() {
    let llm = Llm::new("localhost".to_string(), 11434);
    let request = llm.summarize("orca2:13b", "the text");
    assert_eq!(request.model, "orca2:13b");
    let head = &PROMPT_SUMMARY[..PROMPT_SUMMARY.find("{context}").unwrap()];
    assert_eq!(request.prompt, format!("{}the text\n", head));
}
