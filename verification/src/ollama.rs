//! The prompts for the text generator, and the requests that carry them.

use crate::data::{embedded_view, EmbeddedDocument, EmbeddedDocumentView};
use crate::text::{replace_text, replaced};
use vstd::prelude::*;

verus! {

/// The prompt that asks for an answer to a question from a context. The
/// context takes the place of `{context}`, the question that of
/// `{question}`.
pub const PROMPT: &'static str =
    "You are a customer support agent, programmed to offer highly accurate and helpful assistance. Your responses should be strictly based on factual information, presented in a friendly yet concise manner. Utilize only the context information provided below, without drawing on any prior knowledge. Your goal is to address the query directly and efficiently, ensuring clarity and relevance in your answer.\nContext:\n{context}\n\nQuestion: {question}\nHelpful answer thats includes a heading derived from the question:";

/// The prompt that asks for a summary of a text. The text takes the place
/// of `{context}`.
pub const PROMPT_SUMMARY: &'static str =
    "Your role as an advanced summarization agent involves distilling the provided context information into a concise and precise format. Emphasize extracting and synthesizing the main points and critical details, presenting them in a clear, compact form. In your output, seamlessly integrate these key elements without explicitly labeling the output as a summary or indicating the summarization process.\nContext:\n{context}\n";

/// The context that some documents make: the text of each on a line of its
/// own, behind a dash, in the documents' order.
pub open spec fn context_of(documents: Seq<EmbeddedDocumentView>) -> Seq<char>
    decreases documents.len(),
{
    if documents.len() == 0 {
        Seq::empty()
    } else {
        context_of(documents.drop_last()) + "- "@ + documents.last().metadata.text + "\n"@
    }
}

/// The prompt for a question and a context: the context is put in first,
/// then the question.
pub open spec fn prompt_of(context: Seq<char>, question: Seq<char>) -> Seq<char> {
    replaced(replaced(PROMPT@, "{context}"@, context), "{question}"@, question)
}

/// The prompt for a summary of a text.
pub open spec fn summary_prompt_of(text: Seq<char>) -> Seq<char> {
    replaced(PROMPT_SUMMARY@, "{context}"@, text)
}

/// The context that some documents make.
pub fn context(documents: &Vec<EmbeddedDocument>) -> (text: String)
    ensures
        text@ == context_of(embedded_view(documents@)),
{
    let mut text = String::new();
    let mut index: usize = 0;
    let ghost all = embedded_view(documents@);
    while index < documents.len()
        invariant
            index <= documents@.len(),
            all == embedded_view(documents@),
            text@ == context_of(all.take(index as int)),
        decreases documents@.len() - index,
    {
        proof {
            let upto = all.take(index + 1);
            assert(upto.drop_last() =~= all.take(index as int));
        }
        text.append("- ");
        text.append(documents[index].metadata.text.as_str());
        text.append("\n");
        index += 1;
    }
    assert(all.take(index as int) =~= all);
    text
}

/// The prompt that asks the generator to answer a question from the
/// documents that a search found.
pub fn answer(query: &str, documents: &Vec<EmbeddedDocument>) -> (prompt: String)
    ensures
        prompt@ == prompt_of(context_of(embedded_view(documents@)), query@),
{
    let text = context(documents);
    proof {
        reveal_strlit("{context}");
        reveal_strlit("{question}");
    }
    let with_context = replace_text(PROMPT, "{context}", text.as_str());
    replace_text(with_context.as_str(), "{question}", query)
}

/// A request to the text generator: the model to use and the prompt.
#[derive(Debug, Clone)]
pub struct GenerationRequest {
    pub model: String,
    pub prompt: String,
}

/// The text generator that the requests go to.
#[derive(Debug, Clone)]
pub struct Llm {
    pub host: String,
    pub port: u16,
}

impl Llm {
    /// The generator at a host and port.
    pub fn new(host: String, port: u16) -> (llm: Llm)
        ensures
            llm.host@ == host@,
            llm.port == port,
    {
        Llm { host, port }
    }

    /// The request to generate text from a prompt.
    pub fn generate(&self, model: &str, prompt: &str) -> (request: GenerationRequest)
        ensures
            request.model@ == model@,
            request.prompt@ == prompt@,
    {
        GenerationRequest { model: String::from_str(model), prompt: String::from_str(prompt) }
    }

    /// The request to summarise a text.
    pub fn summarize(&self, model: &str, text: &str) -> (request: GenerationRequest)
        ensures
            request.model@ == model@,
            request.prompt@ == summary_prompt_of(text@),
    {
        proof {
            reveal_strlit("{context}");
        }
        let prompt = replace_text(PROMPT_SUMMARY, "{context}", text);
        GenerationRequest { model: String::from_str(model), prompt }
    }
}

} // verus!
