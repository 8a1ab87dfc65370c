use rust_a_rag_us::error::{AppError, ErrorKind};
use rust_a_rag_us::text::{ends_with, squeeze, squeeze_onto};

#[test]
fn errors_fall_into_their_classes() {
    assert_eq!(AppError::EmptyUrl.kind(), ErrorKind::Validation);
    assert_eq!(AppError::MissingBasicText.kind(), ErrorKind::Validation);
    assert_eq!(AppError::SitemapFetch { reason: "r".to_string() }.kind(), ErrorKind::Fetch);
    assert_eq!(AppError::SitemapParse.kind(), ErrorKind::Fetch);
    assert_eq!(AppError::ContentParse.kind(), ErrorKind::Fetch);
    assert_eq!(AppError::NoPageFetched.kind(), ErrorKind::Fetch);
    assert_eq!(AppError::EmptyPage.kind(), ErrorKind::Fetch);
    assert_eq!(AppError::Embedding { fragment: 2 }.kind(), ErrorKind::Encode);
    assert_eq!(AppError::MissingCollection { name: "c".to_string() }.kind(), ErrorKind::Store);
    assert_eq!(AppError::MissingProgress { job: 1 }.kind(), ErrorKind::State);
}

#[test]
fn only_fetch_and_encode_failures_are_recoverable() {
    assert!(AppError::Embedding { fragment: 0 }.is_recoverable());
    assert!(AppError::SitemapFetch { reason: String::new() }.is_recoverable());
    assert!(!AppError::EmptyUrl.is_recoverable());
    assert!(!AppError::MissingCollection { name: "c".to_string() }.is_recoverable());
    assert!(!AppError::MissingProgress { job: 1 }.is_recoverable());
}

#[test]
fn error_messages() {
    assert_eq!(AppError::EmptyUrl.message(), "mandatory URL is empty");
    assert_eq!(
        AppError::MissingBasicText.message(),
        "Error adding summary, basic text not found"
    );
    assert_eq!(
        AppError::SitemapFetch { reason: "timed out".to_string() }.message(),
        "Failed to fetch sitemap: timed out"
    );
    assert_eq!(AppError::SitemapParse.message(), "Failed to parse loc selector");
    assert_eq!(AppError::ContentParse.message(), "Failed to parse content selector");
    assert_eq!(AppError::NoPageFetched.message(), "Failed to fetch any page of the sitemap");
    assert_eq!(
        AppError::EmptyPage.message(),
        "Failed to parse content, expected 1 document, got: 0"
    );
    assert_eq!(AppError::Embedding { fragment: 3 }.message(), "Could not embed fragment");
    assert_eq!(
        AppError::MissingCollection { name: "docs_basic".to_string() }.message(),
        "Collection: docs_basic does not exist"
    );
    assert_eq!(AppError::MissingProgress { job: 1 }.message(), "Failed to get state");
}

#[test]
fn ends_with_compares_the_tail() {
    assert!(ends_with("sitemap.xml", "sitemap.xml"));
    assert!(ends_with("a/sitemap.xml", "sitemap.xml"));
    assert!(ends_with("anything", ""));
    assert!(ends_with("", ""));
    assert!(!ends_with("xml", "sitemap.xml"));
    assert!(!ends_with("sitemap.xml ", "sitemap.xml"));
    assert!(ends_with("héllo wörld", "wörld"));
    assert!(!ends_with("héllo world", "wörld"));
}

#[test]
fn squeeze_puts_each_word_behind_one_space() {
    assert_eq!(squeeze("a\nb"), " a b");
    assert_eq!(squeeze("  two   words  "), " two words");
    assert_eq!(squeeze("word"), " word");
    assert_eq!(squeeze(" \t\r\n "), "");
    assert_eq!(squeeze(""), "");
    let mut line = "kept  as is".to_string();
    squeeze_onto(&mut line, "\nnext\u{3000}one ");
    assert_eq!(line, "kept  as is next one");
}
