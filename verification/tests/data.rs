use rust_a_rag_us::data::{
    instant_or_latest, Collection, Document, EmbeddedMetadata, Fragment, FRAGMENT_SIZE,
    MAX_TITLE_SIZE, MAX_URL_SIZE, META_FRAGMENT_SIZE, OVERLAP_SIZE,
};
use rust_a_rag_us::error::AppError;
use rust_a_rag_us::variants::TextVariants;

fn page(title: &str, url: &str, text: &str) -> Document {
    Document::with_timestamp(
        Collection::Basic,
        url.to_string(),
        title.to_string(),
        text.to_string(),
        0,
    )
}

fn words(count: usize) -> String {
    let mut text = String::new();
    for index in 0..count {
        if index > 0 {
            text.push(' ');
        }
        text.push_str(&format!("word{:04}", index));
    }
    text
}

fn shared_len(first: &str, second: &str) -> usize {
    let first: Vec<char> = first.chars().collect();
    let second: Vec<char> = second.chars().collect();
    let mut best = 0;
    for len in 1..=first.len().min(second.len()) {
        if first[first.len() - len..] == second[..len] {
            best = len;
        }
    }
    best
}

#[test]
fn sizes_are_the_documented_ones() {
    assert_eq!(FRAGMENT_SIZE, 1512);
    assert_eq!(OVERLAP_SIZE, 256);
    assert_eq!(MAX_TITLE_SIZE, 128);
    assert_eq!(MAX_URL_SIZE, 128);
    assert_eq!(META_FRAGMENT_SIZE, 384);
}

#[test]
fn all_collections_in_declaration_order() {
    assert_eq!(Collection::all(), vec![Collection::Basic, Collection::Summary]);
}

#[test]
fn weights_are_eighty_and_twenty_percent() {
    assert_eq!(Collection::Basic.limit_by_collection(), 80);
    assert_eq!(Collection::Summary.limit_by_collection(), 20);
}

#[test]
fn collection_tags() {
    assert_eq!(Collection::Basic.to_string(), "basic");
    assert_eq!(Collection::Summary.to_string(), "summary");
}

#[test]
fn collection_from_tag() {
    assert_eq!(Collection::from("basic"), Collection::Basic);
    assert_eq!(Collection::from("summary"), Collection::Summary);
}

#[test]
fn unknown_tag_names_basic() {
    assert_eq!(Collection::from("meta"), Collection::Basic);
    assert_eq!(Collection::from(""), Collection::Basic);
    assert_eq!(Collection::from("Summary"), Collection::Basic);
}

#[test]
fn text_variants_keep_first_given_order() {
    let mut variants = TextVariants::new();
    assert_eq!(variants.len(), 0);
    variants.insert(Collection::Summary, "s1".to_string());
    variants.insert(Collection::Basic, "b1".to_string());
    variants.insert(Collection::Summary, "s2".to_string());
    assert_eq!(variants.len(), 2);
    assert_eq!(variants.collection_at(0), Collection::Summary);
    assert_eq!(variants.text_at(0), "s2");
    assert_eq!(variants.collection_at(1), Collection::Basic);
    assert_eq!(variants.text_at(1), "b1");
    assert_eq!(variants.position(Collection::Basic), 1);
    assert_eq!(variants.get(Collection::Summary), Some(&"s2".to_string()));
}

#[test]
fn text_variants_clone_holds_the_same() {
    let mut variants = TextVariants::new();
    variants.insert(Collection::Basic, "b".to_string());
    let copy = variants.clone();
    variants.insert(Collection::Basic, "changed".to_string());
    assert_eq!(copy.len(), 1);
    assert_eq!(copy.get(Collection::Basic), Some(&"b".to_string()));
    assert_eq!(copy.get(Collection::Summary), None);
    assert_eq!(copy.position(Collection::Summary), 1);
}

#[test]
fn new_document_has_one_variant() {
    let document = Document::new(
        Collection::Basic,
        "https://example.com/a".to_string(),
        "A title".to_string(),
        "some text".to_string(),
    );
    assert_eq!(document.title, "A title");
    assert_eq!(document.url, "https://example.com/a");
    assert_eq!(document.text.len(), 1);
    assert_eq!(document.text.get(Collection::Basic), Some(&"some text".to_string()));
    assert_eq!(document.basic_text(), Some(&"some text".to_string()));
    assert!(document.timestamp > 1_600_000_000_000_000_000);
}

#[test]
fn update_text_leaves_other_variants() {
    let mut document = page("t", "u", "basic text");
    document.update_text(Collection::Summary, "summary".to_string());
    document.update_text(Collection::Summary, "better summary".to_string());
    assert_eq!(document.text.len(), 2);
    assert_eq!(document.text.get(Collection::Basic), Some(&"basic text".to_string()));
    assert_eq!(document.text.get(Collection::Summary), Some(&"better summary".to_string()));
    assert_eq!(document.title, "t");
    assert_eq!(document.timestamp, 0);
}

#[test]
fn add_summary_needs_basic_text() {
    let mut document = Document::with_timestamp(
        Collection::Summary,
        "u".to_string(),
        "t".to_string(),
        "old summary".to_string(),
        0,
    );
    assert_eq!(document.add_summary("new".to_string()), Err(AppError::MissingBasicText));
    assert_eq!(document.text.len(), 1);
    assert_eq!(document.text.get(Collection::Summary), Some(&"old summary".to_string()));
}

#[test]
fn add_summary_stores_summary_variant() {
    let mut document = page("t", "u", "basic text");
    assert_eq!(document.add_summary("short".to_string()), Ok(()));
    assert_eq!(document.text.get(Collection::Summary), Some(&"short".to_string()));
    assert_eq!(document.text.get(Collection::Basic), Some(&"basic text".to_string()));
}

#[test]
fn fragment_carries_title_and_url() {
    let fragment = Fragment::render(
        &Some("My title".to_string()),
        &Some("https://example.com".to_string()),
        "the chunk",
        Collection::Summary,
    );
    assert_eq!(fragment.text, "Title: My title URL: https://example.com Content: the chunk");
    assert_eq!(fragment.collection, Collection::Summary);
}

#[test]
fn fragment_without_title_is_bare() {
    let bare = Fragment::render(&None, &Some("u".to_string()), "the chunk", Collection::Basic);
    assert_eq!(bare.text, "the chunk");
    let also_bare = Fragment::render(&Some("t".to_string()), &None, "the chunk", Collection::Basic);
    assert_eq!(also_bare.text, "the chunk");
}

#[test]
fn short_document_is_one_fragment() {
    let document = page("A title", "https://example.com/a", "Just a few words.");
    let fragments = document.to_fragments().unwrap();
    assert_eq!(fragments.len(), 1);
    assert_eq!(
        fragments[0].text,
        "Title: A title URL: https://example.com/a Content: Just a few words."
    );
    assert_eq!(fragments[0].collection, Collection::Basic);
}

#[test]
fn chunks_are_trimmed() {
    let document = page(" A title \n", "https://example.com/a", "  padded text \n\n");
    let fragments = document.to_fragments().unwrap();
    assert_eq!(fragments.len(), 1);
    assert_eq!(
        fragments[0].text,
        "Title: A title URL: https://example.com/a Content: padded text"
    );
}

#[test]
fn empty_title_gives_bare_fragments() {
    let document = page("", "https://example.com/a", "Just a few words.");
    let fragments = document.to_fragments().unwrap();
    assert_eq!(fragments.len(), 1);
    assert_eq!(fragments[0].text, "Just a few words.");
}

#[test]
fn empty_url_gives_bare_fragments() {
    let document = page("A title", "   ", "Just a few words.");
    let fragments = document.to_fragments().unwrap();
    assert_eq!(fragments.len(), 1);
    assert_eq!(fragments[0].text, "Just a few words.");
}

#[test]
fn empty_text_gives_no_fragment() {
    let document = page("A title", "https://example.com/a", "");
    assert_eq!(document.to_fragments().unwrap().len(), 0);
}

#[test]
fn long_title_is_cut_to_its_first_chunk() {
    let title = words(40);
    let document = page(&title, "https://example.com/a", "body");
    let fragments = document.to_fragments().unwrap();
    assert_eq!(fragments.len(), 1);
    let text = &fragments[0].text;
    let start = "Title: ".len();
    let end = text.find(" URL: ").unwrap();
    let carried = &text[start..end];
    assert!(carried.chars().count() <= MAX_TITLE_SIZE);
    assert!(title.starts_with(carried));
    assert!(carried.chars().count() > MAX_TITLE_SIZE - 9);
    assert!(text.ends_with(" URL: https://example.com/a Content: body"));
}

#[test]
fn long_text_is_cut_into_overlapping_windows() {
    let text = words(1000);
    let length = text.chars().count();
    assert_eq!(length, 8999);
    let document = page("", "", &text);
    let fragments = document.to_fragments().unwrap();
    let stride = FRAGMENT_SIZE - OVERLAP_SIZE;
    let expected = (length + stride - 1) / stride;
    assert_eq!(expected, 8);
    assert!(fragments.len() >= expected - 1 && fragments.len() <= expected + 1);
    assert!(text.starts_with(&fragments[0].text));
    assert!(text.ends_with(&fragments[fragments.len() - 1].text));
    for fragment in &fragments {
        let size = fragment.text.chars().count();
        assert!(size <= FRAGMENT_SIZE);
        assert!(text.contains(&fragment.text));
    }
    for pair in fragments.windows(2) {
        let shared = shared_len(&pair[0].text, &pair[1].text);
        assert!(shared <= OVERLAP_SIZE);
        assert!(shared > OVERLAP_SIZE - 10);
    }
}

#[test]
fn fragments_stay_within_their_bound() {
    let document = page(&words(40), &format!("https://example.com/{}", words(40)), &words(700));
    let fragments = document.to_fragments().unwrap();
    assert!(fragments.len() > 1);
    for fragment in &fragments {
        assert!(fragment.text.starts_with("Title: word0000 "));
        assert!(fragment.text.chars().count() <= FRAGMENT_SIZE + MAX_TITLE_SIZE + MAX_URL_SIZE + 23);
    }
}

#[test]
fn fragments_follow_the_order_of_the_variants() {
    let mut document = Document::with_timestamp(
        Collection::Summary,
        "u".to_string(),
        "t".to_string(),
        "the summary".to_string(),
        0,
    );
    document.update_text(Collection::Basic, "the body".to_string());
    let fragments = document.to_fragments().unwrap();
    assert_eq!(fragments.len(), 2);
    assert_eq!(fragments[0].collection, Collection::Summary);
    assert_eq!(fragments[0].text, "Title: t URL: u Content: the summary");
    assert_eq!(fragments[1].collection, Collection::Basic);
    assert_eq!(fragments[1].text, "Title: t URL: u Content: the body");
}

#[test]
fn metadata_id_is_the_uuid_of_the_digest() {
    let document = page("A title", "https://example.com/a", "ignored");
    let metadata =
        EmbeddedMetadata::from_document(&document, "hello world".to_string(), Collection::Basic)
            .unwrap();
    assert_eq!(metadata.id, "1a376b8e-9f0c-5228-9fed-98ccb6229e6f");
    assert_eq!(metadata.title, "A title");
    assert_eq!(metadata.url, "https://example.com/a");
    assert_eq!(metadata.text, "hello world");
    assert_eq!(metadata.timestamp, "1970-01-01T00:00:00+00:00");
    assert_eq!(metadata.collection, Collection::Basic);
}

#[test]
fn metadata_id_changes_with_the_text() {
    let document = page("A title", "https://example.com/a", "ignored");
    let metadata =
        EmbeddedMetadata::from_document(&document, "hello world!".to_string(), Collection::Basic)
            .unwrap();
    assert_eq!(metadata.id, "3e025266-7829-5a9f-9d01-a2f23d7d4770");
}

#[test]
fn metadata_id_of_text_beyond_ascii() {
    let document = page("t", "https://example.com/é", "ignored");
    let metadata =
        EmbeddedMetadata::from_document(&document, "naïve text".to_string(), Collection::Summary)
            .unwrap();
    assert_eq!(metadata.id, "1246a209-e24c-5edf-b068-6d79658304ed");
    assert_eq!(metadata.collection, Collection::Summary);
}

#[test]
fn same_page_and_text_give_the_same_id() {
    let first = Document::new(
        Collection::Basic,
        "https://example.com/a".to_string(),
        "First title".to_string(),
        "x".to_string(),
    );
    let second = page("Second title", "https://example.com/a", "y");
    let one = EmbeddedMetadata::from_document(&first, "same".to_string(), Collection::Basic);
    let two = EmbeddedMetadata::from_document(&second, "same".to_string(), Collection::Summary);
    assert_eq!(one.unwrap().id, two.unwrap().id);
}

#[test]
fn metadata_timestamp_is_rfc3339() {
    let document = Document::with_timestamp(
        Collection::Basic,
        "u".to_string(),
        "t".to_string(),
        "x".to_string(),
        1_700_000_000_123_456_789,
    );
    let metadata =
        EmbeddedMetadata::from_document(&document, "x".to_string(), Collection::Basic).unwrap();
    assert_eq!(metadata.timestamp, "2023-11-14T22:13:20.123456789+00:00");
}

#[test]
fn clock_reading_beyond_the_count_is_the_latest_instant() {
    assert_eq!(instant_or_latest(Some(1_700_000_000_123_456_789)), 1_700_000_000_123_456_789);
    assert_eq!(instant_or_latest(Some(-5)), -5);
    assert_eq!(instant_or_latest(None), i64::MAX);
}

#[test]
fn content_slices_stay_within_the_window() {
    let document = page(&words(40), &format!("https://example.com/{}", words(40)), &words(900));
    let fragments = document.to_fragments().unwrap();
    assert!(fragments.len() > 1);
    for fragment in &fragments {
        let text = &fragment.text;
        let title_end = text.find(" URL: ").unwrap();
        let url_end = text.find(" Content: ").unwrap();
        let title = &text["Title: ".len()..title_end];
        let url = &text[title_end + " URL: ".len()..url_end];
        let slice = &text[url_end + " Content: ".len()..];
        assert!(title.chars().count() <= MAX_TITLE_SIZE);
        assert!(url.chars().count() <= MAX_URL_SIZE);
        assert!(slice.chars().count() <= FRAGMENT_SIZE);
        assert!(slice.chars().count() > 0);
    }
}
