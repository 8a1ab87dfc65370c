use rust_a_rag_us::data::{Collection, EmbeddedDocument, EmbeddedMetadata};
use rust_a_rag_us::error::AppError;
use rust_a_rag_us::qdrant::{
    add_documents, collection_name, contains_collection, contains_name, create_collections,
    drop_collections, find_missing, limit_for, search_documents, search_results, Distance,
};

fn metadata(id: &str, collection: Collection) -> EmbeddedMetadata {
    EmbeddedMetadata {
        id: id.to_string(),
        title: "t".to_string(),
        url: "u".to_string(),
        text: format!("text of {}", id),
        timestamp: "1970-01-01T00:00:00+00:00".to_string(),
        collection,
    }
}

fn embedded(id: &str, collection: Collection) -> EmbeddedDocument {
    EmbeddedDocument { text_embeddings: vec![1, 2, 3], metadata: metadata(id, collection) }
}

fn names(list: &[&str]) -> Vec<String> {
    list.iter().map(|name| name.to_string()).collect()
}

#[test]
fn stored_collection_is_named_after_base_and_tag() {
    assert_eq!(collection_name("rura_collection", Collection::Basic), "rura_collection_basic");
    assert_eq!(collection_name("docs", Collection::Summary), "docs_summary");
    assert_eq!(collection_name("", Collection::Basic), "_basic");
}

#[test]
fn membership_of_names_and_collections() {
    let existing = names(&["docs_basic", "other"]);
    assert!(contains_name(&existing, "docs_basic"));
    assert!(!contains_name(&existing, "docs_summary"));
    assert!(!contains_name(&Vec::new(), "docs_basic"));
    assert!(contains_collection(&vec![Collection::Summary], Collection::Summary));
    assert!(!contains_collection(&vec![Collection::Summary], Collection::Basic));
}

#[test]
fn first_missing_collection_is_found() {
    let filter = vec![Collection::Basic, Collection::Summary];
    assert_eq!(find_missing("docs", &filter, &names(&["docs_basic", "docs_summary"])), None);
    assert_eq!(
        find_missing("docs", &filter, &names(&["docs_basic"])),
        Some("docs_summary".to_string())
    );
    assert_eq!(find_missing("docs", &filter, &Vec::new()), Some("docs_basic".to_string()));
    assert_eq!(find_missing("docs", &Vec::new(), &Vec::new()), None);
}

#[test]
fn create_collections_skips_existing() {
    let requests = create_collections(
        "docs",
        vec![Collection::Basic, Collection::Summary],
        384,
        &names(&["docs_basic"]),
    );
    assert_eq!(requests.len(), 1);
    assert_eq!(requests[0].collection_name, "docs_summary");
    assert_eq!(requests[0].size, 384);
    assert_eq!(requests[0].distance, Distance::Cosine);
}

#[test]
fn create_collections_creates_each_once() {
    let requests = create_collections(
        "docs",
        vec![Collection::Summary, Collection::Basic, Collection::Summary],
        8,
        &Vec::new(),
    );
    assert_eq!(requests.len(), 2);
    assert_eq!(requests[0].collection_name, "docs_summary");
    assert_eq!(requests[1].collection_name, "docs_basic");
}

#[test]
fn create_collections_is_idempotent() {
    let all = vec![Collection::Basic, Collection::Summary];
    let first = create_collections("docs", all.clone(), 384, &Vec::new());
    let created: Vec<String> = first.iter().map(|r| r.collection_name.clone()).collect();
    let second = create_collections("docs", all, 384, &created);
    assert_eq!(second.len(), 0);
}

#[test]
fn drop_collections_passes_over_absent() {
    let dropped = drop_collections(
        "docs",
        vec![Collection::Basic, Collection::Summary],
        &names(&["docs_summary", "other_basic"]),
    );
    assert_eq!(dropped, names(&["docs_summary"]));
    let none = drop_collections("docs", vec![Collection::Basic], &Vec::new());
    assert_eq!(none.len(), 0);
}

#[test]
fn drop_collections_names_each_once() {
    let dropped = drop_collections(
        "docs",
        vec![Collection::Basic, Collection::Basic],
        &names(&["docs_basic"]),
    );
    assert_eq!(dropped, names(&["docs_basic"]));
}

#[test]
fn add_documents_fails_fast_on_missing_collection() {
    let result = add_documents(
        "docs",
        vec![Collection::Basic, Collection::Summary],
        vec![embedded("a", Collection::Basic)],
        &names(&["docs_basic"]),
    );
    match result {
        Err(AppError::MissingCollection { name }) => assert_eq!(name, "docs_summary"),
        _ => panic!("a missing collection must be reported"),
    }
}

#[test]
fn add_documents_stores_only_filtered_collections() {
    let documents = vec![
        embedded("a", Collection::Basic),
        embedded("b", Collection::Summary),
        embedded("c", Collection::Basic),
        embedded("d", Collection::Summary),
    ];
    let requests = add_documents(
        "docs",
        vec![Collection::Basic],
        documents,
        &names(&["docs_basic", "docs_summary"]),
    )
    .unwrap();
    assert_eq!(requests.len(), 1);
    assert_eq!(requests[0].collection_name, "docs_basic");
    let ids: Vec<&str> = requests[0].points.iter().map(|p| p.metadata.id.as_str()).collect();
    assert_eq!(ids, vec!["a", "c"]);
    assert_eq!(requests[0].points[0].text_embeddings, vec![1, 2, 3]);
}

#[test]
fn add_documents_partitions_by_collection() {
    let documents = vec![
        embedded("s1", Collection::Summary),
        embedded("b1", Collection::Basic),
        embedded("s2", Collection::Summary),
    ];
    let requests = add_documents(
        "docs",
        vec![Collection::Summary, Collection::Basic],
        documents,
        &names(&["docs_basic", "docs_summary"]),
    )
    .unwrap();
    assert_eq!(requests.len(), 2);
    assert_eq!(requests[0].collection_name, "docs_basic");
    assert_eq!(requests[0].points.len(), 1);
    assert_eq!(requests[0].points[0].metadata.id, "b1");
    assert_eq!(requests[1].collection_name, "docs_summary");
    let ids: Vec<&str> = requests[1].points.iter().map(|p| p.metadata.id.as_str()).collect();
    assert_eq!(ids, vec!["s1", "s2"]);
}

#[test]
fn add_documents_writes_nothing_for_empty_partitions() {
    let requests = add_documents(
        "docs",
        vec![Collection::Basic, Collection::Summary],
        vec![embedded("s1", Collection::Summary)],
        &names(&["docs_basic", "docs_summary"]),
    )
    .unwrap();
    assert_eq!(requests.len(), 1);
    assert_eq!(requests[0].collection_name, "docs_summary");
    let nothing = add_documents("docs", Vec::new(), vec![embedded("a", Collection::Basic)], &Vec::new());
    assert_eq!(nothing.unwrap().len(), 0);
}

#[test]
fn same_documents_give_the_same_points() {
    let existing = names(&["docs_basic"]);
    let first = add_documents(
        "docs",
        vec![Collection::Basic],
        vec![embedded("a", Collection::Basic), embedded("b", Collection::Basic)],
        &existing,
    )
    .unwrap();
    let second = add_documents(
        "docs",
        vec![Collection::Basic],
        vec![embedded("a", Collection::Basic), embedded("b", Collection::Basic)],
        &existing,
    )
    .unwrap();
    let first_ids: Vec<&str> = first[0].points.iter().map(|p| p.metadata.id.as_str()).collect();
    let second_ids: Vec<&str> = second[0].points.iter().map(|p| p.metadata.id.as_str()).collect();
    assert_eq!(first_ids, second_ids);
}

#[test]
fn weighted_limits_of_two_collections() {
    assert_eq!(limit_for(Collection::Basic, 10, 2), 8);
    assert_eq!(limit_for(Collection::Summary, 10, 2), 2);
    assert_eq!(limit_for(Collection::Basic, 7, 2), 5);
    assert_eq!(limit_for(Collection::Summary, 7, 2), 1);
}

#[test]
fn share_of_zero_is_raised_to_one() {
    assert_eq!(limit_for(Collection::Summary, 4, 2), 1);
    assert_eq!(limit_for(Collection::Summary, 1, 2), 1);
    assert_eq!(limit_for(Collection::Basic, 1, 2), 1);
    assert_eq!(limit_for(Collection::Basic, 0, 2), 1);
}

#[test]
fn single_collection_gets_the_whole_limit() {
    assert_eq!(limit_for(Collection::Basic, 10, 1), 10);
    assert_eq!(limit_for(Collection::Summary, 10, 1), 10);
    assert_eq!(limit_for(Collection::Summary, 0, 1), 0);
}

#[test]
fn limits_of_the_largest_budget() {
    assert_eq!(limit_for(Collection::Basic, u64::MAX, 2), 14757395258967641292);
    assert_eq!(limit_for(Collection::Summary, u64::MAX, 2), 3689348814741910323);
    assert_eq!(limit_for(Collection::Basic, u64::MAX, 1), u64::MAX);
}

#[test]
fn search_splits_the_limit_by_weight() {
    let requests = search_documents(
        "docs",
        vec![Collection::Basic, Collection::Summary],
        10,
        &names(&["docs_basic", "docs_summary"]),
    )
    .unwrap();
    assert_eq!(requests.len(), 2);
    assert_eq!(requests[0].collection_name, "docs_basic");
    assert_eq!(requests[0].limit, 8);
    assert_eq!(requests[1].collection_name, "docs_summary");
    assert_eq!(requests[1].limit, 2);
}

#[test]
fn search_keeps_the_order_of_the_filter() {
    let requests = search_documents(
        "docs",
        vec![Collection::Summary, Collection::Basic],
        3,
        &names(&["docs_basic", "docs_summary"]),
    )
    .unwrap();
    assert_eq!(requests[0].collection_name, "docs_summary");
    assert_eq!(requests[0].limit, 1);
    assert_eq!(requests[1].collection_name, "docs_basic");
    assert_eq!(requests[1].limit, 2);
}

#[test]
fn search_of_one_collection_asks_for_all() {
    let requests =
        search_documents("docs", vec![Collection::Summary], 7, &names(&["docs_summary"])).unwrap();
    assert_eq!(requests.len(), 1);
    assert_eq!(requests[0].limit, 7);
}

#[test]
fn search_fails_on_missing_collection() {
    let result = search_documents(
        "docs",
        vec![Collection::Basic, Collection::Summary],
        10,
        &names(&["docs_summary"]),
    );
    match result {
        Err(AppError::MissingCollection { name }) => assert_eq!(name, "docs_basic"),
        _ => panic!("a missing collection must be reported"),
    }
}

#[test]
fn search_results_follow_the_questions() {
    let found = vec![
        vec![metadata("b1", Collection::Basic), metadata("b2", Collection::Basic)],
        Vec::new(),
        vec![metadata("s1", Collection::Summary)],
    ];
    let documents = search_results(found);
    let ids: Vec<&str> = documents.iter().map(|d| d.metadata.id.as_str()).collect();
    assert_eq!(ids, vec!["b1", "b2", "s1"]);
    for document in &documents {
        assert!(document.text_embeddings.is_empty());
    }
    assert_eq!(documents[2].metadata.collection, Collection::Summary);
    assert_eq!(documents[0].metadata.text, "text of b1");
}
