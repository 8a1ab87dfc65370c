//! The adapter to the vector store: which stored collections an operation
//! touches, and what it asks of each.
//!
//! Every logical collection has a stored collection of its own, named after
//! the base name and the collection's tag. The functions here decide what is
//! created, written, searched and deleted; the caller carries the requests
//! to the store and hands its answers back.

use crate::data::{
    embedded_view, strings_view, Collection, EmbeddedDocument, EmbeddedDocumentView,
    EmbeddedMetadata, EmbeddedMetadataView,
};
use crate::error::AppError;
use vstd::prelude::*;

verus! {

/// The name of the stored collection of a logical collection.
pub open spec fn physical_name(base: Seq<char>, collection: Collection) -> Seq<char> {
    base + "_"@ + collection.tag()
}

/// The name of the stored collection of a logical collection:
/// `{base}_{tag}`.
pub fn collection_name(base: &str, collection: Collection) -> (name: String)
    ensures
        name@ == physical_name(base@, collection),
{
    let mut name = String::from_str(base);
    name.append("_");
    name.append(collection.to_string().as_str());
    name
}

/// Whether a name is among some names.
pub fn contains_name(names: &Vec<String>, name: &str) -> (found: bool)
    ensures
        found == strings_view(names@).contains(name@),
{
    let wanted = String::from_str(name);
    let mut index: usize = 0;
    while index < names.len()
        invariant
            index <= names@.len(),
            wanted@ == name@,
            forall|k: int| 0 <= k < index ==> strings_view(names@)[k] != name@,
        decreases names@.len() - index,
    {
        if names[index] == wanted {
            assert(strings_view(names@)[index as int] == name@);
            return true;
        }
        index += 1;
    }
    false
}

/// Whether a collection is among some collections.
pub fn contains_collection(collections: &Vec<Collection>, collection: Collection) -> (found: bool)
    ensures
        found == collections@.contains(collection),
{
    let mut index: usize = 0;
    while index < collections.len()
        invariant
            index <= collections@.len(),
            forall|k: int| 0 <= k < index ==> collections@[k] != collection,
        decreases collections@.len() - index,
    {
        if collections[index] == collection {
            return true;
        }
        index += 1;
    }
    false
}

/// The name of the first of these collections that is not stored, if there
/// is one.
pub open spec fn first_missing(
    base: Seq<char>,
    collections: Seq<Collection>,
    existing: Seq<Seq<char>>,
) -> Option<Seq<char>>
    decreases collections.len(),
{
    if collections.len() == 0 {
        None
    } else if !existing.contains(physical_name(base, collections[0])) {
        Some(physical_name(base, collections[0]))
    } else {
        first_missing(base, collections.drop_first(), existing)
    }
}

/// The name of the first of these collections that is not stored.
pub fn find_missing(base: &str, collections: &Vec<Collection>, existing: &Vec<String>) -> (missing:
    Option<String>)
    ensures
        missing is Some <==> first_missing(base@, collections@, strings_view(existing@)) is Some,
        missing is Some ==> missing->Some_0@ == first_missing(
            base@,
            collections@,
            strings_view(existing@),
        )->Some_0,
{
    let mut index: usize = 0;
    assert(collections@.skip(0) =~= collections@);
    while index < collections.len()
        invariant
            index <= collections@.len(),
            first_missing(base@, collections@, strings_view(existing@)) == first_missing(
                base@,
                collections@.skip(index as int),
                strings_view(existing@),
            ),
        decreases collections@.len() - index,
    {
        let name = collection_name(base, collections[index]);
        assert(collections@.skip(index as int).drop_first() =~= collections@.skip(index + 1));
        if !contains_name(existing, name.as_str()) {
            return Some(name);
        }
        index += 1;
    }
    None
}

/// How the vectors of a stored collection are compared.
#[derive(Debug, Clone, Copy, PartialEq, Eq, Structural)]
pub enum Distance {
    /// By the cosine of the angle between them.
    Cosine,
}

/// The order to create one stored collection for vectors of a given size,
/// compared by cosine similarity.
#[derive(Debug, Clone)]
pub struct CreateRequest {
    pub collection_name: String,
    pub size: u64,
    pub distance: Distance,
}

/// What an order to create a collection holds.
pub struct CreateRequestView {
    pub collection_name: Seq<char>,
    pub size: u64,
    pub distance: Distance,
}

impl View for CreateRequest {
    type V = CreateRequestView;

    open spec fn view(&self) -> CreateRequestView {
        CreateRequestView {
            collection_name: self.collection_name@,
            size: self.size,
            distance: self.distance,
        }
    }
}

/// What a list of such orders holds.
pub open spec fn create_view(requests: Seq<CreateRequest>) -> Seq<CreateRequestView> {
    Seq::new(requests.len(), |i: int| requests[i]@)
}

/// The names that a list of orders holds.
pub open spec fn created_names(requests: Seq<CreateRequestView>) -> Seq<Seq<char>> {
    Seq::new(requests.len(), |i: int| requests[i].collection_name)
}

/// The stored collections that are still to be created for these logical
/// collections: each one that is neither stored nor listed already, in the
/// order of the collections.
pub open spec fn collections_to_create(
    base: Seq<char>,
    collections: Seq<Collection>,
    size: u64,
    existing: Seq<Seq<char>>,
) -> Seq<CreateRequestView>
    decreases collections.len(),
{
    if collections.len() == 0 {
        Seq::empty()
    } else {
        let before = collections_to_create(base, collections.drop_last(), size, existing);
        let name = physical_name(base, collections.last());
        if existing.contains(name) || created_names(before).contains(name) {
            before
        } else {
            before.push(
                CreateRequestView { collection_name: name, size, distance: Distance::Cosine },
            )
        }
    }
}

/// Decides which stored collections to create so that each of these logical
/// collections has one. A collection that is stored already is left as it
/// is, and none is created twice.
pub fn create_collections(
    base: &str,
    collections: Vec<Collection>,
    size: u64,
    existing: &Vec<String>,
) -> (requests: Vec<CreateRequest>)
    ensures
        create_view(requests@) == collections_to_create(
            base@,
            collections@,
            size,
            strings_view(existing@),
        ),
{
    let mut requests: Vec<CreateRequest> = Vec::new();
    let mut names: Vec<String> = Vec::new();
    let mut index: usize = 0;
    while index < collections.len()
        invariant
            index <= collections@.len(),
            create_view(requests@) == collections_to_create(
                base@,
                collections@.take(index as int),
                size,
                strings_view(existing@),
            ),
            strings_view(names@) == created_names(create_view(requests@)),
        decreases collections@.len() - index,
    {
        let name = collection_name(base, collections[index]);
        proof {
            let upto = collections@.take(index + 1);
            assert(upto.drop_last() =~= collections@.take(index as int));
        }
        if !contains_name(existing, name.as_str()) && !contains_name(&names, name.as_str()) {
            let ghost held = requests@;
            let ghost held_names = names@;
            names.push(name.clone());
            requests.push(
                CreateRequest { collection_name: name, size, distance: Distance::Cosine },
            );
            assert(create_view(requests@) =~= create_view(held).push(
                CreateRequestView { collection_name: name@, size, distance: Distance::Cosine },
            ));
            assert(strings_view(names@) =~= strings_view(held_names).push(name@));
        }
        index += 1;
    }
    assert(collections@.take(index as int) =~= collections@);
    requests
}

/// The stored collections to delete for these logical collections: each one
/// that is stored and not listed already, in the order of the collections.
pub open spec fn collections_to_drop(
    base: Seq<char>,
    collections: Seq<Collection>,
    existing: Seq<Seq<char>>,
) -> Seq<Seq<char>>
    decreases collections.len(),
{
    if collections.len() == 0 {
        Seq::empty()
    } else {
        let before = collections_to_drop(base, collections.drop_last(), existing);
        let name = physical_name(base, collections.last());
        if existing.contains(name) && !before.contains(name) {
            before.push(name)
        } else {
            before
        }
    }
}

/// Decides which stored collections to delete so that none of these logical
/// collections has one. A collection that is not stored is passed over.
pub fn drop_collections(base: &str, collections: Vec<Collection>, existing: &Vec<String>) -> (names:
    Vec<String>)
    ensures
        strings_view(names@) == collections_to_drop(
            base@,
            collections@,
            strings_view(existing@),
        ),
{
    let mut names: Vec<String> = Vec::new();
    let mut index: usize = 0;
    while index < collections.len()
        invariant
            index <= collections@.len(),
            strings_view(names@) == collections_to_drop(
                base@,
                collections@.take(index as int),
                strings_view(existing@),
            ),
        decreases collections@.len() - index,
    {
        let name = collection_name(base, collections[index]);
        proof {
            let upto = collections@.take(index + 1);
            assert(upto.drop_last() =~= collections@.take(index as int));
        }
        if contains_name(existing, name.as_str()) && !contains_name(&names, name.as_str()) {
            names.push(name);
        }
        index += 1;
    }
    assert(collections@.take(index as int) =~= collections@);
    names
}

/// The points to write into one stored collection.
#[derive(Debug, Clone)]
pub struct UpsertRequest {
    pub collection_name: String,
    pub points: Vec<EmbeddedDocument>,
}

/// What an order to write points holds.
pub struct UpsertRequestView {
    pub collection_name: Seq<char>,
    pub points: Seq<EmbeddedDocumentView>,
}

impl View for UpsertRequest {
    type V = UpsertRequestView;

    open spec fn view(&self) -> UpsertRequestView {
        UpsertRequestView {
            collection_name: self.collection_name@,
            points: embedded_view(self.points@),
        }
    }
}

/// What a list of such orders holds.
pub open spec fn upsert_view(requests: Seq<UpsertRequest>) -> Seq<UpsertRequestView> {
    Seq::new(requests.len(), |i: int| requests[i]@)
}

/// The documents of a collection among some documents, in their order.
pub open spec fn tagged(documents: Seq<EmbeddedDocumentView>, collection: Collection) -> Seq<
    EmbeddedDocumentView,
>
    decreases documents.len(),
{
    if documents.len() == 0 {
        Seq::empty()
    } else if documents.last().metadata.collection == collection {
        tagged(documents.drop_last(), collection).push(documents.last())
    } else {
        tagged(documents.drop_last(), collection)
    }
}

/// What is written for one collection: its documents, where it is among the
/// collections to write to and has any; else nothing.
pub open spec fn batch_for(
    base: Seq<char>,
    filter: Seq<Collection>,
    documents: Seq<EmbeddedDocumentView>,
    collection: Collection,
) -> Seq<UpsertRequestView> {
    if filter.contains(collection) && tagged(documents, collection).len() > 0 {
        seq![
            UpsertRequestView {
                collection_name: physical_name(base, collection),
                points: tagged(documents, collection),
            },
        ]
    } else {
        Seq::empty()
    }
}

/// What is written for some documents: the batch of each collection, in the
/// order in which the collections are declared.
pub open spec fn upsert_batches(
    base: Seq<char>,
    filter: Seq<Collection>,
    documents: Seq<EmbeddedDocumentView>,
) -> Seq<UpsertRequestView> {
    batch_for(base, filter, documents, Collection::Basic) + batch_for(
        base,
        filter,
        documents,
        Collection::Summary,
    )
}

/// Decides what to write for some embedded documents. Where one of the
/// collections to write to is not stored, nothing is written and the first
/// such collection is reported. Else the documents are sorted by their
/// collection, and those of a collection that is not written to are left
/// out without a word.
pub fn add_documents(
    base: &str,
    filter: Vec<Collection>,
    documents: Vec<EmbeddedDocument>,
    existing: &Vec<String>,
) -> (result: Result<Vec<UpsertRequest>, AppError>)
    ensures
        match first_missing(base@, filter@, strings_view(existing@)) {
            Some(missing) => result matches Err(AppError::MissingCollection { name }) && name@
                == missing,
            None => result matches Ok(requests) && upsert_view(requests@) == upsert_batches(
                base@,
                filter@,
                embedded_view(documents@),
            ),
        },
{
    match find_missing(base, &filter, existing) {
        Some(name) => {
            return Err(AppError::MissingCollection { name });
        },
        None => {},
    }
    let mut basic: Vec<EmbeddedDocument> = Vec::new();
    let mut summary: Vec<EmbeddedDocument> = Vec::new();
    let ghost all = embedded_view(documents@);
    for document in it: documents
        invariant
            it.seq() == documents@,
            all == embedded_view(documents@),
            embedded_view(basic@) == tagged(all.take(it.index() as int), Collection::Basic),
            embedded_view(summary@) == tagged(all.take(it.index() as int), Collection::Summary),
    {
        proof {
            let upto = all.take(it.index() + 1);
            assert(upto.drop_last() =~= all.take(it.index() as int));
        }
        match document.metadata.collection {
            Collection::Basic => {
                basic.push(document);
            },
            Collection::Summary => {
                summary.push(document);
            },
        }
    }
    assert(all.take(documents@.len() as int) =~= all);
    let mut requests: Vec<UpsertRequest> = Vec::new();
    if contains_collection(&filter, Collection::Basic) && basic.len() > 0 {
        requests.push(
            UpsertRequest {
                collection_name: collection_name(base, Collection::Basic),
                points: basic,
            },
        );
    }
    if contains_collection(&filter, Collection::Summary) && summary.len() > 0 {
        requests.push(
            UpsertRequest {
                collection_name: collection_name(base, Collection::Summary),
                points: summary,
            },
        );
    }
    Ok(requests)
}

/// The question to one stored collection: its nearest points to the query
/// vector by cosine similarity, at most `limit` of them, with their payload.
#[derive(Debug, Clone)]
pub struct SearchRequest {
    pub collection_name: String,
    pub limit: u64,
}

/// What a question to a stored collection holds.
pub struct SearchRequestView {
    pub collection_name: Seq<char>,
    pub limit: u64,
}

impl View for SearchRequest {
    type V = SearchRequestView;

    open spec fn view(&self) -> SearchRequestView {
        SearchRequestView { collection_name: self.collection_name@, limit: self.limit }
    }
}

/// What a list of such questions holds.
pub open spec fn search_view(requests: Seq<SearchRequest>) -> Seq<SearchRequestView> {
    Seq::new(requests.len(), |i: int| requests[i]@)
}

/// The number of results to ask of a collection. A single active collection
/// gets the whole budget. Of several, each gets its weight's share of the
/// budget, rounded down, and at least one result.
pub open spec fn collection_limit(collection: Collection, limit: nat, active: nat) -> nat {
    if active > 1 {
        let share = limit * collection.weight_percent() / 100;
        if share == 0 {
            1
        } else {
            share
        }
    } else {
        limit
    }
}

/// The number of results to ask of a collection, of a budget of `limit`
/// results that `active` collections share.
pub fn limit_for(collection: Collection, limit: u64, active: usize) -> (share: u64)
    ensures
        share == collection_limit(collection, limit as nat, active as nat),
        active > 1 ==> 1 <= share,
        share <= limit || share == 1,
{
    if active > 1 {
        let weight = collection.limit_by_collection();
        let hundreds = limit / 100;
        let rest = limit % 100;
        assert(hundreds * weight + rest * weight / 100 == limit * weight / 100 && hundreds
            * weight + rest * weight / 100 <= limit) by (nonlinear_arith)
            requires
                hundreds == limit / 100,
                rest == limit % 100,
                0 <= weight <= 100,
                0 <= limit,
        ;
        let share = hundreds * weight + rest * weight / 100;
        if share == 0 {
            1
        } else {
            share
        }
    } else {
        limit
    }
}

/// Of a budget that two collections share, `Basic` and `Summary` together
/// get no more than the budget once it is five or more, and then at most one
/// result of it is left over. Below five, `Summary` is raised to one result.
pub proof fn lemma_shares_fill_the_budget(limit: nat)
    ensures
        1 <= collection_limit(Collection::Basic, limit, 2),
        1 <= collection_limit(Collection::Summary, limit, 2),
        limit >= 5 ==> limit - 1 <= collection_limit(Collection::Basic, limit, 2)
            + collection_limit(Collection::Summary, limit, 2) <= limit,
        limit < 5 ==> collection_limit(Collection::Summary, limit, 2) == 1,
{
}

/// The questions of a search over some collections: one to each, in their
/// order, with its share of the budget.
pub open spec fn search_requests(base: Seq<char>, filter: Seq<Collection>, limit: u64) -> Seq<
    SearchRequestView,
> {
    Seq::new(
        filter.len(),
        |i: int|
            SearchRequestView {
                collection_name: physical_name(base, filter[i]),
                limit: collection_limit(filter[i], limit as nat, filter.len()) as u64,
            },
    )
}

/// Decides what to ask of the store in a search over some collections.
/// Where one of them is not stored, nothing is asked and the first such
/// collection is reported. Else each collection is asked for its share of
/// the budget; the shares are the ranking across collections.
pub fn search_documents(
    base: &str,
    filter: Vec<Collection>,
    limit: u64,
    existing: &Vec<String>,
) -> (result: Result<Vec<SearchRequest>, AppError>)
    ensures
        match first_missing(base@, filter@, strings_view(existing@)) {
            Some(missing) => result matches Err(AppError::MissingCollection { name }) && name@
                == missing,
            None => result matches Ok(requests) && search_view(requests@) == search_requests(
                base@,
                filter@,
                limit,
            ),
        },
{
    match find_missing(base, &filter, existing) {
        Some(name) => {
            return Err(AppError::MissingCollection { name });
        },
        None => {},
    }
    let active = filter.len();
    let mut requests: Vec<SearchRequest> = Vec::new();
    let mut index: usize = 0;
    while index < active
        invariant
            index <= active,
            active == filter@.len(),
            requests@.len() == index,
            forall|k: int|
                0 <= k < index ==> (#[trigger] requests@[k])@ == search_requests(
                    base@,
                    filter@,
                    limit,
                )[k],
        decreases active - index,
    {
        let collection = filter[index];
        requests.push(
            SearchRequest {
                collection_name: collection_name(base, collection),
                limit: limit_for(collection, limit, active),
            },
        );
        index += 1;
    }
    Ok(requests)
}

/// What some lists of metadata hold.
pub open spec fn metadata_view(found: Seq<EmbeddedMetadata>) -> Seq<EmbeddedMetadataView> {
    Seq::new(found.len(), |i: int| found[i]@)
}

/// What the answers to some questions hold.
pub open spec fn answers_view(found: Seq<Vec<EmbeddedMetadata>>) -> Seq<
    Seq<EmbeddedMetadataView>,
> {
    Seq::new(found.len(), |i: int| metadata_view(found[i]@))
}

/// The documents of one answer: its metadata, without vectors.
pub open spec fn answer_documents(found: Seq<EmbeddedMetadataView>) -> Seq<
    EmbeddedDocumentView,
> {
    Seq::new(
        found.len(),
        |i: int| EmbeddedDocumentView { text_embeddings: Seq::empty(), metadata: found[i] },
    )
}

/// The documents of some answers: those of the first answer, then those of
/// the second, and so on.
pub open spec fn found_documents(found: Seq<Seq<EmbeddedMetadataView>>) -> Seq<
    EmbeddedDocumentView,
>
    decreases found.len(),
{
    if found.len() == 0 {
        Seq::empty()
    } else {
        found_documents(found.drop_last()) + answer_documents(found.last())
    }
}

/// Joins the answers of the stored collections into the result of a search:
/// the answers follow each other in the order of the questions, each in the
/// order the store gave it, and no document carries a vector.
pub fn search_results(found: Vec<Vec<EmbeddedMetadata>>) -> (documents: Vec<EmbeddedDocument>)
    ensures
        embedded_view(documents@) == found_documents(answers_view(found@)),
{
    let mut documents: Vec<EmbeddedDocument> = Vec::new();
    let ghost all = answers_view(found@);
    for answer in it: found
        invariant
            it.seq() == found@,
            all == answers_view(found@),
            embedded_view(documents@) == found_documents(all.take(it.index() as int)),
    {
        let ghost before = embedded_view(documents@);
        let ghost added = answer_documents(metadata_view(answer@));
        proof {
            let upto = all.take(it.index() + 1);
            assert(upto.drop_last() =~= all.take(it.index() as int));
        }
        for metadata in jt: answer
            invariant
                jt.seq() == answer@,
                added == answer_documents(metadata_view(answer@)),
                embedded_view(documents@) == before + added.take(jt.index() as int),
        {
            let ghost held = documents@;
            let document = EmbeddedDocument { text_embeddings: Vec::new(), metadata };
            documents.push(document);
            assert(embedded_view(documents@) =~= embedded_view(held).push(document@));
            assert(added.take(jt.index() + 1) =~= added.take(jt.index() as int).push(
                added[jt.index() as int],
            ));
        }
    }
    assert(all.take(found@.len() as int) =~= all);
    documents
}

/// The documents of a collection among some documents are those that carry
/// its tag, all of them and no others.
pub proof fn lemma_tagged(documents: Seq<EmbeddedDocumentView>, collection: Collection)
    ensures
        tagged(documents, collection).len() <= documents.len(),
        forall|i: int|
            0 <= i < tagged(documents, collection).len() ==> (#[trigger] tagged(
                documents,
                collection,
            )[i]).metadata.collection == collection && documents.contains(
                tagged(documents, collection)[i],
            ),
        forall|j: int|
            0 <= j < documents.len() && (#[trigger] documents[j]).metadata.collection
                == collection ==> tagged(documents, collection).contains(documents[j]),
    decreases documents.len(),
{
    if documents.len() > 0 {
        let rest = documents.drop_last();
        lemma_tagged(rest, collection);
        let here = tagged(documents, collection);
        let before = tagged(rest, collection);
        assert forall|i: int| 0 <= i < here.len() implies (#[trigger] here[i]).metadata.collection
            == collection && documents.contains(here[i]) by {
            if i < before.len() {
                let j = choose|j: int| 0 <= j < rest.len() && rest[j] == before[i];
                assert(documents[j] == here[i]);
            }
        }
        assert forall|j: int|
            0 <= j < documents.len() && (#[trigger] documents[j]).metadata.collection
                == collection implies here.contains(documents[j]) by {
            if j < rest.len() {
                let i = choose|i: int| 0 <= i < before.len() && before[i] == rest[j];
                assert(here[i] == documents[j]);
            } else {
                assert(here[here.len() - 1] == documents[j]);
            }
        }
    }
}

/// Whether a point is written where it belongs: it is one of the documents,
/// its collection is written to, and it goes into that collection's stored
/// collection.
pub open spec fn is_placed(
    base: Seq<char>,
    filter: Seq<Collection>,
    documents: Seq<EmbeddedDocumentView>,
    collection_name: Seq<char>,
    point: EmbeddedDocumentView,
) -> bool {
    &&& filter.contains(point.metadata.collection)
    &&& documents.contains(point)
    &&& collection_name == physical_name(base, point.metadata.collection)
}

/// Whether a document is among the points of one of the batches.
pub open spec fn is_written(
    batches: Seq<UpsertRequestView>,
    document: EmbeddedDocumentView,
) -> bool {
    exists|b: int| 0 <= b < batches.len() && (#[trigger] batches[b]).points.contains(document)
}

/// Only documents of the collections to write to are written, each into the
/// stored collection of its own collection, and each such document is
/// written; the others are dropped.
pub proof fn lemma_only_filtered_documents_are_written(
    base: Seq<char>,
    filter: Seq<Collection>,
    documents: Seq<EmbeddedDocumentView>,
)
    ensures
        forall|b: int, p: int|
            #![trigger upsert_batches(base, filter, documents)[b].points[p]]
            0 <= b < upsert_batches(base, filter, documents).len() && 0 <= p < upsert_batches(
                base,
                filter,
                documents,
            )[b].points.len() ==> is_placed(
                base,
                filter,
                documents,
                upsert_batches(base, filter, documents)[b].collection_name,
                upsert_batches(base, filter, documents)[b].points[p],
            ),
        forall|d: int|
            0 <= d < documents.len() ==> (is_written(
                upsert_batches(base, filter, documents),
                #[trigger] documents[d],
            ) <==> filter.contains(documents[d].metadata.collection)),
{
    let batches = upsert_batches(base, filter, documents);
    let basic = batch_for(base, filter, documents, Collection::Basic);
    let summary = batch_for(base, filter, documents, Collection::Summary);
    lemma_tagged(documents, Collection::Basic);
    lemma_tagged(documents, Collection::Summary);
    assert forall|b: int, p: int|
        #![trigger batches[b].points[p]]
        0 <= b < batches.len() && 0 <= p < batches[b].points.len() implies is_placed(
        base,
        filter,
        documents,
        batches[b].collection_name,
        batches[b].points[p],
    ) by {
        assert(b < basic.len() || batches[b] == summary[b - basic.len()]);
    }
    assert forall|d: int| 0 <= d < documents.len() implies (is_written(
        batches,
        #[trigger] documents[d],
    ) <==> filter.contains(documents[d].metadata.collection)) by {
        let document = documents[d];
        if filter.contains(document.metadata.collection) {
            match document.metadata.collection {
                Collection::Basic => {
                    assert(batches[0] == basic[0]);
                },
                Collection::Summary => {
                    assert(batches[basic.len() as int] == summary[0]);
                },
            }
        }
        if is_written(batches, document) {
            let b = choose|b: int|
                0 <= b < batches.len() && (#[trigger] batches[b]).points.contains(document);
            let p = choose|p: int|
                0 <= p < batches[b].points.len() && batches[b].points[p] == document;
            assert(is_placed(
                base,
                filter,
                documents,
                batches[b].collection_name,
                batches[b].points[p],
            ));
        }
    }
}

/// The points of a stored collection, each under its identifier.
pub type StoredPoints = Map<Seq<char>, EmbeddedDocumentView>;

/// A stored collection after some points were written to it, one after the
/// other: a point takes the place of the point that was stored under its
/// identifier.
pub open spec fn stored_after(
    stored: StoredPoints,
    points: Seq<EmbeddedDocumentView>,
) -> StoredPoints
    decreases points.len(),
{
    if points.len() == 0 {
        stored
    } else {
        stored_after(stored, points.drop_last()).insert(points.last().metadata.id, points.last())
    }
}

/// Whether one of the points has this identifier.
pub open spec fn has_id(points: Seq<EmbeddedDocumentView>, id: Seq<char>) -> bool {
    exists|i: int| 0 <= i < points.len() && (#[trigger] points[i]).metadata.id == id
}

/// The last of the points that have this identifier.
pub open spec fn last_with_id(
    points: Seq<EmbeddedDocumentView>,
    id: Seq<char>,
) -> EmbeddedDocumentView
    decreases points.len(),
{
    if points.len() == 0 {
        arbitrary()
    } else if points.last().metadata.id == id {
        points.last()
    } else {
        last_with_id(points.drop_last(), id)
    }
}

/// After some points were written, the collection holds under each of their
/// identifiers the last point that has it, and under every other identifier
/// what it held before.
pub proof fn lemma_stored_after(stored: StoredPoints, points: Seq<EmbeddedDocumentView>)
    ensures
        forall|id: Seq<char>| #[trigger]
            stored_after(stored, points).contains_key(id) <==> stored.contains_key(id) || has_id(
                points,
                id,
            ),
        forall|id: Seq<char>|
            has_id(points, id) ==> #[trigger] stored_after(stored, points)[id] == last_with_id(
                points,
                id,
            ),
        forall|id: Seq<char>|
            !has_id(points, id) ==> #[trigger] stored_after(stored, points)[id] == stored[id],
    decreases points.len(),
{
    if points.len() > 0 {
        let rest = points.drop_last();
        let last = points.last();
        lemma_stored_after(stored, rest);
        assert forall|id: Seq<char>| has_id(points, id) <==> has_id(rest, id) || id
            == last.metadata.id by {
            if has_id(points, id) {
                let i = choose|i: int|
                    0 <= i < points.len() && (#[trigger] points[i]).metadata.id == id;
                if i < rest.len() {
                    assert(rest[i] == points[i]);
                }
            }
            if has_id(rest, id) {
                let i = choose|i: int|
                    0 <= i < rest.len() && (#[trigger] rest[i]).metadata.id == id;
                assert(points[i] == rest[i]);
            }
            if id == last.metadata.id {
                assert(points[points.len() - 1].metadata.id == id);
            }
        }
    }
}

/// Writing the same points a second time changes nothing: the collection
/// holds the same points under the same identifiers, and so as many as
/// before.
pub proof fn lemma_upsert_is_idempotent(stored: StoredPoints, points: Seq<EmbeddedDocumentView>)
    ensures
        stored_after(stored_after(stored, points), points) == stored_after(stored, points),
        stored_after(stored_after(stored, points), points).dom() == stored_after(
            stored,
            points,
        ).dom(),
{
    let once = stored_after(stored, points);
    let twice = stored_after(once, points);
    lemma_stored_after(stored, points);
    lemma_stored_after(once, points);
    assert(twice =~= once);
}

} // verus!
