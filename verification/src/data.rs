//! Documents, their text variants, fragments and embedded fragments.

use crate::error::AppError;
use crate::variants::{
    distinct_collections, has_variant, upsert_variant, variant_text, TextVariants, VariantSeq,
};
use chrono::{DateTime, Utc};
use sha1::{Digest, Sha1};
use text_splitter::{ChunkConfig, TextSplitter};
use uuid::Uuid;
use vstd::prelude::*;
use vstd::std_specs::convert::FromSpecImpl;

verus! {

/// Number of characters in one window of a document's text.
pub const FRAGMENT_SIZE: usize = 1512;

/// Number of characters that two consecutive windows share.
pub const OVERLAP_SIZE: usize = 256;

/// Largest number of characters of a title that a fragment carries.
pub const MAX_TITLE_SIZE: usize = 128;

/// Largest number of characters of a URL that a fragment carries.
pub const MAX_URL_SIZE: usize = 128;

/// Number of characters in one window of the compact fragments.
pub const META_FRAGMENT_SIZE: usize = 384;

/// The kinds of content that are stored and searched separately.
#[derive(Debug, Clone, Copy, PartialEq, Eq, Hash, Structural)]
pub enum Collection {
    /// The text of a page as it was crawled.
    Basic,
    /// A generated summary of the page.
    Summary,
}

impl Collection {
    /// The tag of a collection, as it appears in the names of stored
    /// collections and on the command line.
    pub open spec fn tag(self) -> Seq<char> {
        match self {
            Collection::Basic => "basic"@,
            Collection::Summary => "summary"@,
        }
    }

    /// The share of a result budget that goes to a collection, in percent.
    pub open spec fn weight_percent(self) -> nat {
        match self {
            Collection::Basic => 80,
            Collection::Summary => 20,
        }
    }

    /// The collection that a tag names; an unknown tag names `Basic`.
    pub open spec fn from_tag(tag: Seq<char>) -> Collection {
        if tag == "summary"@ {
            Collection::Summary
        } else {
            Collection::Basic
        }
    }

    /// All collections, in declaration order.
    pub fn all() -> (collections: Vec<Collection>)
        ensures
            collections@ == seq![Collection::Basic, Collection::Summary],
    {
        let mut collections = Vec::new();
        collections.push(Collection::Basic);
        collections.push(Collection::Summary);
        collections
    }

    /// The retrieval weight of the collection, in percent of the budget.
    pub fn limit_by_collection(&self) -> (weight: u64)
        ensures
            weight == self.weight_percent(),
    {
        match self {
            Collection::Basic => 80,
            Collection::Summary => 20,
        }
    }

    /// The tag of the collection.
    pub fn to_string(&self) -> (tag: String)
        ensures
            tag@ == self.tag(),
    {
        match self {
            Collection::Basic => String::from_str("basic"),
            Collection::Summary => String::from_str("summary"),
        }
    }
}

impl From<&str> for Collection {
    fn from(s: &str) -> (collection: Collection) {
        let tag = String::from_str(s);
        if tag == String::from_str("summary") {
            Collection::Summary
        } else {
            Collection::Basic
        }
    }
}

impl FromSpecImpl<&str> for Collection {
    open spec fn obeys_from_spec() -> bool {
        true
    }

    open spec fn from_spec(s: &str) -> Collection {
        Collection::from_tag(s@)
    }
}

/// The two tags differ, so a collection is known by its tag.
pub proof fn lemma_tag_names_collection(a: Collection, b: Collection)
    ensures
        a.tag() == b.tag() <==> a == b,
        Collection::from_tag(a.tag()) == a,
{
    reveal_strlit("basic");
    reveal_strlit("summary");
    assert("basic"@.len() == 5);
}

/// The chunks into which the text splitter cuts a text: windows of at most
/// `capacity` characters, of which consecutive ones share up to `overlap`
/// characters, cut at the boundaries of words and sentences and trimmed of
/// white space at both ends.
pub uninterp spec fn text_chunks(text: Seq<char>, capacity: nat, overlap: nat) -> Seq<Seq<char>>;

/// The SHA-1 digest of a text's UTF-8 bytes, as forty hexadecimal digits in
/// lower case.
pub uninterp spec fn sha1_hex(text: Seq<char>) -> Seq<char>;

/// The name-based UUID (version 5) of a name in the OID namespace, in the
/// hyphenated lower-case form.
pub uninterp spec fn uuid_v5_oid(name: Seq<char>) -> Seq<char>;

/// The RFC 3339 form of the instant that lies this many nanoseconds after
/// the start of 1970, in UTC.
pub uninterp spec fn rfc3339_utc(nanos: int) -> Seq<char>;

/// Whether each chunk of a text holds at most `capacity` characters.
pub open spec fn chunks_fit(text: Seq<char>, capacity: nat, overlap: nat) -> bool {
    forall|k: int|
        0 <= k < text_chunks(text, capacity, overlap).len() ==> (#[trigger] text_chunks(
            text,
            capacity,
            overlap,
        )[k]).len() <= capacity
}

/// The texts that a list of strings holds.
pub open spec fn strings_view(strings: Seq<String>) -> Seq<Seq<char>> {
    Seq::new(strings.len(), |i: int| strings[i]@)
}

/// Calls `TextSplitter::chunks` of the text-splitter crate, with a
/// configuration of this capacity and overlap that counts characters and
/// trims each chunk. The crate refuses an overlap that is not below the
/// capacity. It documents that each chunk holds at most `capacity`
/// characters; which chunks it cuts is left to the crate.
#[verifier::external_body]
fn split_text(text: &str, capacity: usize, overlap: usize) -> (chunks: Vec<String>)
    requires
        overlap < capacity,
    ensures
        strings_view(chunks@) == text_chunks(text@, capacity as nat, overlap as nat),
        forall|i: int| 0 <= i < chunks@.len() ==> (#[trigger] chunks@[i])@.len() <= capacity,
{
    let config = ChunkConfig::new(capacity).with_overlap(overlap).unwrap().with_trim(true);
    TextSplitter::new(config).chunks(text).map(String::from).collect()
}

/// The chunks of a text, each of at most `capacity` characters.
fn split_within(text: &str, capacity: usize, overlap: usize) -> (chunks: Vec<String>)
    requires
        overlap < capacity,
    ensures
        strings_view(chunks@) == text_chunks(text@, capacity as nat, overlap as nat),
        chunks_fit(text@, capacity as nat, overlap as nat),
        forall|i: int| 0 <= i < chunks@.len() ==> (#[trigger] chunks@[i])@.len() <= capacity,
{
    let chunks = split_text(text, capacity, overlap);
    assert forall|k: int|
        0 <= k < text_chunks(text@, capacity as nat, overlap as nat).len() implies (
    #[trigger] text_chunks(text@, capacity as nat, overlap as nat)[k]).len() <= capacity by {
        assert(strings_view(chunks@)[k] == chunks@[k]@);
    }
    chunks
}

/// Feeds the text to `Sha1` of the sha1 crate and formats the digest with
/// `{:x}`: the result is the digest of the text's bytes in hexadecimal.
#[verifier::external_body]
fn sha1_hex_digest(text: &str) -> (digest: String)
    ensures
        digest@ == sha1_hex(text@),
{
    let mut hasher = Sha1::new();
    hasher.update(text);
    format!("{:x}", hasher.finalize())
}

/// Calls `Uuid::new_v5` of the uuid crate with the OID namespace and the
/// bytes of the name, and writes the UUID in its default form.
#[verifier::external_body]
fn oid_uuid(name: &str) -> (id: String)
    ensures
        id@ == uuid_v5_oid(name@),
{
    Uuid::new_v5(&Uuid::NAMESPACE_OID, name.as_bytes()).to_string()
}

/// Calls `DateTime::from_timestamp_nanos` and `DateTime::to_rfc3339` of
/// chrono: the instant is written as date, time and the offset `+00:00`.
#[verifier::external_body]
fn rfc3339(nanos: i64) -> (text: String)
    ensures
        text@ == rfc3339_utc(nanos as int),
{
    DateTime::from_timestamp_nanos(nanos).to_rfc3339()
}

/// Calls `Utc::now` of chrono and `DateTime::timestamp_nanos_opt` on its
/// result: the nanoseconds since 1970 that the system clock shows, or `None`
/// where that number does not fit. Nothing is claimed of the value. chrono
/// expects a clock that is not set before 1970.
#[verifier::external_body]
fn clock_nanos() -> (nanos: Option<i64>) {
    Utc::now().timestamp_nanos_opt()
}

/// The instant that the system clock shows, in nanoseconds since 1970; the
/// largest instant where the clock is beyond it.
fn now_nanos() -> (nanos: i64) {
    instant_or_latest(clock_nanos())
}

/// The instant that a reading of the clock stands for: the reading itself,
/// or the largest instant where the clock is beyond what the count of
/// nanoseconds can hold.
pub fn instant_or_latest(reading: Option<i64>) -> (nanos: i64)
    ensures
        nanos == match reading {
            Some(instant) => instant,
            None => i64::MAX,
        },
{
    match reading {
        Some(instant) => instant,
        None => i64::MAX,
    }
}

/// One chunk of a document's text for one collection, with the document's
/// title and URL in front of it.
#[derive(Debug, Clone)]
pub struct Fragment {
    pub text: String,
    pub collection: Collection,
}

/// What a fragment holds.
pub struct FragmentView {
    pub text: Seq<char>,
    pub collection: Collection,
}

impl View for Fragment {
    type V = FragmentView;

    open spec fn view(&self) -> FragmentView {
        FragmentView { text: self.text@, collection: self.collection }
    }
}

/// What a list of fragments holds.
pub open spec fn fragments_view(fragments: Seq<Fragment>) -> Seq<FragmentView> {
    Seq::new(fragments.len(), |i: int| fragments[i]@)
}

/// The text of an optional string.
pub open spec fn option_text(text: Option<String>) -> Option<Seq<char>> {
    match text {
        Some(text) => Some(text@),
        None => None,
    }
}

/// The first of some chunks, if there is one.
pub open spec fn first_chunk(chunks: Seq<Seq<char>>) -> Option<Seq<char>> {
    if chunks.len() > 0 {
        Some(chunks[0])
    } else {
        None
    }
}

/// The text of a fragment: the chunk behind the title and the URL, or the
/// bare chunk where one of the two is missing.
pub open spec fn fragment_text(
    title: Option<Seq<char>>,
    url: Option<Seq<char>>,
    chunk: Seq<char>,
) -> Seq<char> {
    match (title, url) {
        (Some(title), Some(url)) => "Title: "@ + title + " URL: "@ + url + " Content: "@ + chunk,
        _ => chunk,
    }
}

/// The fragments of one collection: one for each chunk, in the chunks' order.
pub open spec fn chunk_fragments(
    title: Option<Seq<char>>,
    url: Option<Seq<char>>,
    collection: Collection,
    chunks: Seq<Seq<char>>,
) -> Seq<FragmentView> {
    Seq::new(
        chunks.len(),
        |i: int| FragmentView { text: fragment_text(title, url, chunks[i]), collection },
    )
}

/// The fragments of some text variants: those of the first variant, then
/// those of the second, and so on, each cut into windows of `FRAGMENT_SIZE`
/// characters that overlap by `OVERLAP_SIZE`.
pub open spec fn variant_fragments(
    title: Option<Seq<char>>,
    url: Option<Seq<char>>,
    entries: VariantSeq,
) -> Seq<FragmentView>
    decreases entries.len(),
{
    if entries.len() == 0 {
        Seq::empty()
    } else {
        variant_fragments(title, url, entries.drop_last()) + chunk_fragments(
            title,
            url,
            entries.last().0,
            text_chunks(entries.last().1, FRAGMENT_SIZE as nat, OVERLAP_SIZE as nat),
        )
    }
}

/// The largest number of characters that a fragment holds: a full window
/// behind a full title, a full URL and the three labels.
pub open spec fn max_fragment_len() -> nat {
    (FRAGMENT_SIZE + MAX_TITLE_SIZE + MAX_URL_SIZE + 23) as nat
}

impl Fragment {
    /// The fragment for one chunk of a collection's text.
    pub fn render(
        title: &Option<String>,
        url: &Option<String>,
        chunk: &str,
        collection: Collection,
    ) -> (fragment: Fragment)
        ensures
            fragment@ == (FragmentView {
                text: fragment_text(option_text(*title), option_text(*url), chunk@),
                collection,
            }),
    {
        match (title, url) {
            (Some(title), Some(url)) => {
                let mut text = String::from_str("Title: ");
                text.append(title.as_str());
                text.append(" URL: ");
                text.append(url.as_str());
                text.append(" Content: ");
                text.append(chunk);
                Fragment { text, collection }
            },
            _ => Fragment { text: String::from_str(chunk), collection },
        }
    }
}

/// Appends to `fragments` the fragments of one collection, one for each
/// chunk of its text.
pub fn render_fragments(
    fragments: &mut Vec<Fragment>,
    title: &Option<String>,
    url: &Option<String>,
    collection: Collection,
    chunks: &Vec<String>,
)
    ensures
        fragments_view(final(fragments)@) == fragments_view(old(fragments)@) + chunk_fragments(
            option_text(*title),
            option_text(*url),
            collection,
            strings_view(chunks@),
        ),
{
    let ghost before = fragments_view(fragments@);
    let ghost added = chunk_fragments(
        option_text(*title),
        option_text(*url),
        collection,
        strings_view(chunks@),
    );
    let mut index: usize = 0;
    while index < chunks.len()
        invariant
            index <= chunks@.len(),
            added == chunk_fragments(
                option_text(*title),
                option_text(*url),
                collection,
                strings_view(chunks@),
            ),
            fragments_view(fragments@) == before + added.take(index as int),
        decreases chunks@.len() - index,
    {
        let ghost held = fragments@;
        let fragment = Fragment::render(title, url, chunks[index].as_str(), collection);
        fragments.push(fragment);
        assert(fragments_view(fragments@) =~= fragments_view(held).push(fragment@));
        index += 1;
    }
}

/// A fragment holds no more than its parts: the three labels take 23
/// characters.
pub proof fn lemma_fragment_text_len(
    title: Option<Seq<char>>,
    url: Option<Seq<char>>,
    chunk: Seq<char>,
)
    ensures
        title is Some && url is Some ==> fragment_text(title, url, chunk).len() == 23
            + title->Some_0.len() + url->Some_0.len() + chunk.len(),
        !(title is Some && url is Some) ==> fragment_text(title, url, chunk) == chunk,
{
    reveal_strlit("Title: ");
    reveal_strlit(" URL: ");
    reveal_strlit(" Content: ");
}

/// One crawled page: its title, its URL, its texts by collection, and the
/// instant at which it was made, in nanoseconds since 1970.
#[derive(Debug, Clone)]
pub struct Document {
    pub title: String,
    pub url: String,
    pub text: TextVariants,
    pub timestamp: i64,
}

/// What a document holds.
pub struct DocumentView {
    pub title: Seq<char>,
    pub url: Seq<char>,
    pub text: VariantSeq,
    pub timestamp: int,
}

impl View for Document {
    type V = DocumentView;

    open spec fn view(&self) -> DocumentView {
        DocumentView {
            title: self.title@,
            url: self.url@,
            text: self.text@,
            timestamp: self.timestamp as int,
        }
    }
}

impl DocumentView {
    /// The title as the fragments carry it: its first chunk of at most
    /// `MAX_TITLE_SIZE` characters, if it has one.
    pub open spec fn short_title(self) -> Option<Seq<char>> {
        first_chunk(text_chunks(self.title, MAX_TITLE_SIZE as nat, 0))
    }

    /// The URL as the fragments carry it: its first chunk of at most
    /// `MAX_URL_SIZE` characters, if it has one.
    pub open spec fn short_url(self) -> Option<Seq<char>> {
        first_chunk(text_chunks(self.url, MAX_URL_SIZE as nat, 0))
    }

    /// The fragments of the document.
    pub open spec fn fragments(self) -> Seq<FragmentView> {
        variant_fragments(self.short_title(), self.short_url(), self.text)
    }

    /// The document after a collection was given a text.
    pub open spec fn with_text(self, collection: Collection, text: Seq<char>) -> DocumentView {
        DocumentView { text: upsert_variant(self.text, collection, text), ..self }
    }
}

/// The first of some chunks, if there is one.
fn first_of(chunks: &Vec<String>) -> (first: Option<String>)
    ensures
        option_text(first) == first_chunk(strings_view(chunks@)),
{
    if chunks.len() > 0 {
        Some(chunks[0].clone())
    } else {
        None
    }
}

impl Document {
    /// A document with one text, made at the given instant.
    pub fn with_timestamp(
        collection: Collection,
        url: String,
        title: String,
        text: String,
        timestamp: i64,
    ) -> (document: Document)
        ensures
            document@ == (DocumentView {
                title: title@,
                url: url@,
                text: seq![(collection, text@)],
                timestamp: timestamp as int,
            }),
    {
        let mut variants = TextVariants::new();
        variants.insert(collection, text);
        Document { title, url, text: variants, timestamp }
    }

    /// A document with one text, made now.
    pub fn new(collection: Collection, url: String, title: String, text: String) -> (document:
        Document)
        ensures
            document@.title == title@,
            document@.url == url@,
            document@.text == seq![(collection, text@)],
    {
        Document::with_timestamp(collection, url, title, text, now_nanos())
    }

    /// Gives a collection this text, in place of the one it had. The texts
    /// of the other collections stay as they are.
    pub fn update_text(&mut self, collection: Collection, text: String)
        ensures
            final(self)@ == old(self)@.with_text(collection, text@),
            distinct_collections(final(self)@.text),
    {
        self.text.insert(collection, text);
    }

    /// The fragments of the document: for each collection that has a text,
    /// in their order, one fragment for each window of the text, in the
    /// windows' order. Each fragment carries the shortened title and URL; a
    /// document of which one of the two is empty yields the bare windows.
    /// No window holds more than `FRAGMENT_SIZE` characters, and the
    /// shortened title and URL no more than `MAX_TITLE_SIZE` and
    /// `MAX_URL_SIZE`.
    pub fn to_fragments(&self) -> (result: Result<Vec<Fragment>, AppError>)
        ensures
            result is Ok,
            fragments_view(result->Ok_0@) == self@.fragments(),
            chunks_fit(self@.title, MAX_TITLE_SIZE as nat, 0),
            chunks_fit(self@.url, MAX_URL_SIZE as nat, 0),
            forall|v: int|
                0 <= v < self@.text.len() ==> chunks_fit(
                    (#[trigger] self@.text[v]).1,
                    FRAGMENT_SIZE as nat,
                    OVERLAP_SIZE as nat,
                ),
            forall|i: int|
                0 <= i < result->Ok_0@.len() ==> (#[trigger] result->Ok_0@[i]).text@.len()
                    <= max_fragment_len(),
    {
        let title_chunks = split_within(self.title.as_str(), MAX_TITLE_SIZE, 0);
        let url_chunks = split_within(self.url.as_str(), MAX_URL_SIZE, 0);
        let title = first_of(&title_chunks);
        let url = first_of(&url_chunks);
        let mut fragments: Vec<Fragment> = Vec::new();
        let count = self.text.len();
        let mut index: usize = 0;
        while index < count
            invariant
                index <= count,
                count == self@.text.len(),
                option_text(title) == self@.short_title(),
                option_text(url) == self@.short_url(),
                title is Some ==> title->Some_0@.len() <= MAX_TITLE_SIZE,
                url is Some ==> url->Some_0@.len() <= MAX_URL_SIZE,
                fragments_view(fragments@) == variant_fragments(
                    self@.short_title(),
                    self@.short_url(),
                    self@.text.take(index as int),
                ),
                forall|i: int|
                    0 <= i < fragments@.len() ==> (#[trigger] fragments@[i]).text@.len()
                        <= max_fragment_len(),
                forall|v: int|
                    0 <= v < index ==> chunks_fit(
                        (#[trigger] self@.text[v]).1,
                        FRAGMENT_SIZE as nat,
                        OVERLAP_SIZE as nat,
                    ),
            decreases count - index,
        {
            let collection = self.text.collection_at(index);
            let chunks = split_within(
                self.text.text_at(index).as_str(),
                FRAGMENT_SIZE,
                OVERLAP_SIZE,
            );
            let ghost held = fragments@;
            render_fragments(&mut fragments, &title, &url, collection, &chunks);
            proof {
                let upto = self@.text.take(index + 1);
                assert(upto.drop_last() =~= self@.text.take(index as int));
                assert(fragments@.len() == fragments_view(fragments@).len());
                assert forall|i: int| 0 <= i < fragments@.len() implies (
                #[trigger] fragments@[i]).text@.len() <= max_fragment_len() by {
                    assert(fragments@[i]@ == fragments_view(fragments@)[i]);
                    if i >= held.len() {
                        lemma_fragment_text_len(
                            option_text(title),
                            option_text(url),
                            chunks@[i - held.len()]@,
                        );
                    }
                }
            }
            index += 1;
        }
        assert(self@.text.take(index as int) =~= self@.text);
        Ok(fragments)
    }

    /// The text of the `Basic` collection, if the document has one.
    pub fn basic_text(&self) -> (text: Option<&String>)
        ensures
            text is Some <==> has_variant(self@.text, Collection::Basic),
            text is Some ==> text->Some_0@ == variant_text(self@.text, Collection::Basic),
    {
        self.text.get(Collection::Basic)
    }

    /// Stores a summary of the basic text as the text of the `Summary`
    /// collection. A document without a basic text has nothing that was
    /// summarised: it stays as it is.
    pub fn add_summary(&mut self, summary: String) -> (result: Result<(), AppError>)
        ensures
            has_variant(old(self)@.text, Collection::Basic) ==> result is Ok && final(self)@ == old(
                self,
            )@.with_text(Collection::Summary, summary@),
            !has_variant(old(self)@.text, Collection::Basic) ==> result == Err::<(), AppError>(
                AppError::MissingBasicText,
            ) && final(self)@ == old(self)@,
    {
        if self.text.get(Collection::Basic).is_some() {
            self.update_text(Collection::Summary, summary);
            Ok(())
        } else {
            Err(AppError::MissingBasicText)
        }
    }
}

/// What is stored with the embedding of a fragment.
#[derive(Debug, Clone)]
pub struct EmbeddedMetadata {
    pub id: String,
    pub title: String,
    pub url: String,
    pub text: String,
    pub timestamp: String,
    pub collection: Collection,
}

/// What the metadata of a fragment holds.
pub struct EmbeddedMetadataView {
    pub id: Seq<char>,
    pub title: Seq<char>,
    pub url: Seq<char>,
    pub text: Seq<char>,
    pub timestamp: Seq<char>,
    pub collection: Collection,
}

impl View for EmbeddedMetadata {
    type V = EmbeddedMetadataView;

    open spec fn view(&self) -> EmbeddedMetadataView {
        EmbeddedMetadataView {
            id: self.id@,
            title: self.title@,
            url: self.url@,
            text: self.text@,
            timestamp: self.timestamp@,
            collection: self.collection,
        }
    }
}

/// The identifier under which a fragment is stored: the UUID of the digest
/// of the URL followed by the fragment's text. It depends on nothing else,
/// so the same page and text are stored under the same identifier again.
pub open spec fn fragment_id(url: Seq<char>, text: Seq<char>) -> Seq<char> {
    uuid_v5_oid(sha1_hex(url + text))
}

/// The metadata of a fragment of a document.
pub open spec fn metadata_of(
    document: DocumentView,
    text: Seq<char>,
    collection: Collection,
) -> EmbeddedMetadataView {
    EmbeddedMetadataView {
        id: fragment_id(document.url, text),
        title: document.title,
        url: document.url,
        text,
        timestamp: rfc3339_utc(document.timestamp),
        collection,
    }
}

impl EmbeddedMetadata {
    /// The metadata of a fragment of this document with this text.
    pub fn from_document(document: &Document, text: String, collection: Collection) -> (result:
        Result<EmbeddedMetadata, AppError>)
        ensures
            result is Ok,
            result->Ok_0@ == metadata_of(document@, text@, collection),
    {
        let mut hash_text = document.url.clone();
        hash_text.append(text.as_str());
        let hash = sha1_hex_digest(hash_text.as_str());
        let id = oid_uuid(hash.as_str());
        Ok(
            EmbeddedMetadata {
                id,
                title: document.title.clone(),
                url: document.url.clone(),
                text,
                timestamp: rfc3339(document.timestamp),
                collection,
            },
        )
    }
}

/// A fragment with its embedding. The embedding holds the bit patterns of
/// its single-precision components; a document that comes back from a search
/// has none.
#[derive(Debug, Clone)]
pub struct EmbeddedDocument {
    pub text_embeddings: Vec<u32>,
    pub metadata: EmbeddedMetadata,
}

/// What an embedded fragment holds.
pub struct EmbeddedDocumentView {
    pub text_embeddings: Seq<u32>,
    pub metadata: EmbeddedMetadataView,
}

impl View for EmbeddedDocument {
    type V = EmbeddedDocumentView;

    open spec fn view(&self) -> EmbeddedDocumentView {
        EmbeddedDocumentView { text_embeddings: self.text_embeddings@, metadata: self.metadata@ }
    }
}

/// What a list of embedded fragments holds.
pub open spec fn embedded_view(documents: Seq<EmbeddedDocument>) -> Seq<EmbeddedDocumentView> {
    Seq::new(documents.len(), |i: int| documents[i]@)
}

/// A page that is crawled again with the same title, address and texts
/// yields the same fragments, and each of them the same identifier: the
/// instant of the crawl plays no part.
pub proof fn lemma_same_page_gives_same_ids(first: DocumentView, second: DocumentView, index: int)
    requires
        first.title == second.title,
        first.url == second.url,
        first.text == second.text,
        0 <= index < first.fragments().len(),
    ensures
        first.fragments() == second.fragments(),
        metadata_of(
            first,
            first.fragments()[index].text,
            first.fragments()[index].collection,
        ).id == metadata_of(
            second,
            second.fragments()[index].text,
            second.fragments()[index].collection,
        ).id,
{
}

/// Two fragments of one page with one text have one identifier, whatever
/// else differs between the two documents they were cut from.
pub proof fn lemma_fragment_id_is_stable(
    first: DocumentView,
    second: DocumentView,
    text: Seq<char>,
    first_collection: Collection,
    second_collection: Collection,
)
    requires
        first.url == second.url,
    ensures
        metadata_of(first, text, first_collection).id == metadata_of(
            second,
            text,
            second_collection,
        ).id,
{
}

} // verus!
