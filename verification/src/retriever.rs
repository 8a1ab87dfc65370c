//! The crawler: from a sitemap to the documents of its pages.
//!
//! The pages of a sitemap are fetched by the caller, a bounded number of
//! them at a time; what to fetch next, and what becomes of the answers, is
//! decided here.
//!
//! The pages are read with the scraper crate, built with its feature
//! `deterministic`: an element then keeps its attributes in the order of the
//! page, so that the HTML it is written back as depends on the page alone.

use crate::data::{strings_view, Collection, Document};
use crate::error::AppError;
use crate::text::{
    ends_with, has_suffix, is_white_space, lemma_squeezed_is_one_line, replace_text, replaced,
    squeeze_onto, squeezed,
};
use scraper::{Html, Selector};
use vstd::prelude::*;

verus! {

/// The inner HTML of the elements of a document that a selector matches, in
/// the order in which the parser made them; `None` where the selector is
/// not one.
pub uninterp spec fn selected_inner_html(document: Seq<char>, selector: Seq<char>) -> Option<
    Seq<Seq<char>>,
>;

/// The joined text nodes of the first element of a document that a selector
/// matches, if one does; `None` where the selector is not one.
pub uninterp spec fn selected_text(document: Seq<char>, selector: Seq<char>) -> Option<
    Option<Seq<char>>,
>;

/// The HTML of the first element of a document that a selector matches, if
/// one does; `None` where the selector is not one.
pub uninterp spec fn selected_html(document: Seq<char>, selector: Seq<char>) -> Option<
    Option<Seq<char>>,
>;

/// The HTML of the elements that the selector `inner` matches below the
/// first element of a document that the selector `outer` matches; `None`
/// where one of the two is no selector.
pub uninterp spec fn nested_html(document: Seq<char>, outer: Seq<char>, inner: Seq<char>) -> Option<
    Seq<Seq<char>>,
>;

/// The text nodes of a piece of HTML, in the order of the document.
pub uninterp spec fn fragment_text_nodes(fragment: Seq<char>) -> Seq<Seq<char>>;

/// Parses the selector with `Selector::parse` and the document with
/// `Html::parse_document` of the scraper crate, and takes
/// `ElementRef::inner_html` of each element that `Html::select` yields.
/// The HTML is written with each element's attributes in the order of the
/// page, which the crate's feature `deterministic` keeps.
#[verifier::external_body]
fn select_inner_html(document: &str, selector: &str) -> (found: Option<Vec<String>>)
    ensures
        found is Some <==> selected_inner_html(document@, selector@) is Some,
        found is Some ==> strings_view(found->Some_0@) == selected_inner_html(
            document@,
            selector@,
        )->Some_0,
{
    let selector = Selector::parse(selector).ok()?;
    let html = Html::parse_document(document);
    Some(html.select(&selector).map(|element| element.inner_html()).collect())
}

/// Parses the selector with `Selector::parse` and the document with
/// `Html::parse_document` of the scraper crate, and joins what
/// `ElementRef::text` yields for the first element of `Html::select`.
#[verifier::external_body]
fn select_text(document: &str, selector: &str) -> (found: Option<Option<String>>)
    ensures
        found is Some <==> selected_text(document@, selector@) is Some,
        found is Some ==> (found->Some_0 is Some <==> selected_text(
            document@,
            selector@,
        )->Some_0 is Some),
        found is Some && found->Some_0 is Some ==> found->Some_0->Some_0@ == selected_text(
            document@,
            selector@,
        )->Some_0->Some_0,
{
    let selector = Selector::parse(selector).ok()?;
    let html = Html::parse_document(document);
    Some(html.select(&selector).next().map(|element| element.text().collect()))
}

/// Parses the selector with `Selector::parse` and the document with
/// `Html::parse_document` of the scraper crate, and takes
/// `ElementRef::html` of the first element of `Html::select`. The HTML is
/// written with each element's attributes in the order of the page, which
/// the crate's feature `deterministic` keeps.
#[verifier::external_body]
fn select_html(document: &str, selector: &str) -> (found: Option<Option<String>>)
    ensures
        found is Some <==> selected_html(document@, selector@) is Some,
        found is Some ==> (found->Some_0 is Some <==> selected_html(
            document@,
            selector@,
        )->Some_0 is Some),
        found is Some && found->Some_0 is Some ==> found->Some_0->Some_0@ == selected_html(
            document@,
            selector@,
        )->Some_0->Some_0,
{
    let selector = Selector::parse(selector).ok()?;
    let html = Html::parse_document(document);
    Some(html.select(&selector).next().map(|element| element.html()))
}

/// Parses both selectors with `Selector::parse` and the document with
/// `Html::parse_document` of the scraper crate, and takes
/// `ElementRef::html` of each element that `ElementRef::select` yields for
/// `inner` below the first element of `Html::select` for `outer`. The HTML
/// is written with each element's attributes in the order of the page,
/// which the crate's feature `deterministic` keeps.
#[verifier::external_body]
fn select_nested_html(document: &str, outer: &str, inner: &str) -> (found: Option<Vec<String>>)
    ensures
        found is Some <==> nested_html(document@, outer@, inner@) is Some,
        found is Some ==> strings_view(found->Some_0@) == nested_html(
            document@,
            outer@,
            inner@,
        )->Some_0,
{
    let outer = Selector::parse(outer).ok()?;
    let inner = Selector::parse(inner).ok()?;
    let html = Html::parse_document(document);
    let below = html.select(&outer).next().into_iter().flat_map(|element| element.select(&inner));
    Some(below.map(|element| element.html()).collect())
}

/// Parses the text with `Html::parse_fragment` of the scraper crate and
/// collects what `ElementRef::text` yields for `Html::root_element`.
#[verifier::external_body]
fn text_nodes(fragment: &str) -> (nodes: Vec<String>)
    ensures
        strings_view(nodes@) == fragment_text_nodes(fragment@),
{
    Html::parse_fragment(fragment).root_element().text().map(String::from).collect()
}

/// The address of the sitemap of a site: the address itself where it names
/// a sitemap, else the sitemap below it.
pub open spec fn sitemap_address(url: Seq<char>) -> Seq<char> {
    if has_suffix(url, "sitemap.xml"@) {
        url
    } else {
        url + "/sitemap.xml"@
    }
}

/// The address of the sitemap of a site.
pub fn sitemap_url(url: &str) -> (address: String)
    ensures
        address@ == sitemap_address(url@),
{
    let mut address = String::from_str(url);
    if !ends_with(url, "sitemap.xml") {
        address.append("/sitemap.xml");
    }
    address
}

/// The page addresses that a sitemap lists: the content of its `loc`
/// elements, in their order.
pub fn get_urls(body: String) -> (result: Result<Vec<String>, AppError>)
    ensures
        match selected_inner_html(body@, "loc"@) {
            Some(urls) => result is Ok && strings_view(result->Ok_0@) == urls,
            None => result == Err::<Vec<String>, AppError>(AppError::SitemapParse),
        },
{
    match select_inner_html(body.as_str(), "loc") {
        Some(urls) => Ok(urls),
        None => Err(AppError::SitemapParse),
    }
}

/// A fetched page: its address and its HTML.
#[derive(Debug, Clone)]
pub struct Body {
    pub url: String,
    pub body: String,
}

/// What a fetched page holds.
pub struct BodyView {
    pub url: Seq<char>,
    pub body: Seq<char>,
}

impl View for Body {
    type V = BodyView;

    open spec fn view(&self) -> BodyView {
        BodyView { url: self.url@, body: self.body@ }
    }
}

/// What a list of fetched pages holds.
pub open spec fn bodies_view(bodies: Seq<Body>) -> Seq<BodyView> {
    Seq::new(bodies.len(), |i: int| bodies[i]@)
}

/// The HTML of a page's body after each of the unwanted pieces was cut out
/// of it, one after the other.
pub open spec fn cleaned_html(html: Seq<char>, unwanted: Seq<Seq<char>>) -> Seq<char>
    decreases unwanted.len(),
{
    if unwanted.len() == 0 {
        html
    } else {
        replaced(cleaned_html(html, unwanted.drop_last()), unwanted.last(), Seq::empty())
    }
}

/// The text nodes on one line: the words of all nodes in their order, each
/// behind one space. Line breaks and other white space within a node and
/// between the nodes are left out.
pub open spec fn one_line(nodes: Seq<Seq<char>>) -> Seq<char>
    decreases nodes.len(),
{
    if nodes.len() == 0 {
        Seq::empty()
    } else {
        one_line(nodes.drop_last()) + squeezed(nodes.last())
    }
}

/// The text of a page is a single line: the only white space in it is a
/// single space in front of each word. A character of it that is white
/// space is a space, is not the last, and the character behind it is no
/// white space.
pub proof fn lemma_one_line_is_single_line(nodes: Seq<Seq<char>>)
    ensures
        one_line(nodes).len() > 0 ==> !is_white_space(one_line(nodes).last()),
        forall|i: int|
            0 <= i < one_line(nodes).len() && is_white_space(#[trigger] one_line(nodes)[i]) ==> {
                &&& one_line(nodes)[i] == ' '
                &&& i + 1 < one_line(nodes).len()
                &&& !is_white_space(one_line(nodes)[i + 1])
            },
    decreases nodes.len(),
{
    if nodes.len() > 0 {
        lemma_one_line_is_single_line(nodes.drop_last());
        lemma_squeezed_is_one_line(nodes.last());
    }
}

/// What a page yields.
pub enum PageContent {
    /// The page cannot be searched.
    Unreadable,
    /// The page has no body: it yields no document.
    Empty,
    /// The title of the page and the text of its body.
    Content { title: Seq<char>, text: Seq<char> },
}

/// What a page yields: its title, empty where it has none, and the text of
/// its body without scripts and navigation, on one line.
pub open spec fn page_content(body: Seq<char>) -> PageContent {
    match selected_text(body, "title"@) {
        None => PageContent::Unreadable,
        Some(title) => match selected_html(body, "body"@) {
            None => PageContent::Unreadable,
            Some(None) => PageContent::Empty,
            Some(Some(html)) => match nested_html(body, "body"@, "script, nav"@) {
                None => PageContent::Unreadable,
                Some(unwanted) => PageContent::Content {
                    title: match title {
                        Some(title) => title,
                        None => Seq::empty(),
                    },
                    text: one_line(fragment_text_nodes(cleaned_html(html, unwanted))),
                },
            },
        },
    }
}

/// What a parsed page holds: its address, its title and its text.
pub struct PageView {
    pub url: Seq<char>,
    pub title: Seq<char>,
    pub text: Seq<char>,
}

/// Whether one of the pages cannot be searched.
pub open spec fn some_unreadable(bodies: Seq<BodyView>) -> bool {
    exists|i: int| 0 <= i < bodies.len() && page_content(#[trigger] bodies[i].body) is Unreadable
}

/// The pages that yield a document, in the order of the fetched pages.
pub open spec fn parsed_pages(bodies: Seq<BodyView>) -> Seq<PageView>
    decreases bodies.len(),
{
    if bodies.len() == 0 {
        Seq::empty()
    } else {
        match page_content(bodies.last().body) {
            PageContent::Content { title, text } => parsed_pages(bodies.drop_last()).push(
                PageView { url: bodies.last().url, title, text },
            ),
            _ => parsed_pages(bodies.drop_last()),
        }
    }
}

/// The pages that some documents hold.
pub open spec fn documents_pages(documents: Seq<Document>) -> Seq<PageView> {
    Seq::new(
        documents.len(),
        |i: int|
            PageView {
                url: documents[i]@.url,
                title: documents[i]@.title,
                text: documents[i]@.text[0].1,
            },
    )
}

/// Cuts each of the unwanted pieces out of a page's body, one after the
/// other, wherever it occurs.
pub fn clean_html(html: String, unwanted: &Vec<String>) -> (cleaned: String)
    ensures
        cleaned@ == cleaned_html(html@, strings_view(unwanted@)),
{
    let mut cleaned = html;
    let mut index: usize = 0;
    let ghost pieces = strings_view(unwanted@);
    while index < unwanted.len()
        invariant
            index <= unwanted@.len(),
            pieces == strings_view(unwanted@),
            cleaned@ == cleaned_html(html@, pieces.take(index as int)),
        decreases unwanted@.len() - index,
    {
        proof {
            let upto = pieces.take(index + 1);
            assert(upto.drop_last() =~= pieces.take(index as int));
        }
        if !unwanted[index].as_str().is_empty() {
            cleaned = replace_text(cleaned.as_str(), unwanted[index].as_str(), "");
            proof {
                reveal_strlit("");
                assert(""@ =~= Seq::<char>::empty());
            }
        }
        index += 1;
    }
    assert(pieces.take(index as int) =~= pieces);
    cleaned
}

/// Puts the text nodes on one line: the words of all nodes, each behind one
/// space.
pub fn join_nodes(nodes: &Vec<String>) -> (line: String)
    ensures
        line@ == one_line(strings_view(nodes@)),
{
    let mut line = String::new();
    let mut index: usize = 0;
    let ghost texts = strings_view(nodes@);
    while index < nodes.len()
        invariant
            index <= nodes@.len(),
            texts == strings_view(nodes@),
            line@ == one_line(texts.take(index as int)),
        decreases nodes@.len() - index,
    {
        proof {
            let upto = texts.take(index + 1);
            assert(upto.drop_last() =~= texts.take(index as int));
        }
        squeeze_onto(&mut line, nodes[index].as_str());
        index += 1;
    }
    assert(texts.take(index as int) =~= texts);
    line
}

/// What a page yields, as the crawler reads it.
pub enum Page {
    /// The page cannot be searched.
    Unreadable,
    /// The page has no body.
    Empty,
    /// The title of the page and the text of its body.
    Content { title: String, text: String },
}

impl Page {
    /// What the page holds.
    pub open spec fn content(self) -> PageContent {
        match self {
            Page::Unreadable => PageContent::Unreadable,
            Page::Empty => PageContent::Empty,
            Page::Content { title, text } => PageContent::Content { title: title@, text: text@ },
        }
    }
}

/// Reads the title and the text of a page.
pub fn parse_page(body: &str) -> (page: Page)
    ensures
        page.content() == page_content(body@),
{
    let title = match select_text(body, "title") {
        None => {
            return Page::Unreadable;
        },
        Some(None) => String::new(),
        Some(Some(title)) => title,
    };
    let html = match select_html(body, "body") {
        None => {
            return Page::Unreadable;
        },
        Some(None) => {
            return Page::Empty;
        },
        Some(Some(html)) => html,
    };
    let unwanted = match select_nested_html(body, "body", "script, nav") {
        None => {
            return Page::Unreadable;
        },
        Some(unwanted) => unwanted,
    };
    let cleaned = clean_html(html, &unwanted);
    let nodes = text_nodes(cleaned.as_str());
    Page::Content { title, text: join_nodes(&nodes) }
}

/// The documents of some fetched pages: one for each page that has a body,
/// in the order of the pages, with the text of the body as its basic text.
/// Where a page cannot be searched, there is no result.
pub fn parse_contents(bodies: Vec<Body>) -> (result: Result<Vec<Document>, AppError>)
    ensures
        some_unreadable(bodies_view(bodies@)) ==> result == Err::<Vec<Document>, AppError>(
            AppError::ContentParse,
        ),
        !some_unreadable(bodies_view(bodies@)) ==> result is Ok && documents_pages(result->Ok_0@)
            == parsed_pages(bodies_view(bodies@)) && forall|i: int|
            0 <= i < result->Ok_0@.len() ==> (#[trigger] result->Ok_0@[i])@.text.len() == 1
                && result->Ok_0@[i]@.text[0].0 == Collection::Basic,
{
    let mut documents: Vec<Document> = Vec::new();
    let ghost all = bodies_view(bodies@);
    for body in it: bodies
        invariant
            it.seq() == bodies@,
            all == bodies_view(bodies@),
            !some_unreadable(all.take(it.index() as int)),
            documents_pages(documents@) == parsed_pages(all.take(it.index() as int)),
            forall|i: int|
                0 <= i < documents@.len() ==> (#[trigger] documents@[i])@.text.len() == 1
                    && documents@[i]@.text[0].0 == Collection::Basic,
    {
        let ghost upto = all.take(it.index() + 1);
        proof {
            assert(upto.drop_last() =~= all.take(it.index() as int));
        }
        match parse_page(body.body.as_str()) {
            Page::Unreadable => {
                assert(page_content(all[it.index() as int].body) is Unreadable);
                return Err(AppError::ContentParse);
            },
            Page::Empty => {},
            Page::Content { title, text } => {
                let ghost held = documents@;
                let document = Document::new(Collection::Basic, body.url, title, text);
                documents.push(document);
                assert(documents_pages(documents@) =~= documents_pages(held).push(
                    PageView { url: body@.url, title: title@, text: text@ },
                ));
            },
        }
        proof {
            if some_unreadable(upto) {
                let k = choose|k: int|
                    0 <= k < upto.len() && page_content(#[trigger] upto[k].body) is Unreadable;
                assert(k == it.index() || all.take(it.index() as int)[k] == upto[k]);
            }
        }
    }
    assert(all.take(bodies@.len() as int) =~= all);
    Ok(documents)
}

/// The document of a single fetched page. A page without a body yields no
/// document, which is reported.
pub fn fetch_content(url: String, body: String) -> (result: Result<Document, AppError>)
    ensures
        match page_content(body@) {
            PageContent::Unreadable => result == Err::<Document, AppError>(AppError::ContentParse),
            PageContent::Empty => result == Err::<Document, AppError>(AppError::EmptyPage),
            PageContent::Content { title, text } => result is Ok && result->Ok_0@.url == url@
                && result->Ok_0@.title == title && result->Ok_0@.text == seq![
                (Collection::Basic, text),
            ],
        },
{
    match parse_page(body.as_str()) {
        Page::Unreadable => Err(AppError::ContentParse),
        Page::Empty => Err(AppError::EmptyPage),
        Page::Content { title, text } => Ok(Document::new(Collection::Basic, url, title, text)),
    }
}

/// The largest number of pages that are fetched at one time.
pub const CONCURRENT_REQUESTS: usize = 10;

/// How far the fetch of a page has come.
#[derive(Debug, Clone)]
pub enum PageState {
    /// The fetch has not begun.
    Pending,
    /// The fetch has begun and has not ended.
    InFlight,
    /// The page was fetched: its HTML.
    Loaded(String),
    /// The fetch failed.
    Failed,
}

/// What the state of a page holds.
pub enum PageStateView {
    Pending,
    InFlight,
    Loaded(Seq<char>),
    Failed,
}

impl View for PageState {
    type V = PageStateView;

    open spec fn view(&self) -> PageStateView {
        match self {
            PageState::Pending => PageStateView::Pending,
            PageState::InFlight => PageStateView::InFlight,
            PageState::Loaded(body) => PageStateView::Loaded(body@),
            PageState::Failed => PageStateView::Failed,
        }
    }
}

/// The number of pages whose fetch has begun and has not ended.
pub open spec fn count_in_flight(pages: Seq<PageStateView>) -> nat
    decreases pages.len(),
{
    if pages.len() == 0 {
        0
    } else if pages.last() is InFlight {
        count_in_flight(pages.drop_last()) + 1
    } else {
        count_in_flight(pages.drop_last())
    }
}

/// What one page adds to the number of fetches in flight.
pub open spec fn flight(page: PageStateView) -> nat {
    if page is InFlight {
        1
    } else {
        0
    }
}

/// A change of one page's state changes the number of fetches in flight by
/// what the page added before and adds after.
pub proof fn lemma_count_in_flight_update(
    pages: Seq<PageStateView>,
    index: int,
    page: PageStateView,
)
    requires
        0 <= index < pages.len(),
    ensures
        count_in_flight(pages.update(index, page)) + flight(pages[index]) == count_in_flight(pages)
            + flight(page),
        count_in_flight(pages) <= pages.len(),
    decreases pages.len(),
{
    let changed = pages.update(index, page);
    if index == pages.len() - 1 {
        assert(changed.drop_last() =~= pages.drop_last());
        lemma_count_in_flight_bound(pages.drop_last());
    } else {
        assert(changed.drop_last() =~= pages.drop_last().update(index, page));
        lemma_count_in_flight_update(pages.drop_last(), index, page);
    }
}

/// No more fetches are in flight than there are pages.
pub proof fn lemma_count_in_flight_bound(pages: Seq<PageStateView>)
    ensures
        count_in_flight(pages) <= pages.len(),
    decreases pages.len(),
{
    if pages.len() > 0 {
        lemma_count_in_flight_bound(pages.drop_last());
    }
}

/// Where no fetch has begun, none is in flight.
pub proof fn lemma_count_in_flight_pending(pages: Seq<PageStateView>)
    requires
        forall|i: int| 0 <= i < pages.len() ==> pages[i] is Pending,
    ensures
        count_in_flight(pages) == 0,
    decreases pages.len(),
{
    if pages.len() > 0 {
        lemma_count_in_flight_pending(pages.drop_last());
    }
}

/// What a crawl holds: the addresses of its pages, how far the fetch of each
/// has come, how many fetches have begun, and how many are in flight.
pub struct CrawlView {
    pub urls: Seq<Seq<char>>,
    pub pages: Seq<PageStateView>,
    pub started: nat,
    pub in_flight: nat,
}

impl CrawlView {
    /// The fetches begin in the order of the pages, and never more than
    /// `CONCURRENT_REQUESTS` of them are in flight.
    pub open spec fn wf(self) -> bool {
        &&& self.pages.len() == self.urls.len()
        &&& self.started <= self.pages.len()
        &&& forall|i: int| 0 <= i < self.started ==> !(#[trigger] self.pages[i] is Pending)
        &&& forall|i: int|
            self.started <= i < self.pages.len() ==> #[trigger] self.pages[i] is Pending
        &&& self.in_flight == count_in_flight(self.pages)
        &&& self.in_flight <= CONCURRENT_REQUESTS
    }

    /// Whether a fetch may begin: a page is left, and a place is free.
    pub open spec fn can_start(self) -> bool {
        self.started < self.pages.len() && self.in_flight < CONCURRENT_REQUESTS
    }

    /// Whether every fetch has begun and ended.
    pub open spec fn done(self) -> bool {
        self.started == self.pages.len() && self.in_flight == 0
    }
}

/// The fetched pages among the pages of a crawl, in the order of the
/// sitemap.
pub open spec fn loaded_pages(urls: Seq<Seq<char>>, pages: Seq<PageStateView>) -> Seq<BodyView>
    decreases pages.len(),
{
    if pages.len() == 0 || urls.len() != pages.len() {
        Seq::empty()
    } else {
        match pages.last() {
            PageStateView::Loaded(body) => loaded_pages(urls.drop_last(), pages.drop_last()).push(
                BodyView { url: urls.last(), body },
            ),
            _ => loaded_pages(urls.drop_last(), pages.drop_last()),
        }
    }
}

/// The crawl of the pages of a sitemap. It says which page to fetch next,
/// takes the answers in any order, and holds the fetches in flight to
/// `CONCURRENT_REQUESTS`.
#[derive(Debug)]
pub struct Crawl {
    urls: Vec<String>,
    pages: Vec<PageState>,
    started: usize,
    in_flight: usize,
}

/// What a list of page states holds.
spec fn pages_view(pages: Seq<PageState>) -> Seq<PageStateView> {
    Seq::new(pages.len(), |i: int| pages[i]@)
}

impl View for Crawl {
    type V = CrawlView;

    closed spec fn view(&self) -> CrawlView {
        CrawlView {
            urls: strings_view(self.urls@),
            pages: pages_view(self.pages@),
            started: self.started as nat,
            in_flight: self.in_flight as nat,
        }
    }
}

impl Crawl {
    #[verifier::type_invariant]
    spec fn inv(self) -> bool {
        self@.wf()
    }

    /// A crawl without pages.
    fn empty() -> (crawl: Crawl)
        ensures
            crawl@ == (CrawlView {
                urls: Seq::empty(),
                pages: Seq::empty(),
                started: 0,
                in_flight: 0,
            }),
            crawl@.wf(),
            crawl@.done(),
    {
        let urls: Vec<String> = Vec::new();
        let pages: Vec<PageState> = Vec::new();
        assert(strings_view(urls@) =~= Seq::<Seq<char>>::empty());
        assert(pages_view(pages@) =~= Seq::<PageStateView>::empty());
        Crawl { urls, pages, started: 0, in_flight: 0 }
    }

    /// The number of fetches in flight.
    pub fn in_flight(&self) -> (count: usize)
        ensures
            count == self@.in_flight,
            count <= CONCURRENT_REQUESTS,
            self@.wf(),
    {
        proof {
            use_type_invariant(self);
        }
        self.in_flight
    }

    /// The number of pages.
    pub fn len(&self) -> (count: usize)
        ensures
            count == self@.urls.len(),
            self@.wf(),
    {
        proof {
            use_type_invariant(self);
        }
        self.urls.len()
    }

    /// Whether every fetch has begun and ended.
    pub fn is_done(&self) -> (done: bool)
        ensures
            done == self@.done(),
            self@.wf(),
    {
        proof {
            use_type_invariant(self);
        }
        self.started == self.pages.len() && self.in_flight == 0
    }

    /// Begins the fetch of the next page, if a page is left and fewer than
    /// `CONCURRENT_REQUESTS` fetches are in flight: the place of the page in
    /// the sitemap and its address. Else nothing changes.
    pub fn next_fetch(&mut self) -> (next: Option<(usize, String)>)
        ensures
            final(self)@.wf(),
            old(self)@.can_start() ==> next is Some && next->Some_0.0 == old(self)@.started
                && next->Some_0.1@ == old(self)@.urls[old(self)@.started as int] && final(self)@
                == (CrawlView {
                pages: old(self)@.pages.update(
                    old(self)@.started as int,
                    PageStateView::InFlight,
                ),
                started: old(self)@.started + 1,
                in_flight: old(self)@.in_flight + 1,
                ..old(self)@
            }),
            !old(self)@.can_start() ==> next is None && final(self)@ == old(self)@,
    {
        proof {
            use_type_invariant(&*self);
        }
        if self.started >= self.pages.len() || self.in_flight >= CONCURRENT_REQUESTS {
            return None;
        }
        let ghost before = self@;
        let mut taken = Crawl::empty();
        core::mem::swap(self, &mut taken);
        let Crawl { urls, mut pages, started, in_flight } = taken;
        let url = urls[started].clone();
        proof {
            lemma_count_in_flight_update(before.pages, started as int, PageStateView::InFlight);
        }
        pages.remove(started);
        pages.insert(started, PageState::InFlight);
        assert(pages_view(pages@) =~= before.pages.update(
            started as int,
            PageStateView::InFlight,
        ));
        *self = Crawl { urls, pages, started: started + 1, in_flight: in_flight + 1 };
        Some((started, url))
    }

    /// Takes the answer to the fetch of the page at a place: its HTML, or
    /// nothing where the fetch failed. Where no fetch of that page is in
    /// flight, the answer is refused and nothing changes.
    pub fn complete(&mut self, index: usize, body: Option<String>) -> (accepted: bool)
        ensures
            final(self)@.wf(),
            accepted == (index < old(self)@.pages.len() && old(self)@.pages[index as int]
                is InFlight),
            accepted ==> final(self)@ == (CrawlView {
                pages: old(self)@.pages.update(
                    index as int,
                    match body {
                        Some(body) => PageStateView::Loaded(body@),
                        None => PageStateView::Failed,
                    },
                ),
                in_flight: (old(self)@.in_flight - 1) as nat,
                ..old(self)@
            }),
            !accepted ==> final(self)@ == old(self)@,
    {
        proof {
            use_type_invariant(&*self);
        }
        if index >= self.pages.len() {
            return false;
        }
        match self.pages[index] {
            PageState::InFlight => {},
            _ => {
                return false;
            },
        }
        let ghost before = self@;
        let state = match body {
            Some(body) => PageState::Loaded(body),
            None => PageState::Failed,
        };
        let mut taken = Crawl::empty();
        core::mem::swap(self, &mut taken);
        let Crawl { urls, mut pages, started, in_flight } = taken;
        proof {
            lemma_count_in_flight_update(before.pages, index as int, state@);
        }
        pages.remove(index);
        pages.insert(index, state);
        assert(pages_view(pages@) =~= before.pages.update(index as int, state@));
        *self = Crawl { urls, pages, started, in_flight: in_flight - 1 };
        true
    }

    /// The fetched pages, in the order of the sitemap. A page whose fetch
    /// failed is passed over; where the sitemap lists pages and none of them
    /// was fetched, there is no result.
    pub fn bodies(self) -> (result: Result<Vec<Body>, AppError>)
        ensures
            self@.urls.len() > 0 && loaded_pages(self@.urls, self@.pages).len() == 0 ==> result
                == Err::<Vec<Body>, AppError>(AppError::NoPageFetched),
            self@.urls.len() == 0 || loaded_pages(self@.urls, self@.pages).len() > 0
                ==> result is Ok && bodies_view(result->Ok_0@) == loaded_pages(
                self@.urls,
                self@.pages,
            ),
    {
        proof {
            use_type_invariant(&self);
        }
        let ghost view = self@;
        let Crawl { urls, pages, started, in_flight } = self;
        let listed = urls.len();
        let mut bodies: Vec<Body> = Vec::new();
        let mut index: usize = 0;
        for state in it: pages
            invariant
                it.seq() == pages@,
                index == it.index(),
                listed == urls@.len(),
                view.urls == strings_view(urls@),
                view.pages == pages_view(pages@),
                view.pages.len() == view.urls.len(),
                bodies_view(bodies@) == loaded_pages(
                    view.urls.take(it.index() as int),
                    view.pages.take(it.index() as int),
                ),
        {
            proof {
                let urls_upto = view.urls.take(index + 1);
                let pages_upto = view.pages.take(index + 1);
                assert(urls_upto.drop_last() =~= view.urls.take(index as int));
                assert(pages_upto.drop_last() =~= view.pages.take(index as int));
            }
            match state {
                PageState::Loaded(body) => {
                    bodies.push(Body { url: urls[index].clone(), body });
                },
                _ => {},
            }
            index += 1;
        }
        assert(view.urls.take(index as int) =~= view.urls);
        assert(view.pages.take(index as int) =~= view.pages);
        if listed > 0 && bodies.len() == 0 {
            Err(AppError::NoPageFetched)
        } else {
            Ok(bodies)
        }
    }
}

/// The documents of a crawl: those of the pages that were fetched, in the
/// order of the sitemap. A page whose fetch failed is passed over; where the
/// sitemap lists pages and none of them was fetched, or where a fetched page
/// cannot be searched, there is no result.
pub fn finish(crawl: Crawl) -> (result: Result<Vec<Document>, AppError>)
    ensures
        ({
            let loaded = loaded_pages(crawl@.urls, crawl@.pages);
            if crawl@.urls.len() > 0 && loaded.len() == 0 {
                result == Err::<Vec<Document>, AppError>(AppError::NoPageFetched)
            } else if some_unreadable(loaded) {
                result == Err::<Vec<Document>, AppError>(AppError::ContentParse)
            } else {
                &&& result is Ok
                &&& documents_pages(result->Ok_0@) == parsed_pages(loaded)
                &&& forall|i: int|
                    0 <= i < result->Ok_0@.len() ==> (#[trigger] result->Ok_0@[i])@.text.len() == 1
                        && result->Ok_0@[i]@.text[0].0 == Collection::Basic
            }
        }),
{
    match crawl.bodies() {
        Ok(bodies) => parse_contents(bodies),
        Err(error) => Err(error),
    }
}

/// The crawl of some pages: no fetch has begun.
pub fn fetch_bodies(urls: Vec<String>) -> (crawl: Crawl)
    ensures
        crawl@.wf(),
        crawl@.urls == strings_view(urls@),
        crawl@.started == 0,
        crawl@.in_flight == 0,
        forall|i: int| 0 <= i < crawl@.pages.len() ==> crawl@.pages[i] is Pending,
{
    let mut pages: Vec<PageState> = Vec::new();
    let mut index: usize = 0;
    while index < urls.len()
        invariant
            index <= urls@.len(),
            pages@.len() == index,
            forall|i: int| 0 <= i < index ==> pages@[i] is Pending,
        decreases urls@.len() - index,
    {
        pages.push(PageState::Pending);
        index += 1;
    }
    proof {
        lemma_count_in_flight_pending(pages_view(pages@));
    }
    Crawl { urls, pages, started: 0, in_flight: 0 }
}

/// The crawl of the pages that a sitemap lists. The sitemap comes as its
/// text, or as the reason why it could not be retrieved. A sitemap that
/// could not be retrieved, or that cannot be searched, ends the crawl before
/// it began; the failure carries the reason.
pub fn sitemap(body: Result<String, String>) -> (result: Result<Crawl, AppError>)
    ensures
        body is Err ==> (result matches Err(AppError::SitemapFetch { reason }) && reason@
            == body->Err_0@),
        body is Ok && selected_inner_html(body->Ok_0@, "loc"@) is None ==> result matches Err(
            AppError::SitemapParse,
        ),
        body is Ok && selected_inner_html(body->Ok_0@, "loc"@) is Some ==> result is Ok
            && result->Ok_0@.wf() && result->Ok_0@.urls == selected_inner_html(
            body->Ok_0@,
            "loc"@,
        )->Some_0 && result->Ok_0@.started == 0 && result->Ok_0@.in_flight == 0,
{
    match body {
        Err(reason) => Err(AppError::SitemapFetch { reason }),
        Ok(body) => match get_urls(body) {
            Ok(urls) => Ok(fetch_bodies(urls)),
            Err(error) => Err(error),
        },
    }
}

/// What a fetch that was answered yields: the text of the answer where its
/// status is one of success, from 200 to 299, and nothing else. A fetch
/// that gave no text yields nothing.
pub fn page_body(status: u16, text: Option<String>) -> (body: Option<String>)
    ensures
        body == if 200 <= status < 300 {
            text
        } else {
            None::<String>
        },
{
    if 200 <= status && status < 300 {
        text
    } else {
        None
    }
}

} // verus!
