//! The structured-data locator: the script blocks of a page that hold its
//! embedded document.

use vstd::prelude::*;

verus! {

/// The longest page, in characters, that is handed to the parser. The parser
/// keeps the page and every text of its tree in buffers of at most 2^32
/// bytes, which it grows to the next power of two. A character takes at most
/// four bytes there, so a page within this limit, and every text read from
/// it, stays below 2^30 bytes.
pub const MAX_PAGE_CHARS: usize = 0x0FFF_FFFF;

/// No structured-data block stands in the page.
#[derive(Debug, Clone, Copy, PartialEq, Eq)]
pub struct NotFound;

/// The characters of each text of a list, in order.
pub open spec fn texts(list: Seq<String>) -> Seq<Seq<char>> {
    list.map_values(|s: String| s@)
}

/// The inner HTML of each element of `document` that `selector` matches, in
/// the order in which scraper's selection hands them out; nothing where
/// scraper rejects the selector.
pub uninterp spec fn selected_html(document: Seq<char>, selector: Seq<char>) -> Seq<Seq<char>>;

/// `scraper::Html::parse_document`, `scraper::Selector::parse`,
/// `scraper::Html::select` and `scraper::ElementRef::inner_html`: parses the
/// page, which fails on no content, and hands out the inner HTML of every
/// match. The result depends on the two texts alone. The parser panics on a
/// page whose buffers outgrow their limit, so the page is bounded; of the
/// selectors only the one that the locator uses is admitted.
#[verifier::external_body]
fn select_inner_html(document: &str, selector: &str) -> (r: Vec<String>)
    requires
        document@.len() <= MAX_PAGE_CHARS,
        selector@ == "script[type='application/ld+json']"@,
    ensures
        texts(r@) == selected_html(document@, selector@),
{
    let html = scraper::Html::parse_document(document);
    let mut found: Vec<String> = Vec::new();
    if let Ok(parsed) = scraper::Selector::parse(selector) {
        for element in html.select(&parsed) {
            found.push(element.inner_html());
        }
    }
    found
}

/// Accepts the blocks found in a page unless there is none.
pub fn check_blocks(blocks: Vec<String>) -> (r: Result<Vec<String>, NotFound>)
    ensures
        blocks@.len() == 0 ==> r is Err,
        blocks@.len() > 0 ==> r == Ok::<Vec<String>, NotFound>(blocks),
{
    if blocks.len() == 0 {
        Err(NotFound)
    } else {
        Ok(blocks)
    }
}

/// The block that resolution reads: the first one, whatever follows it.
pub fn first_block(blocks: &Vec<String>) -> (r: Option<&String>)
    ensures
        blocks@.len() == 0 ==> r is None,
        blocks@.len() > 0 ==> r == Some(&blocks@[0]),
{
    if blocks.len() == 0 {
        None
    } else {
        Some(&blocks[0])
    }
}

/// The contents of the structured-data script blocks of a page, in the
/// order in which the selection gives them. It fails exactly where the page
/// has no such block. The page must be one that the parser can hold.
pub fn structured_data(html: &str) -> (r: Result<Vec<String>, NotFound>)
    requires
        html@.len() <= MAX_PAGE_CHARS,
    ensures
        selected_html(html@, "script[type='application/ld+json']"@).len() == 0 ==> r is Err,
        selected_html(html@, "script[type='application/ld+json']"@).len() > 0 ==> r is Ok && texts(
            r->Ok_0@,
        ) == selected_html(html@, "script[type='application/ld+json']"@),
{
    let blocks = select_inner_html(html, "script[type='application/ld+json']");
    assert(texts(blocks@).len() == blocks@.len());
    check_blocks(blocks)
}

} // verus!
