use vstd::prelude::*;
use crate::error::IngestError;
use crate::paginate::{pages, split_into_pages, WORDS_PER_PAGE};
use crate::text::{decimal, push_decimal};
use crate::upload::Document;

verus! {

/// One representation a catalog offers of a book: its media type and where to fetch it.
#[derive(Debug, Clone)]
pub struct FormatLink {
    pub mime: String,
    pub url: String,
}

/// A book as the catalog describes it.
#[derive(Debug, Clone)]
pub struct CatalogBook {
    pub id: u64,
    pub title: String,
    pub authors: Vec<String>,
    pub formats: Vec<FormatLink>,
    pub download_count: u64,
}

impl CatalogBook {
    /// Each media type is offered once, as in the catalog's map of formats.
    pub open spec fn wf(&self) -> bool {
        formats_unique(self.formats@)
    }
}

/// No media type appears twice in `fs`.
pub open spec fn formats_unique(fs: Seq<FormatLink>) -> bool {
    forall|i: int, j: int| 0 <= i < j < fs.len() ==> fs[i].mime@ != fs[j].mime@
}

/// A book as a search lists it.
#[derive(Debug, Clone)]
pub struct BookSummary {
    pub id: u64,
    pub title: String,
    pub authors: Vec<String>,
    pub download_count: u64,
}

/// The address of the catalog's book listing.
pub open spec fn catalog_books_url() -> Seq<char> {
    "https://gutendex.com/books/"@
}

/// The search language of a query that names none.
pub open spec fn default_search_language() -> Seq<char> {
    "de"@
}

/// Preferred media type of a book's text.
pub open spec fn utf8_text_mime() -> Seq<char> {
    "text/plain; charset=utf-8"@
}

/// Fallback media type of a book's text.
pub open spec fn plain_text_mime() -> Seq<char> {
    "text/plain"@
}

/// The URL that `fs` gives for media type `mime`: that of its first entry with it.
pub open spec fn format_url(fs: Seq<FormatLink>, mime: Seq<char>) -> Option<Seq<char>>
    decreases fs.len(),
{
    if fs.len() == 0 {
        None
    } else if fs[0].mime@ == mime {
        Some(fs[0].url@)
    } else {
        format_url(fs.drop_first(), mime)
    }
}

/// Where each media type is offered once, looking one up gives the URL of
/// its entry, wherever the entry stands: `fs` behaves as a map.
pub proof fn lemma_format_url_of_entry(fs: Seq<FormatLink>, i: int)
    requires
        formats_unique(fs),
        0 <= i < fs.len(),
    ensures
        format_url(fs, fs[i].mime@) == Some(fs[i].url@),
    decreases i,
{
    if i > 0 {
        let d = fs.drop_first();
        assert(fs[0].mime@ != fs[i].mime@);
        assert(d[i - 1] == fs[i]);
        assert(formats_unique(d)) by {
            assert forall|a: int, b: int| 0 <= a < b < d.len() implies d[a].mime@ != d[b].mime@ by {
                assert(d[a] == fs[a + 1] && d[b] == fs[b + 1]);
            }
        }
        lemma_format_url_of_entry(d, i - 1);
    }
}

/// A media type that no entry of `fs` offers has no URL, and one that has no
/// URL is offered by no entry.
pub proof fn lemma_format_url_absent(fs: Seq<FormatLink>, mime: Seq<char>)
    ensures
        format_url(fs, mime) is None <==> forall|i: int| 0 <= i < fs.len() ==> #[trigger] fs[i].mime@ != mime,
    decreases fs.len(),
{
    if fs.len() > 0 {
        let d = fs.drop_first();
        lemma_format_url_absent(d, mime);
        assert forall|i: int| 0 < i < fs.len() implies #[trigger] fs[i] == d[i - 1] by {}
        if format_url(fs, mime) is None {
            assert forall|i: int| 0 <= i < fs.len() implies #[trigger] fs[i].mime@ != mime by {
                if i > 0 {
                    assert(fs[i] == d[i - 1]);
                }
            }
        } else if fs[0].mime@ != mime {
            let k = choose|k: int| 0 <= k < d.len() && #[trigger] d[k].mime@ == mime;
            assert(fs[k + 1] == d[k]);
        }
    }
}

/// The URL of a book's plain text: the UTF-8 one if offered, else the plain one.
pub open spec fn text_url(fs: Seq<FormatLink>) -> Option<Seq<char>> {
    match format_url(fs, utf8_text_mime()) {
        Some(u) => Some(u),
        None => format_url(fs, plain_text_mime()),
    }
}

/// Looks up the URL that `fs` gives for media type `mime`.
pub fn find_format(fs: &Vec<FormatLink>, mime: &String) -> (r: Option<String>)
    ensures
        r is Some <==> format_url(fs@, mime@) is Some,
        r is Some ==> r->Some_0@ == format_url(fs@, mime@)->Some_0,
{
    let mut i: usize = 0;
    assert(fs@.skip(0) =~= fs@);
    while i < fs.len()
        invariant
            i <= fs.len(),
            format_url(fs@, mime@) == format_url(fs@.skip(i as int), mime@),
        decreases fs.len() - i,
    {
        assert(fs@.skip(i as int)[0] == fs@[i as int]);
        if fs[i].mime == *mime {
            return Some(fs[i].url.clone());
        }
        assert(fs@.skip(i as int).drop_first() =~= fs@.skip(i + 1));
        i = i + 1;
    }
    assert(fs@.skip(i as int).len() == 0);
    None
}

/// Chooses the URL to fetch a book's text from; a book without plain text
/// fails, and nothing is to be fetched for it.
pub fn select_text_url(book: &CatalogBook) -> (r: Result<String, IngestError>)
    ensures
        r is Ok <==> text_url(book.formats@) is Some,
        r is Ok ==> r->Ok_0@ == text_url(book.formats@)->Some_0,
        r is Err ==> r->Err_0 is NoPlainTextFormat,
{
    let utf8 = String::from_str("text/plain; charset=utf-8");
    match find_format(&book.formats, &utf8) {
        Some(u) => Ok(u),
        None => {
            let plain = String::from_str("text/plain");
            match find_format(&book.formats, &plain) {
                Some(u) => Ok(u),
                None => Err(IngestError::NoPlainTextFormat),
            }
        },
    }
}

/// Where the catalog describes the book `id`.
pub fn metadata_url(id: u64) -> (r: String)
    ensures
        r@ == catalog_books_url() + decimal(id as nat),
{
    let mut r = String::from_str("https://gutendex.com/books/");
    push_decimal(&mut r, id);
    r
}

/// The catalog's listing address, for searches.
pub fn search_url() -> (r: String)
    ensures
        r@ == catalog_books_url(),
{
    String::from_str("https://gutendex.com/books/")
}

/// The language to search in: the one asked for, else the default.
pub fn search_language(lang: Option<String>) -> (r: String)
    ensures
        r@ == match lang {
            Some(l) => l@,
            None => default_search_language(),
        },
{
    match lang {
        Some(l) => l,
        None => String::from_str("de"),
    }
}

/// A book as a search lists it.
pub open spec fn summary_of(b: CatalogBook, s: BookSummary) -> bool {
    &&& s.id == b.id
    &&& s.title@ == b.title@
    &&& s.authors@.map_values(|a: String| a@) == b.authors@.map_values(|a: String| a@)
    &&& s.download_count == b.download_count
}

/// Lists the books a search found, in the catalog's order.
pub fn summarize_books(books: Vec<CatalogBook>) -> (r: Vec<BookSummary>)
    ensures
        r.len() == books.len(),
        forall|i: int| 0 <= i < r.len() ==> summary_of(books@[i], #[trigger] r@[i]),
{
    let mut out: Vec<BookSummary> = Vec::new();
    for i in 0..books.len()
        invariant
            out.len() == i,
            forall|k: int| 0 <= k < i ==> summary_of(books@[k], #[trigger] out@[k]),
    {
        let b = &books[i];
        let authors = clone_texts(&b.authors);
        out.push(BookSummary {
            id: b.id,
            title: b.title.clone(),
            authors,
            download_count: b.download_count,
        });
    }
    out
}

/// A copy of `v`.
fn clone_texts(v: &Vec<String>) -> (r: Vec<String>)
    ensures
        r@.map_values(|a: String| a@) == v@.map_values(|a: String| a@),
{
    let mut out: Vec<String> = Vec::new();
    for i in 0..v.len()
        invariant
            out.len() == i,
            forall|k: int| 0 <= k < i ==> #[trigger] out@[k]@ == v@[k]@,
    {
        out.push(v[i].clone());
    }
    assert(out@.map_values(|a: String| a@) =~= v@.map_values(|a: String| a@));
    out
}

/// The imported book: its title, and its fetched text cut into pages.
pub fn import_document(book: CatalogBook, text: &str) -> (r: Document)
    ensures
        r.title@ == book.title@,
        r.page_texts() == pages(text@, WORDS_PER_PAGE as nat),
{
    Document { title: book.title, pages: split_into_pages(text) }
}

} // verus!
