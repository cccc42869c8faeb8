//! Scraping of the TNTVillage release list: the request that asks the site
//! for a page of releases, the reading of the answer into release entries,
//! and the small decisions of the command-line client around it.

use vstd::prelude::*;

pub mod outside;
pub mod category;
pub mod text;
pub mod html;
pub mod selector_cache;
pub mod tnt_scraper;
pub mod downloader;
pub mod prompt;



pub use category::TntCategory;
pub use selector_cache::SelectorCache;
pub use tnt_scraper::scrape;

use text::{decimal, decimal_chars, str_chars, string_from_chars, append_chars};

verus! {

/// What can go wrong while asking the site or reading its answer. The
/// failures of the HTTP client and of the header parser are carried as their
/// messages.
#[derive(Debug)]
pub enum Error {
    DownloadError(String),
    HyperError(String),
    ScrapeError(String),
    ParseError(String),
    GenericError(String),
    IOError(std::io::Error),
}

/// The release list endpoint of the site.
pub const URL: &'static str = "http://www.tntvillage.scambioetico.org/src/releaselist.php";

/// One release of the list, as plain values.
pub struct EntryModel {
    pub id: u32,
    pub download_link: Seq<char>,
    pub leechers: u32,
    pub seeders: u32,
    pub c: u32,
    pub url: Seq<char>,
    pub desc: Seq<char>,
}

/// One release of the list.
pub struct TntEntry {
    id: u32,
    download_link: String,
    leechers: u32,
    seeders: u32,
    c: u32,
    url: String,
    desc: String,
}

impl View for TntEntry {
    type V = EntryModel;

    closed spec fn view(&self) -> EntryModel {
        EntryModel {
            id: self.id,
            download_link: self.download_link@,
            leechers: self.leechers,
            seeders: self.seeders,
            c: self.c,
            url: self.url@,
            desc: self.desc@,
        }
    }
}

/// The line that shows a release: `[id] description (download link)`.
pub open spec fn entry_line(e: EntryModel) -> Seq<char> {
    "["@ + decimal(e.id as nat) + "] "@ + e.desc + " ("@ + e.download_link + ")"@
}

impl TntEntry {
    /// A release with the given number, description and download link; its
    /// counters are 1 and its page address is empty.
    pub fn new(id: u32, desc: String, download_link: String) -> (r: TntEntry)
        ensures
            r@ == (EntryModel {
                id,
                download_link: download_link@,
                leechers: 1,
                seeders: 1,
                c: 1,
                url: Seq::empty(),
                desc: desc@,
            }),
    {
        TntEntry {
            id,
            desc,
            c: 1,
            leechers: 1,
            seeders: 1,
            download_link,
            url: String::new(),
        }
    }

    /// The line that shows the release: `[id] description (download link)`.
    pub fn to_string(&self) -> (r: String)
        ensures
            r@ == entry_line(self@),
    {
        let mut line: Vec<char> = str_chars("[");
        let id: Vec<char> = decimal_chars(self.id as u64);
        append_chars(&mut line, &id);
        append_chars(&mut line, &str_chars("] "));
        append_chars(&mut line, &str_chars(self.desc.as_str()));
        append_chars(&mut line, &str_chars(" ("));
        append_chars(&mut line, &str_chars(self.download_link.as_str()));
        append_chars(&mut line, &str_chars(")"));
        string_from_chars(&line)
    }

    /// The number of the release in its page.
    pub fn id(&self) -> (r: u32)
        ensures
            r == self@.id,
    {
        self.id
    }

    /// The link of the release's torrent file.
    pub fn download_link(&self) -> (r: &str)
        ensures
            r@ == self@.download_link,
    {
        self.download_link.as_str()
    }

    /// The description of the release.
    pub fn desc(&self) -> (r: &str)
        ensures
            r@ == self@.desc,
    {
        self.desc.as_str()
    }
}

/// The views of a sequence of releases.
pub open spec fn entries_model(v: Seq<TntEntry>) -> Seq<EntryModel> {
    v.map_values(|e: TntEntry| e@)
}

/// A page of releases and the number of pages the search has.
pub struct TntResult {
    pub entries: Vec<TntEntry>,
    pub npages: u8,
}

impl TntResult {
    pub fn new(entries: Vec<TntEntry>, npages: u8) -> (r: TntResult)
        ensures
            r.entries@ == entries@,
            r.npages == npages,
    {
        TntResult { entries, npages }
    }
}

/// A search: the text to look for, the category and the page of results.
pub struct RequestData {
    page: u8,
    cat: TntCategory,
    srcrel: String,
}

impl View for RequestData {
    type V = (Seq<char>, TntCategory, u8);

    /// The text, the category and the page.
    closed spec fn view(&self) -> (Seq<char>, TntCategory, u8) {
        (self.srcrel@, self.cat, self.page)
    }
}

/// The form fields of a search, as names and values.
pub open spec fn form_fields(q: (Seq<char>, TntCategory, u8)) -> Seq<(Seq<char>, Seq<char>)> {
    seq![
        ("srcrel"@, q.0),
        ("cat"@, decimal(category::category_code(q.1) as nat)),
        ("page"@, decimal(q.2 as nat)),
    ]
}

/// A search posts three fields: `srcrel`, which is its text exactly,
/// whatever characters it holds; and `cat` and `page`, which read back, as
/// numbers, as the category and the page of the search.
pub proof fn lemma_form_fields_read_back(q: (Seq<char>, TntCategory, u8))
    ensures
        form_fields(q).len() == 3,
        form_fields(q)[0].0 == "srcrel"@ && form_fields(q)[1].0 == "cat"@ && form_fields(q)[2].0
            == "page"@,
        form_fields(q)[0].1 == q.0,
        text::spec_parse_u8(form_fields(q)[1].1) == Some(category::category_code(q.1)),
        category::category_of_code(category::category_code(q.1)) == q.1,
        text::spec_parse_u8(form_fields(q)[2].1) == Some(q.2),
{
    text::lemma_parse_u8_of_decimal(category::category_code(q.1));
    text::lemma_parse_u8_of_decimal(q.2);
    category::lemma_category_of_code(q.1);
}

impl RequestData {
    pub fn new(query: &str, cat: TntCategory, page: u8) -> (r: RequestData)
        ensures
            r@ == (query@, cat, page),
    {
        RequestData { cat, page, srcrel: String::from_str(query) }
    }

    /// The form fields that the search is posted with: the text as
    /// `srcrel`, the category code as `cat` and the page as `page`, numbers
    /// in decimal.
    pub fn form_params(&self) -> (r: Vec<(String, String)>)
        ensures
            r@.len() == 3,
            forall|k: int|
                0 <= k < 3 ==> (#[trigger] r@[k]).0@ == form_fields(self@)[k].0 && r@[k].1@
                    == form_fields(self@)[k].1,
    {
        let cat: Vec<char> = decimal_chars(self.cat.value() as u64);
        let page: Vec<char> = decimal_chars(self.page as u64);
        let mut r: Vec<(String, String)> = Vec::new();
        r.push((String::from_str("srcrel"), self.srcrel.clone()));
        r.push((String::from_str("cat"), string_from_chars(&cat)));
        r.push((String::from_str("page"), string_from_chars(&page)));
        r
    }
}

} // verus!
