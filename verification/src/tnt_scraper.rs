//! Reading a release-list page into release entries.
//!
//! The page is a table: after a header row, each row is a release whose
//! first cell holds a link to the torrent file and whose seventh cell holds
//! the description. An element of class `total` carries the number of pages
//! in its attribute `a`.

use vstd::prelude::*;
use crate::{Error, EntryModel, TntEntry, TntResult, entries_model};
use crate::html::{
    Cell, CellModel, CssSelector, PageData, PageModel, PageQuery, ascii_word, cell_model, simple_selector,
    html_page, opt_string_view, page_model, parsed_css, query_page, row_model,
};
use crate::selector_cache::{SelectorCache, cache_faithful};
use crate::text::{
    join, join_strings, lemma_join_layout, part_start, total_len, parse_u8, spec_parse_u8, str_chars, string_from_chars, strings_view,
};

verus! {

/// Whether `r` is what `s` describes: the same text on success, and a
/// `ParseError` with the same message on failure.
pub open spec fn text_result_is(r: Result<String, Error>, s: Result<Seq<char>, Seq<char>>) -> bool {
    match s {
        Ok(t) => r matches Ok(x) && x@ == t,
        Err(m) => r matches Err(Error::ParseError(x)) && x@ == m,
    }
}

/// The description of a release row: the text nodes of its seventh cell,
/// joined with single spaces; an error where the row has fewer cells.
pub open spec fn spec_desc(cells: Seq<CellModel>) -> Result<Seq<char>, Seq<char>> {
    if cells.len() > 6 {
        Ok(join(cells[6].0, " "@))
    } else {
        Err("6 not found"@)
    }
}

/// The description of a row with at least seven cells holds every text
/// node of the seventh cell, in order, each at its place, with a single
/// space between each two and nothing else: its length is that of the nodes
/// together plus one for each two neighbours.
pub proof fn lemma_desc_holds_all_text(cells: Seq<CellModel>)
    requires
        cells.len() > 6,
    ensures
        spec_desc(cells) matches Ok(d) && {
            let t: Seq<Seq<char>> = cells[6].0;
            &&& t.len() == 0 ==> d.len() == 0
            &&& t.len() > 0 ==> d.len() == total_len(t) + t.len() - 1
            &&& forall|i: int|
                0 <= i < t.len() ==> d.subrange(
                    part_start(t, i),
                    part_start(t, i) + (#[trigger] t[i]).len(),
                ) == t[i]
            &&& forall|i: int| 0 < i < t.len() ==> d[#[trigger] part_start(t, i) - 1] == ' '
        },
{
    reveal_strlit(" ");
    lemma_join_layout(cells[6].0, " "@);
}

/// The torrent link of a release row: the link attribute of the first link
/// in its first cell, empty where that link has none; an error where the row
/// has no cell or the first cell no link.
pub open spec fn spec_torrent(cells: Seq<CellModel>) -> Result<Seq<char>, Seq<char>> {
    if cells.len() == 0 {
        Err("0 not found"@)
    } else if cells[0].1.len() == 0 {
        Err("a not found"@)
    } else {
        match cells[0].1[0] {
            Some(href) => Ok(href),
            None => Ok(Seq::empty()),
        }
    }
}

/// The release that row number `i` describes: its description and torrent
/// link, the number `i` (as a `u32`), counters of 1 and an empty page
/// address; or the first error of the two readings.
pub open spec fn spec_entry(cells: Seq<CellModel>, i: int) -> Result<EntryModel, Seq<char>> {
    match spec_desc(cells) {
        Err(m) => Err(m),
        Ok(desc) => match spec_torrent(cells) {
            Err(m) => Err(m),
            Ok(link) => Ok(
                EntryModel {
                    id: i as u32,
                    download_link: link,
                    leechers: 1,
                    seeders: 1,
                    c: 1,
                    url: Seq::empty(),
                    desc,
                },
            ),
        },
    }
}

/// The releases of rows 1 to `n - 1` (row 0 is the header), in order,
/// leaving out the rows that do not read as a release.
pub open spec fn entries_upto(rows: Seq<Seq<CellModel>>, n: int) -> Seq<EntryModel>
    decreases n,
{
    if n <= 1 {
        Seq::empty()
    } else {
        let before: Seq<EntryModel> = entries_upto(rows, n - 1);
        match spec_entry(rows[n - 1], n - 1) {
            Ok(e) => before.push(e),
            Err(_) => before,
        }
    }
}

/// The releases of a page.
pub open spec fn spec_entries(rows: Seq<Seq<CellModel>>) -> Seq<EntryModel> {
    entries_upto(rows, rows.len() as int)
}

/// The number of pages: the page-count attribute of the first page-count
/// element read as a `u8`, and 1 where there is no such element, it lacks
/// the attribute, or the value does not read as a `u8`.
pub open spec fn spec_npages(totals: Seq<Option<Seq<char>>>) -> u8 {
    if totals.len() > 0 && totals[0] is Some && spec_parse_u8(totals[0]->0) is Some {
        spec_parse_u8(totals[0]->0)->0
    } else {
        1
    }
}

/// The releases of a page come from its rows after the header, in order:
/// there are fewer of them than rows, each has counters of 1 and an empty
/// page address, and (on a page of fewer than 2^32 rows) their numbers are
/// at least 1 and strictly increasing.
pub proof fn lemma_entries_shape(rows: Seq<Seq<CellModel>>, n: int)
    requires
        0 <= n <= rows.len(),
        rows.len() <= 0x1_0000_0000,
    ensures
        entries_upto(rows, n).len() <= if n > 0 {
            n - 1
        } else {
            0
        },
        forall|k: int|
            0 <= k < entries_upto(rows, n).len() ==> {
                let e: EntryModel = #[trigger] entries_upto(rows, n)[k];
                &&& 1 <= e.id < n
                &&& e.c == 1 && e.leechers == 1 && e.seeders == 1
                &&& e.url == Seq::<char>::empty()
            },
        forall|a: int, b: int|
            0 <= a < b < entries_upto(rows, n).len() ==> (#[trigger] entries_upto(rows, n)[a]).id
                < (#[trigger] entries_upto(rows, n)[b]).id,
    decreases n,
{
    if n > 1 {
        lemma_entries_shape(rows, n - 1);
        let before: Seq<EntryModel> = entries_upto(rows, n - 1);
        match spec_entry(rows[n - 1], n - 1) {
            Ok(e) => {
                assert(e.id == n - 1);
                assert(entries_upto(rows, n) == before.push(e));
            },
            Err(_) => {},
        }
    }
}

/// A header row is all a page has when it has one row: it gives no release.
pub proof fn lemma_header_only(rows: Seq<Seq<CellModel>>)
    requires
        rows.len() <= 1,
    ensures
        spec_entries(rows) == Seq::<EntryModel>::empty(),
{
}

/// What a page reads as: its releases and its number of pages.
pub open spec fn result_is(r: TntResult, page: PageModel) -> bool {
    &&& entries_model(r.entries@) == spec_entries(page.0)
    &&& r.npages == spec_npages(page.1)
}

/// The description of a release row: the texts of its seventh cell joined
/// with spaces.
pub fn extract_desc(cells: &Vec<Cell>) -> (r: Result<String, Error>)
    ensures
        text_result_is(r, spec_desc(row_model(*cells))),
{
    if cells.len() > 6 {
        let joined: Vec<char> = join_strings(&cells[6].text, " ");
        assert(row_model(*cells)[6] == cell_model(cells@[6]));
        Ok(string_from_chars(&joined))
    } else {
        Err(Error::ParseError(String::from_str("6 not found")))
    }
}

/// The torrent link of a release row: the link attribute of the first link
/// of its first cell, or the empty text where that link has none.
pub fn extract_torrent(cells: &Vec<Cell>) -> (r: Result<String, Error>)
    ensures
        text_result_is(r, spec_torrent(row_model(*cells))),
{
    if cells.len() == 0 {
        return Err(Error::ParseError(String::from_str("0 not found")));
    }
    let first: &Cell = &cells[0];
    assert(row_model(*cells)[0] == cell_model(*first));
    if first.links.len() == 0 {
        return Err(Error::ParseError(String::from_str("a not found")));
    }
    assert(cell_model(*first).1[0] == opt_string_view(first.links@[0]));
    match &first.links[0] {
        Some(href) => Ok(href.clone()),
        None => Ok(String::new()),
    }
}

/// The release that row number `i` of the page describes.
pub fn build_entry(cells: &Vec<Cell>, i: usize) -> (r: Result<TntEntry, Error>)
    ensures
        match spec_entry(row_model(*cells), i as int) {
            Ok(e) => r matches Ok(x) && x@ == e,
            Err(m) => r matches Err(Error::ParseError(x)) && x@ == m,
        },
{
    let desc: String = extract_desc(cells)?;
    let download_link: String = extract_torrent(cells)?;
    Ok(TntEntry::new(i as u32, desc, download_link))
}

/// The releases and the number of pages that a page reads as.
pub fn entries_from_page(page: &PageData) -> (r: TntResult)
    ensures
        result_is(r, page_model(*page)),
{
    let ghost rows: Seq<Seq<CellModel>> = page_model(*page).0;
    let mut entries: Vec<TntEntry> = Vec::new();
    let mut i: usize = 1;
    if page.rows.len() == 0 {
        i = 0;
    }
    while i < page.rows.len()
        invariant
            rows == page_model(*page).0,
            rows.len() == page.rows@.len(),
            1 <= i <= page.rows@.len() || (i == 0 && page.rows@.len() == 0),
            entries_model(entries@) == entries_upto(rows, i as int),
        decreases page.rows@.len() - i,
    {
        assert(rows[i as int] == row_model(page.rows@[i as int]));
        let ghost before: Seq<TntEntry> = entries@;
        match build_entry(&page.rows[i], i) {
            Ok(e) => {
                entries.push(e);
                assert(entries_model(entries@) =~= entries_model(before).push(entries@.last()@));
            },
            Err(_) => {},
        }
        i = i + 1;
    }
    let npages: u8 = npages_of(&page.totals);
    TntResult::new(entries, npages)
}

/// The number of pages that the page-count attribute values give.
fn npages_of(totals: &Vec<Option<String>>) -> (r: u8)
    ensures
        r == spec_npages(totals@.map_values(|o: Option<String>| opt_string_view(o))),
{
    let ghost view: Seq<Option<Seq<char>>> = totals@.map_values(
        |o: Option<String>| opt_string_view(o),
    );
    if totals.len() == 0 {
        return 1;
    }
    assert(view[0] == opt_string_view(totals@[0]));
    match &totals[0] {
        Some(v) => match parse_u8(&str_chars(v.as_str())) {
            Some(n) => n,
            None => 1,
        },
        None => 1,
    }
}

/// The query of a release-list page with the parses of the selectors `tr`
/// (rows), `td` (cells), `a` (links, with their `href`) and `.total` (the
/// page count, in attribute `a`).
pub open spec fn release_page(html: Seq<char>) -> PageModel {
    html_page(
        html,
        parsed_css("tr"@),
        parsed_css("td"@),
        parsed_css("a"@),
        "href"@,
        parsed_css(".total"@),
        "a"@,
    )
}

/// The four selectors of the page query are simple selectors, which the
/// parser accepts.
proof fn lemma_query_selectors_simple()
    ensures
        simple_selector("tr"@),
        simple_selector("td"@),
        simple_selector("a"@),
        simple_selector(".total"@),
{
    reveal_strlit("tr");
    reveal_strlit("td");
    reveal_strlit("a");
    reveal_strlit(".total");
    assert(ascii_word("total"@) == ascii_word(".total"@.drop_first())) by {
        reveal_strlit("total");
        assert("total"@ =~= ".total"@.drop_first());
    }
    reveal_strlit("total");
}

/// Reading a page does not depend on the cache: two readings of the same
/// page give the same releases and number of pages.
pub proof fn lemma_scrape_deterministic(r1: TntResult, r2: TntResult, html: Seq<char>)
    requires
        result_is(r1, release_page(html)),
        result_is(r2, release_page(html)),
    ensures
        entries_model(r1.entries@) == entries_model(r2.entries@),
        r1.npages == r2.npages,
{
}

/// Reads a release-list page: its releases (each row after the header that
/// has a torrent link and a description) and its number of pages. The
/// selectors come from `selector_cache`, which keeps them. It always
/// succeeds.
pub fn scrape(html_result: &str, selector_cache: &mut SelectorCache) -> (r: Result<TntResult, Error>)
    ensures
        r is Ok,
        r matches Ok(res) ==> result_is(res, release_page(html_result@)),
        final(selector_cache)@ == old(selector_cache)@.insert("tr"@, parsed_css("tr"@)).insert(
            "td"@,
            parsed_css("td"@),
        ).insert("a"@, parsed_css("a"@)).insert(".total"@, parsed_css(".total"@)),
        old(selector_cache)@.submap_of(final(selector_cache)@),
        cache_faithful(final(selector_cache)@),
{
    proof {
        lemma_query_selectors_simple();
    }
    let row: CssSelector = selector_cache.try_add_and_get_selector("tr").unwrap();
    let cell: CssSelector = selector_cache.try_add_and_get_selector("td").unwrap();
    let link: CssSelector = selector_cache.try_add_and_get_selector("a").unwrap();
    let total: CssSelector = selector_cache.try_add_and_get_selector(".total").unwrap();
    let q: PageQuery = PageQuery {
        row,
        cell,
        link,
        link_attr: String::from_str("href"),
        total,
        total_attr: String::from_str("a"),
    };
    let page: PageData = query_page(html_result, &q);
    Ok(entries_from_page(&page))
}

} // verus!
