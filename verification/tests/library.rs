use hyper::header::{
    Charset, ContentDisposition, ContentLength, DispositionParam, DispositionType, Headers,
};
use tnt_scraper_lib::downloader::{
    can_fix_headers, can_read_filename, fix_headers, get_filename_from_header, headers_from_raw,
    read_filename,
};
use tnt_scraper_lib::html::{Cell, PageData};
use tnt_scraper_lib::prompt::{
    answer_is_yes, goes_on_after, prompt_step, read_int, report, PromptStep,
};
use tnt_scraper_lib::text::{decimal_chars, parse_u8, str_chars, trim};
use tnt_scraper_lib::tnt_scraper::{build_entry, entries_from_page, extract_desc, extract_torrent};
use tnt_scraper_lib::{
    scrape, Error, RequestData, SelectorCache, TntCategory, TntEntry, TntResult,
};

fn chars(s: &str) -> Vec<char> {
    s.chars().collect()
}

fn cell(text: &[&str], links: &[Option<&str>]) -> Cell {
    Cell {
        text: text.iter().map(|s| s.to_string()).collect(),
        links: links.iter().map(|l| l.map(|s| s.to_string())).collect(),
    }
}

fn release_row(link: Option<Option<&str>>, desc: &[&str]) -> Vec<Cell> {
    let first = match link {
        Some(l) => cell(&["dl"], &[l]),
        None => cell(&["dl"], &[]),
    };
    vec![
        first,
        cell(&["m"], &[]),
        cell(&["c"], &[]),
        cell(&["0"], &[]),
        cell(&["8"], &[]),
        cell(&["1664"], &[]),
        cell(desc, &[Some("http://forum/topic")]),
    ]
}

// ---------------------------------------------------------------------------
// Categories

#[test]
fn category_codes() {
    assert_eq!(TntCategory::Film.value(), 4);
    assert_eq!(TntCategory::TutteLeCategorie.value(), 0);
    assert_eq!(TntCategory::Mobile.value(), 37);
    assert_eq!(TntCategory::SerieTV.value(), 29);
}

#[test]
fn category_from_code() {
    assert_eq!(TntCategory::from(4), TntCategory::Film);
    assert_eq!(TntCategory::from(14), TntCategory::Documentari);
    assert_eq!(TntCategory::from(5), TntCategory::TutteLeCategorie);
    assert_eq!(TntCategory::from(33), TntCategory::TutteLeCategorie);
    assert_eq!(TntCategory::from(200), TntCategory::TutteLeCategorie);
}

#[test]
fn category_code_round_trip() {
    for c in TntCategory::values() {
        assert_eq!(TntCategory::from(c.value()), c);
    }
    for v in 0..=255u8 {
        if TntCategory::is_valid_value(v) {
            assert_eq!(TntCategory::from(v).value(), v);
        } else {
            assert_eq!(TntCategory::from(v), TntCategory::TutteLeCategorie);
        }
    }
}

#[test]
fn category_valid_values() {
    let invalid = [5u8, 15, 16, 17, 18, 19, 20, 33, 38, 255];
    for v in invalid.iter() {
        assert!(!TntCategory::is_valid_value(*v));
    }
    for v in [0u8, 1, 4, 14, 21, 32, 34, 37].iter() {
        assert!(TntCategory::is_valid_value(*v));
    }
}

#[test]
fn category_values_sorted_and_complete() {
    let values = TntCategory::values();
    assert_eq!(values.len(), 30);
    for w in values.windows(2) {
        assert!(w[0].value() < w[1].value());
        assert!(w[0] < w[1]);
    }
    assert_eq!(values[0], TntCategory::TutteLeCategorie);
    assert_eq!(values[4], TntCategory::Film);
    assert_eq!(*values.last().unwrap(), TntCategory::Mobile);
}

#[test]
fn category_names() {
    assert_eq!(TntCategory::Film.to_string(), "Film");
    assert_eq!(TntCategory::FilmTVProgrammi.to_string(), "FilmTVProgrammi");
    assert_eq!(TntCategory::ABook.to_string(), "ABook");
}

// ---------------------------------------------------------------------------
// Requests and releases

#[test]
fn request_form_params() {
    let data = RequestData::new("kill bill", TntCategory::Film, 3);
    let params = data.form_params();
    assert_eq!(
        params,
        vec![
            ("srcrel".to_string(), "kill bill".to_string()),
            ("cat".to_string(), "4".to_string()),
            ("page".to_string(), "3".to_string()),
        ]
    );
    let data = RequestData::new("", TntCategory::Mobile, 255);
    assert_eq!(data.form_params()[1].1, "37");
    assert_eq!(data.form_params()[2].1, "255");
}

#[test]
fn entry_line() {
    let e = TntEntry::new(12, "Kill Bill".to_string(), "http://x/t".to_string());
    assert_eq!(e.to_string(), "[12] Kill Bill (http://x/t)");
    assert_eq!(e.id(), 12);
    assert_eq!(e.desc(), "Kill Bill");
    assert_eq!(e.download_link(), "http://x/t");
}

#[test]
fn result_new() {
    let r = TntResult::new(vec![TntEntry::new(1, "a".to_string(), "b".to_string())], 9);
    assert_eq!(r.entries.len(), 1);
    assert_eq!(r.npages, 9);
}

// ---------------------------------------------------------------------------
// Reading pages

#[test]
fn desc_joins_texts_of_seventh_cell() {
    let row = release_row(Some(Some("t")), &["Kill Bill", " [BDrip]"]);
    assert_eq!(extract_desc(&row).unwrap(), "Kill Bill  [BDrip]");
    let short: Vec<Cell> = (0..6).map(|_| cell(&["a"], &[])).collect();
    match extract_desc(&short) {
        Err(Error::ParseError(m)) => assert_eq!(m, "6 not found"),
        _ => panic!("expected an error"),
    }
}

#[test]
fn torrent_link_of_first_cell() {
    let row = release_row(Some(Some("http://x/t")), &["d"]);
    assert_eq!(extract_torrent(&row).unwrap(), "http://x/t");
    let no_href = release_row(Some(None), &["d"]);
    assert_eq!(extract_torrent(&no_href).unwrap(), "");
    let no_link = release_row(None, &["d"]);
    match extract_torrent(&no_link) {
        Err(Error::ParseError(m)) => assert_eq!(m, "a not found"),
        _ => panic!("expected an error"),
    }
    match extract_torrent(&Vec::new()) {
        Err(Error::ParseError(m)) => assert_eq!(m, "0 not found"),
        _ => panic!("expected an error"),
    }
}

#[test]
fn entry_of_row() {
    let row = release_row(Some(Some("http://x/t")), &["Desc"]);
    let e = build_entry(&row, 5).unwrap();
    assert_eq!(e.id(), 5);
    assert_eq!(e.desc(), "Desc");
    assert_eq!(e.download_link(), "http://x/t");
    match build_entry(&vec![cell(&[], &[])], 1) {
        Err(Error::ParseError(m)) => assert_eq!(m, "6 not found"),
        _ => panic!("expected an error"),
    }
}

#[test]
fn entries_skip_header_and_bad_rows() {
    let page = PageData {
        rows: vec![
            release_row(Some(Some("header")), &["header"]),
            release_row(Some(Some("l1")), &["first"]),
            release_row(None, &["no link"]),
            vec![cell(&["short"], &[Some("l")])],
            release_row(Some(None), &["fourth"]),
        ],
        totals: vec![Some("12".to_string()), Some("3".to_string())],
    };
    let r = entries_from_page(&page);
    assert_eq!(r.npages, 12);
    assert_eq!(r.entries.len(), 2);
    assert_eq!(r.entries[0].id(), 1);
    assert_eq!(r.entries[0].desc(), "first");
    assert_eq!(r.entries[0].download_link(), "l1");
    assert_eq!(r.entries[1].id(), 4);
    assert_eq!(r.entries[1].desc(), "fourth");
    assert_eq!(r.entries[1].download_link(), "");
}

#[test]
fn header_only_page_has_no_entries() {
    let page = PageData { rows: vec![release_row(Some(Some("l")), &["d"])], totals: vec![] };
    let r = entries_from_page(&page);
    assert_eq!(r.entries.len(), 0);
    assert_eq!(r.npages, 1);
}

#[test]
fn page_count_defaults_to_one() {
    let cases: Vec<(Vec<Option<String>>, u8)> = vec![
        (vec![], 1),
        (vec![None], 1),
        (vec![Some("abc".to_string())], 1),
        (vec![Some("300".to_string())], 1),
        (vec![Some(" 4".to_string())], 1),
        (vec![Some("+4".to_string())], 4),
        (vec![Some("255".to_string())], 255),
        (vec![None, Some("5".to_string())], 1),
    ];
    for (totals, expected) in cases {
        let page = PageData { rows: vec![], totals };
        assert_eq!(entries_from_page(&page).npages, expected);
    }
}

const SAMPLE: &str = "<html><body><table>\
<tr><th>Download</th><th>Descrizione</th></tr>\
<tr><td><a href='http://forum/attach/1'><img src='i.png'/></a></td><td>m</td><td>c</td>\
<td>0</td><td>8</td><td>1664</td>\
<td><a href='http://forum/topic/1'>Kill Bill - Volume 2 (2004)</a> [BDrip 720p] Action</td></tr>\
<tr><td>no link</td><td>m</td><td>c</td><td>0</td><td>1</td><td>2</td><td>Nothing</td></tr>\
<tr><td><a>no href</a></td><td>m</td><td>c</td><td>0</td><td>1</td><td>2</td><td>Third</td></tr>\
<tr><td>short</td></tr>\
</table><span class='total' a='7'>7</span></body></html>";

#[test]
fn scrape_sample_page() {
    let mut cache = SelectorCache::new();
    let r = scrape(SAMPLE, &mut cache).unwrap();
    assert_eq!(r.npages, 7);
    assert_eq!(r.entries.len(), 2);
    assert_eq!(r.entries[0].id(), 1);
    assert_eq!(r.entries[0].download_link(), "http://forum/attach/1");
    assert_eq!(r.entries[0].desc(), "Kill Bill - Volume 2 (2004)  [BDrip 720p] Action");
    assert_eq!(r.entries[1].id(), 3);
    assert_eq!(r.entries[1].download_link(), "");
    assert_eq!(r.entries[1].desc(), "Third");
    assert_eq!(
        r.entries[0].to_string(),
        "[1] Kill Bill - Volume 2 (2004)  [BDrip 720p] Action (http://forum/attach/1)"
    );
}

#[test]
fn scrape_twice_gives_the_same() {
    let mut cache = SelectorCache::new();
    let a = scrape(SAMPLE, &mut cache).unwrap();
    let b = scrape(SAMPLE, &mut cache).unwrap();
    assert_eq!(a.npages, b.npages);
    assert_eq!(a.entries.len(), b.entries.len());
    for (x, y) in a.entries.iter().zip(b.entries.iter()) {
        assert_eq!(x.to_string(), y.to_string());
    }
}

#[test]
fn scrape_empty_page() {
    let mut cache = SelectorCache::new();
    let r = scrape("", &mut cache).unwrap();
    assert_eq!(r.entries.len(), 0);
    assert_eq!(r.npages, 1);
}

#[test]
fn selector_cache_keeps_selectors() {
    let mut cache = SelectorCache::new();
    let a = cache.try_add_and_get_selector("tr").unwrap();
    assert_eq!(a.source(), "tr");
    let b = cache.add_and_get_selector("tr");
    assert_eq!(b.source(), "tr");
    assert!(cache.try_add_and_get_selector("[[").is_none());
    let c = cache.add_and_get_selector(".total");
    assert_eq!(c.source(), ".total");
}

// ---------------------------------------------------------------------------
// Text

#[test]
fn decimal_writing() {
    let s: String = decimal_chars(0).into_iter().collect();
    assert_eq!(s, "0");
    let s: String = decimal_chars(1664).into_iter().collect();
    assert_eq!(s, "1664");
    let s: String = decimal_chars(u64::MAX).into_iter().collect();
    assert_eq!(s, u64::MAX.to_string());
}

#[test]
fn parse_u8_like_std() {
    let inputs = ["0", "7", "+7", "255", "256", "-1", "", "+", "++1", "007", " 7", "7 ", "1a"];
    for s in inputs.iter() {
        assert_eq!(parse_u8(&chars(s)), s.parse::<u8>().ok(), "input {:?}", s);
    }
}

#[test]
fn parse_u8_reads_decimal_back() {
    for n in 0..=255u8 {
        let written = decimal_chars(n as u64);
        assert_eq!(parse_u8(&written), Some(n));
    }
}

#[test]
fn trim_like_std() {
    let inputs = ["  a b  ", "\n12\r\n", "", "   ", "\u{3000}x\u{a0}", "x"];
    for s in inputs.iter() {
        let t: String = trim(&str_chars(s)).into_iter().collect();
        assert_eq!(t, s.trim());
    }
}

// ---------------------------------------------------------------------------
// Prompts

#[test]
fn read_int_of_lines() {
    assert_eq!(read_int(" 12\n", |v| v < 20), Some(12));
    assert_eq!(read_int("25\n", |v| v < 20), None);
    assert_eq!(read_int("+7", |_| true), Some(7));
    assert_eq!(read_int("abc\n", |_| true), None);
    assert_eq!(read_int("256\n", |_| true), None);
    assert_eq!(read_int("\n", |_| true), None);
    assert_eq!(read_int("5\n", TntCategory::is_valid_value), None);
    assert_eq!(read_int("4\n", TntCategory::is_valid_value), Some(4));
}

#[test]
fn prompt_steps() {
    assert!(matches!(prompt_step("3\n", |v| v <= 5, true), PromptStep::Accept(3)));
    assert!(matches!(prompt_step("9\n", |v| v <= 5, true), PromptStep::Retry));
    assert!(matches!(prompt_step("9\n", |v| v <= 5, false), PromptStep::GiveUp));
    assert!(matches!(prompt_step("x\n", |_| true, false), PromptStep::GiveUp));
}

#[test]
fn yes_answers() {
    assert!(answer_is_yes("s\n"));
    assert!(answer_is_yes("  S \n"));
    assert!(!answer_is_yes("si\n"));
    assert!(!answer_is_yes("n\n"));
    assert!(!answer_is_yes("\n"));
}

#[test]
fn report_of_page() {
    let r = TntResult::new(vec![TntEntry::new(3, "desc".to_string(), "link".to_string())], 5);
    assert_eq!(
        report(&r, 2),
        vec![
            "Pagina corrente: [2]/[5]".to_string(),
            "Trovati 1 risultati.".to_string(),
            "[3] desc (link)".to_string(),
        ]
    );
}

// ---------------------------------------------------------------------------
// Headers

fn mangled_headers() -> Headers {
    let mut h = Headers::new();
    h.set_raw("Content-Type", "application/x-bittorrent");
    h.set_raw(
        "Content-Disposition",
        "attachment; filename=\"Kill.Bill.torrent\"; Content-Length: 1234",
    );
    h
}

#[test]
fn fix_mangled_headers() {
    let mut h = mangled_headers();
    assert!(fix_headers(&mut h).is_ok());
    assert_eq!(h.get::<ContentLength>(), Some(&ContentLength(1234)));
    let cd = h.get::<ContentDisposition>().unwrap();
    assert_eq!(cd.disposition, DispositionType::Attachment);
    assert_eq!(get_filename_from_header(cd).unwrap(), "Kill.Bill.torrent");
    assert_eq!(h.get_raw("Content-Length").unwrap(), "1234");
}

#[test]
fn fix_headers_errors() {
    let mut h = Headers::new();
    h.set_raw("Content-Type", "text/html");
    assert_eq!(fix_headers(&mut h), Err("Header CD not found".to_string()));

    let mut h = Headers::new();
    h.set_raw("Content-Disposition", vec![b"a".to_vec(), b"b".to_vec()]);
    assert_eq!(fix_headers(&mut h), Err("raw not parsed".to_string()));

    let mut h = Headers::new();
    h.set_raw("Content-Disposition", "attachment; Content-Length: many");
    assert_eq!(fix_headers(&mut h), Err("invalid Header provided".to_string()));
    assert!(h.get::<ContentLength>().is_none());
}

#[test]
fn filename_from_typed_header() {
    let mut h = Headers::new();
    h.set(ContentDisposition {
        disposition: DispositionType::Attachment,
        parameters: vec![
            DispositionParam::Ext("size".to_string(), "1".to_string()),
            DispositionParam::Filename(Charset::Ext("UTF-8".to_string()), None, b"x.torrent".to_vec()),
        ],
    });
    assert_eq!(read_filename(&h), Ok("x.torrent".to_string()));
}

#[test]
fn filename_errors() {
    let cd = ContentDisposition {
        disposition: DispositionType::Inline,
        parameters: vec![DispositionParam::Ext("a".to_string(), "b".to_string())],
    };
    assert_eq!(get_filename_from_header(&cd), Err("Filename not found".to_string()));
    let bad = ContentDisposition {
        disposition: DispositionType::Inline,
        parameters: vec![DispositionParam::Filename(Charset::Ext("UTF-8".to_string()), None, vec![0xff])],
    };
    assert!(get_filename_from_header(&bad).is_err());
}

#[test]
fn filename_from_mangled_headers() {
    let h = mangled_headers();
    assert_eq!(read_filename(&h), Ok("Kill.Bill.torrent".to_string()));
    let mut none = Headers::new();
    none.set_raw("Content-Type", "text/html");
    assert_eq!(read_filename(&none), Err("Header CD not found".to_string()));
}

#[test]
fn form_fields_read_back() {
    for c in TntCategory::values() {
        for page in [0u8, 1, 9, 10, 99, 100, 255].iter() {
            let params = RequestData::new("q", c, *page).form_params();
            let cat = parse_u8(&chars(&params[1].1)).unwrap();
            assert_eq!(TntCategory::from(cat), c);
            assert_eq!(parse_u8(&chars(&params[2].1)), Some(*page));
        }
    }
}

#[test]
fn fix_keeps_disposition_type_and_other_headers() {
    let mut h = Headers::new();
    h.set_raw("Content-Type", "application/x-bittorrent");
    h.set_raw("Content-Disposition", "attachment; filename=a.torrent; Content-Length: 42");
    assert_eq!(fix_headers(&mut h), Ok(()));
    assert_eq!(h.get::<ContentLength>(), Some(&ContentLength(42)));
    let cd = h.get::<ContentDisposition>().unwrap();
    assert_eq!(cd.disposition, DispositionType::Attachment);
    assert_eq!(get_filename_from_header(cd), Ok("a.torrent".to_string()));
    assert_eq!(h.get_raw("Content-Type").unwrap(), "application/x-bittorrent");
}

#[test]
fn whether_filename_can_be_read() {
    assert!(can_read_filename(&mangled_headers()));
    let mut plain = Headers::new();
    plain.set_raw("Content-Disposition", "attachment; filename=x.torrent");
    assert!(can_read_filename(&plain));
    let mut none = Headers::new();
    none.set_raw("Content-Type", "text/html");
    assert!(can_read_filename(&none));
    let mut broken = Headers::new();
    broken.set_raw("Content-Disposition", "attachment; bogus");
    assert!(!can_read_filename(&broken));
}

#[test]
fn mending_defined_on_received_headers() {
    assert!(can_fix_headers(&mangled_headers()));
    let mut none = Headers::new();
    none.set_raw("Content-Type", "text/html");
    assert!(can_fix_headers(&none));
    let mut two = Headers::new();
    two.set_raw("Content-Disposition", vec![b"a".to_vec(), b"b".to_vec()]);
    assert!(can_fix_headers(&two));
    let mut broken = Headers::new();
    broken.set_raw("Content-Disposition", "attachment; filename=x.torrent");
    assert!(!can_fix_headers(&broken));
}

#[test]
fn going_on_after_a_page() {
    assert!(!goes_on_after(&TntResult::new(vec![], 3)));
    assert!(goes_on_after(&TntResult::new(
        vec![TntEntry::new(1, "a".to_string(), "b".to_string())],
        3
    )));
}

#[test]
fn headers_from_received_lines() {
    let pairs: Vec<(String, Vec<u8>)> = vec![
        ("Content-Type".to_string(), b"application/x-bittorrent".to_vec()),
        (
            "Content-Disposition".to_string(),
            b"attachment; filename=\"Kill.Bill.torrent\"; Content-Length: 1234".to_vec(),
        ),
        ("X-Note".to_string(), b"one".to_vec()),
        ("x-note".to_string(), b"two".to_vec()),
    ];
    let h = headers_from_raw(&pairs);
    assert_eq!(h.len(), 3);
    let note: Vec<Vec<u8>> = h.get_raw("X-Note").unwrap().iter().map(|l| l.to_vec()).collect();
    assert_eq!(note, vec![b"one".to_vec(), b"two".to_vec()]);
    assert!(can_fix_headers(&h));
    assert!(can_read_filename(&h));
    assert_eq!(read_filename(&h), Ok("Kill.Bill.torrent".to_string()));
    let empty = headers_from_raw(&Vec::new());
    assert_eq!(empty.len(), 0);
    assert_eq!(read_filename(&empty), Err("Header CD not found".to_string()));
}

