//! The decisions of the interactive client: reading numbers and answers
//! typed by the user, and the report of a page of results.

use vstd::prelude::*;
use crate::{TntResult, entries_model, entry_line};
use crate::text::{
    decimal, decimal_chars, parse_u8, spec_parse_u8, spec_trim, str_chars, string_from_chars, trim,
    append_chars,
};

verus! {

/// `str::to_lowercase` of `s`: its Unicode lowercase mapping.
pub uninterp spec fn lowercase(s: Seq<char>) -> Seq<char>;

/// `str::to_lowercase`: the lowercase mapping of the text.
#[verifier::external_body]
fn to_lowercase(s: &str) -> (r: String)
    ensures
        r@ == lowercase(s@),
{
    s.to_lowercase()
}

/// The number typed on a line: the line trimmed of whitespace and read as a
/// `u8`, accepted only where `f` accepts it.
pub fn read_int<F: Fn(u8) -> bool>(s: &str, f: F) -> (r: Option<u8>)
    requires
        forall|v: u8| call_requires(f, (v,)),
    ensures
        match spec_parse_u8(spec_trim(s@)) {
            Some(v) => match r {
                Some(x) => x == v && call_ensures(f, (v,), true),
                None => call_ensures(f, (v,), false),
            },
            None => r is None,
        },
{
    let line: Vec<char> = str_chars(s);
    let trimmed: Vec<char> = trim(&line);
    match parse_u8(&trimmed) {
        Some(value) => {
            if f(value) {
                Some(value)
            } else {
                None
            }
        },
        None => None,
    }
}

/// What the client does after a line typed at a number prompt.
pub enum PromptStep {
    /// The number is accepted.
    Accept(u8),
    /// The line is refused; the prompt is asked again.
    Retry,
    /// The line is refused; the prompt is given up.
    GiveUp,
}

/// The step after `line` at a number prompt whose numbers `pred` accepts:
/// accept the number, or, on a refused line, ask again where `cont` holds
/// and give up otherwise.
pub fn prompt_step<F: Fn(u8) -> bool>(line: &str, pred: F, cont: bool) -> (r: PromptStep)
    requires
        forall|v: u8| call_requires(pred, (v,)),
    ensures
        match spec_parse_u8(spec_trim(line@)) {
            Some(v) => match r {
                PromptStep::Accept(x) => x == v && call_ensures(pred, (v,), true),
                PromptStep::Retry => cont && call_ensures(pred, (v,), false),
                PromptStep::GiveUp => !cont && call_ensures(pred, (v,), false),
            },
            None => if cont {
                r is Retry
            } else {
                r is GiveUp
            },
        },
{
    match read_int(line, pred) {
        Some(v) => PromptStep::Accept(v),
        None => if cont {
            PromptStep::Retry
        } else {
            PromptStep::GiveUp
        },
    }
}

/// Whether the answer typed on a line is yes: the line trimmed and in lower
/// case is `s`.
pub fn answer_is_yes(line: &str) -> (r: bool)
    ensures
        r == (lowercase(spec_trim(line@)) == "s"@),
{
    let trimmed: String = string_from_chars(&trim(&str_chars(line)));
    let lower: Vec<char> = str_chars(to_lowercase(trimmed.as_str()).as_str());
    let yes: Vec<char> = str_chars("s");
    if lower.len() != yes.len() {
        return false;
    }
    let mut k: usize = 0;
    while k < lower.len()
        invariant
            k <= lower@.len(),
            lower@.len() == yes@.len(),
            lower@ == lowercase(spec_trim(line@)),
            yes@ == "s"@,
            forall|t: int| 0 <= t < k ==> lower@[t] == yes@[t],
        decreases lower@.len() - k,
    {
        if lower[k] != yes[k] {
            assert(lower@[k as int] != yes@[k as int]);
            return false;
        }
        k = k + 1;
    }
    assert(lower@ =~= yes@);
    true
}

/// Whether the client goes on after a page of results (to the downloads
/// and the choice of the next page): where the page has releases.
pub fn goes_on_after(results: &TntResult) -> (r: bool)
    ensures
        r == (results.entries@.len() > 0),
{
    results.entries.len() > 0
}

/// The lines that report a page of results: the current page and the
/// number of pages, the number of results, then one line per release.
pub open spec fn report_lines(r: TntResult, page: u8) -> Seq<Seq<char>> {
    seq![
        "Pagina corrente: ["@ + decimal(page as nat) + "]/["@ + decimal(r.npages as nat) + "]"@,
        "Trovati "@ + decimal(r.entries@.len()) + " risultati."@,
    ] + entries_model(r.entries@).map_values(|e| entry_line(e))
}

/// A report lists every release of the page, whatever the number of pages:
/// after its two header lines (the current page and the number of pages,
/// then the number of results), line `k + 2` is `[id] description (link)`
/// of release `k`, and there are no other lines.
pub proof fn lemma_report_lists_every_entry(r: TntResult, page: u8)
    ensures
        report_lines(r, page).len() == r.entries@.len() + 2,
        report_lines(r, page)[0] == "Pagina corrente: ["@ + decimal(page as nat) + "]/["@
            + decimal(r.npages as nat) + "]"@,
        report_lines(r, page)[1] == "Trovati "@ + decimal(r.entries@.len()) + " risultati."@,
        forall|k: int|
            0 <= k < r.entries@.len() ==> #[trigger] report_lines(r, page)[k + 2] == "["@ + decimal(
                r.entries@[k]@.id as nat,
            ) + "] "@ + r.entries@[k]@.desc + " ("@ + r.entries@[k]@.download_link + ")"@,
{
}

/// Two results with the same releases are reported with the same release
/// lines, whatever their numbers of pages.
pub proof fn lemma_report_ignores_page_count(r1: TntResult, r2: TntResult, page: u8)
    requires
        r1.entries@ == r2.entries@,
    ensures
        report_lines(r1, page).len() == report_lines(r2, page).len(),
        forall|k: int|
            1 <= k < report_lines(r1, page).len() ==> #[trigger] report_lines(r1, page)[k]
                == report_lines(r2, page)[k],
{
}

/// The lines that report a page of results.
pub fn report(results: &TntResult, page: u8) -> (r: Vec<String>)
    ensures
        r@.len() == report_lines(*results, page).len(),
        forall|k: int| 0 <= k < r@.len() ==> (#[trigger] r@[k])@ == report_lines(*results, page)[k],
{
    let mut first: Vec<char> = str_chars("Pagina corrente: [");
    append_chars(&mut first, &decimal_chars(page as u64));
    append_chars(&mut first, &str_chars("]/["));
    append_chars(&mut first, &decimal_chars(results.npages as u64));
    append_chars(&mut first, &str_chars("]"));
    let mut second: Vec<char> = str_chars("Trovati ");
    append_chars(&mut second, &decimal_chars(results.entries.len() as u64));
    append_chars(&mut second, &str_chars(" risultati."));
    let mut lines: Vec<String> = Vec::new();
    lines.push(string_from_chars(&first));
    lines.push(string_from_chars(&second));
    let ghost expected: Seq<Seq<char>> = report_lines(*results, page);
    let mut k: usize = 0;
    while k < results.entries.len()
        invariant
            k <= results.entries@.len(),
            expected == report_lines(*results, page),
            lines@.len() == k + 2,
            forall|t: int| 0 <= t < k + 2 ==> (#[trigger] lines@[t])@ == expected[t],
        decreases results.entries@.len() - k,
    {
        lines.push(results.entries[k].to_string());
        assert(expected[k + 2] == entry_line(results.entries@[k as int]@));
        k = k + 1;
    }
    lines
}

} // verus!
