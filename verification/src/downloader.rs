//! The header handling of a torrent download: finding the file name in the
//! `Content-Disposition` header, and mending the header that the site sends
//! with the content length written inside it.
//!
//! The headers are `hyper`'s header map, parsed and written by `hyper`.

use vstd::prelude::*;
use vstd::utf8::{valid_utf8, decode_utf8};
use hyper::header::{ContentDisposition, Header, Headers};
use crate::text::{
    occurs_at, decimal, find, slice_range, spec_find, spec_parse_u64, spec_trim, spec_trim_matches,
    str_chars, string_from_chars, trim, trim_matches, lemma_trims_keep_prefix, spec_trim_start,
    spec_trim_end, spec_trim_start_char, spec_trim_end_char, spec_is_whitespace, is_digit,
};

verus! {

#[verifier::external_type_specification]
#[verifier::external_body]
pub struct ExHeaders(hyper::header::Headers);

#[verifier::external_type_specification]
#[verifier::external_body]
pub struct ExContentDisposition(hyper::header::ContentDisposition);

// ---------------------------------------------------------------------------
// Names for what the outside code holds and computes

/// The contents of a header map, in the order `Headers::iter` yields them.
pub uninterp spec fn header_list(h: Headers) -> Seq<HeaderEntry>;

/// What `Headers::get::<ContentDisposition>` finds: the typed header, where
/// there is one and it parses.
pub uninterp spec fn typed_disposition(h: Headers) -> Option<DispositionModel>;

/// A `ContentDisposition` as plain values: its disposition type and its
/// parameters in order.
pub uninterp spec fn disposition_model(cd: ContentDisposition) -> DispositionModel;

/// What `ContentDisposition::parse_header` reads from the single line `s`,
/// or `None` where it refuses the line.
pub uninterp spec fn parsed_disposition(s: Seq<char>) -> Option<DispositionModel>;

/// `String::from_utf8_lossy` of the bytes `b`.
pub uninterp spec fn utf8_lossy(b: Seq<u8>) -> Seq<char>;

/// The message of the error that `String::from_utf8` gives for the bytes `b`.
pub uninterp spec fn utf8_error_message(b: Seq<u8>) -> Seq<char>;

// ---------------------------------------------------------------------------
// Dispositions as plain values

/// The disposition type of a `Content-Disposition` header
/// (`DispositionType`).
pub enum DispositionKind {
    Inline,
    Attachment,
    Ext(Seq<char>),
}

/// A parameter of a `Content-Disposition` header (`DispositionParam`): a
/// file name, by its bytes (its character set and language tag are left
/// out), or another parameter, by its name and value.
pub enum DispositionParamModel {
    Filename(Seq<u8>),
    Ext(Seq<char>, Seq<char>),
}

/// A `Content-Disposition` header: its disposition type and its parameters
/// in order.
pub struct DispositionModel {
    pub kind: DispositionKind,
    pub params: Seq<DispositionParamModel>,
}

// ---------------------------------------------------------------------------
// Header lists

/// One entry of a header map (a name and an `Item` of `hyper`).
pub struct HeaderEntry {
    /// The name as stored.
    pub name: Seq<char>,
    /// The raw lines that `HeaderView::raw` gives: the stored raw form, or
    /// else the lines written from the typed value; `None` where writing them
    /// fails, which makes `HeaderView::raw` panic.
    pub lines: Option<Seq<Seq<u8>>>,
    /// Whether the entry holds a raw form: received as raw lines, or stored
    /// since by writing its typed value. Reading `HeaderView::raw` of a typed
    /// entry stores its lines, which this flag does not follow; it only ever
    /// turns true by it.
    pub stored_raw: bool,
    /// Whether the entry holds a typed `ContentDisposition`.
    pub typed_disposition: bool,
}

/// The name of the disposition header.
pub open spec fn disposition_name() -> Seq<char> {
    "Content-Disposition"@
}

/// Whether `Headers::get::<ContentDisposition>` can read every entry named
/// `Content-Disposition` (up to ASCII case): each holds a raw form to parse
/// or a typed `ContentDisposition`. An entry set with another header type of
/// that name holds neither, and `Item::typed` panics on it.
pub open spec fn disposition_readable(list: Seq<HeaderEntry>) -> bool {
    forall|k: int|
        0 <= k < list.len() && same_header_name(#[trigger] list[k].name, disposition_name())
            ==> list[k].stored_raw || list[k].typed_disposition
}

/// Whether every entry named `Content-Disposition` (up to ASCII case) holds
/// a raw form, as the headers of a response do.
pub open spec fn disposition_raw(list: Seq<HeaderEntry>) -> bool {
    forall|k: int|
        0 <= k < list.len() && same_header_name(#[trigger] list[k].name, disposition_name())
            ==> list[k].stored_raw
}

/// Whether two header names are equal up to ASCII case, as `hyper` compares
/// them.
pub open spec fn same_header_name(a: Seq<char>, b: Seq<char>) -> bool {
    a.len() == b.len() && forall|i: int|
        0 <= i < a.len() ==> ascii_lower(#[trigger] a[i]) == ascii_lower(b[i])
}

pub open spec fn ascii_lower(c: char) -> char {
    if 'A' <= c && c <= 'Z' {
        ((c as u32) + 32) as char
    } else {
        c
    }
}

/// The first index, from `i` on, of a header whose name satisfies `same`.
pub open spec fn first_header_from(
    list: Seq<HeaderEntry>,
    name: Seq<char>,
    exact: bool,
    i: int,
) -> Option<int>
    decreases list.len() - i,
{
    if i < 0 || i >= list.len() {
        None
    } else if (exact && list[i].name == name) || (!exact && same_header_name(list[i].name, name)) {
        Some(i)
    } else {
        first_header_from(list, name, exact, i + 1)
    }
}

/// The header map after `Headers::set` of the entry `e`: the first header
/// of its name (up to ASCII case) is replaced, name included, or the entry
/// is added at the end.
pub open spec fn set_header(list: Seq<HeaderEntry>, e: HeaderEntry) -> Seq<HeaderEntry> {
    match first_header_from(list, e.name, false, 0) {
        Some(k) => list.update(k, e),
        None => list.push(e),
    }
}

/// The entry that `Headers::set(ContentLength(n))` stores: typed, its lines
/// written as `n` in decimal.
pub open spec fn length_entry(n: nat) -> HeaderEntry {
    HeaderEntry {
        name: "Content-Length"@,
        lines: Some(seq![decimal_bytes(n)]),
        stored_raw: false,
        typed_disposition: false,
    }
}

/// An entry that `Headers::set` of a `ContentDisposition` stores: typed,
/// with the lines `l` written from it.
pub open spec fn disposition_entry(l: Option<Seq<Seq<u8>>>) -> HeaderEntry {
    HeaderEntry { name: disposition_name(), lines: l, stored_raw: false, typed_disposition: true }
}

/// The header map after `Headers::append_raw(name, value)`: the line
/// `value` is added to the lines of the first header of that name (up to
/// ASCII case), which then holds them as its raw form and no typed value; or,
/// where there is none, a header of that name with that one line is added at
/// the end.
pub open spec fn append_raw_entry(list: Seq<HeaderEntry>, name: Seq<char>, value: Seq<u8>) -> Seq<
    HeaderEntry,
> {
    match first_header_from(list, name, false, 0) {
        Some(k) => list.update(
            k,
            HeaderEntry {
                name: list[k].name,
                lines: Some(list[k].lines.unwrap().push(value)),
                stored_raw: true,
                typed_disposition: false,
            },
        ),
        None => list.push(
            HeaderEntry { name, lines: Some(seq![value]), stored_raw: true, typed_disposition: false },
        ),
    }
}

/// The header names and lines of `pairs` as plain values.
pub open spec fn raw_pairs_view(pairs: Seq<(String, Vec<u8>)>) -> Seq<(Seq<char>, Seq<u8>)> {
    pairs.map_values(|p: (String, Vec<u8>)| (p.0@, p.1@))
}

/// The header map that appending the raw lines `pairs` (a header name and a
/// line each), in order, to an empty map makes.
pub open spec fn raw_header_list(pairs: Seq<(Seq<char>, Seq<u8>)>) -> Seq<HeaderEntry>
    decreases pairs.len(),
{
    if pairs.len() == 0 {
        Seq::empty()
    } else {
        append_raw_entry(raw_header_list(pairs.drop_last()), pairs.last().0, pairs.last().1)
    }
}

/// The bytes of the decimal writing of `n`.
pub open spec fn decimal_bytes(n: nat) -> Seq<u8> {
    decimal(n).map_values(|c: char| c as u8)
}

// ---------------------------------------------------------------------------
// Trusted items

/// `Headers::new`: an empty header map.
#[verifier::external_body]
fn new_headers() -> (r: Headers)
    ensures
        header_list(r) == Seq::<HeaderEntry>::empty(),
{
    Headers::new()
}

/// `Headers::append_raw`: adds the line `value` to the header `name`, as
/// `append_raw_entry` says. `Item::raw_mut` first writes the lines of a typed
/// entry, which panics where writing fails; `requires` leaves that out.
#[verifier::external_body]
fn append_raw_header(h: &mut Headers, name: &str, value: &Vec<u8>)
    requires
        first_header_from(header_list(*old(h)), name@, false, 0) matches Some(k)
            ==> header_list(*old(h))[k].lines is Some,
    ensures
        header_list(*final(h)) == append_raw_entry(header_list(*old(h)), name@, value@),
{
    h.append_raw(name.to_string(), value.clone());
}

/// `Headers::iter` and `HeaderView::name`: the names of the headers, in
/// order.
#[verifier::external_body]
fn header_names(h: &Headers) -> (r: Vec<String>)
    ensures
        r@.len() == header_list(*h).len(),
        forall|k: int| 0 <= k < r@.len() ==> (#[trigger] r@[k])@ == header_list(*h)[k].name,
{
    h.iter().map(|v| v.name().to_string()).collect()
}

/// `Headers::iter` and `HeaderView::raw`: the raw lines of header `k`. An
/// entry that holds a raw form gives it back without writing anything.
#[verifier::external_body]
fn header_lines(h: &Headers, k: usize) -> (r: Vec<Vec<u8>>)
    requires
        k < header_list(*h).len(),
        header_list(*h)[k as int].lines is Some || header_list(*h)[k as int].stored_raw,
    ensures
        header_list(*h)[k as int].lines == Some(r@.map_values(|l: Vec<u8>| l@)),
{
    match h.iter().nth(k) {
        Some(v) => v.raw().iter().map(|l| l.to_vec()).collect(),
        None => Vec::new(),
    }
}

/// `String::from_utf8_lossy`: the text of the bytes, each invalid sequence
/// replaced by U+FFFD; on valid UTF-8 it is the decoding of the bytes.
#[verifier::external_body]
fn lossy_string(b: &[u8]) -> (r: String)
    ensures
        r@ == utf8_lossy(b@),
        valid_utf8(b@) ==> r@ == decode_utf8(b@),
{
    String::from_utf8_lossy(b).into_owned()
}

/// `ContentLength::parse_header` of the single line `s`: the line, trimmed
/// of whitespace, read as a `u64`; on failure `hyper`'s header error, whose
/// message is "invalid Header provided".
#[verifier::external_body]
fn parse_content_length(s: &str) -> (r: Result<u64, String>)
    ensures
        match spec_parse_u64(spec_trim(s@)) {
            Some(n) => r == Ok::<u64, String>(n),
            None => r matches Err(m) && m@ == "invalid Header provided"@,
        },
{
    hyper::header::ContentLength::parse_header(&hyper::header::Raw::from(s)).map(|c| c.0).map_err(
        |e| e.to_string(),
    )
}

/// `ContentDisposition::parse_header` of the single line `s`; on failure
/// `hyper`'s header error, whose message is "invalid Header provided".
#[verifier::external_body]
fn parse_disposition(s: &str) -> (r: Result<ContentDisposition, String>)
    ensures
        match parsed_disposition(s@) {
            Some(p) => r matches Ok(cd) && disposition_model(cd) == p,
            None => r matches Err(m) && m@ == "invalid Header provided"@,
        },
{
    ContentDisposition::parse_header(&hyper::header::Raw::from(s)).map_err(|e| e.to_string())
}

/// `Headers::set(ContentLength(n))`: the `Content-Length` header becomes
/// the typed length, written as the single line of `n` in decimal; the
/// `Content-Disposition` header is untouched.
#[verifier::external_body]
fn set_content_length(h: &mut Headers, n: u64)
    ensures
        header_list(*final(h)) == set_header(header_list(*old(h)), length_entry(n as nat)),
        typed_disposition(*final(h)) == typed_disposition(*old(h)),
{
    h.set(hyper::header::ContentLength(n))
}

/// `Headers::set(cd)`: the `Content-Disposition` header becomes `cd`. Its
/// raw form, which `hyper` writes from `cd`, is not described.
#[verifier::external_body]
fn set_disposition(h: &mut Headers, cd: ContentDisposition)
    ensures
        exists|l: Option<Seq<Seq<u8>>>|
            header_list(*final(h)) == set_header(header_list(*old(h)), disposition_entry(l)),
        typed_disposition(*final(h)) == Some(disposition_model(cd)),
{
    h.set(cd)
}

/// `Headers::get::<ContentDisposition>`, copied out; it panics on an entry
/// of that name that holds neither a raw form nor a typed
/// `ContentDisposition`. Where it finds nothing, every header named
/// `Content-Disposition` (up to ASCII case) holds a raw form, which
/// `Item::typed` tried to parse.
#[verifier::external_body]
fn get_disposition(h: &Headers) -> (r: Option<ContentDisposition>)
    requires
        disposition_readable(header_list(*h)),
    ensures
        match typed_disposition(*h) {
            Some(p) => r matches Some(cd) && disposition_model(cd) == p,
            None => r is None,
        },
        r is None ==> forall|k: int|
            0 <= k < header_list(*h).len() && same_header_name(
                #[trigger] header_list(*h)[k].name,
                disposition_name(),
            ) ==> header_list(*h)[k].stored_raw,
{
    h.get::<ContentDisposition>().cloned()
}

/// `<Headers as Clone>::clone`: a copy with the same headers.
#[verifier::external_body]
fn clone_headers(h: &Headers) -> (r: Headers)
    ensures
        header_list(r) == header_list(*h),
        typed_disposition(r) == typed_disposition(*h),
{
    h.clone()
}

/// The parameters of `cd` (its `parameters` field): the bytes of each
/// `DispositionParam::Filename`, `None` for each `DispositionParam::Ext`.
#[verifier::external_body]
fn disposition_filenames(cd: &ContentDisposition) -> (r: Vec<Option<Vec<u8>>>)
    ensures
        r@.len() == disposition_model(*cd).params.len(),
        forall|k: int|
            0 <= k < r@.len() ==> match (#[trigger] r@[k]) {
                Some(b) => disposition_model(*cd).params[k] == DispositionParamModel::Filename(b@),
                None => disposition_model(*cd).params[k] is Ext,
            },
{
    cd.parameters.iter().map(|p| match p {
        hyper::header::DispositionParam::Filename(_, _, b) => Some(b.clone()),
        hyper::header::DispositionParam::Ext(_, _) => None,
    }).collect()
}

/// `String::from_utf8`, its error written out with `to_string`: the decoding
/// of valid UTF-8, and otherwise an error message.
#[verifier::external_body]
fn string_from_utf8(b: Vec<u8>) -> (r: Result<String, String>)
    ensures
        match r {
            Ok(s) => valid_utf8(b@) && s@ == decode_utf8(b@),
            Err(m) => !valid_utf8(b@) && m@ == utf8_error_message(b@),
        },
{
    String::from_utf8(b).map_err(|e| e.to_string())
}

// ---------------------------------------------------------------------------
// The file name

/// The first parameter of the list that is a file name.
pub open spec fn first_filename_from(params: Seq<DispositionParamModel>, i: int) -> Option<
    Seq<u8>,
>
    decreases params.len() - i,
{
    if i < 0 || i >= params.len() {
        None
    } else {
        match params[i] {
            DispositionParamModel::Filename(b) => Some(b),
            DispositionParamModel::Ext(_, _) => first_filename_from(params, i + 1),
        }
    }
}

/// The file name of a `Content-Disposition` header: its first file name
/// parameter decoded as UTF-8; an error where there is none or it is not
/// UTF-8.
pub open spec fn spec_filename(d: DispositionModel) -> Result<Seq<char>, Seq<char>> {
    match first_filename_from(d.params, 0) {
        Some(b) => if valid_utf8(b) {
            Ok(decode_utf8(b))
        } else {
            Err(utf8_error_message(b))
        },
        None => Err("Filename not found"@),
    }
}

/// Whether `r` is the string result that `s` describes.
pub open spec fn string_result_is(r: Result<String, String>, s: Result<Seq<char>, Seq<char>>) -> bool {
    match s {
        Ok(t) => r matches Ok(x) && x@ == t,
        Err(m) => r matches Err(x) && x@ == m,
    }
}

/// The file name that a `Content-Disposition` header gives: its first file
/// name parameter as UTF-8.
pub fn get_filename_from_header(disposition: &ContentDisposition) -> (r: Result<String, String>)
    ensures
        string_result_is(r, spec_filename(disposition_model(*disposition))),
{
    let params: Vec<Option<Vec<u8>>> = disposition_filenames(disposition);
    let ghost view: Seq<DispositionParamModel> = disposition_model(*disposition).params;
    let mut k: usize = 0;
    while k < params.len()
        invariant
            k <= params@.len(),
            params@.len() == view.len(),
            view == disposition_model(*disposition).params,
            forall|t: int|
                0 <= t < params@.len() ==> match (#[trigger] params@[t]) {
                    Some(b) => view[t] == DispositionParamModel::Filename(b@),
                    None => view[t] is Ext,
                },
            first_filename_from(view, 0) == first_filename_from(view, k as int),
        decreases params@.len() - k,
    {
        match &params[k] {
            Some(bytes) => {
                let copy: Vec<u8> = bytes.clone();
                return string_from_utf8(copy);
            },
            None => {},
        }
        k = k + 1;
    }
    Err(String::from_str("Filename not found"))
}

// ---------------------------------------------------------------------------
// Mending the header

/// The marker of the content length inside the mangled header.
pub open spec fn length_marker() -> Seq<char> {
    "Content-Length:"@
}

/// The two halves of a mangled `Content-Disposition` line that holds the
/// content length after its disposition: before the first
/// `Content-Length:`, trimmed of whitespace and then of `;`; and after that
/// marker, trimmed of whitespace and then of `"`, with the marker removed.
pub open spec fn spec_split_line(raw: Seq<char>) -> (Seq<char>, Seq<char>) {
    let pos: int = spec_find(raw, length_marker())->0;
    (
        spec_trim_matches(spec_trim(raw.take(pos)), ';'),
        spec_trim_matches(spec_trim(raw.skip(pos)), '"').skip(15),
    )
}

/// The site's mangled line: a disposition `d` that does not hold the
/// marker, then `; Content-Length: `, the length `n` in decimal and any run
/// `q` of double quotes (the closing quote of a quoted value). The first
/// marker is the one after `d`, and the length part, trimmed as
/// `ContentLength` reads it, is the decimal writing of `n`, which reads back
/// as `n`.
pub proof fn lemma_split_mangled_line(d: Seq<char>, n: u64, q: Seq<char>)
    requires
        forall|p: int| !occurs_at(d, length_marker(), p),
        forall|k: int| 0 <= k < q.len() ==> q[k] == '"',
    ensures
        spec_find(d + "; Content-Length: "@ + decimal(n as nat) + q, length_marker()) == Some(
            d.len() as int + 2,
        ),
        spec_trim(spec_split_line(d + "; Content-Length: "@ + decimal(n as nat) + q).1)
            == decimal(n as nat),
        spec_parse_u64(spec_trim(spec_split_line(d + "; Content-Length: "@ + decimal(n as nat) + q).1))
            == Some(n),
{
    reveal_strlit("; Content-Length: ");
    reveal_strlit("Content-Length:");
    let m: Seq<char> = length_marker();
    let dec: Seq<char> = decimal(n as nat);
    crate::text::lemma_decimal_digits(n as nat);
    crate::text::lemma_parse_u64_of_decimal(n);
    let raw: Seq<char> = d + "; Content-Length: "@ + dec + q;
    let pos: int = d.len() + 2int;
    assert(m.len() == 15);
    assert forall|k: int| 0 <= k < 15 implies #[trigger] m[k] != ';' && m[k] != ' ' by {
    }
    assert(raw.subrange(pos, pos + 15) =~= m);
    assert forall|p: int| 0 <= p < pos implies !occurs_at(raw, m, p) by {
        if p + 15 <= d.len() {
            assert(raw.subrange(p, p + 15) =~= d.subrange(p, p + 15));
            assert(!occurs_at(d, m, p));
        } else if p <= d.len() {
            if occurs_at(raw, m, p) {
                assert(raw.subrange(p, p + 15)[d.len() - p] == raw[d.len() as int]);
                assert(raw[d.len() as int] == ';');
                assert(m[d.len() - p] != ';');
            }
        } else {
            if occurs_at(raw, m, p) {
                assert(raw.subrange(p, p + 15)[0] == raw[p]);
                assert(raw[p] == ' ');
                assert(m[0] != ' ');
            }
        }
    }
    crate::text::lemma_find_first(raw, m, 0, pos);
    let after: Seq<char> = raw.skip(pos);
    let head: Seq<char> = "Content-Length: "@;
    reveal_strlit("Content-Length: ");
    assert(after =~= head + dec + q);
    assert(spec_trim_start(after) == after);
    assert(!spec_is_whitespace(after.last())) by {
        if q.len() > 0 {
            assert(after.last() == q.last());
        } else {
            assert(after.last() == dec.last());
            assert(is_digit(dec[dec.len() - 1]));
        }
    }
    assert(spec_trim(after) == after);
    assert(spec_trim_start_char(after, '"') == after);
    let j: int = after.len() - q.len() as int;
    assert forall|k: int| j <= k < after.len() implies #[trigger] after[k] == '"' by {
        assert(after[k] == q[k - j]);
    }
    crate::text::lemma_trim_end_char_skip(after, '"', j);
    let kept: Seq<char> = after.subrange(0, j);
    assert(kept =~= head + dec);
    assert(kept.last() == dec.last());
    assert(is_digit(dec[dec.len() - 1]));
    assert(spec_trim_end_char(kept, '"') == kept);
    assert(spec_trim_matches(spec_trim(after), '"') == kept);
    let x: Seq<char> = kept.skip(15);
    assert(x =~= seq![' '] + dec);
    assert(spec_split_line(raw).1 == x);
    assert(x.drop_first() =~= dec);
    assert(is_digit(dec[0]));
    assert(spec_trim_start(dec) == dec);
    assert(spec_trim_start(x) == dec);
    assert(x.last() == dec.last());
    assert(spec_trim_end(dec) == dec);
}

/// Splits a mangled `Content-Disposition` line that holds
/// `Content-Length:` into its disposition part and its content length part.
pub fn split_disposition_line(raw: &[char]) -> (r: (Vec<char>, Vec<char>))
    requires
        spec_find(raw@, length_marker()) is Some,
    ensures
        r.0@ == spec_split_line(raw@).0,
        r.1@ == spec_split_line(raw@).1,
{
    let marker: Vec<char> = str_chars("Content-Length:");
    let pos: usize = match find(raw, &marker) {
        Some(p) => p,
        None => {
            return (Vec::new(), Vec::new());
        },
    };
    proof {
        crate::text::lemma_find_occurs(raw@, marker@);
    }
    let before: Vec<char> = slice_range(raw, 0, pos);
    let after: Vec<char> = slice_range(raw, pos, raw.len());
    assert(before@ == raw@.take(pos as int));
    assert(after@ == raw@.skip(pos as int));
    let cd: Vec<char> = trim_matches(&trim(&before), ';');
    let cl_full: Vec<char> = trim_matches(&trim(&after), '"');
    proof {
        reveal_strlit("Content-Length:");
        assert(marker@.len() == 15);
        assert(occurs_at(raw@, marker@, pos as int));
        assert(after@.take(15) =~= raw@.subrange(pos as int, pos + 15));
        assert(after@.take(15) =~= marker@);
        assert(marker@[0] == 'C');
        assert(marker@[14] == ':');
        lemma_trims_keep_prefix(after@, '"', 14);
    }
    let cl: Vec<char> = slice_range(&cl_full, 15, cl_full.len());
    assert(cl@ =~= cl_full@.skip(15));
    (cd, cl)
}

/// Whether mending the headers `list` is defined: where the first header
/// named exactly `Content-Disposition` has a single line, that line holds
/// `Content-Length:`, and its raw form can be written.
pub open spec fn fix_defined(list: Seq<HeaderEntry>) -> bool {
    match first_header_from(list, "Content-Disposition"@, true, 0) {
        None => true,
        Some(k) => match list[k].lines {
            None => false,
            Some(lines) => lines.len() != 1 || spec_find(utf8_lossy(lines[0]), length_marker())
                is Some,
        },
    }
}

/// Whether `r` is an error with message `m`.
pub open spec fn err_is(r: Result<(), String>, m: Seq<char>) -> bool {
    r matches Err(x) && x@ == m
}

/// What mending the headers `list` (with typed disposition `typed`) gives:
/// an error message, or the new header list and typed disposition, given
/// the raw form `l` that `hyper` writes for the new `Content-Disposition`.
pub open spec fn fix_outcome(
    list: Seq<HeaderEntry>,
    typed: Option<DispositionModel>,
    new_list: Seq<HeaderEntry>,
    new_typed: Option<DispositionModel>,
    r: Result<(), String>,
) -> bool {
    let unchanged: bool = new_list == list && new_typed == typed;
    match first_header_from(list, "Content-Disposition"@, true, 0) {
        None => unchanged && err_is(r, "Header CD not found"@),
        Some(k) => {
            let lines: Seq<Seq<u8>> = list[k].lines->0;
            if lines.len() != 1 {
                unchanged && err_is(r, "raw not parsed"@)
            } else {
                let parts: (Seq<char>, Seq<char>) = spec_split_line(utf8_lossy(lines[0]));
                match spec_parse_u64(spec_trim(parts.1)) {
                    None => unchanged && err_is(r, "invalid Header provided"@),
                    Some(n) => match parsed_disposition(parts.0) {
                        None => unchanged && err_is(r, "invalid Header provided"@),
                        Some(p) => {
                            &&& r is Ok
                            &&& new_typed == Some(p)
                            &&& exists|l: Option<Seq<Seq<u8>>>|
                                new_list == set_header(
                                    set_header(list, length_entry(n as nat)),
                                    disposition_entry(l),
                                )
                        },
                    },
                }
            }
        },
    }
}

/// The index of the first header named exactly `name`.
fn find_header(names: &Vec<String>, name: &str) -> (r: Option<usize>)
    ensures
        r matches Some(k) ==> k < names@.len() && names@[k as int]@ == name@ && forall|t: int|
            0 <= t < k ==> (#[trigger] names@[t])@ != name@,
        r is None ==> forall|t: int| 0 <= t < names@.len() ==> (#[trigger] names@[t])@ != name@,
{
    let mut k: usize = 0;
    while k < names.len()
        invariant
            k <= names@.len(),
            forall|t: int| 0 <= t < k ==> (#[trigger] names@[t])@ != name@,
        decreases names@.len() - k,
    {
        if crate::selector_cache::str_equal(names[k].as_str(), name) {
            return Some(k);
        }
        k = k + 1;
    }
    None
}

/// The index of the first header named exactly `Content-Disposition`.
fn first_disposition_header(headers: &Headers) -> (r: Option<usize>)
    ensures
        r matches Some(k) ==> k < header_list(*headers).len() && header_list(*headers)[k as int].name
            == disposition_name() && first_header_from(
            header_list(*headers),
            disposition_name(),
            true,
            0,
        ) == Some(k as int),
        r is None ==> first_header_from(header_list(*headers), disposition_name(), true, 0) is None,
{
    let ghost list: Seq<HeaderEntry> = header_list(*headers);
    let names: Vec<String> = header_names(headers);
    match find_header(&names, "Content-Disposition") {
        Some(k) => {
            proof {
                assert forall|t: int| 0 <= t < k implies (#[trigger] list[t]).name
                    != disposition_name() by {
                    assert(names@[t]@ == list[t].name);
                }
                assert(names@[k as int]@ == list[k as int].name);
                lemma_first_header_exact(list, disposition_name(), k as int, 0);
            }
            Some(k)
        },
        None => {
            proof {
                assert forall|t: int| 0 <= t < list.len() implies (#[trigger] list[t]).name
                    != disposition_name() by {
                    assert(names@[t]@ == list[t].name);
                }
                lemma_first_header_exact(list, disposition_name(), list.len() as int, 0);
            }
            None
        },
    }
}

proof fn lemma_first_header_exact(
    list: Seq<HeaderEntry>,
    name: Seq<char>,
    k: int,
    i: int,
)
    requires
        0 <= i <= k <= list.len(),
        k < list.len() ==> list[k].name == name,
        forall|t: int| i <= t < k ==> (#[trigger] list[t]).name != name,
    ensures
        first_header_from(list, name, true, i) == if k < list.len() {
            Some(k)
        } else {
            None::<int>
        },
    decreases k - i,
{
    if i < k {
        lemma_first_header_exact(list, name, k, i + 1);
    }
}

proof fn lemma_first_header_bounds(list: Seq<HeaderEntry>, name: Seq<char>, exact: bool, i: int)
    ensures
        first_header_from(list, name, exact, i) matches Some(k) ==> 0 <= i <= k < list.len()
            && (!exact ==> same_header_name(list[k].name, name)),
    decreases list.len() - i,
{
    if 0 <= i < list.len() && !((exact && list[i].name == name) || (!exact && same_header_name(
        list[i].name,
        name,
    ))) {
        lemma_first_header_bounds(list, name, exact, i + 1);
    }
}

/// The length entry is not named `Content-Disposition`, even up to case.
proof fn lemma_length_entry_not_disposition(n: nat)
    ensures
        !same_header_name(length_entry(n).name, disposition_name()),
{
    reveal_strlit("Content-Length");
    reveal_strlit("Content-Disposition");
}

/// Setting an entry that `Headers::get::<ContentDisposition>` can read, or
/// that is not named `Content-Disposition`, keeps every entry of that name
/// readable.
proof fn lemma_set_keeps_readable(list: Seq<HeaderEntry>, e: HeaderEntry)
    requires
        disposition_readable(list),
        same_header_name(e.name, disposition_name()) ==> e.stored_raw || e.typed_disposition,
    ensures
        disposition_readable(set_header(list, e)),
{
    lemma_first_header_bounds(list, e.name, false, 0);
    let after: Seq<HeaderEntry> = set_header(list, e);
    assert forall|t: int|
        0 <= t < after.len() && same_header_name(
            #[trigger] after[t].name,
            disposition_name(),
        ) implies after[t].stored_raw || after[t].typed_disposition by {
        if t < list.len() && after[t] == list[t] {
        } else {
            assert(after[t] == e);
        }
    }
}

/// Mends the `Content-Disposition` header of the site, which holds the
/// content length after the disposition: the first header named exactly
/// `Content-Disposition` must have a single line; its part before
/// `Content-Length:` becomes the new `Content-Disposition`, its part after it
/// the new `Content-Length`. On an error the headers are unchanged.
pub fn fix_headers(headers: &mut Headers) -> (r: Result<(), String>)
    requires
        fix_defined(header_list(*old(headers))),
    ensures
        disposition_readable(header_list(*old(headers))) ==> disposition_readable(
            header_list(*final(headers)),
        ),
        fix_outcome(
            header_list(*old(headers)),
            typed_disposition(*old(headers)),
            header_list(*final(headers)),
            typed_disposition(*final(headers)),
            r,
        ),
{
    let ghost list: Seq<HeaderEntry> = header_list(*headers);
    let k: usize = match first_disposition_header(headers) {
        Some(k) => k,
        None => {
            return Err(String::from_str("Header CD not found"));
        },
    };
    let lines: Vec<Vec<u8>> = header_lines(headers, k);
    if lines.len() != 1 {
        return Err(String::from_str("raw not parsed"));
    }
    let raw: String = lossy_string(lines[0].as_slice());
    let raw_chars: Vec<char> = str_chars(raw.as_str());
    let parts: (Vec<char>, Vec<char>) = split_disposition_line(&raw_chars);
    let cd_text: String = string_from_chars(&parts.0);
    let cl_text: String = string_from_chars(&parts.1);
    let n: u64 = parse_content_length(cl_text.as_str())?;
    let cd: ContentDisposition = parse_disposition(cd_text.as_str())?;
    set_content_length(headers, n);
    let ghost mid: Seq<HeaderEntry> = header_list(*headers);
    set_disposition(headers, cd);
    proof {
        if disposition_readable(list) {
            lemma_length_entry_not_disposition(n as nat);
            lemma_set_keeps_readable(list, length_entry(n as nat));
            let l: Option<Seq<Seq<u8>>> = choose|l: Option<Seq<Seq<u8>>>|
                header_list(*headers) == set_header(mid, disposition_entry(l));
            lemma_set_keeps_readable(mid, disposition_entry(l));
        }
    }
    Ok(())
}

/// The header map of the raw lines `pairs` (a header name and one line of
/// its value each), appended in order as a response's headers arrive: every
/// entry holds its raw form, so each can be read as any header type.
pub fn headers_from_raw(pairs: &Vec<(String, Vec<u8>)>) -> (r: Headers)
    ensures
        header_list(r) == raw_header_list(raw_pairs_view(pairs@)),
        disposition_raw(header_list(r)),
        disposition_readable(header_list(r)),
{
    let mut h: Headers = new_headers();
    let ghost all: Seq<(Seq<char>, Seq<u8>)> = raw_pairs_view(pairs@);
    let mut i: usize = 0;
    proof {
        assert(all.take(0) =~= Seq::<(Seq<char>, Seq<u8>)>::empty());
    }
    while i < pairs.len()
        invariant
            i <= pairs.len(),
            all == raw_pairs_view(pairs@),
            header_list(h) == raw_header_list(all.take(i as int)),
            forall|t: int|
                0 <= t < header_list(h).len() ==> (#[trigger] header_list(h)[t]).stored_raw
                    && header_list(h)[t].lines is Some,
        decreases pairs.len() - i,
    {
        let ghost before: Seq<HeaderEntry> = header_list(h);
        proof {
            lemma_first_header_bounds(before, pairs@[i as int].0@, false, 0);
        }
        append_raw_header(&mut h, pairs[i].0.as_str(), &pairs[i].1);
        proof {
            assert(all.take(i + 1).drop_last() =~= all.take(i as int));
            assert(all.take(i + 1).last() == (pairs@[i as int].0@, pairs@[i as int].1@));
            let after: Seq<HeaderEntry> = header_list(h);
            assert forall|t: int| 0 <= t < after.len() implies (#[trigger] after[t]).stored_raw
                && after[t].lines is Some by {
                if t < before.len() && after[t] == before[t] {
                }
            }
        }
        i = i + 1;
    }
    proof {
        assert(all.take(pairs.len() as int) =~= all);
    }
    h
}

/// Whether mending `headers` is defined, for headers whose entries named
/// `Content-Disposition` hold raw forms (as received): reading their raw
/// form then cannot fail, and the test reads it.
pub fn can_fix_headers(headers: &Headers) -> (r: bool)
    requires
        disposition_raw(header_list(*headers)),
    ensures
        r == fix_defined(header_list(*headers)),
{
    let ghost list: Seq<HeaderEntry> = header_list(*headers);
    let k: usize = match first_disposition_header(headers) {
        Some(k) => k,
        None => {
            return true;
        },
    };
    proof {
        assert(same_header_name(list[k as int].name, disposition_name()));
    }
    let lines: Vec<Vec<u8>> = header_lines(headers, k);
    if lines.len() != 1 {
        return true;
    }
    let raw: String = lossy_string(lines[0].as_slice());
    let raw_chars: Vec<char> = str_chars(raw.as_str());
    let marker: Vec<char> = str_chars("Content-Length:");
    match find(&raw_chars, &marker) {
        Some(_) => true,
        None => false,
    }
}

/// Whether reading the file name of a download from `headers` is defined:
/// where no typed `Content-Disposition` is found, the mending of the headers
/// must be defined.
pub fn can_read_filename(headers: &Headers) -> (r: bool)
    requires
        disposition_readable(header_list(*headers)),
    ensures
        r == (typed_disposition(*headers) is None ==> fix_defined(header_list(*headers))),
{
    if get_disposition(headers).is_some() {
        true
    } else {
        can_fix_headers(headers)
    }
}

/// What reading the file name of a download from its headers gives: the
/// typed `Content-Disposition` if there is one, otherwise the one that
/// mending the headers yields.
pub open spec fn read_filename_outcome(
    list: Seq<HeaderEntry>,
    typed: Option<DispositionModel>,
    r: Result<String, String>,
) -> bool {
    match typed {
        Some(p) => string_result_is(r, spec_filename(p)),
        None => exists|new_list: Seq<HeaderEntry>,
            new_typed: Option<DispositionModel>,
            fixed: Result<(), String>|
            {
                &&& fix_outcome(list, typed, new_list, new_typed, fixed)
                &&& match fixed {
                    Err(m) => r matches Err(x) && x@ == m@,
                    Ok(_) => match new_typed {
                        Some(p) => string_result_is(r, spec_filename(p)),
                        None => r matches Err(x) && x@ == "Header not found"@,
                    },
                }
            },
    }
}

/// The file name of a download: from its typed `Content-Disposition`
/// header, or else from a mended copy of its headers.
pub fn read_filename(headers: &Headers) -> (r: Result<String, String>)
    requires
        disposition_readable(header_list(*headers)),
        typed_disposition(*headers) is None ==> fix_defined(header_list(*headers)),
    ensures
        read_filename_outcome(header_list(*headers), typed_disposition(*headers), r),
{
    match get_disposition(headers) {
        Some(cd) => get_filename_from_header(&cd),
        None => {
            let mut copy: Headers = clone_headers(headers);
            let fixed: Result<(), String> = fix_headers(&mut copy);
            match fixed {
                Err(m) => Err(m),
                Ok(()) => match get_disposition(&copy) {
                    Some(cd) => get_filename_from_header(&cd),
                    None => Err(String::from_str("Header not found")),
                },
            }
        },
    }
}

} // verus!
