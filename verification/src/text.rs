//! Character-level text handling: whitespace trimming, decimal numbers,
//! substring search and joining, over sequences of `char`.

use vstd::prelude::*;

verus! {

// ---------------------------------------------------------------------------
// Conversions between `&str`/`String` and `Vec<char>`

/// The characters of `s`, in order.
pub fn str_chars(s: &str) -> (r: Vec<char>)
    ensures
        r@ == s@,
{
    let mut r: Vec<char> = Vec::new();
    for c in it: s.chars()
        invariant
            it.seq() == s@,
            r@ == it.seq().take(it.index() as int),
    {
        r.push(c);
        assert(r@ == it.seq().take(it.index() + 1));
    }
    assert(r@ == s@.take(s@.len() as int));
    r
}

/// `String::from_iter` over the characters of `v`: the string made of those
/// characters, in order.
#[verifier::external_body]
pub(crate) fn string_from_chars(v: &[char]) -> (r: String)
    ensures
        r@ == v@,
{
    v.iter().collect::<String>()
}

// ---------------------------------------------------------------------------
// Whitespace

/// `char::is_whitespace`: the characters with the Unicode `White_Space`
/// property.
pub open spec fn spec_is_whitespace(c: char) -> bool {
    let u: u32 = c as u32;
    ||| 0x09 <= u <= 0x0D
    ||| u == 0x20
    ||| u == 0x85
    ||| u == 0xA0
    ||| u == 0x1680
    ||| 0x2000 <= u <= 0x200A
    ||| u == 0x2028
    ||| u == 0x2029
    ||| u == 0x202F
    ||| u == 0x205F
    ||| u == 0x3000
}

/// Whether `c` is whitespace in the sense of `char::is_whitespace`.
pub fn is_whitespace(c: char) -> (r: bool)
    ensures
        r == spec_is_whitespace(c),
{
    let u: u32 = c as u32;
    (0x09 <= u && u <= 0x0D) || u == 0x20 || u == 0x85 || u == 0xA0 || u == 0x1680 || (0x2000
        <= u && u <= 0x200A) || u == 0x2028 || u == 0x2029 || u == 0x202F || u == 0x205F || u
        == 0x3000
}

/// `s` without its leading whitespace.
pub open spec fn spec_trim_start(s: Seq<char>) -> Seq<char>
    decreases s.len(),
{
    if s.len() > 0 && spec_is_whitespace(s[0]) {
        spec_trim_start(s.drop_first())
    } else {
        s
    }
}

/// `s` without its trailing whitespace.
pub open spec fn spec_trim_end(s: Seq<char>) -> Seq<char>
    decreases s.len(),
{
    if s.len() > 0 && spec_is_whitespace(s.last()) {
        spec_trim_end(s.drop_last())
    } else {
        s
    }
}

/// `str::trim`: `s` without leading and trailing whitespace.
pub open spec fn spec_trim(s: Seq<char>) -> Seq<char> {
    spec_trim_end(spec_trim_start(s))
}

/// `s` without the leading copies of `c`.
pub open spec fn spec_trim_start_char(s: Seq<char>, c: char) -> Seq<char>
    decreases s.len(),
{
    if s.len() > 0 && s[0] == c {
        spec_trim_start_char(s.drop_first(), c)
    } else {
        s
    }
}

/// `s` without the trailing copies of `c`.
pub open spec fn spec_trim_end_char(s: Seq<char>, c: char) -> Seq<char>
    decreases s.len(),
{
    if s.len() > 0 && s.last() == c {
        spec_trim_end_char(s.drop_last(), c)
    } else {
        s
    }
}

/// `str::trim_matches` with one character: `s` without leading and trailing
/// copies of `c`.
pub open spec fn spec_trim_matches(s: Seq<char>, c: char) -> Seq<char> {
    spec_trim_end_char(spec_trim_start_char(s, c), c)
}

proof fn lemma_trim_start_skip(s: Seq<char>, i: int)
    requires
        0 <= i <= s.len(),
        forall|k: int| 0 <= k < i ==> spec_is_whitespace(#[trigger] s[k]),
    ensures
        spec_trim_start(s) == spec_trim_start(s.subrange(i, s.len() as int)),
    decreases i,
{
    if i > 0 {
        assert(s.drop_first().subrange(i - 1, s.drop_first().len() as int) == s.subrange(
            i,
            s.len() as int,
        ));
        lemma_trim_start_skip(s.drop_first(), i - 1);
    } else {
        assert(s.subrange(0, s.len() as int) == s);
    }
}

proof fn lemma_trim_end_skip(s: Seq<char>, j: int)
    requires
        0 <= j <= s.len(),
        forall|k: int| j <= k < s.len() ==> spec_is_whitespace(#[trigger] s[k]),
    ensures
        spec_trim_end(s) == spec_trim_end(s.subrange(0, j)),
    decreases s.len() - j,
{
    if j < s.len() {
        assert(s.drop_last().subrange(0, j) == s.subrange(0, j));
        lemma_trim_end_skip(s.drop_last(), j);
    } else {
        assert(s.subrange(0, j) == s);
    }
}

proof fn lemma_trim_start_char_skip(s: Seq<char>, c: char, i: int)
    requires
        0 <= i <= s.len(),
        forall|k: int| 0 <= k < i ==> #[trigger] s[k] == c,
    ensures
        spec_trim_start_char(s, c) == spec_trim_start_char(s.subrange(i, s.len() as int), c),
    decreases i,
{
    if i > 0 {
        assert(s.drop_first().subrange(i - 1, s.drop_first().len() as int) == s.subrange(
            i,
            s.len() as int,
        ));
        lemma_trim_start_char_skip(s.drop_first(), c, i - 1);
    } else {
        assert(s.subrange(0, s.len() as int) == s);
    }
}

pub(crate) proof fn lemma_trim_end_char_skip(s: Seq<char>, c: char, j: int)
    requires
        0 <= j <= s.len(),
        forall|k: int| j <= k < s.len() ==> #[trigger] s[k] == c,
    ensures
        spec_trim_end_char(s, c) == spec_trim_end_char(s.subrange(0, j), c),
    decreases s.len() - j,
{
    if j < s.len() {
        assert(s.drop_last().subrange(0, j) == s.subrange(0, j));
        lemma_trim_end_char_skip(s.drop_last(), c, j);
    } else {
        assert(s.subrange(0, j) == s);
    }
}

/// Trimming the end keeps a prefix, and keeps every position up to the last
/// character that is not whitespace.
pub proof fn lemma_trim_end_prefix(s: Seq<char>, i: int)
    requires
        0 <= i < s.len(),
        !spec_is_whitespace(s[i]),
    ensures
        spec_trim_end(s).len() > i,
        spec_trim_end(s).len() <= s.len(),
        spec_trim_end(s) == s.take(spec_trim_end(s).len() as int),
    decreases s.len(),
{
    if s.len() > 0 && spec_is_whitespace(s.last()) {
        lemma_trim_end_prefix(s.drop_last(), i);
        assert(spec_trim_end(s) == spec_trim_end(s.drop_last()));
        assert(s.drop_last().take(spec_trim_end(s).len() as int) =~= s.take(
            spec_trim_end(s).len() as int,
        ));
    } else {
        assert(s.take(s.len() as int) == s);
    }
}

/// Trimming trailing copies of `c` keeps a prefix, and keeps every position
/// up to the last character that is not `c`.
pub proof fn lemma_trim_end_char_prefix(s: Seq<char>, c: char, i: int)
    requires
        0 <= i < s.len(),
        s[i] != c,
    ensures
        spec_trim_end_char(s, c).len() > i,
        spec_trim_end_char(s, c).len() <= s.len(),
        spec_trim_end_char(s, c) == s.take(spec_trim_end_char(s, c).len() as int),
    decreases s.len(),
{
    if s.len() > 0 && s.last() == c {
        lemma_trim_end_char_prefix(s.drop_last(), c, i);
        assert(spec_trim_end_char(s, c) == spec_trim_end_char(s.drop_last(), c));
        assert(s.drop_last().take(spec_trim_end_char(s, c).len() as int) =~= s.take(
            spec_trim_end_char(s, c).len() as int,
        ));
    } else {
        assert(s.take(s.len() as int) == s);
    }
}

/// Trimming a text that starts and has its character at `i` neither
/// whitespace nor `c`, then trimming `c`, keeps its first `i + 1` characters.
pub proof fn lemma_trims_keep_prefix(s: Seq<char>, c: char, i: int)
    requires
        0 <= i < s.len(),
        !spec_is_whitespace(s[0]),
        s[0] != c,
        !spec_is_whitespace(s[i]),
        s[i] != c,
    ensures
        spec_trim_matches(spec_trim(s), c).len() > i,
        spec_trim_matches(spec_trim(s), c).take(i + 1) == s.take(i + 1),
{
    assert(spec_trim_start(s) == s);
    lemma_trim_end_prefix(s, i);
    let t: Seq<char> = spec_trim(s);
    assert(t == spec_trim_end(s));
    assert(t == s.take(t.len() as int));
    assert(t[0] == s[0]);
    assert(spec_trim_start_char(t, c) == t);
    assert(t[i] == s[i]);
    lemma_trim_end_char_prefix(t, c, i);
    let u: Seq<char> = spec_trim_matches(t, c);
    assert(u.take(i + 1) =~= s.take(i + 1));
}

/// The characters of `s` without leading and trailing whitespace.
pub fn trim(s: &[char]) -> (r: Vec<char>)
    ensures
        r@ == spec_trim(s@),
{
    let n: usize = s.len();
    let mut i: usize = 0;
    while i < n && is_whitespace(s[i])
        invariant
            i <= n,
            n == s@.len(),
            forall|k: int| 0 <= k < i ==> spec_is_whitespace(#[trigger] s@[k]),
        decreases n - i,
    {
        i = i + 1;
    }
    proof {
        lemma_trim_start_skip(s@, i as int);
    }
    let ghost rest: Seq<char> = s@.subrange(i as int, n as int);
    assert(i == n || !spec_is_whitespace(rest[0]));
    assert(spec_trim_start(s@) == rest);
    let mut j: usize = n;
    while j > i && is_whitespace(s[j - 1])
        invariant
            i <= j <= n,
            n == s@.len(),
            forall|k: int| j <= k < n ==> spec_is_whitespace(#[trigger] s@[k]),
        decreases j,
    {
        j = j - 1;
    }
    proof {
        assert forall|k: int| j - i <= k < rest.len() implies spec_is_whitespace(
            #[trigger] rest[k],
        ) by {
            assert(rest[k] == s@[k + i]);
        }
        lemma_trim_end_skip(rest, j - i);
        assert(rest.subrange(0, j - i) == s@.subrange(i as int, j as int));
    }
    slice_range(s, i, j)
}

/// The characters of `s` without leading and trailing copies of `c`.
pub fn trim_matches(s: &[char], c: char) -> (r: Vec<char>)
    ensures
        r@ == spec_trim_matches(s@, c),
{
    let n: usize = s.len();
    let mut i: usize = 0;
    while i < n && s[i] == c
        invariant
            i <= n,
            n == s@.len(),
            forall|k: int| 0 <= k < i ==> #[trigger] s@[k] == c,
        decreases n - i,
    {
        i = i + 1;
    }
    proof {
        lemma_trim_start_char_skip(s@, c, i as int);
    }
    let ghost rest: Seq<char> = s@.subrange(i as int, n as int);
    assert(i == n || rest[0] != c);
    assert(spec_trim_start_char(s@, c) == rest);
    let mut j: usize = n;
    while j > i && s[j - 1] == c
        invariant
            i <= j <= n,
            n == s@.len(),
            forall|k: int| j <= k < n ==> #[trigger] s@[k] == c,
        decreases j,
    {
        j = j - 1;
    }
    proof {
        assert forall|k: int| j - i <= k < rest.len() implies #[trigger] rest[k] == c by {
            assert(rest[k] == s@[k + i]);
        }
        lemma_trim_end_char_skip(rest, c, j - i);
        assert(rest.subrange(0, j - i) == s@.subrange(i as int, j as int));
    }
    slice_range(s, i, j)
}

/// The characters of `s` from index `from` up to, not including, `to`.
pub fn slice_range(s: &[char], from: usize, to: usize) -> (r: Vec<char>)
    requires
        from <= to <= s@.len(),
    ensures
        r@ == s@.subrange(from as int, to as int),
{
    let mut r: Vec<char> = Vec::new();
    let mut k: usize = from;
    while k < to
        invariant
            from <= k <= to <= s@.len(),
            r@ == s@.subrange(from as int, k as int),
        decreases to - k,
    {
        r.push(s[k]);
        k = k + 1;
    }
    r
}

// ---------------------------------------------------------------------------
// Decimal numbers

/// The decimal digit character of `d`, which is below ten.
pub open spec fn digit_char(d: nat) -> char {
    if d == 0 {
        '0'
    } else if d == 1 {
        '1'
    } else if d == 2 {
        '2'
    } else if d == 3 {
        '3'
    } else if d == 4 {
        '4'
    } else if d == 5 {
        '5'
    } else if d == 6 {
        '6'
    } else if d == 7 {
        '7'
    } else if d == 8 {
        '8'
    } else {
        '9'
    }
}

/// The decimal writing of `n`, without leading zeros (`0` is written `"0"`),
/// as `Display` writes unsigned integers.
pub open spec fn decimal(n: nat) -> Seq<char>
    decreases n,
{
    if n < 10 {
        seq![digit_char(n)]
    } else {
        decimal(n / 10).push(digit_char(n % 10))
    }
}

/// The decimal writing of `n`.
pub fn decimal_chars(n: u64) -> (r: Vec<char>)
    ensures
        r@ == decimal(n as nat),
    decreases n,
{
    let d: u32 = (n % 10) as u32;
    let c: char = char_of_digit(d);
    if n < 10 {
        let mut r: Vec<char> = Vec::new();
        r.push(c);
        r
    } else {
        let mut r: Vec<char> = decimal_chars(n / 10);
        r.push(c);
        r
    }
}

fn char_of_digit(d: u32) -> (c: char)
    requires
        d < 10,
    ensures
        c == digit_char(d as nat),
{
    match d {
        0 => '0',
        1 => '1',
        2 => '2',
        3 => '3',
        4 => '4',
        5 => '5',
        6 => '6',
        7 => '7',
        8 => '8',
        _ => '9',
    }
}

/// Whether `c` is one of `0` to `9`.
pub open spec fn is_digit(c: char) -> bool {
    48 <= c as u32 <= 57
}

/// The value of the digit character `c`.
pub open spec fn digit_value(c: char) -> nat {
    (c as u32 - 48) as nat
}

/// The number that the digits of `s` write in decimal (leading zeros allowed).
pub open spec fn digits_value(s: Seq<char>) -> nat
    decreases s.len(),
{
    if s.len() == 0 {
        0
    } else {
        digits_value(s.drop_last()) * 10 + digit_value(s.last())
    }
}

/// Whether every character of `s` is a decimal digit.
pub open spec fn all_digits(s: Seq<char>) -> bool {
    forall|i: int| 0 <= i < s.len() ==> is_digit(#[trigger] s[i])
}

/// `FromStr` of an unsigned integer type whose largest value is `max`: an
/// optional leading `+`, then one or more decimal digits whose value is at
/// most `max`. Anything else, whitespace included, is refused.
pub open spec fn spec_parse_uint(s: Seq<char>, max: nat) -> Option<nat> {
    let body: Seq<char> = if s.len() > 0 && s[0] == '+' {
        s.drop_first()
    } else {
        s
    };
    if body.len() > 0 && all_digits(body) && digits_value(body) <= max {
        Some(digits_value(body))
    } else {
        None
    }
}

/// `<u8 as FromStr>::from_str`.
pub open spec fn spec_parse_u8(s: Seq<char>) -> Option<u8> {
    match spec_parse_uint(s, 255) {
        Some(v) => Some(v as u8),
        None => None,
    }
}

/// `<u64 as FromStr>::from_str`.
pub open spec fn spec_parse_u64(s: Seq<char>) -> Option<u64> {
    match spec_parse_uint(s, 0xffff_ffff_ffff_ffff) {
        Some(v) => Some(v as u64),
        None => None,
    }
}

proof fn lemma_digits_value_push(s: Seq<char>, c: char)
    ensures
        digits_value(s.push(c)) == digits_value(s) * 10 + digit_value(c),
{
    assert(s.push(c).drop_last() == s);
}

/// The `u8` that `s` writes in decimal, as `str::parse::<u8>` reads it, or
/// `None` where that parse fails.
pub fn parse_u8(s: &[char]) -> (r: Option<u8>)
    ensures
        r == spec_parse_u8(s@),
{
    let n: usize = s.len();
    let start: usize = if n > 0 && s[0] == '+' {
        1
    } else {
        0
    };
    let ghost body: Seq<char> = s@.subrange(start as int, n as int);
    assert(start == 1 ==> body == s@.drop_first());
    assert(start == 0 ==> body == s@);
    if start == n {
        assert(body.len() == 0);
        return None;
    }
    let mut acc: u32 = 0;
    let mut k: usize = start;
    while k < n
        invariant
            start <= k <= n,
            n == s@.len(),
            body == s@.subrange(start as int, n as int),
            body == (if s@.len() > 0 && s@[0] == '+' {
                s@.drop_first()
            } else {
                s@
            }),
            all_digits(s@.subrange(start as int, k as int)),
            acc == if digits_value(s@.subrange(start as int, k as int)) <= 255 {
                digits_value(s@.subrange(start as int, k as int))
            } else {
                256
            },
        decreases n - k,
    {
        let c: char = s[k];
        let ghost prefix: Seq<char> = s@.subrange(start as int, k as int);
        let u: u32 = c as u32;
        if u < 48 || u > 57 {
            assert(body[k - start] == c);
            assert(!is_digit(body[k - start]));
            return None;
        }
        let d: u32 = u - 48;
        assert(s@.subrange(start as int, k + 1) == prefix.push(c));
        proof {
            lemma_digits_value_push(prefix, c);
        }
        if acc > 255 {
            acc = 256;
        } else {
            let next: u32 = acc * 10 + d;
            acc = if next > 255 {
                256
            } else {
                next
            };
        }
        k = k + 1;
    }
    assert(s@.subrange(start as int, n as int) == body);
    if acc > 255 {
        None
    } else {
        Some(acc as u8)
    }
}

pub(crate) proof fn lemma_decimal_digits(n: nat)
    ensures
        decimal(n).len() > 0,
        all_digits(decimal(n)),
        digits_value(decimal(n)) == n,
        decimal(n)[0] != '+',
    decreases n,
{
    if n >= 10 {
        lemma_decimal_digits(n / 10);
        let s: Seq<char> = decimal(n / 10);
        lemma_digits_value_push(s, digit_char(n % 10));
        assert forall|i: int| 0 <= i < s.push(digit_char(n % 10)).len() implies is_digit(
            #[trigger] s.push(digit_char(n % 10))[i],
        ) by {
            if i < s.len() {
                assert(is_digit(s[i]));
            }
        }
    } else {
        assert(digits_value(decimal(n)) == digits_value(seq![digit_char(n)]));
        assert(seq![digit_char(n)].drop_last() =~= Seq::<char>::empty());
        assert(digits_value(Seq::<char>::empty()) == 0);
    }
}

/// Reading back the decimal writing of a `u8` gives the number:
/// what `decimal` writes, `parse_u8` undoes.
pub proof fn lemma_parse_u8_of_decimal(n: u8)
    ensures
        spec_parse_u8(decimal(n as nat)) == Some(n),
{
    lemma_decimal_digits(n as nat);
}

/// A `u64` written in decimal reads back as itself.
pub proof fn lemma_parse_u64_of_decimal(n: u64)
    ensures
        spec_parse_u64(decimal(n as nat)) == Some(n),
{
    lemma_decimal_digits(n as nat);
}

// ---------------------------------------------------------------------------
// Searching and joining

/// Whether `needle` stands in `hay` at index `i`.
pub open spec fn occurs_at(hay: Seq<char>, needle: Seq<char>, i: int) -> bool {
    0 <= i && i + needle.len() <= hay.len() && hay.subrange(i, i + needle.len()) == needle
}

/// The first index, from `i` on, at which `needle` stands in `hay`.
pub open spec fn find_from(hay: Seq<char>, needle: Seq<char>, i: int) -> Option<int>
    decreases hay.len() + 1 - i,
{
    if i < 0 || i + needle.len() > hay.len() {
        None
    } else if occurs_at(hay, needle, i) {
        Some(i)
    } else {
        find_from(hay, needle, i + 1)
    }
}

/// `str::find` with a string pattern: the first index at which `needle`
/// stands in `hay`.
pub open spec fn spec_find(hay: Seq<char>, needle: Seq<char>) -> Option<int> {
    find_from(hay, needle, 0)
}

proof fn lemma_find_from_bounds(hay: Seq<char>, needle: Seq<char>, i: int)
    ensures
        find_from(hay, needle, i) matches Some(k) ==> i <= k && occurs_at(hay, needle, k),
    decreases hay.len() + 1 - i,
{
    if !(i < 0 || i + needle.len() > hay.len()) && !occurs_at(hay, needle, i) {
        lemma_find_from_bounds(hay, needle, i + 1);
    }
}

/// Where `needle` stands at `k` and nowhere from `i` to before `k`, the
/// search from `i` finds it at `k`.
pub proof fn lemma_find_first(hay: Seq<char>, needle: Seq<char>, i: int, k: int)
    requires
        0 <= i <= k,
        occurs_at(hay, needle, k),
        forall|p: int| i <= p < k ==> !occurs_at(hay, needle, p),
    ensures
        find_from(hay, needle, i) == Some(k),
    decreases k - i,
{
    if i < k {
        lemma_find_first(hay, needle, i + 1, k);
    }
}

/// Where `spec_find` finds the needle, it stands there.
pub proof fn lemma_find_occurs(hay: Seq<char>, needle: Seq<char>)
    ensures
        spec_find(hay, needle) matches Some(k) ==> occurs_at(hay, needle, k),
{
    lemma_find_from_bounds(hay, needle, 0);
}

/// The first index at which `needle` stands in `hay`, if it does.
pub fn find(hay: &[char], needle: &[char]) -> (r: Option<usize>)
    ensures
        r matches Some(k) ==> spec_find(hay@, needle@) == Some(k as int),
        r is None ==> spec_find(hay@, needle@) is None,
{
    let n: usize = hay.len();
    let m: usize = needle.len();
    if m > n {
        return None;
    }
    let mut i: usize = 0;
    while i <= n - m
        invariant
            n == hay@.len(),
            m == needle@.len(),
            m <= n,
            i <= n - m + 1,
            find_from(hay@, needle@, 0) == find_from(hay@, needle@, i as int),
        decreases n - i,
    {
        let mut j: usize = 0;
        while j < m && hay[i + j] == needle[j]
            invariant
                j <= m,
                i + m <= n,
                n == hay@.len(),
                m == needle@.len(),
                forall|t: int| 0 <= t < j ==> hay@[i + t] == needle@[t],
            decreases m - j,
        {
            j = j + 1;
        }
        if j == m {
            assert(hay@.subrange(i as int, i + m) =~= needle@);
            return Some(i);
        }
        assert(hay@.subrange(i as int, i + m)[j as int] != needle@[j as int]);
        i = i + 1;
    }
    None
}

/// `parts` joined with `sep` between each two: `[].join(sep)` is empty.
pub open spec fn join(parts: Seq<Seq<char>>, sep: Seq<char>) -> Seq<char>
    decreases parts.len(),
{
    if parts.len() == 0 {
        Seq::empty()
    } else if parts.len() == 1 {
        parts[0]
    } else {
        join(parts.drop_last(), sep) + sep + parts.last()
    }
}

/// The total length of the strings of `parts`.
pub open spec fn total_len(parts: Seq<Seq<char>>) -> int
    decreases parts.len(),
{
    if parts.len() == 0 {
        0
    } else {
        total_len(parts.drop_last()) + parts.last().len()
    }
}

/// Where part `i` starts when `parts` are laid out with one character
/// between each two: after the parts before it and one separator each.
pub open spec fn part_start(parts: Seq<Seq<char>>, i: int) -> int {
    total_len(parts.take(i)) + i
}

proof fn lemma_total_len_nonneg(parts: Seq<Seq<char>>)
    ensures
        total_len(parts) >= 0,
    decreases parts.len(),
{
    if parts.len() > 0 {
        lemma_total_len_nonneg(parts.drop_last());
    }
}

/// Each part laid out with one character between each two ends within the
/// whole layout.
proof fn lemma_part_end_bound(parts: Seq<Seq<char>>, i: int)
    requires
        0 <= i < parts.len(),
    ensures
        part_start(parts, i) + parts[i].len() <= total_len(parts) + parts.len() - 1,
    decreases parts.len(),
{
    let p: Seq<Seq<char>> = parts.drop_last();
    assert(parts.take(parts.len() - 1) =~= p);
    if i < parts.len() - 1 {
        lemma_part_end_bound(p, i);
        assert(parts.take(i) =~= p.take(i));
    }
}

/// Part `i` of `parts` stands at its place in `j`.
spec fn part_in_place(j: Seq<char>, parts: Seq<Seq<char>>, i: int) -> bool {
    j.subrange(part_start(parts, i), part_start(parts, i) + parts[i].len()) == parts[i]
}

/// Part `i` of the joining of the parts without the last one stands at the
/// same place in the joining of all of them.
proof fn lemma_join_keeps_part(parts: Seq<Seq<char>>, sep: Seq<char>, i: int)
    requires
        sep.len() == 1,
        parts.len() > 1,
        0 <= i < parts.len() - 1,
        join(parts.drop_last(), sep).len() == total_len(parts.drop_last()) + parts.len() - 2,
        part_in_place(join(parts.drop_last(), sep), parts.drop_last(), i),
    ensures
        part_in_place(join(parts, sep), parts, i),
        0 < i ==> join(parts, sep)[part_start(parts, i) - 1] == join(parts.drop_last(), sep)[
            part_start(parts.drop_last(), i) - 1],
{
    let p: Seq<Seq<char>> = parts.drop_last();
    let jp: Seq<char> = join(p, sep);
    let j: Seq<char> = join(parts, sep);
    assert(j == jp + sep + parts.last());
    assert(parts.take(i) =~= p.take(i));
    assert(p[i] == parts[i]);
    lemma_part_end_bound(p, i);
    lemma_total_len_nonneg(p.take(i));
    assert(j.subrange(part_start(parts, i), part_start(parts, i) + parts[i].len()) =~= jp.subrange(
        part_start(p, i),
        part_start(p, i) + p[i].len(),
    ));
}

/// The last part of the joining stands after the joining of the others and
/// one separator.
proof fn lemma_join_last_part(parts: Seq<Seq<char>>, sep: Seq<char>)
    requires
        sep.len() == 1,
        parts.len() > 1,
        join(parts.drop_last(), sep).len() == total_len(parts.drop_last()) + parts.len() - 2,
    ensures
        join(parts, sep).len() == total_len(parts) + parts.len() - 1,
        part_in_place(join(parts, sep), parts, parts.len() - 1),
        join(parts, sep)[part_start(parts, parts.len() - 1) - 1] == sep[0],
{
    let n: int = parts.len() as int;
    let p: Seq<Seq<char>> = parts.drop_last();
    let jp: Seq<char> = join(p, sep);
    let j: Seq<char> = join(parts, sep);
    assert(j == jp + sep + parts.last());
    assert(parts.take(n - 1) =~= p);
    assert(total_len(parts) == total_len(p) + parts.last().len());
    assert(j.subrange(part_start(parts, n - 1), part_start(parts, n - 1) + parts[n - 1].len())
        =~= parts.last());
}

/// Joining with a one-character separator lays the parts out one after the
/// other, each at its place, with the separator between each two and
/// nothing else: the result is as long as the parts together plus one
/// separator for each two neighbours.
pub proof fn lemma_join_layout(parts: Seq<Seq<char>>, sep: Seq<char>)
    requires
        sep.len() == 1,
    ensures
        parts.len() == 0 ==> join(parts, sep) == Seq::<char>::empty(),
        parts.len() > 0 ==> join(parts, sep).len() == total_len(parts) + parts.len() - 1,
        forall|i: int|
            0 <= i < parts.len() ==> join(parts, sep).subrange(
                part_start(parts, i),
                part_start(parts, i) + (#[trigger] parts[i]).len(),
            ) == parts[i],
        forall|i: int|
            0 < i < parts.len() ==> join(parts, sep)[#[trigger] part_start(parts, i) - 1] == sep[0],
    decreases parts.len(),
{
    let n: int = parts.len() as int;
    if n == 1 {
        assert(parts.take(0) =~= Seq::<Seq<char>>::empty());
        assert(parts.drop_last() =~= Seq::<Seq<char>>::empty());
        assert(total_len(parts) == total_len(parts.drop_last()) + parts[0].len());
        assert(join(parts, sep).subrange(0, parts[0].len() as int) =~= parts[0]);
    } else if n > 1 {
        let p: Seq<Seq<char>> = parts.drop_last();
        lemma_join_layout(p, sep);
        lemma_join_last_part(parts, sep);
        assert forall|i: int| 0 <= i < n implies join(parts, sep).subrange(
            part_start(parts, i),
            part_start(parts, i) + (#[trigger] parts[i]).len(),
        ) == parts[i] by {
            if i < n - 1 {
                assert(part_in_place(join(p, sep), p, i));
                lemma_join_keeps_part(parts, sep, i);
            }
        }
        assert forall|i: int| 0 < i < n implies join(parts, sep)[#[trigger] part_start(parts, i) - 1]
            == sep[0] by {
            if i < n - 1 {
                assert(part_in_place(join(p, sep), p, i));
                lemma_join_keeps_part(parts, sep, i);
            }
        }
    }
}

/// The view of a vector of strings: the characters of each string.
pub open spec fn strings_view(v: Seq<String>) -> Seq<Seq<char>> {
    v.map_values(|s: String| s@)
}

/// The strings of `parts` joined with `sep` between each two.
pub fn join_strings(parts: &Vec<String>, sep: &str) -> (r: Vec<char>)
    ensures
        r@ == join(strings_view(parts@), sep@),
{
    let sep_chars: Vec<char> = str_chars(sep);
    let mut r: Vec<char> = Vec::new();
    let ghost view: Seq<Seq<char>> = strings_view(parts@);
    let mut i: usize = 0;
    while i < parts.len()
        invariant
            i <= parts@.len(),
            view == strings_view(parts@),
            sep_chars@ == sep@,
            r@ == join(view.take(i as int), sep@),
        decreases parts@.len() - i,
    {
        let part: Vec<char> = str_chars(parts[i].as_str());
        if i > 0 {
            append_chars(&mut r, &sep_chars);
        }
        append_chars(&mut r, &part);
        assert(view.take(i + 1).drop_last() =~= view.take(i as int));
        assert(view.take(i + 1).last() == part@);
        if i == 0 {
            assert(r@ =~= join(view.take(1), sep@));
        }
        i = i + 1;
    }
    assert(view.take(parts@.len() as int) =~= view);
    r
}

/// Appends the characters of `tail` to `v`.
pub fn append_chars(v: &mut Vec<char>, tail: &[char])
    ensures
        final(v)@ == old(v)@ + tail@,
{
    let mut k: usize = 0;
    let ghost start: Seq<char> = v@;
    while k < tail.len()
        invariant
            k <= tail@.len(),
            v@ == start + tail@.take(k as int),
        decreases tail@.len() - k,
    {
        v.push(tail[k]);
        assert(tail@.take(k + 1) =~= tail@.take(k as int).push(tail@[k as int]));
        k = k + 1;
    }
    assert(tail@.take(tail@.len() as int) =~= tail@);
}

} // verus!
