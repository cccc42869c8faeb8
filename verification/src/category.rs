//! Release categories of the tracker and their numeric codes.

use vstd::prelude::*;

verus! {

/// A release category. Each category has a numeric code on the site, and the
/// variants are declared in increasing order of that code, so the derived
/// ordering is the ordering of the codes.
#[derive(Debug, PartialEq, Eq, Structural, Clone, Copy, Hash, PartialOrd, Ord)]
pub enum TntCategory {
    TutteLeCategorie,
    FilmTVProgrammi,
    Musica,
    EBooks,
    Film,
    Linux,
    Anime,
    Cartoni,
    Macintosh,
    WindowsSoftware,
    PcGame,
    Playstation,
    StudentsReleases,
    Documentari,
    VideoMusicali,
    Sport,
    Teatro,
    Wrestling,
    Varie,
    Xbox,
    ImmaginiSfondi,
    AltriGiochi,
    SerieTV,
    Fumetteria,
    Trash,
    Nintendo,
    ABook,
    Podcast,
    Edicola,
    Mobile,
}

/// The numeric code of a category.
pub open spec fn category_code(c: TntCategory) -> u8 {
    match c {
        TntCategory::TutteLeCategorie => 0,
        TntCategory::FilmTVProgrammi => 1,
        TntCategory::Musica => 2,
        TntCategory::EBooks => 3,
        TntCategory::Film => 4,
        TntCategory::Linux => 6,
        TntCategory::Anime => 7,
        TntCategory::Cartoni => 8,
        TntCategory::Macintosh => 9,
        TntCategory::WindowsSoftware => 10,
        TntCategory::PcGame => 11,
        TntCategory::Playstation => 12,
        TntCategory::StudentsReleases => 13,
        TntCategory::Documentari => 14,
        TntCategory::VideoMusicali => 21,
        TntCategory::Sport => 22,
        TntCategory::Teatro => 23,
        TntCategory::Wrestling => 24,
        TntCategory::Varie => 25,
        TntCategory::Xbox => 26,
        TntCategory::ImmaginiSfondi => 27,
        TntCategory::AltriGiochi => 28,
        TntCategory::SerieTV => 29,
        TntCategory::Fumetteria => 30,
        TntCategory::Trash => 31,
        TntCategory::Nintendo => 32,
        TntCategory::ABook => 34,
        TntCategory::Podcast => 35,
        TntCategory::Edicola => 36,
        TntCategory::Mobile => 37,
    }
}

/// Whether `c` is the code of some category: every code up to 37 but
/// 5, 15 to 20 and 33.
pub open spec fn spec_is_valid_value(c: u8) -> bool {
    c <= 37 && c != 5 && !(15 <= c <= 20) && c != 33
}

/// The category a code stands for; a code that names no category stands for
/// `TutteLeCategorie`, the category of all releases.
pub open spec fn category_of_code(c: u8) -> TntCategory {
    match c {
        0 => TntCategory::TutteLeCategorie,
        1 => TntCategory::FilmTVProgrammi,
        2 => TntCategory::Musica,
        3 => TntCategory::EBooks,
        4 => TntCategory::Film,
        6 => TntCategory::Linux,
        7 => TntCategory::Anime,
        8 => TntCategory::Cartoni,
        9 => TntCategory::Macintosh,
        10 => TntCategory::WindowsSoftware,
        11 => TntCategory::PcGame,
        12 => TntCategory::Playstation,
        13 => TntCategory::StudentsReleases,
        14 => TntCategory::Documentari,
        21 => TntCategory::VideoMusicali,
        22 => TntCategory::Sport,
        23 => TntCategory::Teatro,
        24 => TntCategory::Wrestling,
        25 => TntCategory::Varie,
        26 => TntCategory::Xbox,
        27 => TntCategory::ImmaginiSfondi,
        28 => TntCategory::AltriGiochi,
        29 => TntCategory::SerieTV,
        30 => TntCategory::Fumetteria,
        31 => TntCategory::Trash,
        32 => TntCategory::Nintendo,
        34 => TntCategory::ABook,
        35 => TntCategory::Podcast,
        36 => TntCategory::Edicola,
        37 => TntCategory::Mobile,
        _ => TntCategory::TutteLeCategorie,
    }
}

/// The name of a category, as its variant is written.
pub open spec fn category_name(c: TntCategory) -> Seq<char> {
    match c {
        TntCategory::TutteLeCategorie => "TutteLeCategorie"@,
        TntCategory::FilmTVProgrammi => "FilmTVProgrammi"@,
        TntCategory::Musica => "Musica"@,
        TntCategory::EBooks => "EBooks"@,
        TntCategory::Film => "Film"@,
        TntCategory::Linux => "Linux"@,
        TntCategory::Anime => "Anime"@,
        TntCategory::Cartoni => "Cartoni"@,
        TntCategory::Macintosh => "Macintosh"@,
        TntCategory::WindowsSoftware => "WindowsSoftware"@,
        TntCategory::PcGame => "PcGame"@,
        TntCategory::Playstation => "Playstation"@,
        TntCategory::StudentsReleases => "StudentsReleases"@,
        TntCategory::Documentari => "Documentari"@,
        TntCategory::VideoMusicali => "VideoMusicali"@,
        TntCategory::Sport => "Sport"@,
        TntCategory::Teatro => "Teatro"@,
        TntCategory::Wrestling => "Wrestling"@,
        TntCategory::Varie => "Varie"@,
        TntCategory::Xbox => "Xbox"@,
        TntCategory::ImmaginiSfondi => "ImmaginiSfondi"@,
        TntCategory::AltriGiochi => "AltriGiochi"@,
        TntCategory::SerieTV => "SerieTV"@,
        TntCategory::Fumetteria => "Fumetteria"@,
        TntCategory::Trash => "Trash"@,
        TntCategory::Nintendo => "Nintendo"@,
        TntCategory::ABook => "ABook"@,
        TntCategory::Podcast => "Podcast"@,
        TntCategory::Edicola => "Edicola"@,
        TntCategory::Mobile => "Mobile"@,
    }
}

impl TntCategory {
    /// The numeric code of the category.
    pub fn value(&self) -> (r: u8)
        ensures
            r == category_code(*self),
    {
        match self {
            TntCategory::TutteLeCategorie => 0,
            TntCategory::FilmTVProgrammi => 1,
            TntCategory::Musica => 2,
            TntCategory::EBooks => 3,
            TntCategory::Film => 4,
            TntCategory::Linux => 6,
            TntCategory::Anime => 7,
            TntCategory::Cartoni => 8,
            TntCategory::Macintosh => 9,
            TntCategory::WindowsSoftware => 10,
            TntCategory::PcGame => 11,
            TntCategory::Playstation => 12,
            TntCategory::StudentsReleases => 13,
            TntCategory::Documentari => 14,
            TntCategory::VideoMusicali => 21,
            TntCategory::Sport => 22,
            TntCategory::Teatro => 23,
            TntCategory::Wrestling => 24,
            TntCategory::Varie => 25,
            TntCategory::Xbox => 26,
            TntCategory::ImmaginiSfondi => 27,
            TntCategory::AltriGiochi => 28,
            TntCategory::SerieTV => 29,
            TntCategory::Fumetteria => 30,
            TntCategory::Trash => 31,
            TntCategory::Nintendo => 32,
            TntCategory::ABook => 34,
            TntCategory::Podcast => 35,
            TntCategory::Edicola => 36,
            TntCategory::Mobile => 37,
        }
    }

    /// Every category once, in increasing order of code.
    pub fn values() -> (r: Vec<TntCategory>)
        ensures
            forall|a: int, b: int|
                0 <= a < b < r.len() ==> category_code(#[trigger] r[a]) < category_code(
                    #[trigger] r[b],
                ),
            forall|k: TntCategory| r@.contains(k),
            r.len() == 30,
    {
        let mut r: Vec<TntCategory> = Vec::new();
        let mut i: u8 = 0;
        while i < 38
            invariant
                i <= 38,
                forall|a: int, b: int|
                    0 <= a < b < r.len() ==> category_code(#[trigger] r[a]) < category_code(
                        #[trigger] r[b],
                    ),
                forall|a: int| 0 <= a < r.len() ==> category_code(#[trigger] r[a]) < i,
                forall|k: TntCategory| category_code(k) < i ==> r@.contains(k),
                r.len() == valid_codes_below(i as nat),
            decreases 38 - i,
        {
            let c: TntCategory = TntCategory::from(i);
            let present: bool = contains_category(&r, c);
            proof {
                lemma_code_of_category(i);
                if spec_is_valid_value(i) && present {
                    let w: int = choose|w: int| 0 <= w < r@.len() && r@[w] == c;
                    assert(category_code(r[w]) < i);
                }
                if !spec_is_valid_value(i) {
                    assert(category_code(TntCategory::TutteLeCategorie) < i);
                }
            }
            if !present {
                let ghost before: Seq<TntCategory> = r@;
                r.push(c);
                assert forall|k: TntCategory| category_code(k) < i + 1 implies r@.contains(k) by {
                    lemma_category_of_code(k);
                    if category_code(k) < i {
                        assert(before.contains(k));
                        let w: int = choose|w: int| 0 <= w < before.len() && before[w] == k;
                        assert(r@[w] == k);
                    } else {
                        assert(r@[r.len() - 1] == k);
                    }
                }
            } else {
                assert forall|k: TntCategory| category_code(k) < i + 1 implies r@.contains(k) by {
                    lemma_category_of_code(k);
                    lemma_code_of_category(i);
                }
            }
            i = i + 1;
        }
        proof {
            reveal_with_fuel(valid_codes_below, 39);
        }
        r
    }

    /// Whether `c` is the code of a category.
    pub fn is_valid_value(c: u8) -> (r: bool)
        ensures
            r == spec_is_valid_value(c),
    {
        c <= 37 && c != 5 && !(15 <= c && c <= 20) && c != 33
    }

    /// The name of the category, as its variant is written.
    pub fn to_string(&self) -> (r: String)
        ensures
            r@ == category_name(*self),
    {
        match self {
            TntCategory::TutteLeCategorie => String::from_str("TutteLeCategorie"),
            TntCategory::FilmTVProgrammi => String::from_str("FilmTVProgrammi"),
            TntCategory::Musica => String::from_str("Musica"),
            TntCategory::EBooks => String::from_str("EBooks"),
            TntCategory::Film => String::from_str("Film"),
            TntCategory::Linux => String::from_str("Linux"),
            TntCategory::Anime => String::from_str("Anime"),
            TntCategory::Cartoni => String::from_str("Cartoni"),
            TntCategory::Macintosh => String::from_str("Macintosh"),
            TntCategory::WindowsSoftware => String::from_str("WindowsSoftware"),
            TntCategory::PcGame => String::from_str("PcGame"),
            TntCategory::Playstation => String::from_str("Playstation"),
            TntCategory::StudentsReleases => String::from_str("StudentsReleases"),
            TntCategory::Documentari => String::from_str("Documentari"),
            TntCategory::VideoMusicali => String::from_str("VideoMusicali"),
            TntCategory::Sport => String::from_str("Sport"),
            TntCategory::Teatro => String::from_str("Teatro"),
            TntCategory::Wrestling => String::from_str("Wrestling"),
            TntCategory::Varie => String::from_str("Varie"),
            TntCategory::Xbox => String::from_str("Xbox"),
            TntCategory::ImmaginiSfondi => String::from_str("ImmaginiSfondi"),
            TntCategory::AltriGiochi => String::from_str("AltriGiochi"),
            TntCategory::SerieTV => String::from_str("SerieTV"),
            TntCategory::Fumetteria => String::from_str("Fumetteria"),
            TntCategory::Trash => String::from_str("Trash"),
            TntCategory::Nintendo => String::from_str("Nintendo"),
            TntCategory::ABook => String::from_str("ABook"),
            TntCategory::Podcast => String::from_str("Podcast"),
            TntCategory::Edicola => String::from_str("Edicola"),
            TntCategory::Mobile => String::from_str("Mobile"),
        }
    }
}

impl From<u8> for TntCategory {
    /// The category with code `c`, or `TutteLeCategorie` when no category has it.
    fn from(c: u8) -> (r: Self) {
        match c {
            0 => TntCategory::TutteLeCategorie,
            1 => TntCategory::FilmTVProgrammi,
            2 => TntCategory::Musica,
            3 => TntCategory::EBooks,
            4 => TntCategory::Film,
            6 => TntCategory::Linux,
            7 => TntCategory::Anime,
            8 => TntCategory::Cartoni,
            9 => TntCategory::Macintosh,
            10 => TntCategory::WindowsSoftware,
            11 => TntCategory::PcGame,
            12 => TntCategory::Playstation,
            13 => TntCategory::StudentsReleases,
            14 => TntCategory::Documentari,
            21 => TntCategory::VideoMusicali,
            22 => TntCategory::Sport,
            23 => TntCategory::Teatro,
            24 => TntCategory::Wrestling,
            25 => TntCategory::Varie,
            26 => TntCategory::Xbox,
            27 => TntCategory::ImmaginiSfondi,
            28 => TntCategory::AltriGiochi,
            29 => TntCategory::SerieTV,
            30 => TntCategory::Fumetteria,
            31 => TntCategory::Trash,
            32 => TntCategory::Nintendo,
            34 => TntCategory::ABook,
            35 => TntCategory::Podcast,
            36 => TntCategory::Edicola,
            37 => TntCategory::Mobile,
            _ => TntCategory::TutteLeCategorie,
        }
    }
}

impl vstd::std_specs::convert::FromSpecImpl<u8> for TntCategory {
    open spec fn obeys_from_spec() -> bool {
        true
    }

    open spec fn from_spec(c: u8) -> Self {
        category_of_code(c)
    }
}

/// Distinct categories have distinct codes.
pub proof fn lemma_code_injective(a: TntCategory, b: TntCategory)
    ensures
        category_code(a) == category_code(b) ==> a == b,
{
    lemma_category_of_code(a);
    lemma_category_of_code(b);
}

/// Whether `s` is written as a Rust type name: an ASCII capital letter,
/// then ASCII letters and digits.
pub open spec fn is_type_name(s: Seq<char>) -> bool {
    &&& s.len() > 0
    &&& 'A' <= s[0] && s[0] <= 'Z'
    &&& forall|i: int|
        0 <= i < s.len() ==> ('a' <= #[trigger] s[i] && s[i] <= 'z') || ('A' <= s[i] && s[i]
            <= 'Z') || ('0' <= s[i] && s[i] <= '9')
}

/// The code of the category whose name has length `len`, first character
/// `first` and last character `last`; these three tell the names apart.
spec fn code_of_name_shape(len: nat, first: char, last: char) -> u8 {
    if len == 16 && first == 'T' && last == 'e' {
        0
    } else if len == 15 && first == 'F' && last == 'i' {
        1
    } else if len == 6 && first == 'M' && last == 'a' {
        2
    } else if len == 6 && first == 'E' && last == 's' {
        3
    } else if len == 4 && first == 'F' && last == 'm' {
        4
    } else if len == 5 && first == 'L' && last == 'x' {
        6
    } else if len == 5 && first == 'A' && last == 'e' {
        7
    } else if len == 7 && first == 'C' && last == 'i' {
        8
    } else if len == 9 && first == 'M' && last == 'h' {
        9
    } else if len == 15 && first == 'W' && last == 'e' {
        10
    } else if len == 6 && first == 'P' && last == 'e' {
        11
    } else if len == 11 && first == 'P' && last == 'n' {
        12
    } else if len == 16 && first == 'S' && last == 's' {
        13
    } else if len == 11 && first == 'D' && last == 'i' {
        14
    } else if len == 13 && first == 'V' && last == 'i' {
        21
    } else if len == 5 && first == 'S' && last == 't' {
        22
    } else if len == 6 && first == 'T' && last == 'o' {
        23
    } else if len == 9 && first == 'W' && last == 'g' {
        24
    } else if len == 5 && first == 'V' && last == 'e' {
        25
    } else if len == 4 && first == 'X' && last == 'x' {
        26
    } else if len == 14 && first == 'I' && last == 'i' {
        27
    } else if len == 11 && first == 'A' && last == 'i' {
        28
    } else if len == 7 && first == 'S' && last == 'V' {
        29
    } else if len == 10 && first == 'F' && last == 'a' {
        30
    } else if len == 5 && first == 'T' && last == 'h' {
        31
    } else if len == 8 && first == 'N' && last == 'o' {
        32
    } else if len == 5 && first == 'A' && last == 'k' {
        34
    } else if len == 7 && first == 'P' && last == 't' {
        35
    } else if len == 7 && first == 'E' && last == 'a' {
        36
    } else if len == 6 && first == 'M' && last == 'e' {
        37
    } else {
        255
    }
}

/// What a category's name tells: its variant is written as a type name,
/// and its length, first and last character give back its code.
proof fn lemma_name_shape(c: TntCategory)
    ensures
        is_type_name(category_name(c)),
        code_of_name_shape(
            category_name(c).len(),
            category_name(c)[0],
            category_name(c).last(),
        ) == category_code(c),
{
    match c {
        TntCategory::TutteLeCategorie => {
            reveal_strlit("TutteLeCategorie");
        },
        TntCategory::FilmTVProgrammi => {
            reveal_strlit("FilmTVProgrammi");
        },
        TntCategory::Musica => {
            reveal_strlit("Musica");
        },
        TntCategory::EBooks => {
            reveal_strlit("EBooks");
        },
        TntCategory::Film => {
            reveal_strlit("Film");
        },
        TntCategory::Linux => {
            reveal_strlit("Linux");
        },
        TntCategory::Anime => {
            reveal_strlit("Anime");
        },
        TntCategory::Cartoni => {
            reveal_strlit("Cartoni");
        },
        TntCategory::Macintosh => {
            reveal_strlit("Macintosh");
        },
        TntCategory::WindowsSoftware => {
            reveal_strlit("WindowsSoftware");
        },
        TntCategory::PcGame => {
            reveal_strlit("PcGame");
        },
        TntCategory::Playstation => {
            reveal_strlit("Playstation");
        },
        TntCategory::StudentsReleases => {
            reveal_strlit("StudentsReleases");
        },
        TntCategory::Documentari => {
            reveal_strlit("Documentari");
        },
        TntCategory::VideoMusicali => {
            reveal_strlit("VideoMusicali");
        },
        TntCategory::Sport => {
            reveal_strlit("Sport");
        },
        TntCategory::Teatro => {
            reveal_strlit("Teatro");
        },
        TntCategory::Wrestling => {
            reveal_strlit("Wrestling");
        },
        TntCategory::Varie => {
            reveal_strlit("Varie");
        },
        TntCategory::Xbox => {
            reveal_strlit("Xbox");
        },
        TntCategory::ImmaginiSfondi => {
            reveal_strlit("ImmaginiSfondi");
        },
        TntCategory::AltriGiochi => {
            reveal_strlit("AltriGiochi");
        },
        TntCategory::SerieTV => {
            reveal_strlit("SerieTV");
        },
        TntCategory::Fumetteria => {
            reveal_strlit("Fumetteria");
        },
        TntCategory::Trash => {
            reveal_strlit("Trash");
        },
        TntCategory::Nintendo => {
            reveal_strlit("Nintendo");
        },
        TntCategory::ABook => {
            reveal_strlit("ABook");
        },
        TntCategory::Podcast => {
            reveal_strlit("Podcast");
        },
        TntCategory::Edicola => {
            reveal_strlit("Edicola");
        },
        TntCategory::Mobile => {
            reveal_strlit("Mobile");
        },
    }
}

/// Each category is named by its variant, written as a type name, and
/// distinct categories have distinct names.
pub proof fn lemma_name_injective(a: TntCategory, b: TntCategory)
    ensures
        is_type_name(category_name(a)),
        category_name(a) == category_name(b) ==> a == b,
{
    lemma_name_shape(a);
    lemma_name_shape(b);
    lemma_code_injective(a, b);
}

/// A code is valid exactly when some category has it.
pub proof fn lemma_valid_iff_some_category(c: u8)
    ensures
        spec_is_valid_value(c) <==> exists|k: TntCategory| category_code(k) == c,
{
    if spec_is_valid_value(c) {
        lemma_code_of_category(c);
        assert(category_code(category_of_code(c)) == c);
    }
    if exists|k: TntCategory| category_code(k) == c {
        let k: TntCategory = choose|k: TntCategory| category_code(k) == c;
        lemma_category_of_code(k);
    }
}

/// How many codes below `n` are valid.
pub open spec fn valid_codes_below(n: nat) -> nat
    decreases n,
{
    if n == 0 {
        0
    } else if spec_is_valid_value((n - 1) as u8) {
        valid_codes_below((n - 1) as nat) + 1
    } else {
        valid_codes_below((n - 1) as nat)
    }
}

/// Whether `k` is in `v`.
fn contains_category(v: &Vec<TntCategory>, k: TntCategory) -> (r: bool)
    ensures
        r == v@.contains(k),
{
    let mut j: usize = 0;
    while j < v.len()
        invariant
            j <= v.len(),
            forall|a: int| 0 <= a < j ==> v[a] != k,
        decreases v.len() - j,
    {
        if v[j] == k {
            return true;
        }
        j = j + 1;
    }
    false
}

/// The category of a code has that code back, when the code is valid, and is
/// `TutteLeCategorie` otherwise.
pub proof fn lemma_code_of_category(c: u8)
    ensures
        spec_is_valid_value(c) ==> category_code(category_of_code(c)) == c,
        !spec_is_valid_value(c) ==> category_of_code(c) == TntCategory::TutteLeCategorie,
{
}

/// Every category has a valid code, and is the category of its code.
pub proof fn lemma_category_of_code(k: TntCategory)
    ensures
        spec_is_valid_value(category_code(k)),
        category_of_code(category_code(k)) == k,
{
}

} // verus!
