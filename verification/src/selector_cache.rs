//! A cache of parsed CSS selectors, keyed by their source text.

use vstd::prelude::*;
use crate::html::{CssSelector, css_selector_valid, parsed_css, simple_selector};
use crate::text::str_chars;

verus! {

/// Parsed selectors, at most one for each source text.
///
/// The selectors are kept in a vector with distinct source texts rather than
/// in a `HashMap<String, _>`: vstd specifies `HashMap`'s lookups and inserts
/// only for key types known to obey its key model, and `String` is not one of
/// them. Lookup is by comparing source texts, so the view below is the map
/// that a hash map would hold.
pub struct SelectorCache {
    cache: Vec<CssSelector>,
}

/// The selectors of `s` as a map from source text to CSS text; where two
/// share a source text, the later one counts.
pub closed spec fn stored(s: Seq<CssSelector>) -> Map<Seq<char>, Seq<char>>
    decreases s.len(),
{
    if s.len() == 0 {
        Map::empty()
    } else {
        stored(s.drop_last()).insert(s.last()@, s.last().css())
    }
}

/// Every source text in `m` is a valid selector, and is mapped to the CSS
/// text of its parse.
pub open spec fn cache_faithful(m: Map<Seq<char>, Seq<char>>) -> bool {
    forall|k: Seq<char>|
        #[trigger] m.dom().contains(k) ==> css_selector_valid(k) && m[k] == parsed_css(k)
}

/// What `stored` holds of a sequence of selectors that are each the parse
/// of their source: its keys are their sources, each mapped to the CSS text
/// of its parse.
proof fn lemma_stored(s: Seq<CssSelector>)
    requires
        forall|a: int|
            0 <= a < s.len() ==> css_selector_valid((#[trigger] s[a])@) && s[a].css()
                == parsed_css(s[a]@),
    ensures
        cache_faithful(stored(s)),
        forall|k: Seq<char>|
            #[trigger] stored(s).dom().contains(k) <==> exists|a: int|
                0 <= a < s.len() && (#[trigger] s[a])@ == k,
    decreases s.len(),
{
    if s.len() > 0 {
        let t: Seq<CssSelector> = s.drop_last();
        assert forall|a: int| 0 <= a < t.len() implies css_selector_valid((#[trigger] t[a])@)
            && t[a].css() == parsed_css(t[a]@) by {
            assert(t[a] == s[a]);
        }
        lemma_stored(t);
        assert forall|k: Seq<char>| #[trigger] stored(s).dom().contains(k) implies exists|a: int|
            0 <= a < s.len() && (#[trigger] s[a])@ == k by {
            if k != s.last()@ {
                let a: int = choose|a: int| 0 <= a < t.len() && (#[trigger] t[a])@ == k;
                assert(s[a] == t[a]);
            } else {
                assert(s[s.len() - 1]@ == k);
            }
        }
        assert forall|k: Seq<char>|
            (exists|a: int| 0 <= a < s.len() && (#[trigger] s[a])@ == k) implies #[trigger] stored(
            s).dom().contains(k) by {
            let a: int = choose|a: int| 0 <= a < s.len() && (#[trigger] s[a])@ == k;
            if a < s.len() - 1 {
                assert(t[a] == s[a]);
            }
        }
    }
}

impl View for SelectorCache {
    type V = Map<Seq<char>, Seq<char>>;

    /// The cached selectors: each source text, with the CSS text of the
    /// selector stored for it.
    closed spec fn view(&self) -> Map<Seq<char>, Seq<char>> {
        stored(self.cache@)
    }
}

impl SelectorCache {
    /// No two cached selectors share a source text, and each is the parse
    /// of its source, which the parser accepts.
    #[verifier::type_invariant]
    closed spec fn inv(&self) -> bool {
        &&& forall|a: int, b: int|
            0 <= a < b < self.cache.len() ==> (#[trigger] self.cache[a])@ != (
            #[trigger] self.cache[b])@
        &&& forall|a: int|
            0 <= a < self.cache.len() ==> css_selector_valid((#[trigger] self.cache[a])@)
                && self.cache[a].css() == parsed_css(self.cache[a]@)
    }

    /// An empty cache.
    pub fn new() -> (r: SelectorCache)
        ensures
            r@ == Map::<Seq<char>, Seq<char>>::empty(),
            cache_faithful(r@),
    {
        SelectorCache { cache: Vec::new() }
    }

    /// Asking twice for the same selector leaves the cache as the first
    /// asking left it, and a faithful cache stays faithful and only grows.
    pub proof fn lemma_add_idempotent(
        c0: Map<Seq<char>, Seq<char>>,
        c1: Map<Seq<char>, Seq<char>>,
        c2: Map<Seq<char>, Seq<char>>,
        s: Seq<char>,
    )
        requires
            cache_faithful(c0),
            css_selector_valid(s),
            c1 == c0.insert(s, parsed_css(s)),
            c2 == c1.insert(s, parsed_css(s)),
        ensures
            c2 == c1,
            c0.submap_of(c1),
            c1.contains_pair(s, parsed_css(s)),
            cache_faithful(c1),
    {
        assert(c2 =~= c1);
    }

    /// The index of the selector parsed from `s`, if it is cached.
    fn lookup(&self, s: &str) -> (r: Option<usize>)
        ensures
            r matches Some(k) ==> k < self.cache.len() && self.cache[k as int]@ == s@,
            r is None ==> forall|a: int| 0 <= a < self.cache.len() ==> (#[trigger] self.cache[a])@ != s@,
    {
        let mut k: usize = 0;
        while k < self.cache.len()
            invariant
                k <= self.cache.len(),
                forall|a: int| 0 <= a < k ==> (#[trigger] self.cache[a])@ != s@,
            decreases self.cache.len() - k,
        {
            if str_equal(self.cache[k].source(), s) {
                return Some(k);
            }
            k = k + 1;
        }
        None
    }

    /// The selector parsed from `s`: the cached one if there is one,
    /// otherwise a new parse of `s`, which is cached. `None` where `s` is not
    /// a valid selector; the cache is then unchanged.
    pub fn try_add_and_get_selector(&mut self, s: &str) -> (r: Option<CssSelector>)
        ensures
            r is Some == css_selector_valid(s@),
            simple_selector(s@) ==> r is Some,
            r matches Some(c) ==> c@ == s@ && c.css() == parsed_css(s@) && final(self)@ == old(
                self,
            )@.insert(s@, parsed_css(s@)),
            r is None ==> final(self)@ == old(self)@,
            cache_faithful(old(self)@),
            cache_faithful(final(self)@),
    {
        if CssSelector::is_valid(s) {
            Some(self.add_and_get_selector(s))
        } else {
            proof {
                use_type_invariant(&*self);
                lemma_stored(self.cache@);
            }
            None
        }
    }

    /// The cached selector parsed from `s`, or a new parse of `s`, which is
    /// then cached; `None` where `s` is not a valid selector.
    fn get_or_insert(&mut self, s: &str) -> (r: Option<CssSelector>)
        ensures
            r is Some == css_selector_valid(s@),
            r matches Some(c) ==> c@ == s@ && c.css() == parsed_css(s@) && final(self)@ == old(
                self,
            )@.insert(s@, parsed_css(s@)),
            r is None ==> final(self)@ == old(self)@,
            cache_faithful(old(self)@),
            cache_faithful(final(self)@),
    {
        proof {
            use_type_invariant(&*self);
            lemma_stored(self.cache@);
        }
        match self.lookup(s) {
            Some(k) => {
                proof {
                    assert(self@.dom().contains(s@)) by {
                        assert(self.cache@[k as int]@ == s@);
                    }
                    assert(self@.insert(s@, parsed_css(s@)) =~= self@);
                }
                Some(self.cache[k].clone())
            },
            None => {
                match CssSelector::parse(s) {
                    Some(c) => {
                        let copy: CssSelector = c.clone();
                        let mut grown: Vec<CssSelector> = Vec::new();
                        std::mem::swap(&mut grown, &mut self.cache);
                        let ghost before: Seq<CssSelector> = grown@;
                        grown.push(c);
                        proof {
                            assert(grown@.drop_last() =~= before);
                            assert(stored(grown@) == stored(before).insert(s@, parsed_css(s@)));
                            assert forall|a: int, b: int|
                                0 <= a < b < grown.len() implies (#[trigger] grown[a])@ != (
                            #[trigger] grown[b])@ by {
                                if b == grown.len() - 1 {
                                    assert(grown[a] == before[a]);
                                }
                            }
                            assert forall|a: int| 0 <= a < grown.len() implies css_selector_valid(
                                (#[trigger] grown[a])@,
                            ) && grown[a].css() == parsed_css(grown[a]@) by {
                                if a < grown.len() - 1 {
                                    assert(grown[a] == before[a]);
                                }
                            }
                            lemma_stored(grown@);
                        }
                        self.cache = grown;
                        Some(copy)
                    },
                    None => None,
                }
            },
        }
    }

    /// The selector parsed from `s`, which must be a valid selector: the
    /// cached one if there is one, otherwise a new parse of `s`, which is
    /// cached.
    pub fn add_and_get_selector(&mut self, s: &str) -> (r: CssSelector)
        requires
            css_selector_valid(s@),
        ensures
            r@ == s@,
            r.css() == parsed_css(s@),
            final(self)@ == old(self)@.insert(s@, parsed_css(s@)),
            cache_faithful(old(self)@),
            cache_faithful(final(self)@),
    {
        let found: Option<CssSelector> = self.get_or_insert(s);
        found.unwrap()
    }
}

/// Whether the two strings hold the same characters.
pub(crate) fn str_equal(a: &str, b: &str) -> (r: bool)
    ensures
        r == (a@ == b@),
{
    let x: Vec<char> = str_chars(a);
    let y: Vec<char> = str_chars(b);
    if x.len() != y.len() {
        return false;
    }
    let mut k: usize = 0;
    while k < x.len()
        invariant
            k <= x.len(),
            x.len() == y.len(),
            x@ == a@,
            y@ == b@,
            forall|t: int| 0 <= t < k ==> x@[t] == y@[t],
        decreases x.len() - k,
    {
        if x[k] != y[k] {
            assert(a@[k as int] != b@[k as int]);
            return false;
        }
        k = k + 1;
    }
    assert(x@ =~= y@);
    true
}

} // verus!
