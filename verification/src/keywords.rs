//! Collection of the values of one keyword (e.g. `#+latex_header:`) anywhere
//! in a document.
use orgize::rowan::ast::AstNode;
use vstd::prelude::*;

use crate::org::pair_views;
use crate::text::{chars_eq, string_of, to_chars, to_uppercase, trim_chars, trim_spec, uppercase, views};

verus! {

/// The `(key, value)` pairs of every keyword of an org text, in document
/// order, as orgize parses it.
pub uninterp spec fn org_keywords_of(text: Seq<char>) -> Seq<(Seq<char>, Seq<char>)>;

/// Parses `text` with orgize (`Org::parse`) and lists, in document order, the
/// key and the raw value of every `Keyword` node of the syntax tree (rowan's
/// `descendants` walk). The result is named `org_keywords_of` of the text;
/// nothing more is claimed of it.
#[verifier::external_body]
fn org_keywords(text: &str) -> (r: Vec<(String, String)>)
    ensures
        pair_views(r@) == org_keywords_of(text@),
{
    let org = orgize::Org::parse(text);
    org.document()
        .syntax()
        .descendants()
        .filter_map(orgize::ast::Keyword::cast)
        .map(|k| (k.key().to_string(), k.value().to_string()))
        .collect()
}

/// The trimmed values of the keywords among `kws` whose upper-cased key is
/// `name`.
pub open spec fn matching_values(
    kws: Seq<(Seq<char>, Seq<char>)>,
    name: Seq<char>,
) -> Seq<Seq<char>>
    decreases kws.len(),
{
    if kws.len() == 0 {
        Seq::empty()
    } else {
        let (k, v) = kws.last();
        matching_values(kws.drop_last(), name) + if uppercase(k) == name {
            seq![trim_spec(v)]
        } else {
            Seq::empty()
        }
    }
}

/// Collects the trimmed values of every keyword whose upper-cased key is
/// the upper-cased name it was made with.
pub struct KeywordCollector {
    pub keywords: Vec<String>,
    to_match: String,
}

impl KeywordCollector {
    /// The name the collector matches, upper-cased.
    pub closed spec fn to_match(&self) -> Seq<char> {
        self.to_match@
    }

    /// The values collected so far.
    pub closed spec fn collected(&self) -> Seq<Seq<char>> {
        views(self.keywords@)
    }

    pub fn new(to_match: &str) -> (r: KeywordCollector)
        ensures
            r.to_match() == uppercase(to_match@),
            r.collected() == Seq::<Seq<char>>::empty(),
    {
        let r = KeywordCollector { keywords: Vec::new(), to_match: to_uppercase(to_match) };
        assert(views(r.keywords@) =~= Seq::<Seq<char>>::empty());
        r
    }

    /// Handles a keyword met in the walk.
    pub fn event(&mut self, key: &str, value: &str)
        ensures
            final(self).to_match() == old(self).to_match(),
            final(self).collected() == old(self).collected() + if uppercase(key@)
                == old(self).to_match() {
                seq![trim_spec(value@)]
            } else {
                Seq::empty()
            },
    {
        let k = to_uppercase(key);
        let kc = to_chars(k.as_str());
        let mc = to_chars(self.to_match.as_str());
        let ghost before = views(self.keywords@);
        if chars_eq(kc.as_slice(), mc.as_slice()) {
            let vc = to_chars(value);
            let tr = trim_chars(vc.as_slice());
            let s = string_of(tr.as_slice());
            self.keywords.push(s);
            assert(views(self.keywords@) =~= before + seq![trim_spec(value@)]);
        } else {
            assert(before + Seq::<Seq<char>>::empty() =~= before);
        }
    }

    /// The values of the matching keywords of an org text, in document order.
    pub fn perform(self, org: &str) -> (r: Vec<String>)
        ensures
            views(r@) == self.collected() + matching_values(org_keywords_of(org@), self.to_match()),
    {
        let kws = org_keywords(org);
        let mut this = self;
        let ghost start = this.collected();
        let mut i: usize = 0;
        while i < kws.len()
            invariant
                0 <= i <= kws@.len(),
                this.to_match() == self.to_match(),
                start == self.collected(),
                this.collected() == start + matching_values(pair_views(kws@).take(i as int), self.to_match()),
            decreases kws@.len() - i,
        {
            let ghost t = pair_views(kws@).take(i + 1);
            assert(t.drop_last() =~= pair_views(kws@).take(i as int));
            let (k, v) = &kws[i];
            this.event(k.as_str(), v.as_str());
            i = i + 1;
            assert(this.collected() =~= start + matching_values(t, self.to_match()));
        }
        assert(pair_views(kws@).take(kws@.len() as int) =~= pair_views(kws@));
        this.keywords
    }
}

} // verus!
