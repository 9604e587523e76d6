//! Searching the notes: how a query is read (`Search::new`), the parameters
//! the SQL queries are given, which rows become results, and the full text
//! search's choice of the files that match.
use fuzzy_matcher::FuzzyMatcher;
use vstd::prelude::*;

use crate::text::{
    lowercase, push_chars, push_str, replace, replace_spec, split_words, starts_with,
    starts_with_spec, str_eq, string_of, string_range, to_chars, to_lowercase, views,
    words_spec,
};
use crate::types::{id_of, title_of, RoamID, RoamTitle};

verus! {

/// The text a search was started with.
#[derive(Clone, Debug, PartialEq)]
pub struct Feeder {
    pub s: String,
}

impl Feeder {
    pub fn new(s: String) -> (r: Feeder)
        ensures
            r.s@ == s@,
    {
        Feeder { s }
    }
}

/// A search for nodes by title or alias, optionally restricted to nodes that
/// carry one of some tags.
#[derive(Clone, Debug, PartialEq)]
pub struct ForNode {
    pub node_search: Vec<String>,
    pub tag_filters: Vec<String>,
}

/// A search for nodes by tag.
#[derive(Clone, Debug, PartialEq)]
pub struct ForTag {
    pub tag_search: Vec<String>,
}

/// A parsed query.
#[derive(Clone, Debug, PartialEq)]
pub enum Search {
    ForNode(ForNode),
    ForTag(ForTag),
}

/// The tokens that are not tag filters.
pub open spec fn plain_tokens(t: Seq<Seq<char>>) -> Seq<Seq<char>>
    decreases t.len(),
{
    if t.len() == 0 {
        Seq::empty()
    } else if starts_with_spec(t.last(), seq!['#']) {
        plain_tokens(t.drop_last())
    } else {
        plain_tokens(t.drop_last()).push(t.last())
    }
}

/// The tag filters (`#tag`) among the tokens, without their `#`.
pub open spec fn tag_tokens(t: Seq<Seq<char>>) -> Seq<Seq<char>>
    decreases t.len(),
{
    if t.len() == 0 {
        Seq::empty()
    } else if starts_with_spec(t.last(), seq!['#']) {
        tag_tokens(t.drop_last()).push(t.last().drop_first())
    } else {
        tag_tokens(t.drop_last())
    }
}

impl ForNode {
    /// Splits the tokens into words to search for and `#tag` filters.
    pub fn new(search: Vec<String>) -> (r: ForNode)
        ensures
            views(r.node_search@) == plain_tokens(views(search@)),
            views(r.tag_filters@) == tag_tokens(views(search@)),
    {
        let mut node_search: Vec<String> = Vec::new();
        let mut tag_filters: Vec<String> = Vec::new();
        let hash = ['#'];
        let mut i: usize = 0;
        while i < search.len()
            invariant
                0 <= i <= search@.len(),
                hash@ == seq!['#'],
                views(node_search@) == plain_tokens(views(search@).take(i as int)),
                views(tag_filters@) == tag_tokens(views(search@).take(i as int)),
            decreases search@.len() - i,
        {
            let ghost t = views(search@).take(i + 1);
            assert(t.drop_last() =~= views(search@).take(i as int));
            assert(t.last() == search@[i as int]@);
            let c = to_chars(search[i].as_str());
            if starts_with(c.as_slice(), hash.as_slice()) {
                let s = string_range(c.as_slice(), 1, c.len());
                assert(c@.subrange(1, c@.len() as int) =~= c@.drop_first());
                let ghost before = tag_filters@;
                tag_filters.push(s);
                assert(views(tag_filters@) =~= views(before).push(s@));
            } else {
                let s = string_of(c.as_slice());
                let ghost before = node_search@;
                node_search.push(s);
                assert(views(node_search@) =~= views(before).push(s@));
            }
            i = i + 1;
        }
        assert(views(search@).take(i as int) =~= views(search@));
        ForNode { node_search, tag_filters }
    }
}

impl ForTag {
    pub fn new(search: Vec<String>) -> (r: ForTag)
        ensures
            r.tag_search@ == search@,
    {
        ForTag { tag_search: search }
    }
}

/// The words of a query with the `:type <kind>` pairs taken out, and the
/// last kind given (lower-cased); a `:type` that ends the query leaves no
/// kind.
pub open spec fn scan_query(
    tokens: Seq<Seq<char>>,
    stype: Option<Seq<char>>,
    search: Seq<Seq<char>>,
) -> (Option<Seq<char>>, Seq<Seq<char>>)
    decreases tokens.len(),
{
    if tokens.len() == 0 {
        (stype, search)
    } else if lowercase(tokens[0]) == ":type"@ {
        if tokens.len() == 1 {
            (None, search)
        } else {
            scan_query(tokens.skip(2), Some(lowercase(tokens[1])), search)
        }
    } else {
        scan_query(tokens.skip(1), stype, search.push(tokens[0]))
    }
}

/// What a query asks for: a tag search when its last kind is `tag`, a node
/// search otherwise.
pub open spec fn search_spec(q: Seq<char>) -> (bool, Seq<Seq<char>>) {
    let (stype, words) = scan_query(words_spec(q), None, Seq::empty());
    (stype == Some("tag"@), words)
}

/// Whether `s` is the text `t`.
fn is_text(s: &Vec<char>, t: &str) -> (r: bool)
    ensures
        r == (s@ == t@),
{
    let tc = to_chars(t);
    crate::text::chars_eq(s.as_slice(), tc.as_slice())
}

impl Search {
    /// Reads a query: its words, separated by white space, with
    /// `:type node` or `:type tag` (in any case) choosing the kind of search.
    pub fn new(s: &str) -> (r: Search)
        ensures
            ({
                let (is_tag, words) = search_spec(s@);
                if is_tag {
                    r matches Search::ForTag(t) && views(t.tag_search@) == words
                } else {
                    r matches Search::ForNode(n) && views(n.node_search@) == plain_tokens(words)
                        && views(n.tag_filters@) == tag_tokens(words)
                }
            }),
    {
        let c = to_chars(s);
        let tokens = split_words(c.as_slice());
        let ghost all = views(tokens@);
        let mut stype: Option<Vec<char>> = None;
        let mut search: Vec<String> = Vec::new();
        let mut i: usize = 0;
        assert(all.skip(0) =~= all);
        assert(views(search@) =~= Seq::<Seq<char>>::empty());
        while i < tokens.len()
            invariant
                0 <= i <= tokens@.len(),
                all == views(tokens@),
                scan_query(all, None, Seq::empty()) == scan_query(
                    all.skip(i as int),
                    match stype {
                        Some(v) => Some(v@),
                        None => None,
                    },
                    views(search@),
                ),
            decreases tokens@.len() - i,
        {
            let low = to_lowercase(tokens[i].as_str());
            let lc = to_chars(low.as_str());
            assert(all.skip(i as int)[0] == tokens@[i as int]@);
            if is_text(&lc, ":type") {
                if i + 1 < tokens.len() {
                    let k = to_lowercase(tokens[i + 1].as_str());
                    assert(all.skip(i as int)[1] == tokens@[i + 1]@);
                    assert(all.skip(i as int).skip(2) =~= all.skip(i + 2));
                    stype = Some(to_chars(k.as_str()));
                    i = i + 2;
                } else {
                    stype = None;
                    assert(all.skip(i + 1).len() == 0);
                    i = i + 1;
                }
            } else {
                let w = string_of(to_chars(tokens[i].as_str()).as_slice());
                let ghost before = search@;
                search.push(w);
                assert(views(search@) =~= views(before).push(w@));
                assert(all.skip(i as int).skip(1) =~= all.skip(i + 1));
                i = i + 1;
            }
        }
        let is_tag = match &stype {
            Some(v) => is_text(v, "tag"),
            None => false,
        };
        if is_tag {
            Search::ForTag(ForTag::new(search))
        } else {
            Search::ForNode(ForNode::new(search))
        }
    }
}

/// The `LIKE` pattern of a node search: the lower-cased words, each with its
/// double quotes doubled, between and around `%`.
pub open spec fn search_param(search: Seq<Seq<char>>) -> Seq<char>
    decreases search.len(),
{
    if search.len() == 0 {
        "%"@
    } else {
        search_param(search.drop_last()) + replace_spec(lowercase(search.last()), "\""@, "\"\""@)
            + "%"@
    }
}

/// The `IN` list of a tag search: each tag, its double quotes doubled,
/// between triple double quotes, separated by `, `.
pub open spec fn tag_items(search: Seq<Seq<char>>) -> Seq<char>
    decreases search.len(),
{
    if search.len() == 0 {
        Seq::empty()
    } else {
        tag_items(search.drop_last()) + (if search.len() > 1 {
            ", "@
        } else {
            Seq::empty()
        }) + "\"\"\""@ + replace_spec(search.last(), "\""@, "\"\""@) + "\"\"\""@
    }
}

/// Doubles the double quotes of `t`.
fn double_quotes(t: &str) -> (r: Vec<char>)
    ensures
        r@ == replace_spec(t@, "\""@, "\"\""@),
{
    proof {
        reveal_strlit("\"");
    }
    let c = to_chars(t);
    let q = to_chars("\"");
    let qq = to_chars("\"\"");
    replace(c.as_slice(), q.as_slice(), qq.as_slice())
}

/// The `LIKE` pattern of a node search (see `search_param`).
pub fn format_search_param(search: &Vec<String>) -> (r: String)
    ensures
        r@ == search_param(views(search@)),
{
    let mut s = String::new();
    push_str(&mut s, "%");
    let mut i: usize = 0;
    while i < search.len()
        invariant
            0 <= i <= search@.len(),
            s@ == search_param(views(search@).take(i as int)),
        decreases search@.len() - i,
    {
        let ghost t = views(search@).take(i + 1);
        assert(t.drop_last() =~= views(search@).take(i as int));
        let low = to_lowercase(search[i].as_str());
        let d = double_quotes(low.as_str());
        push_chars(&mut s, d.as_slice());
        push_str(&mut s, "%");
        i = i + 1;
    }
    assert(views(search@).take(i as int) =~= views(search@));
    s
}

/// The `IN` list of a tag search, in parentheses (see `tag_items`).
pub fn format_tag_param(search: &Vec<String>) -> (r: String)
    ensures
        r@ == "("@ + tag_items(views(search@)) + ")"@,
{
    let mut s = String::new();
    push_str(&mut s, "(");
    let ghost open = s@;
    let mut i: usize = 0;
    while i < search.len()
        invariant
            0 <= i <= search@.len(),
            s@ == open + tag_items(views(search@).take(i as int)),
        decreases search@.len() - i,
    {
        let ghost t = views(search@).take(i + 1);
        assert(t.drop_last() =~= views(search@).take(i as int));
        if i > 0 {
            push_str(&mut s, ", ");
        }
        push_str(&mut s, "\"\"\"");
        let d = double_quotes(search[i].as_str());
        push_chars(&mut s, d.as_slice());
        push_str(&mut s, "\"\"\"");
        i = i + 1;
        assert(s@ =~= open + tag_items(t));
    }
    assert(views(search@).take(i as int) =~= views(search@));
    push_str(&mut s, ")");
    s
}

/// One result sent to the client.
#[derive(Clone, Debug, PartialEq)]
pub struct SearchResultEntry {
    pub provider: usize,
    pub title: RoamTitle,
    pub id: RoamID,
    pub tags: Vec<String>,
    /// The line where the match occurred, and the range of the match in it.
    pub preview: Option<(String, usize, usize)>,
}

/// A node that a search found, with its tags.
#[derive(Clone, Debug, PartialEq)]
pub struct NodeHit {
    pub id: String,
    pub title: String,
    pub tags: Vec<String>,
}

/// `tags` holds a tag equal, after lower-casing both, to one of `filters`
/// lower-cased.
pub open spec fn tag_matches(tags: Seq<Seq<char>>, filters: Seq<Seq<char>>) -> bool {
    exists|i: int, j: int|
        0 <= i < tags.len() && 0 <= j < filters.len() && lowercase(#[trigger] tags[i]) == lowercase(
            #[trigger] filters[j],
        )
}

/// The hits a node search keeps: all of them without tag filters, else those
/// whose tags match a filter.
pub open spec fn kept_hits(hits: Seq<NodeHit>, filters: Seq<Seq<char>>) -> Seq<NodeHit>
    decreases hits.len(),
{
    if hits.len() == 0 {
        Seq::empty()
    } else if filters.len() == 0 || tag_matches(views(hits.last().tags@), filters) {
        kept_hits(hits.drop_last(), filters).push(hits.last())
    } else {
        kept_hits(hits.drop_last(), filters)
    }
}

/// The entry made of a hit.
pub open spec fn entry_matches(e: SearchResultEntry, provider: usize, h: NodeHit) -> bool {
    &&& e.provider == provider
    &&& e.title@ == title_of(h.title@)
    &&& e.id@ == id_of(h.id@)
    &&& views(e.tags@) == views(h.tags@)
    &&& e.preview is None
}

/// Whether some tag matches some filter, both lower-cased.
fn any_tag_matches(tags: &Vec<String>, filters: &Vec<String>) -> (r: bool)
    ensures
        r == tag_matches(views(tags@), views(filters@)),
{
    let mut i: usize = 0;
    while i < tags.len()
        invariant
            0 <= i <= tags@.len(),
            forall|a: int, b: int|
                0 <= a < i && 0 <= b < filters@.len() ==> lowercase(#[trigger] views(tags@)[a])
                    != lowercase(#[trigger] views(filters@)[b]),
        decreases tags@.len() - i,
    {
        let lt = to_chars(to_lowercase(tags[i].as_str()).as_str());
        let mut j: usize = 0;
        while j < filters.len()
            invariant
                0 <= i < tags@.len(),
                0 <= j <= filters@.len(),
                lt@ == lowercase(views(tags@)[i as int]),
                forall|a: int, b: int|
                    0 <= a < i && 0 <= b < filters@.len() ==> lowercase(#[trigger] views(tags@)[a])
                        != lowercase(#[trigger] views(filters@)[b]),
                forall|b: int|
                    0 <= b < j ==> lowercase(views(tags@)[i as int]) != lowercase(
                        #[trigger] views(filters@)[b],
                    ),
            decreases filters@.len() - j,
        {
            let lf = to_chars(to_lowercase(filters[j].as_str()).as_str());
            if crate::text::chars_eq(lt.as_slice(), lf.as_slice()) {
                assert(lowercase(views(tags@)[i as int]) == lowercase(views(filters@)[j as int]));
                return true;
            }
            j = j + 1;
        }
        i = i + 1;
    }
    false
}

/// A copy of the strings.
fn copy_tags(v: &Vec<String>) -> (r: Vec<String>)
    ensures
        views(r@) == views(v@),
{
    crate::org::copy_strings(v)
}

impl ForNode {
    /// The results of a node search, given the nodes whose title or alias
    /// matched, with their tags: with tag filters, only the nodes with a tag
    /// equal to a filter (case ignored); each sent as `provider`'s result.
    pub fn results(&self, provider: usize, hits: &Vec<NodeHit>) -> (r: Vec<SearchResultEntry>)
        ensures
            r@.len() == kept_hits(hits@, views(self.tag_filters@)).len(),
            forall|i: int|
                0 <= i < r@.len() ==> entry_matches(
                    #[trigger] r@[i],
                    provider,
                    kept_hits(hits@, views(self.tag_filters@))[i],
                ),
    {
        let ghost filters = views(self.tag_filters@);
        let mut r: Vec<SearchResultEntry> = Vec::new();
        let mut i: usize = 0;
        while i < hits.len()
            invariant
                0 <= i <= hits@.len(),
                filters == views(self.tag_filters@),
                r@.len() == kept_hits(hits@.take(i as int), filters).len(),
                forall|k: int|
                    0 <= k < r@.len() ==> entry_matches(
                        #[trigger] r@[k],
                        provider,
                        kept_hits(hits@.take(i as int), filters)[k],
                    ),
            decreases hits@.len() - i,
        {
            let ghost t = hits@.take(i + 1);
            assert(t.drop_last() =~= hits@.take(i as int));
            let h = &hits[i];
            let keep = self.tag_filters.len() == 0 || any_tag_matches(&h.tags, &self.tag_filters);
            if keep {
                let e = SearchResultEntry {
                    provider,
                    title: RoamTitle::from_text(h.title.as_str()),
                    id: RoamID::from_text(h.id.as_str()),
                    tags: copy_tags(&h.tags),
                    preview: None,
                };
                r.push(e);
            }
            i = i + 1;
        }
        assert(hits@.take(i as int) =~= hits@);
        r
    }
}

/// A node that a tag search found: its id and its title as stored, in
/// double quotes.
#[derive(Clone, Debug, PartialEq)]
pub struct TagHit {
    pub id: String,
    pub display: String,
}

/// The display text stored for a node holds a quote (or any ASCII
/// character) at each end.
pub open spec fn quoted_display(d: Seq<char>) -> bool {
    d.len() >= 2 && (d[0] as u32) < 128 && (d.last() as u32) < 128
}

impl ForTag {
    /// The results of a tag search, given the node of each matching tag row
    /// and the tags of all matching rows: the display text without its first
    /// and last character is the title, and every result carries all the
    /// tags.
    pub fn results(&self, provider: usize, hits: &Vec<TagHit>, tags: &Vec<String>) -> (r: Vec<
        SearchResultEntry,
    >)
        requires
            forall|i: int| 0 <= i < hits@.len() ==> quoted_display(#[trigger] hits@[i].display@),
        ensures
            r@.len() == hits@.len(),
            forall|i: int|
                0 <= i < r@.len() ==> {
                    &&& (#[trigger] r@[i]).provider == provider
                    &&& r@[i].title@ == title_of(
                        hits@[i].display@.subrange(1, hits@[i].display@.len() - 1),
                    )
                    &&& r@[i].id@ == id_of(hits@[i].id@)
                    &&& views(r@[i].tags@) == views(tags@)
                    &&& r@[i].preview is None
                },
    {
        let mut r: Vec<SearchResultEntry> = Vec::new();
        let mut i: usize = 0;
        while i < hits.len()
            invariant
                0 <= i <= hits@.len(),
                r@.len() == i,
                forall|k: int| 0 <= k < hits@.len() ==> quoted_display(#[trigger] hits@[k].display@),
                forall|k: int|
                    0 <= k < i ==> {
                        &&& (#[trigger] r@[k]).provider == provider
                        &&& r@[k].title@ == title_of(
                            hits@[k].display@.subrange(1, hits@[k].display@.len() - 1),
                        )
                        &&& r@[k].id@ == id_of(hits@[k].id@)
                        &&& views(r@[k].tags@) == views(tags@)
                        &&& r@[k].preview is None
                    },
            decreases hits@.len() - i,
        {
            let h = &hits[i];
            let d = to_chars(h.display.as_str());
            assert(quoted_display(hits@[i as int].display@));
            let inner = string_range(d.as_slice(), 1, d.len() - 1);
            let e = SearchResultEntry {
                provider,
                title: RoamTitle::from_text(inner.as_str()),
                id: RoamID::from_text(h.id.as_str()),
                tags: copy_tags(tags),
                preview: None,
            };
            r.push(e);
            i = i + 1;
        }
        r
    }
}

/// The smallest fuzzy score at which the full text search reports a file.
pub const THRESHOLD: i64 = 90;

/// The score that fuzzy-matcher's `SkimMatcherV2` (default settings) gives
/// `pattern` in `choice`, absent when it does not match.
pub uninterp spec fn skim_score_of(choice: Seq<char>, pattern: Seq<char>) -> Option<i64>;

/// Scores `pattern` in `choice` with `SkimMatcherV2::default().fuzzy_indices`,
/// keeping the score. The result is named `skim_score_of` of the two texts;
/// nothing more is claimed of it.
#[verifier::external_body]
fn skim_score(choice: &str, pattern: &str) -> (r: Option<i64>)
    ensures
        r == skim_score_of(choice@, pattern@),
{
    fuzzy_matcher::skim::SkimMatcherV2::default().fuzzy_indices(choice, pattern).map(|p| p.0)
}

/// A file's content matches a query well enough.
pub open spec fn good_match(content: Seq<char>, query: Seq<char>) -> bool {
    match skim_score_of(content, query) {
        Some(score) => score >= THRESHOLD,
        None => false,
    }
}

/// The keys of the entries whose content matches the query well enough, in
/// order.
pub open spec fn text_hits(entries: Seq<(Seq<char>, Seq<char>)>, query: Seq<char>) -> Seq<Seq<char>>
    decreases entries.len(),
{
    if entries.len() == 0 {
        Seq::empty()
    } else if good_match(entries.last().1, query) {
        text_hits(entries.drop_last(), query).push(entries.last().0)
    } else {
        text_hits(entries.drop_last(), query)
    }
}

/// The full text search: scores the content of every cached file against
/// the query.
#[derive(Clone, Debug, PartialEq)]
pub struct FullTextSeach {
    pub provider: usize,
}

impl FullTextSeach {
    pub fn new(provider: usize) -> (r: FullTextSeach)
        ensures
            r.provider == provider,
    {
        FullTextSeach { provider }
    }

    pub fn id(&self) -> (r: usize)
        ensures
            r == self.provider,
    {
        self.provider
    }

    /// The keys of the cached files, given as (key, content), whose content
    /// scores at least `THRESHOLD` for the query.
    pub fn matching(&self, entries: &Vec<(String, String)>, query: &str) -> (r: Vec<String>)
        ensures
            views(r@) == text_hits(crate::org::pair_views(entries@), query@),
    {
        let ghost ev = crate::org::pair_views(entries@);
        let mut r: Vec<String> = Vec::new();
        let mut i: usize = 0;
        while i < entries.len()
            invariant
                0 <= i <= entries@.len(),
                ev == crate::org::pair_views(entries@),
                views(r@) == text_hits(ev.take(i as int), query@),
            decreases entries@.len() - i,
        {
            let ghost t = ev.take(i + 1);
            assert(t.drop_last() =~= ev.take(i as int));
            let (k, c) = &entries[i];
            let keep = match skim_score(c.as_str(), query) {
                Some(score) => score >= THRESHOLD,
                None => false,
            };
            if keep {
                let kk = string_of(to_chars(k.as_str()).as_slice());
                let ghost before = r@;
                r.push(kk);
                assert(views(r@) =~= views(before).push(kk@));
            }
            i = i + 1;
        }
        assert(ev.take(i as int) =~= ev);
        r
    }
}

/// The search by title, alias and tag.
#[derive(Clone, Debug, PartialEq)]
pub struct DefaultSearch {
    pub provider: usize,
}

impl DefaultSearch {
    pub fn new(provider: usize) -> (r: DefaultSearch)
        ensures
            r.provider == provider,
    {
        DefaultSearch { provider }
    }

    pub fn id(&self) -> (r: usize)
        ensures
            r == self.provider,
    {
        self.provider
    }
}

/// One of the searches a query is fed to.
#[derive(Clone, Debug, PartialEq)]
pub enum SearchProvider {
    FullTextSearch(FullTextSeach),
    DefaultSearch(DefaultSearch),
}

impl SearchProvider {
    /// The provider's name, shown to the user.
    pub fn name(&self) -> (r: &'static str)
        ensures
            r@ == match self {
                SearchProvider::FullTextSearch(_) => "Full text search"@,
                SearchProvider::DefaultSearch(_) => "Default search"@,
            },
    {
        match self {
            SearchProvider::FullTextSearch(_) => "Full text search",
            SearchProvider::DefaultSearch(_) => "Default search",
        }
    }

    pub fn id(&self) -> (r: usize)
        ensures
            r == match self {
                SearchProvider::FullTextSearch(f) => f.provider,
                SearchProvider::DefaultSearch(d) => d.provider,
            },
    {
        match self {
            SearchProvider::FullTextSearch(f) => f.id(),
            SearchProvider::DefaultSearch(d) => d.id(),
        }
    }
}

/// The searches a query is fed to: the default search (provider 0), then the
/// full text search (provider 1).
#[derive(Clone, Debug, PartialEq)]
pub struct SearchProviderList {
    pub providers: Vec<SearchProvider>,
}

impl SearchProviderList {
    pub fn new() -> (r: SearchProviderList)
        ensures
            r.providers@ == seq![
                SearchProvider::DefaultSearch(DefaultSearch { provider: 0 }),
                SearchProvider::FullTextSearch(FullTextSeach { provider: 1 }),
            ],
    {
        let mut providers: Vec<SearchProvider> = Vec::new();
        providers.push(SearchProvider::DefaultSearch(DefaultSearch::new(0)));
        providers.push(SearchProvider::FullTextSearch(FullTextSeach::new(1)));
        SearchProviderList { providers }
    }

    /// Each provider's id and name, in order.
    pub fn config(&self) -> (r: Vec<(usize, String)>)
        ensures
            r@.len() == self.providers@.len(),
            forall|i: int|
                0 <= i < r@.len() ==> (#[trigger] r@[i]).0 == self.providers@[i].id_spec() && r@[i].1@
                    == self.providers@[i].name_spec(),
    {
        let mut r: Vec<(usize, String)> = Vec::new();
        let mut i: usize = 0;
        while i < self.providers.len()
            invariant
                0 <= i <= self.providers@.len(),
                r@.len() == i,
                forall|k: int|
                    0 <= k < i ==> (#[trigger] r@[k]).0 == self.providers@[k].id_spec() && r@[k].1@
                        == self.providers@[k].name_spec(),
            decreases self.providers@.len() - i,
        {
            let p = &self.providers[i];
            let n = p.name();
            let name = string_of(to_chars(n).as_slice());
            r.push((p.id(), name));
            i = i + 1;
        }
        r
    }
}

impl SearchProvider {
    /// The provider's id.
    pub open spec fn id_spec(&self) -> usize {
        match self {
            SearchProvider::FullTextSearch(f) => f.provider,
            SearchProvider::DefaultSearch(d) => d.provider,
        }
    }

    /// The provider's name.
    pub open spec fn name_spec(&self) -> Seq<char> {
        match self {
            SearchProvider::FullTextSearch(_) => "Full text search"@,
            SearchProvider::DefaultSearch(_) => "Default search"@,
        }
    }
}

/// The pattern of a node search is wildcarded at both ends.
pub proof fn lemma_search_param_wildcards(search: Seq<Seq<char>>)
    ensures
        search_param(search).len() >= 1,
        search_param(search)[0] == '%',
        search_param(search).last() == '%',
    decreases search.len(),
{
    reveal_strlit("%");
    if search.len() > 0 {
        lemma_search_param_wildcards(search.drop_last());
        let p = search_param(search.drop_last());
        let w = replace_spec(lowercase(search.last()), "\""@, "\"\""@);
        assert((p + w + "%"@)[0] == p[0]);
    }
}

/// Every token of a node search is either a word or a tag filter.
pub proof fn lemma_tokens_partitioned(t: Seq<Seq<char>>)
    ensures
        plain_tokens(t).len() + tag_tokens(t).len() == t.len(),
    decreases t.len(),
{
    if t.len() > 0 {
        lemma_tokens_partitioned(t.drop_last());
    }
}

} // verus!
