//! Identifiers, titles and the graph and page structures the server answers with.
use vstd::prelude::*;

use crate::text::{push_char, string_of, string_range, to_chars};

verus! {

/// `s` up to (excluding) its first `"`.
pub open spec fn before_quote(s: Seq<char>) -> Seq<char>
    decreases s.len(),
{
    if s.len() == 0 || s[0] == '"' {
        Seq::empty()
    } else {
        seq![s[0]] + before_quote(s.drop_first())
    }
}

/// The id a raw value denotes: a leading `"` is dropped, and the id ends before
/// the next `"`.
pub open spec fn id_of(s: Seq<char>) -> Seq<char> {
    if s.len() == 0 {
        Seq::empty()
    } else if s[0] == '"' {
        before_quote(s.drop_first())
    } else {
        seq![s[0]] + before_quote(s.drop_first())
    }
}

/// The title a raw value denotes: one pair of enclosing quotes is removed.
pub open spec fn title_of(s: Seq<char>) -> Seq<char> {
    if s.len() >= 2 && s[0] == '"' && s.last() == '"' {
        s.subrange(1, s.len() - 1)
    } else {
        s
    }
}

/// `n` copies of the double quote character.
pub open spec fn quotes(n: nat) -> Seq<char> {
    Seq::new(n, |i: int| '"')
}

/// The id of an org-roam node.
#[derive(Clone, Debug, PartialEq, Eq, Hash, PartialOrd, Ord)]
pub struct RoamID(String);

impl View for RoamID {
    type V = Seq<char>;

    closed spec fn view(&self) -> Seq<char> {
        self.0@
    }
}

fn before_quote_exec(s: &[char], from: usize) -> (r: Vec<char>)
    requires
        from <= s@.len(),
    ensures
        r@ == before_quote(s@.skip(from as int)),
{
    let mut r: Vec<char> = Vec::new();
    let mut i = from;
    while i < s.len() && s[i] != '"'
        invariant
            from <= i <= s@.len(),
            before_quote(s@.skip(from as int)) == r@ + before_quote(s@.skip(i as int)),
        decreases s@.len() - i,
    {
        assert(s@.skip(i as int).drop_first() == s@.skip(i + 1));
        r.push(s[i]);
        i = i + 1;
    }
    r
}

impl RoamID {
    /// The id that a raw value denotes (see `id_of`).
    pub fn from_text(value: &str) -> (r: RoamID)
        ensures
            r@ == id_of(value@),
    {
        let s = to_chars(value);
        if s.len() == 0 {
            return RoamID(String::new());
        }
        let mut id: Vec<char> = Vec::new();
        if s[0] != '"' {
            id.push(s[0]);
        }
        let rest = before_quote_exec(s.as_slice(), 1);
        assert(s@.skip(1) == s@.drop_first());
        let mut i: usize = 0;
        let ghost id0 = id@;
        while i < rest.len()
            invariant
                0 <= i <= rest@.len(),
                id@ == id0 + rest@.take(i as int),
            decreases rest@.len() - i,
        {
            id.push(rest[i]);
            i = i + 1;
            assert(rest@.take(i as int) == rest@.take(i - 1).push(rest@[i - 1]));
        }
        assert(rest@.take(rest@.len() as int) == rest@);
        proof {
            if s@[0] != '"' {
                assert(seq![s@[0]] == id0);
            } else {
                assert(id0 == Seq::<char>::empty());
            }
        }
        RoamID(string_of(id.as_slice()))
    }

    /// The id whose text is `s`, taken as it is.
    pub(crate) fn of_text(s: &str) -> (r: RoamID)
        ensures
            r@ == s@,
    {
        RoamID(string_of(to_chars(s).as_slice()))
    }

    /// The id as text.
    pub fn id(&self) -> (r: &str)
        ensures
            r@ == self@,
    {
        self.0.as_str()
    }

    /// The id enclosed in `num` double quotes on each side.
    pub fn with_quotes(&self, num: usize) -> (r: String)
        ensures
            r@ == quotes(num as nat) + self@ + quotes(num as nat),
    {
        let mut r = String::new();
        let mut i: usize = 0;
        while i < num
            invariant
                0 <= i <= num,
                r@ == quotes(i as nat),
            decreases num - i,
        {
            push_char(&mut r, '"');
            i = i + 1;
            assert(r@ =~= quotes(i as nat));
        }
        r.append(self.0.as_str());
        let mut j: usize = 0;
        let ghost mid = r@;
        while j < num
            invariant
                0 <= j <= num,
                r@ == mid + quotes(j as nat),
            decreases num - j,
        {
            push_char(&mut r, '"');
            j = j + 1;
            assert(r@ =~= mid + quotes(j as nat));
        }
        r
    }

    /// A copy of this id.
    pub fn copy(&self) -> (r: RoamID)
        ensures
            r@ == self@,
    {
        RoamID(self.0.clone())
    }
}

impl From<&str> for RoamID {
    fn from(value: &str) -> (r: RoamID)
        ensures
            r@ == id_of(value@),
    {
        RoamID::from_text(value)
    }
}

impl vstd::std_specs::convert::FromSpecImpl<&str> for RoamID {
    open spec fn obeys_from_spec() -> bool {
        false
    }

    open spec fn from_spec(v: &str) -> RoamID {
        choose|r: RoamID| r@ == id_of(v@)
    }
}

impl From<String> for RoamID {
    fn from(value: String) -> (r: RoamID)
        ensures
            r@ == id_of(value@),
    {
        RoamID::from_text(value.as_str())
    }
}

impl vstd::std_specs::convert::FromSpecImpl<String> for RoamID {
    open spec fn obeys_from_spec() -> bool {
        false
    }

    open spec fn from_spec(v: String) -> RoamID {
        choose|r: RoamID| r@ == id_of(v@)
    }
}

/// The title of an org-roam node.
#[derive(Clone, Debug, PartialEq, Eq, PartialOrd, Ord)]
pub struct RoamTitle(String);

impl View for RoamTitle {
    type V = Seq<char>;

    closed spec fn view(&self) -> Seq<char> {
        self.0@
    }
}

impl RoamTitle {
    /// The title that a raw value denotes (see `title_of`).
    pub fn from_text(value: &str) -> (r: RoamTitle)
        ensures
            r@ == title_of(value@),
    {
        let s = to_chars(value);
        let n = s.len();
        if n >= 2 && s[0] == '"' && s[n - 1] == '"' {
            RoamTitle(string_range(s.as_slice(), 1, n - 1))
        } else {
            RoamTitle(string_of(s.as_slice()))
        }
    }

    /// The title as text.
    pub fn title(&self) -> (r: &str)
        ensures
            r@ == self@,
    {
        self.0.as_str()
    }

    /// A copy of this title.
    pub fn copy(&self) -> (r: RoamTitle)
        ensures
            r@ == self@,
    {
        RoamTitle(self.0.clone())
    }
}

impl From<&str> for RoamTitle {
    fn from(value: &str) -> (r: RoamTitle)
        ensures
            r@ == title_of(value@),
    {
        RoamTitle::from_text(value)
    }
}

impl vstd::std_specs::convert::FromSpecImpl<&str> for RoamTitle {
    open spec fn obeys_from_spec() -> bool {
        false
    }

    open spec fn from_spec(v: &str) -> RoamTitle {
        choose|r: RoamTitle| r@ == title_of(v@)
    }
}

impl From<String> for RoamTitle {
    fn from(value: String) -> (r: RoamTitle)
        ensures
            r@ == title_of(value@),
    {
        RoamTitle::from_text(value.as_str())
    }
}

impl vstd::std_specs::convert::FromSpecImpl<String> for RoamTitle {
    open spec fn obeys_from_spec() -> bool {
        false
    }

    open spec fn from_spec(v: String) -> RoamTitle {
        choose|r: RoamTitle| r@ == title_of(v@)
    }
}

/// A directed link between two nodes.
#[derive(Clone, Debug, PartialEq, Eq, Hash, PartialOrd, Ord)]
pub struct RoamLink {
    pub from: RoamID,
    pub to: RoamID,
}

/// A node of the graph, with its parent (empty when it has none) and the
/// number of links that touch it.
#[derive(Clone, Debug, PartialEq, Eq, PartialOrd, Ord)]
pub struct RoamNode {
    pub title: RoamTitle,
    pub id: RoamID,
    pub parent: RoamID,
    pub num_links: usize,
}

/// The graph sent to the client.
#[derive(Clone, Debug, PartialEq)]
pub struct GraphData {
    pub nodes: Vec<RoamNode>,
    pub links: Vec<RoamLink>,
}

/// A link from the displayed page to another node.
#[derive(Clone, Debug, PartialEq)]
pub struct OutgoingLink {
    pub display: RoamTitle,
    pub id: RoamID,
}

/// A link from another node to the displayed page.
#[derive(Clone, Debug, PartialEq)]
pub struct IncomingLink {
    pub display: RoamTitle,
    pub id: RoamID,
}

/// A page rendered to html, with its tags, links and LaTeX fragments.
#[derive(Clone, Debug, PartialEq)]
pub struct OrgAsHTMLResponse {
    pub org: String,
    pub tags: Vec<String>,
    pub outgoing_links: Vec<OutgoingLink>,
    pub incoming_links: Vec<IncomingLink>,
    pub latex_blocks: Vec<String>,
}

/// `before_quote` holds no quote.
proof fn lemma_before_quote_no_quote(s: Seq<char>)
    ensures
        !before_quote(s).contains('"'),
        before_quote(s).len() <= s.len(),
    decreases s.len(),
{
    if s.len() > 0 && s[0] != '"' {
        lemma_before_quote_no_quote(s.drop_first());
        let r = before_quote(s.drop_first());
        assert(before_quote(s) == seq![s[0]] + r);
        if (seq![s[0]] + r).contains('"') {
            let k = choose|k: int| 0 <= k < (seq![s[0]] + r).len() && (seq![s[0]] + r)[k] == '"';
            if k > 0 {
                assert(r[k - 1] == '"');
            }
        }
    }
}

/// `before_quote` is the longest quote-free prefix: a prefix of the text that
/// the text's first quote, or its end, follows.
proof fn lemma_before_quote_prefix(s: Seq<char>)
    ensures
        before_quote(s).len() <= s.len(),
        before_quote(s) == s.take(before_quote(s).len() as int),
        before_quote(s).len() == s.len() || s[before_quote(s).len() as int] == '"',
    decreases s.len(),
{
    if s.len() > 0 && s[0] != '"' {
        lemma_before_quote_prefix(s.drop_first());
        let r = before_quote(s.drop_first());
        assert(before_quote(s) == seq![s[0]] + r);
        assert(seq![s[0]] + r =~= s.take(r.len() as int + 1));
        if r.len() < s.drop_first().len() {
            assert(s[r.len() as int + 1] == s.drop_first()[r.len() as int]);
        }
    } else if s.len() > 0 {
        assert(before_quote(s) =~= s.take(0));
    } else {
        assert(before_quote(s) =~= s.take(0));
    }
}

/// `before_quote` of a text without quotes is the text.
proof fn lemma_before_quote_of_unquoted(s: Seq<char>)
    requires
        !s.contains('"'),
    ensures
        before_quote(s) == s,
    decreases s.len(),
{
    if s.len() > 0 {
        assert(s[0] != '"');
        assert(!s.drop_first().contains('"')) by {
            if s.drop_first().contains('"') {
                let k = choose|k: int| 0 <= k < s.drop_first().len() && s.drop_first()[k] == '"';
                assert(s[k + 1] == '"');
            }
        }
        lemma_before_quote_of_unquoted(s.drop_first());
        assert(seq![s[0]] + s.drop_first() =~= s);
    }
}

/// `before_quote` stops at the first quote, whatever follows.
proof fn lemma_before_quote_stops(s: Seq<char>, t: Seq<char>)
    requires
        !s.contains('"'),
    ensures
        before_quote(s + seq!['"'] + t) == s,
    decreases s.len(),
{
    if s.len() == 0 {
        assert((s + seq!['"'] + t)[0] == '"');
    } else {
        assert(!s.drop_first().contains('"')) by {
            if s.drop_first().contains('"') {
                let k = choose|k: int| 0 <= k < s.drop_first().len() && s.drop_first()[k] == '"';
                assert(s[k + 1] == '"');
            }
        }
        lemma_before_quote_stops(s.drop_first(), t);
        assert((s + seq!['"'] + t).drop_first() =~= s.drop_first() + seq!['"'] + t);
        assert((s + seq!['"'] + t)[0] == s[0]);
        assert(seq![s[0]] + s.drop_first() =~= s);
    }
}

/// An id holds no quote.
pub proof fn lemma_id_has_no_quote(s: Seq<char>)
    ensures
        !id_of(s).contains('"'),
{
    if s.len() > 0 {
        lemma_before_quote_no_quote(s.drop_first());
        if s[0] != '"' {
            let r = before_quote(s.drop_first());
            if (seq![s[0]] + r).contains('"') {
                let k = choose|k: int| 0 <= k < (seq![s[0]] + r).len() && (seq![s[0]] + r)[k] == '"';
                if k > 0 {
                    assert(r[k - 1] == '"');
                }
            }
        }
    }
}

/// The id of a raw value is what splitting it at quotes gives first, once
/// one leading quote is dropped: the longest quote-free prefix of the rest,
/// which a quote or the end follows. A value without quotes is its own id.
pub proof fn lemma_id_first_segment(s: Seq<char>)
    ensures
        ({
            let t = if s.len() > 0 && s[0] == '"' {
                s.drop_first()
            } else {
                s
            };
            &&& id_of(s).len() <= t.len()
            &&& id_of(s) == t.take(id_of(s).len() as int)
            &&& !id_of(s).contains('"')
            &&& (id_of(s).len() == t.len() || t[id_of(s).len() as int] == '"')
        }),
        !s.contains('"') ==> id_of(s) == s,
{
    lemma_id_has_no_quote(s);
    if s.len() > 0 {
        if s[0] == '"' {
            lemma_before_quote_prefix(s.drop_first());
        } else {
            lemma_before_quote_prefix(s.drop_first());
            let r = before_quote(s.drop_first());
            assert(seq![s[0]] + r =~= s.take(r.len() as int + 1));
            if r.len() < s.drop_first().len() {
                assert(s[r.len() as int + 1] == s.drop_first()[r.len() as int]);
            }
        }
    }
    if !s.contains('"') {
        if s.len() > 0 {
            assert(!s.drop_first().contains('"')) by {
                if s.drop_first().contains('"') {
                    let k = choose|k: int| 0 <= k < s.drop_first().len() && s.drop_first()[k] == '"';
                    assert(s[k + 1] == '"');
                }
            }
            lemma_before_quote_of_unquoted(s.drop_first());
            assert(seq![s[0]] + s.drop_first() =~= s);
        }
    }
}

/// Reading an id again changes nothing: the id of an id is the id.
pub proof fn lemma_id_of_idempotent(s: Seq<char>)
    ensures
        id_of(id_of(s)) == id_of(s),
{
    lemma_id_has_no_quote(s);
    let i = id_of(s);
    if i.len() > 0 {
        assert(i[0] != '"');
        assert(!i.drop_first().contains('"')) by {
            if i.drop_first().contains('"') {
                let k = choose|k: int| 0 <= k < i.drop_first().len() && i.drop_first()[k] == '"';
                assert(i[k + 1] == '"');
            }
        }
        lemma_before_quote_of_unquoted(i.drop_first());
        assert(seq![i[0]] + i.drop_first() =~= i);
    }
}

/// An id written with one pair of quotes, or none, reads back as the same
/// id.
pub proof fn lemma_id_round_trip(id: Seq<char>, n: nat)
    requires
        !id.contains('"'),
        n <= 1,
    ensures
        id_of(quotes(n) + id + quotes(n)) == id,
{
    let w = quotes(n) + id + quotes(n);
    if n == 0 {
        assert(w =~= id);
        assert(id_of(id) == id) by {
            if id.len() > 0 {
                assert(id[0] != '"');
                assert(!id.drop_first().contains('"')) by {
                    if id.drop_first().contains('"') {
                        let k = choose|k: int| 0 <= k < id.drop_first().len() && id.drop_first()[k] == '"';
                        assert(id[k + 1] == '"');
                    }
                }
                lemma_before_quote_of_unquoted(id.drop_first());
                assert(seq![id[0]] + id.drop_first() =~= id);
            }
        }
    } else {
        assert(w[0] == '"');
        assert(w.drop_first() =~= id + seq!['"'] + Seq::<char>::empty());
        lemma_before_quote_stops(id, Seq::<char>::empty());
    }
}

/// A title written in quotes reads back without them.
pub proof fn lemma_title_round_trip(t: Seq<char>)
    ensures
        title_of(seq!['"'] + t + seq!['"']) == t,
{
    let w = seq!['"'] + t + seq!['"'];
    assert(w.subrange(1, w.len() - 1) =~= t);
}

} // verus!
