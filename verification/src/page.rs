//! A note shown as a web page: which text is rendered, and how the answer
//! is put together from the rendering and the nodes that link to and from
//! the page.
use vstd::prelude::*;

use crate::text::{str_eq, string_of, to_chars, views};
use crate::types::{
    id_of, title_of, IncomingLink, OrgAsHTMLResponse, OutgoingLink, RoamID, RoamTitle,
};

verus! {

/// How the page's node is named in the request.
#[derive(Clone, Debug, PartialEq)]
pub enum Query {
    ByTitle(RoamTitle),
    ById(RoamID),
}

/// The text that is rendered: the whole file for the scope `file`; for any
/// other scope the node's subtree, which is the whole file when the subtree
/// cannot be found.
pub fn page_content(scope: &str, content: &str, subtree: Option<String>) -> (r: String)
    ensures
        r@ == if scope@ == "file"@ {
            content@
        } else {
            match subtree {
                Some(s) => s@,
                None => content@,
            }
        },
{
    if str_eq(scope, "file") {
        string_of(to_chars(content).as_slice())
    } else {
        match subtree {
            Some(s) => s,
            None => string_of(to_chars(content).as_slice()),
        }
    }
}

/// The views of optional (id, title) rows.
pub open spec fn row_views(rows: Seq<Option<(String, String)>>) -> Seq<Option<(Seq<char>, Seq<char>)>> {
    rows.map_values(
        |r: Option<(String, String)>|
            match r {
                Some(p) => Some((p.0@, p.1@)),
                None => None,
            },
    )
}

/// The links found in the database, each as (id, title), in order; the
/// ones not found are left out.
pub open spec fn found_links(rows: Seq<Option<(Seq<char>, Seq<char>)>>) -> Seq<(Seq<char>, Seq<char>)>
    decreases rows.len(),
{
    if rows.len() == 0 {
        Seq::empty()
    } else {
        found_links(rows.drop_last()) + match rows.last() {
            Some((id, t)) => seq![(id_of(id), title_of(t))],
            None => Seq::empty(),
        }
    }
}

/// The views of outgoing links.
pub open spec fn outgoing_views(v: Seq<OutgoingLink>) -> Seq<(Seq<char>, Seq<char>)> {
    v.map_values(|l: OutgoingLink| (l.id@, l.display@))
}

/// The views of incoming links.
pub open spec fn incoming_views(v: Seq<IncomingLink>) -> Seq<(Seq<char>, Seq<char>)> {
    v.map_values(|l: IncomingLink| (l.id@, l.display@))
}

/// The page: the rendered html and LaTeX blocks, the outgoing links that
/// were found (`outgoing` holds the row of each link id, none when it was
/// not found), the incoming links (id, title) and no tags.
pub fn build_page(
    html: String,
    latex_blocks: Vec<String>,
    outgoing: &Vec<Option<(String, String)>>,
    incoming: &Vec<(String, String)>,
) -> (r: OrgAsHTMLResponse)
    ensures
        r.org@ == html@,
        r.tags@.len() == 0,
        views(r.latex_blocks@) == views(latex_blocks@),
        outgoing_views(r.outgoing_links@) == found_links(row_views(outgoing@)),
        incoming_views(r.incoming_links@) == crate::org::pair_views(incoming@).map_values(
            |p: (Seq<char>, Seq<char>)| (id_of(p.0), title_of(p.1)),
        ),
{
    let mut out: Vec<OutgoingLink> = Vec::new();
    let mut i: usize = 0;
    while i < outgoing.len()
        invariant
            0 <= i <= outgoing@.len(),
            outgoing_views(out@) == found_links(row_views(outgoing@).take(i as int)),
        decreases outgoing@.len() - i,
    {
        let ghost t = row_views(outgoing@).take(i + 1);
        assert(t.drop_last() =~= row_views(outgoing@).take(i as int));
        match &outgoing[i] {
            Some((id, display)) => {
                let l = OutgoingLink {
                    display: RoamTitle::from_text(display.as_str()),
                    id: RoamID::from_text(id.as_str()),
                };
                let ghost before = out@;
                out.push(l);
                assert(outgoing_views(out@) =~= outgoing_views(before).push(
                    (id_of(id@), title_of(display@)),
                ));
            },
            None => {},
        }
        i = i + 1;
        assert(outgoing_views(out@) =~= found_links(t));
    }
    assert(row_views(outgoing@).take(i as int) =~= row_views(outgoing@));
    let ghost want = crate::org::pair_views(incoming@).map_values(
        |p: (Seq<char>, Seq<char>)| (id_of(p.0), title_of(p.1)),
    );
    let mut inc: Vec<IncomingLink> = Vec::new();
    let mut j: usize = 0;
    while j < incoming.len()
        invariant
            0 <= j <= incoming@.len(),
            want == crate::org::pair_views(incoming@).map_values(
                |p: (Seq<char>, Seq<char>)| (id_of(p.0), title_of(p.1)),
            ),
            incoming_views(inc@) == want.take(j as int),
        decreases incoming@.len() - j,
    {
        let (id, display) = &incoming[j];
        let l = IncomingLink {
            display: RoamTitle::from_text(display.as_str()),
            id: RoamID::from_text(id.as_str()),
        };
        let ghost before = inc@;
        inc.push(l);
        assert(incoming_views(inc@) =~= incoming_views(before).push((id_of(id@), title_of(display@))));
        assert(want.take(j + 1) =~= want.take(j as int).push(want[j as int]));
        j = j + 1;
    }
    assert(want.take(j as int) =~= want);
    OrgAsHTMLResponse {
        org: html,
        tags: Vec::new(),
        outgoing_links: out,
        incoming_links: inc,
        latex_blocks,
    }
}

} // verus!
