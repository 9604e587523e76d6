//! Export of an org document to the html the web client shows.
//!
//! The document arrives as the sequence of events of a pre-order walk of its
//! syntax tree: every container is announced by an `...Enter` event and closed
//! by the matching `...Leave` event, and leaf elements come as single events.
//! Two sub-sequences are added to what the walk itself yields: the title of a
//! headline (between `TitleEnter` and `TitleLeave`, right after
//! `HeadlineEnter`) and the tag of a list item (between `ItemTagEnter` and
//! `ItemTagLeave`, right after `ListItemEnter`). When the exporter answers
//! an `...Enter` event with `true`, that container's contents and its
//! `...Leave` event are not rendered.
use vstd::prelude::*;

use crate::config::HtmlExportSettings;
use crate::text::{
    contains_spec, decimal, eq_ignore_ascii_case, eq_ignore_ascii_case_spec, find,
    first_occurrence, html_escape, lowercase, push_chars, push_decimal, push_escaped,
    starts_with, starts_with_spec, strip_prefix_keep, strip_prefix_or_keep, strip_suffix_keep,
    strip_suffix_or_keep, string_of, to_chars, to_lowercase, trim_bounds, trim_chars,
    trim_end_char, trim_end_matches_char, trim_prefix_all, trim_spec, trim_start_matches,
    trim_start_spec, chars_eq, copy_range, views, rfind_char, trim_start_chars, sort_dedup,
    strictly_sorted, ends_with_spec, string_range,
};

verus! {

/// Where the exporter stands inside an org table.
#[derive(Clone, Copy, Debug, PartialEq, Eq, Structural)]
pub enum TableRow {
    HeaderRule,
    Header,
    BodyRule,
    Body,
}

/// Containers that are rendered as a fixed opening and closing tag.
#[derive(Clone, Copy, Debug, PartialEq, Eq, Structural)]
pub enum Markup {
    Italic,
    Bold,
    Strike,
    Underline,
    Verbatim,
    Code,
    QuoteBlock,
    VerseBlock,
    ExampleBlock,
    FixedWidth,
    CenterBlock,
    CommentBlock,
    Comment,
    Subscript,
    Superscript,
}

/// One token of a timestamp: the `--` between a range's ends, or other text.
#[derive(Clone, Debug)]
pub enum TimestampPart {
    Dash,
    Token(String),
}

/// One event of the walk over an org document (see the module's doc).
#[derive(Clone, Debug)]
pub enum ExportEvent {
    DocumentEnter { title: Option<String> },
    DocumentLeave,
    HeadlineEnter { level: usize, tags: Vec<String> },
    HeadlineLeave,
    TitleEnter,
    TitleLeave { level: usize },
    SectionEnter,
    SectionLeave,
    ParagraphEnter,
    ParagraphLeave,
    /// `block_type` is the name after `#+begin_`.
    SpecialBlockEnter { block_type: Option<String> },
    SpecialBlockLeave,
    MarkupEnter(Markup),
    MarkupLeave(Markup),
    SourceBlockEnter { language: Option<String> },
    SourceBlockLeave,
    ListEnter { ordered: bool, descriptive: bool },
    ListLeave { ordered: bool },
    ListItemEnter,
    ListItemLeave,
    ItemTagEnter,
    ItemTagLeave,
    TableEnter { has_header: bool },
    TableLeave,
    /// `first_cell` is the text of the row's first cell, if it has one.
    TableRowEnter { first_cell: Option<String>, rule: bool },
    TableRowLeave { rule: bool },
    TableCellEnter,
    TableCellLeave,
    LinkEnter { path: String, image: bool, has_description: bool },
    LinkLeave,
    KeywordEnter,
    KeywordLeave,
    /// `raw` is the reference as written, e.g. `[fn:1]`.
    FnRefEnter { raw: String },
    FnRefLeave,
    /// `raw` is the definition's first line as written, e.g. `[fn:1] text`.
    FnDefEnter { raw: String },
    FnDefLeave,
    /// Any other container.
    OtherEnter,
    OtherLeave,
    Text(String),
    LineBreak,
    Snippet { backend: String, value: String },
    Rule,
    Timestamp { parts: Vec<TimestampPart> },
    LatexFragment(String),
    LatexEnvironment(String),
    /// `html` is the entity's html form.
    Entity { html: String },
    InlineSrc { language: String, value: String },
    /// Any other leaf element.
    Other,
}

/// A special-block advice as plain text.
#[verifier::ext_equal]
pub struct AdviceView {
    pub on: Seq<char>,
    pub header: Seq<char>,
    pub css_style: Seq<char>,
    pub text_styling: Seq<char>,
}

/// The state of an exporter.
#[verifier::ext_equal]
pub struct ExportView {
    pub respect_noexport: bool,
    pub advices: Seq<AdviceView>,
    pub output: Seq<char>,
    pub table_row: TableRow,
    /// For each open list, whether it is a description list.
    pub lists: Seq<bool>,
    pub in_special_block: bool,
    pub outgoing: Seq<Seq<char>>,
    pub file: Seq<char>,
    pub latex_blocks: Seq<Seq<char>>,
    pub has_formating: bool,
    pub next_is_first: bool,
    pub footnote_open: bool,
}

impl ExportView {
    /// The state after appending `s` to the output.
    pub open spec fn out(self, s: Seq<char>) -> ExportView {
        ExportView { output: self.output + s, ..self }
    }

    /// The innermost open list is a description list.
    pub open spec fn in_description(self) -> bool {
        self.lists.len() > 0 && self.lists.last()
    }

    /// The state after closing an open footnote.
    pub open spec fn close_footnote(self) -> ExportView {
        if self.footnote_open {
            ExportView { footnote_open: false, ..self.out("</div></div>"@) }
        } else {
            self
        }
    }
}

/// Opening tag of a markup container.
pub open spec fn markup_open(m: Markup) -> Seq<char> {
    match m {
        Markup::Italic => "<i>"@,
        Markup::Bold => "<b>"@,
        Markup::Strike => "<s>"@,
        Markup::Underline => "<u>"@,
        Markup::Verbatim => "<code>"@,
        Markup::Code => "<code>"@,
        Markup::QuoteBlock => "<blockquote class=\"quote\">"@,
        Markup::VerseBlock => "<p class=\"verse\">"@,
        Markup::ExampleBlock => "<pre class=\"example\">"@,
        Markup::FixedWidth => "<pre class=\"program-output\">"@,
        Markup::CenterBlock => "<div class=\"center\">"@,
        Markup::CommentBlock => "<!--"@,
        Markup::Comment => "<!--"@,
        Markup::Subscript => "<sub>"@,
        Markup::Superscript => "<sup>"@,
    }
}

/// Closing tag of a markup container.
pub open spec fn markup_close(m: Markup) -> Seq<char> {
    match m {
        Markup::Italic => "</i>"@,
        Markup::Bold => "</b>"@,
        Markup::Strike => "</s>"@,
        Markup::Underline => "</u>"@,
        Markup::Verbatim => "</code>"@,
        Markup::Code => "</code>"@,
        Markup::QuoteBlock => "</blockquote>"@,
        Markup::VerseBlock => "</p>"@,
        Markup::ExampleBlock => "</pre>"@,
        Markup::FixedWidth => "</pre>"@,
        Markup::CenterBlock => "</div>"@,
        Markup::CommentBlock => "-->"@,
        Markup::Comment => "-->"@,
        Markup::Subscript => "</sub>"@,
        Markup::Superscript => "</sup>"@,
    }
}

/// The heading level used in html: at most 6.
pub open spec fn html_level(level: usize) -> nat {
    if level < 6 {
        level as nat
    } else {
        6
    }
}

/// Some tag of a headline contains `noexport`.
pub open spec fn has_noexport(tags: Seq<String>) -> bool {
    exists|i: int| 0 <= i < tags.len() && contains_spec(#[trigger] tags[i]@, "noexport"@)
}

/// The first advice whose lower-cased name is `block_type`.
pub open spec fn advice_index(advices: Seq<AdviceView>, block_type: Seq<char>) -> Option<int> {
    if exists|i: int| 0 <= i < advices.len() && lowercase(advices[i].on) == block_type {
        Some(
            choose|i: int|
                0 <= i < advices.len() && lowercase(advices[i].on) == block_type && forall|j: int|
                    0 <= j < i ==> lowercase(#[trigger] advices[j].on) != block_type,
        )
    } else {
        None
    }
}

/// Opening html of a special block.
pub open spec fn special_block_open(advices: Seq<AdviceView>, block_type: Option<String>) -> Seq<
    char,
> {
    match block_type {
        Some(bt) => match advice_index(advices, bt@) {
            Some(i) => "<div class=\""@ + advices[i].on + "\" style=\""@ + advices[i].css_style
                + "\">"@ + advices[i].header + "<p style=\""@ + advices[i].text_styling + "\">"@,
            None => "<div class=\""@ + bt@ + "\"><p>"@,
        },
        None => "<div><p>"@,
    }
}

/// Entering a special block.
pub open spec fn special_block_enter(st: ExportView, block_type: Option<String>) -> ExportView {
    ExportView { in_special_block: true, ..st.out(special_block_open(st.advices, block_type)) }
}

/// Closes the open table part (head or body).
pub open spec fn close_table_part(st: ExportView) -> ExportView {
    match st.table_row {
        TableRow::Body => ExportView { table_row: TableRow::BodyRule, ..st.out("</tbody>"@) },
        TableRow::Header => ExportView { table_row: TableRow::BodyRule, ..st.out("</thead>"@) },
        _ => st,
    }
}

/// A table row whose first cell reads `/` carries column formatting only.
pub open spec fn is_formatting_row(first_cell: Option<String>) -> bool {
    match first_cell {
        Some(t) => trim_spec(t@) == "/"@,
        None => false,
    }
}

/// Entering a table row.
pub open spec fn table_row_enter(st: ExportView, first_cell: Option<String>, rule: bool) -> (
    ExportView,
    bool,
) {
    if is_formatting_row(first_cell) {
        (ExportView { has_formating: true, ..st }, true)
    } else if rule {
        (ExportView { next_is_first: true, ..close_table_part(st) }, true)
    } else {
        let opened = match st.table_row {
            TableRow::HeaderRule => ExportView {
                table_row: TableRow::Header,
                ..st.out("<thead>"@)
            },
            TableRow::BodyRule => ExportView { table_row: TableRow::Body, ..st.out("<tbody>"@) },
            _ => st,
        };
        (ExportView { next_is_first: true, ..opened.out("<tr>"@) }, false)
    }
}

/// The path without its trailing `/`s and `/.` components.
pub open spec fn trim_end_slashes(p: Seq<char>) -> Seq<char>
    decreases p.len(),
{
    if p.len() > 0 && p.last() == '/' {
        trim_end_slashes(p.drop_last())
    } else if p.len() >= 2 && p.last() == '.' && p[p.len() - 2] == '/' {
        trim_end_slashes(p.drop_last())
    } else {
        p
    }
}

/// The directory part of a `/`-separated path: what `PathBuf::pop` leaves.
/// Trailing and repeated `/`s and `.` components after the first do not
/// count as components; a path that is empty or only `/`s has no parent and
/// stays as it is; the parent of a single component is empty, and that of a
/// component under the root is `/`.
pub open spec fn parent_dir(p: Seq<char>) -> Seq<char> {
    let q = trim_end_slashes(p);
    if q.len() == 0 {
        p
    } else if exists|i: int| 0 <= i < q.len() && q[i] == '/' {
        let k = choose|k: int|
            0 <= k < q.len() && q[k] == '/' && forall|j: int| k < j < q.len() ==> q[j] != '/';
        let d = trim_end_slashes(q.take(k));
        if d.len() == 0 {
            "/"@
        } else {
            d
        }
    } else {
        Seq::empty()
    }
}

/// `rel` taken relative to directory `dir`, as `PathBuf::push` joins
/// `/`-separated paths: an absolute `rel` replaces `dir`.
pub open spec fn join_path(dir: Seq<char>, rel: Seq<char>) -> Seq<char> {
    if rel.len() > 0 && rel[0] == '/' {
        rel
    } else if dir.len() == 0 {
        rel
    } else if dir.last() == '/' {
        dir + rel
    } else {
        dir + "/"@ + rel
    }
}

/// Entering a link.
pub open spec fn link_enter(st: ExportView, path: Seq<char>, image: bool, has_description: bool) -> (
    ExportView,
    bool,
) {
    let anchor = if starts_with_spec(path, "id:"@) {
        let id = trim_prefix_all(path, "id:"@);
        ExportView {
            outgoing: st.outgoing.push(id),
            ..st.out("<a id=\""@ + html_escape(id) + "\" class=\"org-preview-id-link\">"@)
        }
    } else {
        st.out("<a href=\""@ + html_escape(trim_prefix_all(path, "file:"@)) + "\">"@)
    };
    let pictured = if image {
        anchor.out(
            "<img style=\"width: 80%; margin: auto; display: block;\" src=\"assets?file="@
                + html_escape(join_path(parent_dir(st.file), path)) + "\">"@,
        )
    } else {
        anchor
    };
    if has_description {
        (pictured, false)
    } else {
        (pictured.out("</a>"@), true)
    }
}

/// The label of a footnote reference `[fn:label]`.
pub open spec fn fnref_label(raw: Seq<char>) -> Seq<char> {
    trim_end_char(trim_prefix_all(raw, "[fn:"@), ']')
}

/// The label of a footnote definition: the text between `[fn:` and the next
/// `]`, or `unknown`.
pub open spec fn fndef_label(raw: Seq<char>) -> Seq<char> {
    match first_occurrence(raw, "[fn:"@) {
        Some(start) => {
            let after = raw.skip(start + 4);
            match first_occurrence(after, "]"@) {
                Some(end) => after.take(end),
                None => "unknown"@,
            }
        },
        None => "unknown"@,
    }
}

/// The text of a footnote definition after its label.
pub open spec fn fndef_content(raw: Seq<char>) -> Seq<char> {
    match first_occurrence(raw, "]"@) {
        Some(start) => trim_start_spec(raw.skip(start + 1)),
        None => Seq::empty(),
    }
}

/// The html that orgize's own exporter makes of an org text.
pub uninterp spec fn orgize_html(content: Seq<char>) -> Seq<char>;

/// The inner html of a short org text: orgize's rendering without its
/// `<main>`, `<section>` and `<p>` wrappers.
pub open spec fn inline_html(content: Seq<char>) -> Seq<char> {
    let h = trim_spec(orgize_html(content));
    let h = strip_prefix_or_keep(h, "<main>"@);
    let h = strip_suffix_or_keep(h, "</main>"@);
    let h = strip_prefix_or_keep(h, "<section>"@);
    let h = strip_suffix_or_keep(h, "</section>"@);
    let h = strip_prefix_or_keep(h, "<p>"@);
    let h = strip_suffix_or_keep(h, "</p>"@);
    trim_spec(h)
}

/// Entering a footnote definition.
pub open spec fn fndef_enter(st: ExportView, raw: Seq<char>) -> ExportView {
    let st = st.close_footnote();
    let label = html_escape(fndef_label(raw));
    ExportView {
        footnote_open: true,
        ..st.out(
            "<div class=\"footdef\"><sup><a id=\"fn."@ + label + "\" class=\"footnum\" href=\"#fnr."@
                + label + "\">"@ + label + "</a></sup> <div class=\"footpara\">"@ + inline_html(
                fndef_content(raw),
            ),
        )
    }
}

/// A footnote reference.
pub open spec fn fnref_html(raw: Seq<char>) -> Seq<char> {
    let label = html_escape(fnref_label(raw));
    "<sup><a id=\"fnr."@ + label + "\" class=\"footref\" href=\"#fn."@ + label + "\">"@ + label
        + "</a></sup>"@
}

/// The text of timestamp tokens, with `--` written as an en dash entity.
pub open spec fn timestamp_text(parts: Seq<TimestampPart>) -> Seq<char>
    decreases parts.len(),
{
    if parts.len() == 0 {
        Seq::empty()
    } else {
        timestamp_text(parts.drop_last()) + match parts.last() {
            TimestampPart::Dash => "&#x2013;"@,
            TimestampPart::Token(t) => t@,
        }
    }
}

/// A LaTeX fragment (`env == false`) or environment: it is kept aside and a
/// numbered placeholder is written.
pub open spec fn latex_enter(st: ExportView, raw: Seq<char>, env: bool) -> ExportView {
    let n = decimal(st.latex_blocks.len());
    let placeholder = if env {
        "<div class=\"org-latex-block-placeholder\" data-latex-index=\""@ + n
            + "\">[LaTeX Environment "@ + n + "]</div>"@
    } else {
        "<span class=\"org-latex-placeholder\" data-latex-index=\""@ + n + "\">[LaTeX Block "@ + n
            + "]</span>"@
    };
    ExportView { latex_blocks: st.latex_blocks.push(raw), ..st.out(placeholder) }
}

/// Entering a headline: left out with its subtree when tagged `noexport`
/// and the settings ask for it.
pub open spec fn headline_enter(st: ExportView, level: usize, tags: Seq<String>) -> (ExportView, bool) {
    if st.respect_noexport && has_noexport(tags) {
        (st, true)
    } else {
        (st.out("<h"@ + decimal(html_level(level)) + ">"@), false)
    }
}

/// What one event does: the next state, and whether the contents of the
/// container it opens are left out.
#[verifier::opaque]
pub open spec fn step(st: ExportView, ev: ExportEvent) -> (ExportView, bool) {
    match ev {
        ExportEvent::DocumentEnter { title } => (
            st.out(
                "<div>"@ + match title {
                    Some(t) => "<h1 id=\"org-preview-title\">"@ + t@ + "</h1>"@,
                    None => Seq::empty(),
                },
            ),
            false,
        ),
        ExportEvent::DocumentLeave => (st.out("</div>"@), false),
        ExportEvent::HeadlineEnter { level, tags } => headline_enter(st, level, tags@),
        ExportEvent::HeadlineLeave => (st, false),
        ExportEvent::TitleEnter => (st, false),
        ExportEvent::TitleLeave { level } => (
            st.out("</h"@ + decimal(html_level(level)) + ">"@),
            false,
        ),
        ExportEvent::SectionEnter => (st.out("<section>"@), false),
        ExportEvent::SectionLeave => (st.close_footnote().out("</section>"@), false),
        ExportEvent::ParagraphEnter => if !st.in_special_block && !st.footnote_open {
            (st.out("<p>"@), false)
        } else {
            (st, false)
        },
        ExportEvent::ParagraphLeave => if !st.in_special_block && !st.footnote_open {
            (st.out("</p>"@), false)
        } else {
            (st, false)
        },
        ExportEvent::SpecialBlockEnter { block_type } => (
            special_block_enter(st, block_type),
            false,
        ),
        ExportEvent::SpecialBlockLeave => (
            ExportView { in_special_block: false, ..st.out("</p></div>"@) },
            false,
        ),
        ExportEvent::MarkupEnter(m) => (st.out(markup_open(m)), false),
        ExportEvent::MarkupLeave(m) => (st.out(markup_close(m)), false),
        ExportEvent::SourceBlockEnter { language } => (
            st.out(
                match language {
                    Some(l) => "<pre><code class=\"language-"@ + html_escape(l@) + "\">"@,
                    None => "<pre><code>"@,
                },
            ),
            false,
        ),
        ExportEvent::SourceBlockLeave => (st.out("</code></pre>"@), false),
        ExportEvent::ListEnter { ordered, descriptive } => (
            ExportView {
                lists: st.lists.push(!ordered && descriptive),
                ..st.out(
                    if ordered {
                        "<ol>"@
                    } else if descriptive {
                        "<dl>"@
                    } else {
                        "<ul>"@
                    },
                )
            },
            false,
        ),
        ExportEvent::ListLeave { ordered } => (
            ExportView {
                lists: if st.lists.len() > 0 {
                    st.lists.drop_last()
                } else {
                    st.lists
                },
                ..st.out(
                    if ordered {
                        "</ol>"@
                    } else if st.in_description() {
                        "</dl>"@
                    } else {
                        "</ul>"@
                    },
                )
            },
            false,
        ),
        ExportEvent::ListItemEnter => (
            st.out(
                if st.in_description() {
                    "<dt>"@
                } else {
                    "<li>"@
                },
            ),
            false,
        ),
        ExportEvent::ListItemLeave => (
            st.out(
                if st.in_description() {
                    "</dd>"@
                } else {
                    "</li>"@
                },
            ),
            false,
        ),
        ExportEvent::ItemTagEnter => (st, !st.in_description()),
        ExportEvent::ItemTagLeave => (st.out("</dt><dd>"@), false),
        ExportEvent::TableEnter { has_header } => (
            ExportView {
                table_row: if has_header {
                    TableRow::HeaderRule
                } else {
                    TableRow::BodyRule
                },
                ..st.out("<table>"@)
            },
            false,
        ),
        ExportEvent::TableLeave => (
            st.out(
                match st.table_row {
                    TableRow::Body => "</tbody>"@,
                    TableRow::Header => "</thead>"@,
                    _ => Seq::empty(),
                } + "</table>"@,
            ),
            false,
        ),
        ExportEvent::TableRowEnter { first_cell, rule } => table_row_enter(st, first_cell, rule),
        ExportEvent::TableRowLeave { rule } => if rule {
            (close_table_part(st), true)
        } else {
            (st.out("</tr>"@), false)
        },
        ExportEvent::TableCellEnter => if st.next_is_first && st.has_formating {
            (ExportView { next_is_first: false, ..st }, true)
        } else {
            (st.out("<td>"@), false)
        },
        ExportEvent::TableCellLeave => (st.out("</td>"@), false),
        ExportEvent::LinkEnter { path, image, has_description } => link_enter(
            st,
            path@,
            image,
            has_description,
        ),
        ExportEvent::LinkLeave => (st.out("</a>"@), false),
        ExportEvent::KeywordEnter => (st, true),
        ExportEvent::KeywordLeave => (st, false),
        ExportEvent::FnRefEnter { raw } => (st.out(fnref_html(raw@)), true),
        ExportEvent::FnRefLeave => (st, false),
        ExportEvent::FnDefEnter { raw } => (fndef_enter(st, raw@), true),
        ExportEvent::FnDefLeave => (st, false),
        ExportEvent::OtherEnter => (st, false),
        ExportEvent::OtherLeave => (st, false),
        ExportEvent::Text(t) => (st.out(html_escape(t@)), false),
        ExportEvent::LineBreak => (st.out("<br/>"@), false),
        ExportEvent::Snippet { backend, value } => if eq_ignore_ascii_case_spec(
            backend@,
            "html"@,
        ) {
            (st.out(value@), false)
        } else {
            (st, false)
        },
        ExportEvent::Rule => (st.out("<hr/>"@), false),
        ExportEvent::Timestamp { parts } => (
            st.out(
                "<span class=\"timestamp-wrapper\"><span class=\"timestamp\">"@ + timestamp_text(
                    parts@,
                ) + "</span></span>"@,
            ),
            false,
        ),
        ExportEvent::LatexFragment(raw) => (latex_enter(st, raw@, false), false),
        ExportEvent::LatexEnvironment(raw) => (latex_enter(st, raw@, true), false),
        ExportEvent::Entity { html } => (st.out(html@), false),
        ExportEvent::InlineSrc { language, value } => (
            st.out("<code class=\"language-"@ + language@ + "\">"@ + value@ + "</code>"@),
            false,
        ),
        ExportEvent::Other => (st, false),
    }
}

/// Which handler deals with an event.
pub open spec fn event_group(ev: ExportEvent) -> nat {
    match ev {
        ExportEvent::DocumentEnter { .. } | ExportEvent::DocumentLeave | ExportEvent::HeadlineEnter { .. } | ExportEvent::HeadlineLeave | ExportEvent::TitleEnter | ExportEvent::TitleLeave { .. } | ExportEvent::SectionEnter | ExportEvent::SectionLeave | ExportEvent::ParagraphEnter | ExportEvent::ParagraphLeave | ExportEvent::SpecialBlockEnter { .. } | ExportEvent::SpecialBlockLeave | ExportEvent::MarkupEnter(_) | ExportEvent::MarkupLeave(_) | ExportEvent::SourceBlockEnter { .. } | ExportEvent::SourceBlockLeave | ExportEvent::KeywordEnter | ExportEvent::KeywordLeave | ExportEvent::OtherEnter | ExportEvent::OtherLeave | ExportEvent::Other => 1,
        ExportEvent::ListEnter { .. } | ExportEvent::ListLeave { .. } | ExportEvent::ListItemEnter | ExportEvent::ListItemLeave | ExportEvent::ItemTagEnter | ExportEvent::ItemTagLeave | ExportEvent::TableEnter { .. } | ExportEvent::TableLeave | ExportEvent::TableRowEnter { .. } | ExportEvent::TableRowLeave { .. } | ExportEvent::TableCellEnter | ExportEvent::TableCellLeave => 2,
        ExportEvent::LinkEnter { .. } | ExportEvent::LinkLeave | ExportEvent::FnRefEnter { .. } | ExportEvent::FnRefLeave | ExportEvent::FnDefEnter { .. } | ExportEvent::FnDefLeave => 3,
        _ => 4,
    }
}

/// The event opens a container.
pub open spec fn is_enter(ev: ExportEvent) -> bool {
    match ev {
        ExportEvent::DocumentEnter { .. } | ExportEvent::HeadlineEnter { .. }
        | ExportEvent::TitleEnter | ExportEvent::SectionEnter | ExportEvent::ParagraphEnter
        | ExportEvent::SpecialBlockEnter { .. } | ExportEvent::MarkupEnter(_)
        | ExportEvent::SourceBlockEnter { .. } | ExportEvent::ListEnter { .. }
        | ExportEvent::ListItemEnter | ExportEvent::ItemTagEnter | ExportEvent::TableEnter { .. }
        | ExportEvent::TableRowEnter { .. } | ExportEvent::TableCellEnter
        | ExportEvent::LinkEnter { .. } | ExportEvent::KeywordEnter | ExportEvent::FnRefEnter { .. }
        | ExportEvent::FnDefEnter { .. } | ExportEvent::OtherEnter => true,
        _ => false,
    }
}

/// The event closes a container.
pub open spec fn is_leave(ev: ExportEvent) -> bool {
    match ev {
        ExportEvent::DocumentLeave | ExportEvent::HeadlineLeave | ExportEvent::TitleLeave { .. }
        | ExportEvent::SectionLeave | ExportEvent::ParagraphLeave | ExportEvent::SpecialBlockLeave
        | ExportEvent::MarkupLeave(_) | ExportEvent::SourceBlockLeave
        | ExportEvent::ListLeave { .. } | ExportEvent::ListItemLeave | ExportEvent::ItemTagLeave
        | ExportEvent::TableLeave | ExportEvent::TableRowLeave { .. } | ExportEvent::TableCellLeave
        | ExportEvent::LinkLeave | ExportEvent::KeywordLeave | ExportEvent::FnRefLeave
        | ExportEvent::FnDefLeave | ExportEvent::OtherLeave => true,
        _ => false,
    }
}

/// The index just past the `Leave` that closes a container whose contents
/// start at `i`, with `depth` containers open; the end when none does.
pub open spec fn close_index(evs: Seq<ExportEvent>, i: int, depth: nat) -> int
    decreases evs.len() - i,
{
    if i < 0 || i >= evs.len() {
        evs.len() as int
    } else if is_leave(evs[i]) {
        if depth <= 1 {
            i + 1
        } else {
            close_index(evs, i + 1, (depth - 1) as nat)
        }
    } else if is_enter(evs[i]) {
        close_index(evs, i + 1, depth + 1)
    } else {
        close_index(evs, i + 1, depth)
    }
}

/// The state after the events from index `i` on.
pub open spec fn replay(st: ExportView, evs: Seq<ExportEvent>, i: int) -> ExportView
    decreases evs.len() - i,
{
    if i < 0 || i >= evs.len() {
        st
    } else {
        let (next, skip) = step(st, evs[i]);
        let j = if skip && is_enter(evs[i]) {
            close_index(evs, i + 1, 1)
        } else {
            i + 1
        };
        if j <= i || j > evs.len() {
            next
        } else {
            replay(next, evs, j)
        }
    }
}

pub proof fn lemma_close_index_bounds(evs: Seq<ExportEvent>, i: int, depth: nat)
    requires
        0 <= i,
    ensures
        i < close_index(evs, i, depth) <= evs.len() || (i >= evs.len() && close_index(
            evs,
            i,
            depth,
        ) == evs.len()),
    decreases evs.len() - i,
{
    if i < evs.len() {
        if is_leave(evs[i]) {
            if depth > 1 {
                lemma_close_index_bounds(evs, i + 1, (depth - 1) as nat);
            }
        } else if is_enter(evs[i]) {
            lemma_close_index_bounds(evs, i + 1, depth + 1);
        } else {
            lemma_close_index_bounds(evs, i + 1, depth);
        }
    }
}

/// Finds the index just past the `Leave` that closes the container opened at
/// `i - 1` (see `close_index`).
pub fn find_close(evs: &[ExportEvent], i: usize) -> (r: usize)
    requires
        1 <= i <= evs@.len(),
    ensures
        r == close_index(evs@, i as int, 1),
{
    let mut k = i;
    let mut depth: usize = 1;
    while k < evs.len()
        invariant
            1 <= i <= k <= evs@.len(),
            1 <= depth <= k - i + 1,
            close_index(evs@, i as int, 1) == close_index(evs@, k as int, depth as nat),
        decreases evs@.len() - k,
    {
        let ev = &evs[k];
        if event_is_leave(ev) {
            if depth <= 1 {
                return k + 1;
            }
            depth = depth - 1;
        } else if event_is_enter(ev) {
            depth = depth + 1;
        }
        k = k + 1;
    }
    evs.len()
}

/// Tests `is_enter`.
pub fn event_is_enter(ev: &ExportEvent) -> (r: bool)
    ensures
        r == is_enter(*ev),
{
    match ev {
        ExportEvent::DocumentEnter { .. } | ExportEvent::HeadlineEnter { .. }
        | ExportEvent::TitleEnter | ExportEvent::SectionEnter | ExportEvent::ParagraphEnter
        | ExportEvent::SpecialBlockEnter { .. } | ExportEvent::MarkupEnter(_)
        | ExportEvent::SourceBlockEnter { .. } | ExportEvent::ListEnter { .. }
        | ExportEvent::ListItemEnter | ExportEvent::ItemTagEnter | ExportEvent::TableEnter { .. }
        | ExportEvent::TableRowEnter { .. } | ExportEvent::TableCellEnter
        | ExportEvent::LinkEnter { .. } | ExportEvent::KeywordEnter | ExportEvent::FnRefEnter { .. }
        | ExportEvent::FnDefEnter { .. } | ExportEvent::OtherEnter => true,
        _ => false,
    }
}

/// Tests `is_leave`.
pub fn event_is_leave(ev: &ExportEvent) -> (r: bool)
    ensures
        r == is_leave(*ev),
{
    match ev {
        ExportEvent::DocumentLeave | ExportEvent::HeadlineLeave | ExportEvent::TitleLeave { .. }
        | ExportEvent::SectionLeave | ExportEvent::ParagraphLeave | ExportEvent::SpecialBlockLeave
        | ExportEvent::MarkupLeave(_) | ExportEvent::SourceBlockLeave
        | ExportEvent::ListLeave { .. } | ExportEvent::ListItemLeave | ExportEvent::ItemTagLeave
        | ExportEvent::TableLeave | ExportEvent::TableRowLeave { .. } | ExportEvent::TableCellLeave
        | ExportEvent::LinkLeave | ExportEvent::KeywordLeave | ExportEvent::FnRefLeave
        | ExportEvent::FnDefLeave | ExportEvent::OtherLeave => true,
        _ => false,
    }
}

/// Renders `content` with orgize's built-in html exporter (`Org::parse`,
/// `Org::traverse` with a default `orgize::export::HtmlExport`, then
/// `HtmlExport::finish`). The result is named `orgize_html` of the content;
/// nothing more is claimed of it.
#[verifier::external_body]
fn render_with_orgize(content: &str) -> (r: String)
    ensures
        r@ == orgize_html(content@),
{
    let mut exporter = orgize::export::HtmlExport::default();
    orgize::Org::parse(content).traverse(&mut exporter);
    exporter.finish()
}

/// The exporter.
pub struct HtmlExport<'a> {
    settings: &'a HtmlExportSettings,
    output: String,
    table_row: TableRow,
    in_descriptive_list: Vec<bool>,
    in_special_block: bool,
    outgoing_id_links: Vec<String>,
    file: String,
    latex_blocks: Vec<String>,
    latex_counter: usize,
    has_formating: bool,
    next_is_first: bool,
    footnote_open: bool,
}

/// The advices of the settings as plain text.
pub open spec fn advice_views(settings: &HtmlExportSettings) -> Seq<AdviceView> {
    settings.env_advices@.map_values(
        |a: crate::config::EnvAdvice|
            AdviceView {
                on: a.on@,
                header: a.header@,
                css_style: a.css_style@,
                text_styling: a.text_styling@,
            },
    )
}

impl<'a> View for HtmlExport<'a> {
    type V = ExportView;

    closed spec fn view(&self) -> ExportView {
        ExportView {
            respect_noexport: self.settings.respect_noexport,
            advices: advice_views(self.settings),
            output: self.output@,
            table_row: self.table_row,
            lists: self.in_descriptive_list@,
            in_special_block: self.in_special_block,
            outgoing: views(self.outgoing_id_links@),
            file: self.file@,
            latex_blocks: views(self.latex_blocks@),
            has_formating: self.has_formating,
            next_is_first: self.next_is_first,
            footnote_open: self.footnote_open,
        }
    }
}

/// Tests `has_noexport`.
fn any_noexport(tags: &Vec<String>) -> (r: bool)
    ensures
        r == has_noexport(tags@),
{
    let pat = to_chars("noexport");
    let mut i: usize = 0;
    while i < tags.len()
        invariant
            0 <= i <= tags@.len(),
            pat@ == "noexport"@,
            forall|j: int| 0 <= j < i ==> !contains_spec(#[trigger] tags@[j]@, "noexport"@),
        decreases tags@.len() - i,
    {
        let tc = to_chars(tags[i].as_str());
        if crate::text::contains(tc.as_slice(), pat.as_slice()) {
            assert(contains_spec(tags@[i as int]@, "noexport"@));
            return true;
        }
        i = i + 1;
    }
    false
}

/// Finds `advice_index` of the settings' advices.
fn find_advice(settings: &HtmlExportSettings, bt: &str) -> (r: Option<usize>)
    ensures
        r matches Some(k) ==> k < settings.env_advices@.len() && advice_index(
            advice_views(settings),
            bt@,
        ) == Some(k as int),
        r is None ==> advice_index(advice_views(settings), bt@) is None,
{
    let ghost advices = advice_views(settings);
    let btc = to_chars(bt);
    let mut i: usize = 0;
    while i < settings.env_advices.len()
        invariant
            0 <= i <= settings.env_advices@.len(),
            advices == advice_views(settings),
            btc@ == bt@,
            forall|j: int| 0 <= j < i ==> lowercase(#[trigger] advices[j].on) != bt@,
        decreases settings.env_advices@.len() - i,
    {
        let lower = to_lowercase(settings.env_advices[i].on.as_str());
        let lc = to_chars(lower.as_str());
        if chars_eq(lc.as_slice(), btc.as_slice()) {
            proof {
                assert(lowercase(advices[i as int].on) == bt@);
                let w = choose|w: int|
                    0 <= w < advices.len() && lowercase(advices[w].on) == bt@ && forall|j: int|
                        0 <= j < w ==> lowercase(#[trigger] advices[j].on) != bt@;
                if w < i {
                    assert(lowercase(advices[w].on) != bt@);
                }
                if i < w {
                    assert(lowercase(advices[i as int].on) != bt@);
                }
            }
            return Some(i);
        }
        i = i + 1;
    }
    None
}

/// Builds `special_block_open` for the settings' advices.
fn special_block_html(settings: &HtmlExportSettings, block_type: &Option<String>) -> (r: String)
    ensures
        r@ == special_block_open(advice_views(settings), *block_type),
{
    let mut s = String::new();
    match block_type {
        Some(bt) => {
            match find_advice(settings, bt.as_str()) {
                Some(k) => {
                    let a = &settings.env_advices[k];
                    s.append("<div class=\"");
                    s.append(a.on.as_str());
                    s.append("\" style=\"");
                    s.append(a.css_style.as_str());
                    s.append("\">");
                    s.append(a.header.as_str());
                    s.append("<p style=\"");
                    s.append(a.text_styling.as_str());
                    s.append("\">");
                },
                None => {
                    s.append("<div class=\"");
                    s.append(bt.as_str());
                    s.append("\"><p>");
                },
            }
        },
        None => {
            s.append("<div><p>");
        },
    }
    s
}

/// The length of the first `end` characters without their trailing `/`s.
fn trimmed_len(p: &[char], end: usize) -> (n: usize)
    requires
        end <= p@.len(),
    ensures
        n <= end,
        trim_end_slashes(p@.take(end as int)) == p@.take(n as int),
{
    let mut n = end;
    while n > 0 && (p[n - 1] == '/' || (n >= 2 && p[n - 1] == '.' && p[n - 2] == '/'))
        invariant
            n <= end <= p@.len(),
            trim_end_slashes(p@.take(end as int)) == trim_end_slashes(p@.take(n as int)),
        decreases n,
    {
        assert(p@.take(n as int).drop_last() =~= p@.take(n - 1));
        assert(p@.take(n as int).last() == p@[n - 1]);
        if n >= 2 {
            assert(p@.take(n as int)[n - 2] == p@[n - 2]);
        }
        n = n - 1;
    }
    proof {
        if n > 0 {
            assert(p@.take(n as int).last() == p@[n - 1]);
            if n >= 2 {
                assert(p@.take(n as int)[n - 2] == p@[n - 2]);
            }
        }
    }
    n
}

/// Computes `parent_dir`.
fn parent_dir_exec(p: &[char]) -> (r: Vec<char>)
    ensures
        r@ == parent_dir(p@),
{
    let n = trimmed_len(p, p.len());
    assert(p@.take(p@.len() as int) =~= p@);
    if n == 0 {
        return copy_range_all(p);
    }
    let q = copy_range(p, 0, n);
    assert(q@ =~= p@.take(n as int));
    match rfind_char(q.as_slice(), '/') {
        Some(k) => {
            proof {
                let w = choose|w: int|
                    0 <= w < q@.len() && q@[w] == '/' && forall|j: int|
                        w < j < q@.len() ==> q@[j] != '/';
                if w < k {
                    assert(q@[k as int] != '/');
                }
                if k < w {
                    assert(q@[w] != '/');
                }
            }
            let m = trimmed_len(q.as_slice(), k);
            if m == 0 {
                to_chars("/")
            } else {
                let r = copy_range(q.as_slice(), 0, m);
                assert(q@.subrange(0, m as int) =~= q@.take(m as int));
                r
            }
        },
        None => Vec::new(),
    }
}

/// Computes `join_path`.
pub(crate) fn join_path_exec(dir: &[char], rel: &[char]) -> (r: Vec<char>)
    ensures
        r@ == join_path(dir@, rel@),
{
    let mut r: Vec<char> = Vec::new();
    if rel.len() > 0 && rel[0] == '/' {
        return copy_range_all(rel);
    } else if dir.len() == 0 {
        return copy_range_all(rel);
    }
    let mut out = copy_range_all(dir);
    if dir[dir.len() - 1] != '/' {
        out.push('/');
    }
    let mut i: usize = 0;
    let ghost base = out@;
    while i < rel.len()
        invariant
            0 <= i <= rel@.len(),
            out@ == base + rel@.take(i as int),
        decreases rel@.len() - i,
    {
        out.push(rel[i]);
        i = i + 1;
        assert(rel@.take(i as int) == rel@.take(i - 1).push(rel@[i - 1]));
    }
    assert(rel@.take(rel@.len() as int) == rel@);
    proof {
        if dir@.last() != '/' {
            assert(base == dir@ + "/"@) by {
                reveal_strlit("/");
                assert(base =~= dir@.push('/'));
                assert(dir@.push('/') =~= dir@ + "/"@);
            }
        } else {
            assert(base == dir@);
        }
    }
    out
}

fn copy_range_all(s: &[char]) -> (r: Vec<char>)
    ensures
        r@ == s@,
{
    let r = copy_range(s, 0, s.len());
    assert(s@.subrange(0, s@.len() as int) == s@);
    r
}

/// Builds `fnref_html`.
fn fnref_html_exec(raw: &str) -> (r: String)
    ensures
        r@ == fnref_html(raw@),
{
    let rc = to_chars(raw);
    let pre = to_chars("[fn:");
    let a = trim_start_matches(rc.as_slice(), pre.as_slice());
    let b = trim_end_matches_char(a.as_slice(), ']');
    let label = string_of(b.as_slice());
    let mut s = String::new();
    s.append("<sup><a id=\"fnr.");
    push_escaped(&mut s, label.as_str());
    s.append("\" class=\"footref\" href=\"#fn.");
    push_escaped(&mut s, label.as_str());
    s.append("\">");
    push_escaped(&mut s, label.as_str());
    s.append("</a></sup>");
    s
}

/// Builds `fndef_content`.
fn fndef_content_exec(raw: &[char]) -> (r: Vec<char>)
    ensures
        r@ == fndef_content(raw@),
{
    let close = to_chars("]");
    match find(raw, close.as_slice()) {
        Some(start) => {
            proof {
                reveal_strlit("]");
                assert(crate::text::occurs_at(raw@, "]"@, start as int));
                assert(start + 1 <= raw@.len());
            }
            assert(start + 1 <= raw.len());
            let rest = copy_range(raw, start + 1, raw.len());
            assert(raw@.subrange(start + 1, raw@.len() as int) == raw@.skip(start + 1));
            trim_start_chars(rest.as_slice())
        },
        None => Vec::new(),
    }
}

/// Builds `tags` of a timestamp.
fn timestamp_html(parts: &Vec<TimestampPart>) -> (r: String)
    ensures
        r@ == timestamp_text(parts@),
{
    let mut s = String::new();
    let mut i: usize = 0;
    while i < parts.len()
        invariant
            0 <= i <= parts@.len(),
            s@ == timestamp_text(parts@.take(i as int)),
        decreases parts@.len() - i,
    {
        assert(parts@.take(i + 1).drop_last() == parts@.take(i as int));
        match &parts[i] {
            TimestampPart::Dash => s.append("&#x2013;"),
            TimestampPart::Token(t) => s.append(t.as_str()),
        }
        i = i + 1;
    }
    assert(parts@.take(parts@.len() as int) == parts@);
    s
}

/// Tests `is_formatting_row`.
fn formatting_row(first_cell: &Option<String>) -> (r: bool)
    ensures
        r == is_formatting_row(*first_cell),
{
    match first_cell {
        Some(t) => {
            let tc = to_chars(t.as_str());
            let tr = trim_chars(tc.as_slice());
            let slash = to_chars("/");
            chars_eq(tr.as_slice(), slash.as_slice())
        },
        None => false,
    }
}

/// The opening and closing tags of a markup container.
fn markup_tags(m: Markup) -> (r: (&'static str, &'static str))
    ensures
        r.0@ == markup_open(m),
        r.1@ == markup_close(m),
{
    match m {
        Markup::Italic => ("<i>", "</i>"),
        Markup::Bold => ("<b>", "</b>"),
        Markup::Strike => ("<s>", "</s>"),
        Markup::Underline => ("<u>", "</u>"),
        Markup::Verbatim => ("<code>", "</code>"),
        Markup::Code => ("<code>", "</code>"),
        Markup::QuoteBlock => ("<blockquote class=\"quote\">", "</blockquote>"),
        Markup::VerseBlock => ("<p class=\"verse\">", "</p>"),
        Markup::ExampleBlock => ("<pre class=\"example\">", "</pre>"),
        Markup::FixedWidth => ("<pre class=\"program-output\">", "</pre>"),
        Markup::CenterBlock => ("<div class=\"center\">", "</div>"),
        Markup::CommentBlock => ("<!--", "-->"),
        Markup::Comment => ("<!--", "-->"),
        Markup::Subscript => ("<sub>", "</sub>"),
        Markup::Superscript => ("<sup>", "</sup>"),
    }
}

/// Exports a whole walk over a document: the html, the outgoing id links
/// (sorted, without repetitions) and the LaTeX blocks.
pub fn export_events(settings: &HtmlExportSettings, file: String, evs: &[ExportEvent]) -> (r: (
    String,
    Vec<String>,
    Vec<String>,
))
    ensures
        ({
            let fin = replay(
                ExportView {
                    respect_noexport: settings.respect_noexport,
                    advices: advice_views(settings),
                    output: Seq::empty(),
                    table_row: TableRow::HeaderRule,
                    lists: Seq::empty(),
                    in_special_block: false,
                    outgoing: Seq::empty(),
                    file: file@,
                    latex_blocks: Seq::empty(),
                    has_formating: false,
                    next_is_first: false,
                    footnote_open: false,
                },
                evs@,
                0,
            );
            &&& r.0@ == fin.output
            &&& strictly_sorted(views(r.1@))
            &&& views(r.1@).to_set() == fin.outgoing.to_set()
            &&& views(r.2@) == fin.latex_blocks
        }),
{
    let mut handler = HtmlExport::new(settings, file);
    handler.run(evs);
    handler.finish()
}

impl<'a> HtmlExport<'a> {
    /// The exporter is consistent: one placeholder number per kept LaTeX block.
    pub closed spec fn wf(&self) -> bool {
        self.latex_counter == self.latex_blocks@.len()
    }

    /// A fresh exporter for the page of `file`.
    pub fn new(settings: &'a HtmlExportSettings, file: String) -> (r: HtmlExport<'a>)
        ensures
            r.wf(),
            r@ == (ExportView {
                respect_noexport: settings.respect_noexport,
                advices: advice_views(settings),
                output: Seq::empty(),
                table_row: TableRow::HeaderRule,
                lists: Seq::empty(),
                in_special_block: false,
                outgoing: Seq::empty(),
                file: file@,
                latex_blocks: Seq::empty(),
                has_formating: false,
                next_is_first: false,
                footnote_open: false,
            }),
    {
        let r = HtmlExport {
            settings,
            output: String::new(),
            table_row: TableRow::HeaderRule,
            in_descriptive_list: Vec::new(),
            in_special_block: false,
            outgoing_id_links: Vec::new(),
            file,
            latex_blocks: Vec::new(),
            latex_counter: 0,
            has_formating: false,
            next_is_first: false,
            footnote_open: false,
        };
        assert(views(r.outgoing_id_links@) =~= Seq::<Seq<char>>::empty());
        assert(views(r.latex_blocks@) =~= Seq::<Seq<char>>::empty());
        r
    }

    fn emit(&mut self, s: &str)
        ensures
            final(self)@ == old(self)@.out(s@),
            final(self).latex_counter == old(self).latex_counter,
            final(self).latex_blocks == old(self).latex_blocks,
    {
        self.output.append(s);
    }

    fn emit_escaped(&mut self, s: &str)
        ensures
            final(self)@ == old(self)@.out(html_escape(s@)),
            final(self).latex_counter == old(self).latex_counter,
            final(self).latex_blocks == old(self).latex_blocks,
    {
        push_escaped(&mut self.output, s);
    }

    fn emit_chars(&mut self, s: &[char])
        ensures
            final(self)@ == old(self)@.out(s@),
            final(self).latex_counter == old(self).latex_counter,
            final(self).latex_blocks == old(self).latex_blocks,
    {
        push_chars(&mut self.output, s);
    }

    fn emit_escaped_chars(&mut self, s: &[char])
        ensures
            final(self)@ == old(self)@.out(html_escape(s@)),
            final(self).latex_counter == old(self).latex_counter,
            final(self).latex_blocks == old(self).latex_blocks,
    {
        let t = string_of(s);
        self.emit_escaped(t.as_str());
    }

    fn emit_number(&mut self, n: u64)
        ensures
            final(self)@ == old(self)@.out(decimal(n as nat)),
            final(self).latex_counter == old(self).latex_counter,
            final(self).latex_blocks == old(self).latex_blocks,
    {
        push_decimal(&mut self.output, n);
    }

    /// Close an open footnote if there is one.
    fn close_footnote_if_needed(&mut self)
        ensures
            final(self)@ == old(self)@.close_footnote(),
            final(self).latex_counter == old(self).latex_counter,
            final(self).latex_blocks == old(self).latex_blocks,
    {
        if self.footnote_open {
            self.emit("</div></div>");
            self.footnote_open = false;
        }
    }

    fn headline_enter_ev(&mut self, level: usize, tags: &Vec<String>) -> (skip: bool)
        ensures
            (final(self)@, skip) == headline_enter(old(self)@, level, tags@),
            final(self).latex_counter == old(self).latex_counter,
            final(self).latex_blocks == old(self).latex_blocks,
    {
        if self.settings.respect_noexport && any_noexport(tags) {
            return true;
        }
        self.emit("<h");
        let lvl: u64 = if level < 6 { level as u64 } else { 6 };
        self.emit_number(lvl);
        self.emit(">");
        false
    }

    /// Extract the label of a footnote definition like `[fn:1] text`: the text
    /// between `[fn:` and the next `]`, or `unknown`.
    fn extract_footnote_label(raw: &str) -> (r: String)
        ensures
            r@ == fndef_label(raw@),
    {
        let rc = to_chars(raw);
        let open = to_chars("[fn:");
        match find(rc.as_slice(), open.as_slice()) {
            Some(start) => {
                proof {
                    reveal_strlit("[fn:");
                    assert(crate::text::occurs_at(rc@, "[fn:"@, start as int));
                    assert(start + 4 <= rc@.len());
                }
                assert(start + 4 <= rc.len());
                let after = copy_range(rc.as_slice(), start + 4, rc.len());
                assert(rc@.subrange(start + 4, rc@.len() as int) == rc@.skip(start + 4));
                let close = to_chars("]");
                match find(after.as_slice(), close.as_slice()) {
                    Some(end) => {
                        let r = string_range(after.as_slice(), 0, end);
                        assert(after@.subrange(0, end as int) == after@.take(end as int));
                        r
                    },
                    None => String::from_str("unknown"),
                }
            },
            None => String::from_str("unknown"),
        }
    }

    /// Parse a short org text and return its inner html (see `inline_html`).
    fn parse_org_content_to_html(content: &str) -> (r: String)
        ensures
            r@ == inline_html(content@),
    {
        let rendered = render_with_orgize(content);
        let rc = to_chars(rendered.as_str());
        let h = trim_chars(rc.as_slice());
        let h = strip_prefix_keep(h.as_slice(), to_chars("<main>").as_slice());
        let h = strip_suffix_keep(h.as_slice(), to_chars("</main>").as_slice());
        let h = strip_prefix_keep(h.as_slice(), to_chars("<section>").as_slice());
        let h = strip_suffix_keep(h.as_slice(), to_chars("</section>").as_slice());
        let h = strip_prefix_keep(h.as_slice(), to_chars("<p>").as_slice());
        let h = strip_suffix_keep(h.as_slice(), to_chars("</p>").as_slice());
        let h = trim_chars(h.as_slice());
        string_of(h.as_slice())
    }

    fn fndef_enter_ev(&mut self, raw: &str)
        ensures
            final(self)@ == fndef_enter(old(self)@, raw@),
            final(self).latex_counter == old(self).latex_counter,
            final(self).latex_blocks == old(self).latex_blocks,
    {
        self.close_footnote_if_needed();
        let label = Self::extract_footnote_label(raw);
        let rc = to_chars(raw);
        let content = fndef_content_exec(rc.as_slice());
        let content_s = string_of(content.as_slice());
        let inner = Self::parse_org_content_to_html(content_s.as_str());
        let mut s = String::new();
        s.append("<div class=\"footdef\"><sup><a id=\"fn.");
        push_escaped(&mut s, label.as_str());
        s.append("\" class=\"footnum\" href=\"#fnr.");
        push_escaped(&mut s, label.as_str());
        s.append("\">");
        push_escaped(&mut s, label.as_str());
        s.append("</a></sup> <div class=\"footpara\">");
        s.append(inner.as_str());
        self.emit(s.as_str());
        self.footnote_open = true;
    }

    fn link_enter_ev(&mut self, path: &str, image: bool, has_description: bool) -> (skip: bool)
        ensures
            (final(self)@, skip) == link_enter(old(self)@, path@, image, has_description),
            final(self).latex_counter == old(self).latex_counter,
            final(self).latex_blocks == old(self).latex_blocks,
    {
        let pc = to_chars(path);
        let idp = to_chars("id:");
        if starts_with(pc.as_slice(), idp.as_slice()) {
            let id = trim_start_matches(pc.as_slice(), idp.as_slice());
            let ids = string_of(id.as_slice());
            let mut s = String::new();
            s.append("<a id=\"");
            push_escaped(&mut s, ids.as_str());
            s.append("\" class=\"org-preview-id-link\">");
            self.emit(s.as_str());
            let ghost before = self.outgoing_id_links@;
            self.outgoing_id_links.push(ids);
            assert(views(self.outgoing_id_links@) =~= views(before).push(id@));
        } else {
            let fp = to_chars("file:");
            let f = trim_start_matches(pc.as_slice(), fp.as_slice());
            let fs = string_of(f.as_slice());
            let mut s = String::new();
            s.append("<a href=\"");
            push_escaped(&mut s, fs.as_str());
            s.append("\">");
            self.emit(s.as_str());
        }
        if image {
            let fc = to_chars(self.file.as_str());
            let dir = parent_dir_exec(fc.as_slice());
            let src = join_path_exec(dir.as_slice(), pc.as_slice());
            let srcs = string_of(src.as_slice());
            let mut s = String::new();
            s.append("<img style=\"width: 80%; margin: auto; display: block;\" src=\"assets?file=");
            push_escaped(&mut s, srcs.as_str());
            s.append("\">");
            self.emit(s.as_str());
        }
        if !has_description {
            self.emit("</a>");
            return true;
        }
        false
    }

    fn latex_ev(&mut self, raw: &str, env: bool)
        requires
            old(self).wf(),
        ensures
            final(self).wf(),
            final(self)@ == latex_enter(old(self)@, raw@, env),
    {
        let n = self.latex_counter as u64;
        let mut s = String::new();
        if env {
            s.append("<div class=\"org-latex-block-placeholder\" data-latex-index=\"");
            crate::text::push_decimal(&mut s, n);
            s.append("\">[LaTeX Environment ");
            crate::text::push_decimal(&mut s, n);
            s.append("]</div>");
        } else {
            s.append("<span class=\"org-latex-placeholder\" data-latex-index=\"");
            crate::text::push_decimal(&mut s, n);
            s.append("\">[LaTeX Block ");
            crate::text::push_decimal(&mut s, n);
            s.append("]</span>");
        }
        self.emit(s.as_str());
        let ghost before = self.latex_blocks@;
        self.latex_blocks.push(String::from_str(raw));
        self.latex_counter = self.latex_blocks.len();
        assert(views(self.latex_blocks@) =~= views(before).push(raw@));
    }

    fn table_row_enter_ev(&mut self, first_cell: &Option<String>, rule: bool) -> (skip: bool)
        ensures
            (final(self)@, skip) == table_row_enter(old(self)@, *first_cell, rule),
            final(self).latex_counter == old(self).latex_counter,
            final(self).latex_blocks == old(self).latex_blocks,
    {
        if formatting_row(first_cell) {
            self.has_formating = true;
            return true;
        }
        if rule {
            self.close_table_part();
            self.next_is_first = true;
            return true;
        }
        match self.table_row {
            TableRow::HeaderRule => {
                self.emit("<thead>");
                self.table_row = TableRow::Header;
            },
            TableRow::BodyRule => {
                self.emit("<tbody>");
                self.table_row = TableRow::Body;
            },
            _ => {},
        }
        self.emit("<tr>");
        self.next_is_first = true;
        false
    }

    fn close_table_part(&mut self)
        ensures
            final(self)@ == close_table_part(old(self)@),
            final(self).latex_counter == old(self).latex_counter,
            final(self).latex_blocks == old(self).latex_blocks,
    {
        match self.table_row {
            TableRow::Body => {
                self.emit("</tbody>");
                self.table_row = TableRow::BodyRule;
            },
            TableRow::Header => {
                self.emit("</thead>");
                self.table_row = TableRow::BodyRule;
            },
            _ => {},
        }
    }

    fn in_description(&self) -> (r: bool)
        ensures
            r == self@.in_description(),
    {
        let n = self.in_descriptive_list.len();
        n > 0 && self.in_descriptive_list[n - 1]
    }

    /// Handles one event; returns whether the contents of the container it
    /// opens are to be left out.
    pub fn event(&mut self, ev: &ExportEvent) -> (skip: bool)
        requires
            old(self).wf(),
        ensures
            final(self).wf(),
            (final(self)@, skip) == step(old(self)@, *ev),
    {
        match ev {
            ExportEvent::DocumentEnter { .. } | ExportEvent::DocumentLeave | ExportEvent::HeadlineEnter { .. } | ExportEvent::HeadlineLeave | ExportEvent::TitleEnter | ExportEvent::TitleLeave { .. } | ExportEvent::SectionEnter | ExportEvent::SectionLeave | ExportEvent::ParagraphEnter | ExportEvent::ParagraphLeave | ExportEvent::SpecialBlockEnter { .. } | ExportEvent::SpecialBlockLeave | ExportEvent::MarkupEnter(_) | ExportEvent::MarkupLeave(_) | ExportEvent::SourceBlockEnter { .. } | ExportEvent::SourceBlockLeave | ExportEvent::KeywordEnter | ExportEvent::KeywordLeave | ExportEvent::OtherEnter | ExportEvent::OtherLeave | ExportEvent::Other => self.event_group1(ev),
            ExportEvent::ListEnter { .. } | ExportEvent::ListLeave { .. } | ExportEvent::ListItemEnter | ExportEvent::ListItemLeave | ExportEvent::ItemTagEnter | ExportEvent::ItemTagLeave | ExportEvent::TableEnter { .. } | ExportEvent::TableLeave | ExportEvent::TableRowEnter { .. } | ExportEvent::TableRowLeave { .. } | ExportEvent::TableCellEnter | ExportEvent::TableCellLeave => self.event_group2(ev),
            ExportEvent::LinkEnter { .. } | ExportEvent::LinkLeave | ExportEvent::FnRefEnter { .. } | ExportEvent::FnRefLeave | ExportEvent::FnDefEnter { .. } | ExportEvent::FnDefLeave => self.event_group3(ev),
            _ => self.event_group4(ev),
        }
    }

    #[verifier::rlimit(40)]
    fn event_group1(&mut self, ev: &ExportEvent) -> (skip: bool)
        requires
            old(self).wf(),
            event_group(*ev) == 1,
        ensures
            final(self).wf(),
            (final(self)@, skip) == step(old(self)@, *ev),
    {
        proof {
            reveal(step);
        }
        match ev {
            ExportEvent::DocumentEnter { title } => {
                self.emit("<div>");
                match title {
                    Some(t) => {
                        let mut s = String::new();
                        s.append("<h1 id=\"org-preview-title\">");
                        s.append(t.as_str());
                        s.append("</h1>");
                        self.emit(s.as_str());
                    },
                    None => {
                        assert(self@ == self@.out(Seq::empty()));
                    },
                }
                false
            },
            ExportEvent::DocumentLeave => {
                self.emit("</div>");
                false
            },
            ExportEvent::HeadlineEnter { level, tags } => self.headline_enter_ev(*level, tags),
            ExportEvent::HeadlineLeave => false,
            ExportEvent::TitleEnter => false,
            ExportEvent::TitleLeave { level } => {
                self.title_leave(*level);
                false
            },
            ExportEvent::SectionEnter => {
                self.emit("<section>");
                false
            },
            ExportEvent::SectionLeave => {
                self.close_footnote_if_needed();
                self.emit("</section>");
                false
            },
            ExportEvent::ParagraphEnter => {
                if !self.in_special_block && !self.footnote_open {
                    self.emit("<p>");
                }
                false
            },
            ExportEvent::ParagraphLeave => {
                if !self.in_special_block && !self.footnote_open {
                    self.emit("</p>");
                }
                false
            },
            ExportEvent::SpecialBlockEnter { block_type } => {
                self.special_block_enter_ev(block_type);
                false
            },
            ExportEvent::SpecialBlockLeave => {
                self.in_special_block = false;
                self.emit("</p></div>");
                false
            },
            ExportEvent::MarkupEnter(m) => {
                let (open, _) = markup_tags(*m);
                self.emit(open);
                false
            },
            ExportEvent::MarkupLeave(m) => {
                let (_, close) = markup_tags(*m);
                self.emit(close);
                false
            },
            ExportEvent::SourceBlockEnter { language } => {
                match language {
                    Some(l) => {
                        let mut s = String::new();
                        s.append("<pre><code class=\"language-");
                        push_escaped(&mut s, l.as_str());
                        s.append("\">");
                        self.emit(s.as_str());
                    },
                    None => self.emit("<pre><code>"),
                }
                false
            },
            ExportEvent::SourceBlockLeave => {
                self.emit("</code></pre>");
                false
            },
            ExportEvent::KeywordEnter => true,
            ExportEvent::KeywordLeave => false,
            ExportEvent::OtherEnter => false,
            ExportEvent::OtherLeave => false,
            ExportEvent::Other => false,
            _ => false,
        }
    }

    #[verifier::rlimit(40)]
    fn event_group2(&mut self, ev: &ExportEvent) -> (skip: bool)
        requires
            old(self).wf(),
            event_group(*ev) == 2,
        ensures
            final(self).wf(),
            (final(self)@, skip) == step(old(self)@, *ev),
    {
        proof {
            reveal(step);
        }
        match ev {
            ExportEvent::ListEnter { ordered, descriptive } => {
                if *ordered {
                    self.emit("<ol>");
                } else if *descriptive {
                    self.emit("<dl>");
                } else {
                    self.emit("<ul>");
                }
                self.in_descriptive_list.push(!*ordered && *descriptive);
                false
            },
            ExportEvent::ListLeave { ordered } => {
                if *ordered {
                    self.emit("</ol>");
                } else if self.in_description() {
                    self.emit("</dl>");
                } else {
                    self.emit("</ul>");
                }
                let ghost before = self.in_descriptive_list@;
                let _ = self.in_descriptive_list.pop();
                false
            },
            ExportEvent::ListItemEnter => {
                if self.in_description() {
                    self.emit("<dt>");
                } else {
                    self.emit("<li>");
                }
                false
            },
            ExportEvent::ListItemLeave => {
                if self.in_description() {
                    self.emit("</dd>");
                } else {
                    self.emit("</li>");
                }
                false
            },
            ExportEvent::ItemTagEnter => !self.in_description(),
            ExportEvent::ItemTagLeave => {
                self.emit("</dt><dd>");
                false
            },
            ExportEvent::TableEnter { has_header } => {
                self.emit("<table>");
                self.table_row = if *has_header {
                    TableRow::HeaderRule
                } else {
                    TableRow::BodyRule
                };
                false
            },
            ExportEvent::TableLeave => {
                match self.table_row {
                    TableRow::Body => self.emit("</tbody></table>"),
                    TableRow::Header => self.emit("</thead></table>"),
                    _ => self.emit("</table>"),
                }
                proof {
                    reveal_strlit("</tbody></table>");
                    reveal_strlit("</thead></table>");
                    reveal_strlit("</tbody>");
                    reveal_strlit("</thead>");
                    reveal_strlit("</table>");
                    assert("</tbody>"@ + "</table>"@ =~= "</tbody></table>"@);
                    assert("</thead>"@ + "</table>"@ =~= "</thead></table>"@);
                    assert(Seq::<char>::empty() + "</table>"@ =~= "</table>"@);
                }
                false
            },
            ExportEvent::TableRowEnter { first_cell, rule } => self.table_row_enter_ev(
                first_cell,
                *rule,
            ),
            ExportEvent::TableRowLeave { rule } => {
                if *rule {
                    self.close_table_part();
                    true
                } else {
                    self.emit("</tr>");
                    false
                }
            },
            ExportEvent::TableCellEnter => {
                if self.next_is_first && self.has_formating {
                    self.next_is_first = false;
                    true
                } else {
                    self.emit("<td>");
                    false
                }
            },
            ExportEvent::TableCellLeave => {
                self.emit("</td>");
                false
            },
            _ => false,
        }
    }

    #[verifier::rlimit(40)]
    fn event_group3(&mut self, ev: &ExportEvent) -> (skip: bool)
        requires
            old(self).wf(),
            event_group(*ev) == 3,
        ensures
            final(self).wf(),
            (final(self)@, skip) == step(old(self)@, *ev),
    {
        proof {
            reveal(step);
        }
        match ev {
            ExportEvent::LinkEnter { path, image, has_description } => self.link_enter_ev(
                path.as_str(),
                *image,
                *has_description,
            ),
            ExportEvent::LinkLeave => {
                self.emit("</a>");
                false
            },
            ExportEvent::FnRefEnter { raw } => {
                let s = fnref_html_exec(raw.as_str());
                self.emit(s.as_str());
                true
            },
            ExportEvent::FnRefLeave => false,
            ExportEvent::FnDefEnter { raw } => {
                self.fndef_enter_ev(raw.as_str());
                true
            },
            ExportEvent::FnDefLeave => false,
            _ => false,
        }
    }

    #[verifier::rlimit(40)]
    fn event_group4(&mut self, ev: &ExportEvent) -> (skip: bool)
        requires
            old(self).wf(),
            event_group(*ev) == 4,
        ensures
            final(self).wf(),
            (final(self)@, skip) == step(old(self)@, *ev),
    {
        proof {
            reveal(step);
        }
        match ev {
            ExportEvent::Text(t) => {
                self.emit_escaped(t.as_str());
                false
            },
            ExportEvent::LineBreak => {
                self.emit("<br/>");
                false
            },
            ExportEvent::Snippet { backend, value } => {
                let b = to_chars(backend.as_str());
                let h = to_chars("html");
                if eq_ignore_ascii_case(b.as_slice(), h.as_slice()) {
                    self.emit(value.as_str());
                }
                false
            },
            ExportEvent::Rule => {
                self.emit("<hr/>");
                false
            },
            ExportEvent::Timestamp { parts } => {
                let mut s = String::new();
                s.append("<span class=\"timestamp-wrapper\"><span class=\"timestamp\">");
                let inner = timestamp_html(parts);
                s.append(inner.as_str());
                s.append("</span></span>");
                self.emit(s.as_str());
                false
            },
            ExportEvent::LatexFragment(raw) => {
                self.latex_ev(raw.as_str(), false);
                false
            },
            ExportEvent::LatexEnvironment(raw) => {
                self.latex_ev(raw.as_str(), true);
                false
            },
            ExportEvent::Entity { html } => {
                self.emit(html.as_str());
                false
            },
            ExportEvent::InlineSrc { language, value } => {
                let mut s = String::new();
                s.append("<code class=\"language-");
                s.append(language.as_str());
                s.append("\">");
                s.append(value.as_str());
                s.append("</code>");
                self.emit(s.as_str());
                false
            },
            _ => false,
        }
    }

    /// Handles a whole walk: each event in turn, leaving out the contents of
    /// every container whose opening event is answered with `true`.
    pub fn run(&mut self, evs: &[ExportEvent])
        requires
            old(self).wf(),
        ensures
            final(self).wf(),
            final(self)@ == replay(old(self)@, evs@, 0),
    {
        let ghost st0 = self@;
        let mut i: usize = 0;
        while i < evs.len()
            invariant
                self.wf(),
                0 <= i <= evs@.len(),
                replay(st0, evs@, 0) == replay(self@, evs@, i as int),
            decreases evs@.len() - i,
        {
            let ghost before = self@;
            let skip = self.event(&evs[i]);
            let j = if skip && event_is_enter(&evs[i]) {
                find_close(evs, i + 1)
            } else {
                i + 1
            };
            proof {
                lemma_close_index_bounds(evs@, i + 1, 1);
            }
            i = j;
        }
    }

    /// The html, the outgoing id links (sorted, without repetitions) and the
    /// LaTeX blocks in order of appearance.
    pub fn finish(self) -> (r: (String, Vec<String>, Vec<String>))
        ensures
            r.0@ == self@.output,
            strictly_sorted(views(r.1@)),
            views(r.1@).to_set() == self@.outgoing.to_set(),
            views(r.2@) == self@.latex_blocks,
    {
        let outgoing = sort_dedup(self.outgoing_id_links);
        (self.output, outgoing, self.latex_blocks)
    }

    fn title_leave(&mut self, level: usize)
        ensures
            final(self)@ == old(self)@.out("</h"@ + decimal(html_level(level)) + ">"@),
            final(self).latex_counter == old(self).latex_counter,
            final(self).latex_blocks == old(self).latex_blocks,
    {
        self.emit("</h");
        let lvl: u64 = if level < 6 { level as u64 } else { 6 };
        self.emit_number(lvl);
        self.emit(">");
    }

    fn special_block_enter_ev(&mut self, block_type: &Option<String>)
        ensures
            final(self)@ == special_block_enter(old(self)@, *block_type),
            final(self).latex_counter == old(self).latex_counter,
            final(self).latex_blocks == old(self).latex_blocks,
    {
        let s = special_block_html(self.settings, block_type);
        self.emit(s.as_str());
        self.in_special_block = true;
    }
}

/// With `respect_noexport`, a headline tagged `noexport` leaves nothing in
/// the page: the walk goes on after the headline's subtree as if the
/// subtree were not there.
pub proof fn lemma_noexport_subtree_skipped(st: ExportView, evs: Seq<ExportEvent>, i: int)
    requires
        0 <= i < evs.len(),
        st.respect_noexport,
        evs[i] matches ExportEvent::HeadlineEnter { tags, .. } && has_noexport(tags@),
    ensures
        replay(st, evs, i) == replay(st, evs, close_index(evs, i + 1, 1)),
{
    reveal(step);
    lemma_close_index_bounds(evs, i + 1, 1);
}

/// Without `respect_noexport`, no headline is left out.
pub proof fn lemma_headline_kept_without_noexport(st: ExportView, level: usize, tags: Vec<String>)
    requires
        !st.respect_noexport,
    ensures
        !step(st, ExportEvent::HeadlineEnter { level, tags }).1,
{
    reveal(step);
}

/// Appending keeps what was there.
proof fn lemma_out_extends(s: ExportView, x: Seq<char>)
    ensures
        s.output.is_prefix_of(s.out(x).output),
{
    assert(s.out(x).output.subrange(0, s.output.len() as int) =~= s.output);
}

proof fn lemma_prefix_trans(a: Seq<char>, b: Seq<char>, c: Seq<char>)
    requires
        a.is_prefix_of(b),
        b.is_prefix_of(c),
    ensures
        a.is_prefix_of(c),
{
    assert(c.subrange(0, a.len() as int) =~= b.subrange(0, a.len() as int));
}

proof fn lemma_close_footnote_extends(st: ExportView)
    ensures
        st.output.is_prefix_of(st.close_footnote().output),
{
    if st.footnote_open {
        lemma_out_extends(st, "</div></div>"@);
    } else {
        assert(st.output.subrange(0, st.output.len() as int) =~= st.output);
    }
}

/// The exporter only ever appends to the page: what one event leaves is the
/// page before it, extended.
#[verifier::rlimit(50)]
pub proof fn lemma_step_extends_output(st: ExportView, ev: ExportEvent)
    ensures
        st.output.is_prefix_of(step(st, ev).0.output),
{
    reveal(step);
    assert(st.output.subrange(0, st.output.len() as int) =~= st.output);
    assert forall|x: Seq<char>| st.output.is_prefix_of(#[trigger] st.out(x).output) by {
        lemma_out_extends(st, x);
    }
    match ev {
        ExportEvent::SectionLeave => {
            lemma_close_footnote_extends(st);
            let c = st.close_footnote();
            lemma_out_extends(c, "</section>"@);
            lemma_prefix_trans(st.output, c.output, c.out("</section>"@).output);
        },
        ExportEvent::TableRowEnter { first_cell, rule } => {
            if !is_formatting_row(first_cell) {
                if rule {
                    match st.table_row {
                        TableRow::Body => {},
                        TableRow::Header => {},
                        _ => {},
                    }
                } else {
                    let opened = match st.table_row {
                        TableRow::HeaderRule => ExportView {
                            table_row: TableRow::Header,
                            ..st.out("<thead>"@)
                        },
                        TableRow::BodyRule => ExportView {
                            table_row: TableRow::Body,
                            ..st.out("<tbody>"@)
                        },
                        _ => st,
                    };
                    assert(st.output.is_prefix_of(opened.output));
                    lemma_out_extends(opened, "<tr>"@);
                    lemma_prefix_trans(st.output, opened.output, opened.out("<tr>"@).output);
                }
            }
        },
        ExportEvent::TableRowLeave { rule } => {
            match st.table_row {
                TableRow::Body => {},
                TableRow::Header => {},
                _ => {},
            }
        },
        ExportEvent::FnDefEnter { raw } => {
            lemma_close_footnote_extends(st);
            let c = st.close_footnote();
            let label = html_escape(fndef_label(raw@));
            let x = "<div class=\"footdef\"><sup><a id=\"fn."@ + label + "\" class=\"footnum\" href=\"#fnr."@
                + label + "\">"@ + label + "</a></sup> <div class=\"footpara\">"@ + inline_html(
                fndef_content(raw@),
            );
            lemma_out_extends(c, x);
            lemma_prefix_trans(st.output, c.output, c.out(x).output);
        },
        _ => {},
    }
}

/// A whole walk only appends to the page it starts from.
pub proof fn lemma_replay_extends_output(st: ExportView, evs: Seq<ExportEvent>, i: int)
    ensures
        st.output.is_prefix_of(replay(st, evs, i).output),
    decreases evs.len() - i,
{
    if i < 0 || i >= evs.len() {
        assert(st.output.subrange(0, st.output.len() as int) =~= st.output);
    } else {
        let (next, skip) = step(st, evs[i]);
        lemma_step_extends_output(st, evs[i]);
        let j = if skip && is_enter(evs[i]) {
            close_index(evs, i + 1, 1)
        } else {
            i + 1
        };
        if j <= i || j > evs.len() {
        } else {
            lemma_replay_extends_output(next, evs, j);
            lemma_prefix_trans(st.output, next.output, replay(next, evs, j).output);
        }
    }
}

/// An ordered list is written as `<ol>`…`</ol>`: entering it appends
/// exactly `<ol>` to the page and leaving it exactly `</ol>`, whatever else
/// the exporter holds.
pub proof fn lemma_ordered_list_tags(st: ExportView, descriptive: bool)
    ensures
        step(st, ExportEvent::ListEnter { ordered: true, descriptive }).0.output == st.output
            + "<ol>"@,
        step(st, ExportEvent::ListLeave { ordered: true }).0.output == st.output + "</ol>"@,
        !step(st, ExportEvent::ListEnter { ordered: true, descriptive }).1,
        !step(st, ExportEvent::ListLeave { ordered: true }).1,
{
    reveal(step);
}

/// A horizontal rule appends exactly `<hr/>` and changes nothing else.
pub proof fn lemma_rule_is_hr(st: ExportView)
    ensures
        step(st, ExportEvent::Rule) == (ExportView { output: st.output + "<hr/>"@, ..st }, false),
{
    reveal(step);
}

/// A LaTeX fragment or environment is stored as the next LaTeX block, and
/// its placeholder names that block's position: the number of blocks
/// stored before it.
pub proof fn lemma_latex_placeholder_index(st: ExportView, raw: String)
    ensures
        ({
            let n = st.latex_blocks.len();
            let f = step(st, ExportEvent::LatexFragment(raw)).0;
            let e = step(st, ExportEvent::LatexEnvironment(raw)).0;
            &&& f.latex_blocks == st.latex_blocks.push(raw@)
            &&& f.latex_blocks[n as int] == raw@
            &&& f.output == st.output + "<span class=\"org-latex-placeholder\" data-latex-index=\""@
                + decimal(n) + "\">[LaTeX Block "@ + decimal(n) + "]</span>"@
            &&& e.latex_blocks == st.latex_blocks.push(raw@)
            &&& e.latex_blocks[n as int] == raw@
            &&& e.output == st.output
                + "<div class=\"org-latex-block-placeholder\" data-latex-index=\""@ + decimal(n)
                + "\">[LaTeX Environment "@ + decimal(n) + "]</div>"@
        }),
{
    reveal(step);
}

} // verus!
