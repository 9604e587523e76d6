//! Rendering LaTeX fragments of notes to SVG: the document that `latex`
//! compiles, where its files go, and the commands that turn it into an SVG.
//!
//! Writing the files and running `latex` and `dvisvgm` is left to the
//! caller; the functions here compute every name, text and argument list.
use std::hash::Hash;
use std::hash::Hasher;
use vstd::prelude::*;

use crate::html::{join_path, join_path_exec};
use crate::text::{
    decimal, push_chars, push_decimal, push_str, replace, replace_spec, string_of, to_chars,
    views,
};

verus! {

/// The start of the document of `LatexBuilder`.
pub const BUILDER_PREAMBLE: &'static str = "\\documentclass{article}\n\\usepackage[T1]{fontenc}\n\\usepackage[active,tightpage]{preview}\n\\usepackage{amsmath}\n\\usepackage{amssymb}\n";

/// The start of the document of a rendered fragment; `[PACKAGES]` stands
/// for the note's own headers.
pub const PREAMBLE: &'static str = "\\documentclass[12pt,border=2pt]{standalone}\n\\usepackage[T1]{fontenc}\n\\usepackage[utf8]{inputenc}\n\\usepackage{amsmath}\n\\usepackage{amssymb}\n\\usepackage{amsfonts}\n[PACKAGES]\n\\usepackage{xcolor}\n\\usepackage{float}\n\\usepackage{varwidth}\n\\makeatletter\n\\renewenvironment{algorithm}[1][htbp]{%\n  \\def\\@captype{algorithm}%\n  \\begin{varwidth}{\\linewidth}%\n  \\centering%\n}{%\n  \\end{varwidth}%\n}\n\\renewcommand{\\caption}[2][]{%\n  \\par\\medskip%\n  \\noindent\\textbf{#2}%\n  \\par\\medskip%\n}\n\\makeatother\n";

/// The parts joined with `sep` between them.
pub open spec fn join(parts: Seq<Seq<char>>, sep: Seq<char>) -> Seq<char>
    decreases parts.len(),
{
    if parts.len() == 0 {
        Seq::empty()
    } else if parts.len() == 1 {
        parts[0]
    } else {
        join(parts.drop_last(), sep) + sep + parts.last()
    }
}

/// Joins strings with a separator.
pub fn join_strings(parts: &Vec<String>, sep: &str) -> (r: String)
    ensures
        r@ == join(views(parts@), sep@),
{
    let mut r = String::new();
    let mut i: usize = 0;
    while i < parts.len()
        invariant
            0 <= i <= parts@.len(),
            r@ == join(views(parts@).take(i as int), sep@),
        decreases parts@.len() - i,
    {
        let ghost t = views(parts@).take(i + 1);
        assert(t.drop_last() =~= views(parts@).take(i as int));
        if i > 0 {
            push_str(&mut r, sep);
        } else {
            assert(t.len() == 1);
        }
        let c = to_chars(parts[i].as_str());
        push_chars(&mut r, c.as_slice());
        i = i + 1;
    }
    assert(views(parts@).take(i as int) =~= views(parts@));
    r
}

/// Copies string slices into strings.
fn own_all(v: &[&str]) -> (r: Vec<String>)
    ensures
        views(r@) == v@.map_values(|s: &str| s@),
{
    let mut r: Vec<String> = Vec::new();
    let mut i: usize = 0;
    while i < v.len()
        invariant
            0 <= i <= v@.len(),
            views(r@) == v@.map_values(|s: &str| s@).take(i as int),
        decreases v@.len() - i,
    {
        let s = string_of(to_chars(v[i]).as_slice());
        let ghost before = r@;
        r.push(s);
        assert(views(r@) =~= views(before).push(s@));
        assert(v@.map_values(|s: &str| s@).take(i + 1) =~= v@.map_values(|s: &str| s@).take(
            i as int,
        ).push(v@[i as int]@));
        i = i + 1;
    }
    assert(v@.map_values(|s: &str| s@).take(i as int) =~= v@.map_values(|s: &str| s@));
    r
}

/// A standalone LaTeX document around some body lines.
pub struct LatexBuilder {
    pub headers: Vec<String>,
    pub body: Vec<String>,
}

/// The document of a builder, in the color given as an HTML color name or
/// code.
pub open spec fn built_document(headers: Seq<Seq<char>>, body: Seq<Seq<char>>, color: Seq<char>) -> Seq<char> {
    BUILDER_PREAMBLE@ + join(headers, "\n"@) + "\\usepackage{xcolor}\n"@ + "\\definecolor{mycolor}{HTML}{"@
        + color + "}\n"@ + "\\begin{document}\n"@ + "\\begin{preview}\n"@ + "\\color{mycolor}\n"@ + join(
        body,
        "\n"@,
    ) + "\n\\end{preview}\n"@ + "\\end{document}\n"@
}

impl LatexBuilder {
    pub fn new() -> (r: LatexBuilder)
        ensures
            r.headers@.len() == 0,
            r.body@.len() == 0,
    {
        LatexBuilder { headers: Vec::new(), body: Vec::new() }
    }

    /// Sets the header lines.
    pub fn headers(&mut self, headers: &[&str])
        ensures
            views(final(self).headers@) == headers@.map_values(|s: &str| s@),
            final(self).body@ == old(self).body@,
    {
        self.headers = own_all(headers);
    }

    /// Sets the body lines.
    pub fn body(&mut self, body: &[&str])
        ensures
            views(final(self).body@) == body@.map_values(|s: &str| s@),
            final(self).headers@ == old(self).headers@,
    {
        self.body = own_all(body);
    }

    /// The document (see `built_document`).
    pub fn build(self, color: &str) -> (r: String)
        ensures
            r@ == built_document(views(self.headers@), views(self.body@), color@),
    {
        let mut s = String::new();
        push_str(&mut s, BUILDER_PREAMBLE);
        let h = join_strings(&self.headers, "\n");
        push_str(&mut s, h.as_str());
        push_str(&mut s, "\\usepackage{xcolor}\n");
        push_str(&mut s, "\\definecolor{mycolor}{HTML}{");
        push_str(&mut s, color);
        push_str(&mut s, "}\n");
        push_str(&mut s, "\\begin{document}\n");
        push_str(&mut s, "\\begin{preview}\n");
        push_str(&mut s, "\\color{mycolor}\n");
        let b = join_strings(&self.body, "\n");
        push_str(&mut s, b.as_str());
        push_str(&mut s, "\n\\end{preview}\n");
        push_str(&mut s, "\\end{document}\n");
        s
    }
}

/// The hash that std's `DefaultHasher` (as `DefaultHasher::default()` makes
/// it) gives a string.
pub uninterp spec fn default_hash_of(s: Seq<char>) -> u64;

/// Hashes `s` with a fresh `std::hash::DefaultHasher` (`str::hash`, then
/// `Hasher::finish`). The result is named `default_hash_of` of the text;
/// nothing more is claimed of it.
#[verifier::external_body]
pub fn hash(s: &str) -> (r: u64)
    ensures
        r == default_hash_of(s@),
{
    let mut hasher = std::hash::DefaultHasher::default();
    s.hash(&mut hasher);
    hasher.finish()
}

/// The directory the rendered fragments go to, under the temporary
/// directory.
pub open spec fn temp_path(temp_dir: Seq<char>) -> Seq<char> {
    join_path(temp_dir, "org-roamers/"@)
}

/// The temporary directory of the renderer (`org-roamers/` under the
/// system's temporary directory).
pub fn get_temp_path(temp_dir: &str) -> (r: String)
    ensures
        r@ == temp_path(temp_dir@),
{
    let tc = to_chars(temp_dir);
    let sub = to_chars("org-roamers/");
    string_of(join_path_exec(tc.as_slice(), sub.as_slice()).as_slice())
}

/// The file for a hash and a suffix in a directory: `<dir>/<hash>.<ext>`.
pub open spec fn hashed_file(dir: Seq<char>, hash: u64, ext: Seq<char>) -> Seq<char> {
    join_path(dir, decimal(hash as nat) + "."@ + ext)
}

/// Computes `hashed_file`.
pub fn hashed_file_exec(dir: &str, hash: u64, ext: &str) -> (r: String)
    ensures
        r@ == hashed_file(dir@, hash, ext@),
{
    let mut name = String::new();
    push_decimal(&mut name, hash);
    push_str(&mut name, ".");
    push_str(&mut name, ext);
    let dc = to_chars(dir);
    let nc = to_chars(name.as_str());
    string_of(join_path_exec(dc.as_slice(), nc.as_slice()).as_slice())
}

/// The paths of the `.tex`, `.dvi` and `.svg` files of a fragment.
pub struct LatexPathBuilder {
    pub path: String,
}

impl LatexPathBuilder {
    /// A builder for files under `org-roamers/` in the temporary directory.
    pub fn new(temp_dir: &str) -> (r: LatexPathBuilder)
        ensures
            r.path@ == temp_path(temp_dir@),
    {
        LatexPathBuilder { path: get_temp_path(temp_dir) }
    }

    /// The three files of the fragment named `filename`, named after its
    /// hash.
    pub fn build(&mut self, filename: &str) -> (r: (String, String, String))
        ensures
            final(self).path@ == old(self).path@,
            r.0@ == hashed_file(old(self).path@, default_hash_of(filename@), "tex"@),
            r.1@ == hashed_file(old(self).path@, default_hash_of(filename@), "dvi"@),
            r.2@ == hashed_file(old(self).path@, default_hash_of(filename@), "svg"@),
    {
        let h = hash(filename);
        let tex = hashed_file_exec(self.path.as_str(), h, "tex");
        let dvi = hashed_file_exec(self.path.as_str(), h, "dvi");
        let svg = hashed_file_exec(self.path.as_str(), h, "svg");
        (tex, dvi, svg)
    }
}

/// Every header followed by a new line.
pub open spec fn header_lines(headers: Seq<Seq<char>>) -> Seq<char>
    decreases headers.len(),
{
    if headers.len() == 0 {
        Seq::empty()
    } else {
        header_lines(headers.drop_last()) + headers.last() + "\n"@
    }
}

/// The preamble with the headers in place of `[PACKAGES]`.
pub open spec fn preamble_spec(headers: Seq<Seq<char>>) -> Seq<char> {
    replace_spec(PREAMBLE@, "[PACKAGES]"@, header_lines(headers))
}

/// The preamble of a rendered fragment (see `preamble_spec`).
pub fn preamble(headers: &Vec<String>) -> (r: String)
    ensures
        r@ == preamble_spec(views(headers@)),
{
    let mut lines = String::new();
    let mut i: usize = 0;
    while i < headers.len()
        invariant
            0 <= i <= headers@.len(),
            lines@ == header_lines(views(headers@).take(i as int)),
        decreases headers@.len() - i,
    {
        let ghost t = views(headers@).take(i + 1);
        assert(t.drop_last() =~= views(headers@).take(i as int));
        push_str(&mut lines, headers[i].as_str());
        push_str(&mut lines, "\n");
        i = i + 1;
    }
    assert(views(headers@).take(i as int) =~= views(headers@));
    proof {
        reveal_strlit("[PACKAGES]");
    }
    let p = to_chars(PREAMBLE);
    let k = to_chars("[PACKAGES]");
    let l = to_chars(lines.as_str());
    string_of(replace(p.as_slice(), k.as_slice(), l.as_slice()).as_slice())
}

/// The document `latex` compiles for a fragment in a color.
pub open spec fn tex_source_spec(latex: Seq<char>, color: Seq<char>, headers: Seq<Seq<char>>) -> Seq<char> {
    preamble_spec(headers) + "\\definecolor{mycolor}{HTML}{"@ + color + "}\n"@ + "\n\\begin{document}\n"@
        + "\\color{mycolor}\n"@ + latex + "\n\\end{document}\n"@
}

/// The document `latex` compiles for a fragment (see `tex_source_spec`).
pub fn tex_source(latex: &str, color: &str, headers: &Vec<String>) -> (r: String)
    ensures
        r@ == tex_source_spec(latex@, color@, views(headers@)),
{
    let mut s = preamble(headers);
    push_str(&mut s, "\\definecolor{mycolor}{HTML}{");
    push_str(&mut s, color);
    push_str(&mut s, "}\n");
    push_str(&mut s, "\n\\begin{document}\n");
    push_str(&mut s, "\\color{mycolor}\n");
    push_str(&mut s, latex);
    push_str(&mut s, "\n\\end{document}\n");
    s
}

/// Makes a string of a literal.
fn owned(s: &str) -> (r: String)
    ensures
        r@ == s@,
{
    string_of(to_chars(s).as_slice())
}

/// A copy of the strings.
fn own_strings(v: &Vec<String>) -> (r: Vec<String>)
    ensures
        views(r@) == views(v@),
{
    let mut r: Vec<String> = Vec::new();
    let mut i: usize = 0;
    while i < v.len()
        invariant
            0 <= i <= v@.len(),
            views(r@) == views(v@).take(i as int),
        decreases v@.len() - i,
    {
        let ghost before = r@;
        r.push(owned(v[i].as_str()));
        assert(views(r@) =~= views(before).push(v@[i as int]@));
        assert(views(v@).take(i + 1) =~= views(v@).take(i as int).push(v@[i as int]@));
        i = i + 1;
    }
    assert(views(v@).take(i as int) =~= views(v@));
    r
}

/// The arguments of `latex`: the configured options, then the `.tex` file.
pub fn latex_args(latex_opt: &Vec<String>, tex_path: &str) -> (r: Vec<String>)
    ensures
        views(r@) == views(latex_opt@).push(tex_path@),
{
    let mut r = own_strings(latex_opt);
    let ghost before = r@;
    r.push(owned(tex_path));
    assert(views(r@) =~= views(before).push(tex_path@));
    r
}

/// The arguments of `dvisvgm`: the configured options, then the `.dvi` file
/// and `-o` with the `.svg` file to write.
pub fn dvisvgm_args(dvisvgm_opt: &Vec<String>, dvi_path: &str, svg_path: &str) -> (r: Vec<String>)
    ensures
        views(r@) == views(dvisvgm_opt@) + seq![dvi_path@, "-o"@, svg_path@],
{
    let mut r = own_strings(dvisvgm_opt);
    let ghost before = r@;
    r.push(owned(dvi_path));
    r.push(owned("-o"));
    r.push(owned(svg_path));
    assert(views(r@) =~= views(before) + seq![dvi_path@, "-o"@, svg_path@]);
    r
}

/// The LaTeX block of a page at an index, or the message that it has none
/// there.
pub open spec fn latex_block_spec(blocks: Seq<Seq<char>>, index: usize) -> Result<Seq<char>, Seq<char>> {
    if index < blocks.len() {
        Ok(blocks[index as int])
    } else {
        Err(
            "LaTeX block index "@ + decimal(index as nat) + " not found (total: "@ + decimal(
                blocks.len(),
            ) + ")"@,
        )
    }
}

/// Picks the LaTeX block that a request names (see `latex_block_spec`).
pub fn latex_block(blocks: &Vec<String>, index: usize) -> (r: Result<String, String>)
    ensures
        match r {
            Ok(b) => latex_block_spec(views(blocks@), index) == Ok::<Seq<char>, Seq<char>>(b@),
            Err(m) => latex_block_spec(views(blocks@), index) == Err::<Seq<char>, Seq<char>>(m@),
        },
{
    if index < blocks.len() {
        Ok(owned(blocks[index].as_str()))
    } else {
        let mut m = String::new();
        push_str(&mut m, "LaTeX block index ");
        push_decimal(&mut m, index as u64);
        push_str(&mut m, " not found (total: ");
        push_decimal(&mut m, blocks.len() as u64);
        push_str(&mut m, ")");
        Err(m)
    }
}

/// The document for a fragment of a note, with the note's own
/// `latex_header` keywords.
pub fn get_image_with_ctx(latex: &str, color: &str, content: &str) -> (r: String)
    ensures
        r@ == tex_source_spec(
            latex@,
            color@,
            crate::org::latex_headers(crate::org::document_keywords_of(content@)),
        ),
{
    let headers = crate::org::get_latex_header(content);
    tex_source(latex, color, &headers)
}

/// The files of a fragment: the directory, the fragment's hash, and its
/// `.tex`, `.dvi` and `.svg` files.
pub fn image_paths(temp_dir: &str, latex: &str) -> (r: (String, u64, String, String, String))
    ensures
        r.0@ == temp_path(temp_dir@),
        r.1 == default_hash_of(latex@),
        r.2@ == hashed_file(temp_path(temp_dir@), r.1, "tex"@),
        r.3@ == hashed_file(temp_path(temp_dir@), r.1, "dvi"@),
        r.4@ == hashed_file(temp_path(temp_dir@), r.1, "svg"@),
{
    let dir = get_temp_path(temp_dir);
    let h = hash(latex);
    let tex = hashed_file_exec(dir.as_str(), h, "tex");
    let dvi = hashed_file_exec(dir.as_str(), h, "dvi");
    let svg = hashed_file_exec(dir.as_str(), h, "svg");
    (dir, h, tex, dvi, svg)
}

} // verus!
