use org_roamers::config::LatexConfig;
use std::hash::{DefaultHasher, Hash, Hasher};

use org_roamers::latex::{
    dvisvgm_args, get_image_with_ctx, hash, image_paths, latex_args, latex_block, preamble,
    tex_source, LatexBuilder, LatexPathBuilder,
};

#[test]
fn test_latex_builder() {
    let mut builder = LatexBuilder::new();
    builder.headers(&["\\usepackage{tikz}", "\\usepackage{algorithmic}"]);
    builder.body(&["$f(x)=x^2$"]);
    let exp = [
        "\\documentclass{article}\n",
        "\\usepackage[T1]{fontenc}\n",
        "\\usepackage[active,tightpage]{preview}\n",
        "\\usepackage{amsmath}\n",
        "\\usepackage{amssymb}\n",
        "\\usepackage{tikz}\n",
        "\\usepackage{algorithmic}",
        "\\usepackage{xcolor}\n",
        "\\definecolor{mycolor}{HTML}{green}\n",
        "\\begin{document}\n",
        "\\begin{preview}\n",
        "\\color{mycolor}\n",
        "$f(x)=x^2$\n",
        "\\end{preview}\n",
        "\\end{document}\n",
    ]
    .concat();
    assert_eq!(builder.build("green").as_str(), exp);
}

#[test]
fn test_latex_path_builder() {
    let mut builder = LatexPathBuilder::new("/tmp");
    assert_eq!(
        builder.build("test"),
        (
            String::from("/tmp/org-roamers/14402189752926126668.tex"),
            String::from("/tmp/org-roamers/14402189752926126668.dvi"),
            String::from("/tmp/org-roamers/14402189752926126668.svg")
        )
    );
}

#[test]
fn path_builder_under_a_directory_with_slash() {
    let mut builder = LatexPathBuilder::new("/var/tmp/");
    let (tex, _, svg) = builder.build("test");
    assert_eq!(tex, "/var/tmp/org-roamers/14402189752926126668.tex");
    assert_eq!(svg, "/var/tmp/org-roamers/14402189752926126668.svg");
}

#[test]
fn hash_is_the_default_hasher() {
    let mut h = DefaultHasher::default();
    "some latex".hash(&mut h);
    assert_eq!(hash("some latex"), h.finish());
    assert_eq!(hash("test"), 14402189752926126668);
}

#[test]
fn preamble_puts_headers_in_place() {
    let p = preamble(&vec!["\\usepackage{a}".to_string(), "\\usepackage{b}".to_string()]);
    assert!(p.contains("\\usepackage{amsfonts}\n\\usepackage{a}\n\\usepackage{b}\n\n\\usepackage{xcolor}\n"));
    assert!(!p.contains("[PACKAGES]"));
    let empty = preamble(&vec![]);
    assert!(empty.contains("\\usepackage{amsfonts}\n\n\\usepackage{xcolor}\n"));
}

#[test]
fn tex_source_wraps_the_fragment() {
    let s = tex_source("x^2", "FF0000", &vec![]);
    assert!(s.starts_with("\\documentclass[12pt,border=2pt]{standalone}\n"));
    assert!(s.ends_with(
        "\\definecolor{mycolor}{HTML}{FF0000}\n\n\\begin{document}\n\\color{mycolor}\nx^2\n\\end{document}\n"
    ));
}

#[test]
fn tex_source_with_the_notes_headers() {
    let content = "#+latex_header: \\usepackage{tikz}\n* A\n#+latex_header: \\usepackage{late}\n";
    let s = get_image_with_ctx("y", "000000", content);
    assert!(s.contains("\\usepackage{tikz}\n"));
    assert!(!s.contains("\\usepackage{late}"));
}

#[test]
fn command_arguments() {
    let conf = LatexConfig::default();
    assert_eq!(
        latex_args(&conf.latex_opt, "/tmp/a.tex"),
        vec!["-interaction", "nonstopmode", "/tmp/a.tex"]
    );
    let a = dvisvgm_args(&conf.dvisvgm_opt, "/tmp/a.dvi", "/tmp/a.svg");
    assert_eq!(a.len(), 10);
    assert_eq!(a[0], "--optimize");
    assert_eq!(a[6], "--verbosity=0");
    assert_eq!(a[7], "/tmp/a.dvi");
    assert_eq!(a[8], "-o");
    assert_eq!(a[9], "/tmp/a.svg");
    let custom = vec!["-halt-on-error".to_string()];
    assert_eq!(latex_args(&custom, "x.tex"), vec!["-halt-on-error", "x.tex"]);
}

#[test]
fn image_paths_follow_the_hash() {
    let (dir, h, tex, dvi, svg) = image_paths("/tmp", "test");
    assert_eq!(dir, "/tmp/org-roamers/");
    assert_eq!(h, 14402189752926126668);
    assert_eq!(tex, "/tmp/org-roamers/14402189752926126668.tex");
    assert_eq!(dvi, "/tmp/org-roamers/14402189752926126668.dvi");
    assert_eq!(svg, "/tmp/org-roamers/14402189752926126668.svg");
}

#[test]
fn latex_block_by_index() {
    let blocks = vec!["a".to_string(), "b".to_string()];
    assert_eq!(latex_block(&blocks, 1), Ok("b".to_string()));
    assert_eq!(
        latex_block(&blocks, 5),
        Err("LaTeX block index 5 not found (total: 2)".to_string())
    );
}
