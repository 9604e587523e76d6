use org_roamers::config::{EnvAdvice, HtmlExportSettings};
use org_roamers::orgtree::export_text;

fn render_with(org: &str, settings: &HtmlExportSettings, file: &str) -> (String, Vec<String>, Vec<String>) {
    export_text(settings, file.to_string(), org)
}

fn render(org: &str, settings: &HtmlExportSettings) -> String {
    render_with(org, settings, "").0
}

#[test]
fn test_org_table_export_advice_header() {
    let org = [
        "| / | <>    |   |\n",
        "|---+-------+---|\n",
        "|   | hello | 1 |\n",
        "|---+-------+---|\n",
        "|   | world | 2 |\n",
    ]
    .concat();
    let exp = [
        "<div><section><table><thead>",
        "<tr><td>hello</td><td>1</td></tr></thead>",
        "<tbody><tr><td>world</td><td>2</td></tr></tbody>",
        "</table></section></div>",
    ]
    .concat();
    let settings = HtmlExportSettings::default();
    assert_eq!(render(&org, &settings), exp);
}

#[test]
fn test_fixed_width_program_output() {
    let org = [
        "#+BEGIN_SRC python\n",
        "print(\"Hello, world!\")\n",
        "#+END_SRC\n",
        "\n",
        ": Hello, world!\n",
        "\n",
        "Regular text.\n",
        "\n",
        ": More output\n",
        ": Another line\n",
    ]
    .concat();
    let exp = [
        "<div><section>",
        "<pre><code class=\"language-python\">print(&quot;Hello, world!&quot;)\n</code></pre>",
        "<pre class=\"program-output\">Hello, world!\n</pre>",
        "<p>Regular text.\n</p>",
        "<pre class=\"program-output\">More output\nAnother line\n</pre>",
        "</section></div>",
    ]
    .concat();
    let settings = HtmlExportSettings::default();
    assert_eq!(render(&org, &settings), exp);
}

#[test]
fn test_org_table_export_empty_cells() {
    let org = ["|-------+---|\n", "|       | 1 |\n", "|-------+---|\n", "| world |   |\n"].concat();
    let exp = [
        "<div><section><table><thead>",
        "<tr><td></td><td>1</td></tr></thead>",
        "<tbody><tr><td>world</td><td></td></tr></tbody>",
        "</table></section></div>",
    ]
    .concat();
    let settings = HtmlExportSettings::default();
    assert_eq!(render(&org, &settings), exp);
}

#[test]
fn test_org_table_export_format_args() {
    let org = ["| / | <> |\n", "|   |  a |\n"].concat();
    let exp = ["<div><section><table><tbody>", "<tr><td>a</td></tr>", "</tbody></table></section></div>"].concat();
    let settings = HtmlExportSettings::default();
    assert_eq!(render(&org, &settings), exp);
}

fn respecting() -> HtmlExportSettings {
    let mut settings = HtmlExportSettings::default();
    settings.respect_noexport = true;
    settings
}

#[test]
fn test_noexport_single_heading() {
    let org = [
        "* Exported heading\n",
        "This should be exported.\n",
        "\n",
        "* Hidden heading :noexport:\n",
        "This should not be exported.\n",
        "\n",
        "* Another exported heading\n",
        "This should be exported too.\n",
    ]
    .concat();
    let exp = [
        "<div>",
        "<h1>Exported heading</h1>",
        "<section><p>This should be exported.\n</p></section>",
        "<h1>Another exported heading</h1>",
        "<section><p>This should be exported too.\n</p></section></div>",
    ]
    .concat();
    assert_eq!(render(&org, &respecting()), exp);
}

#[test]
fn test_noexport_with_subtree() {
    let org = [
        "* Parent heading :noexport:\n",
        "Parent content.\n",
        "\n",
        "** Child heading\n",
        "Child content should also be excluded.\n",
        "\n",
        "*** Grandchild heading\n",
        "Grandchild content should also be excluded.\n",
        "\n",
        "* Exported heading\n",
        "This should be visible.\n",
    ]
    .concat();
    let exp = [
        "<div>",
        "<h1>Exported heading</h1>",
        "<section><p>This should be visible.\n</p></section></div>",
    ]
    .concat();
    assert_eq!(render(&org, &respecting()), exp);
}

#[test]
fn test_noexport_with_multiple_tags() {
    let org = [
        "* Heading with multiple tags :tag1:noexport:tag2:\n",
        "This should not be exported.\n",
        "\n",
        "* Normal heading :tag1:tag2:\n",
        "This should be exported.\n",
    ]
    .concat();
    let exp = [
        "<div>",
        "<h1>Normal heading </h1>",
        "<section><p>This should be exported.\n</p></section></div>",
    ]
    .concat();
    assert_eq!(render(&org, &respecting()), exp);
}

#[test]
fn test_noexport_disabled() {
    let org = [
        "* Normal heading\n",
        "Exported.\n",
        "\n",
        "* Hidden heading :noexport:\n",
        "This SHOULD be exported when respect_noexport is false.\n",
    ]
    .concat();
    let exp = [
        "<div>",
        "<h1>Normal heading</h1>",
        "<section><p>Exported.\n</p></section>",
        "<h1>Hidden heading </h1>",
        "<section><p>This SHOULD be exported when respect<sub>noexport</sub> is false.\n</p></section></div>",
    ]
    .concat();
    let mut settings = HtmlExportSettings::default();
    settings.respect_noexport = false;
    assert_eq!(render(&org, &settings), exp);
}

#[test]
fn test_noexport_with_complex_content() {
    let org = [
        "* Visible section\n",
        "Some text.\n",
        "\n",
        "* Secret section :noexport:\n",
        "** Contains subsections\n",
        "- With lists\n",
        "- And items\n",
        "\n",
        "#+BEGIN_SRC python\n",
        "print('hidden code')\n",
        "#+END_SRC\n",
        "\n",
        "| Table | Data |\n",
        "|-------+------|\n",
        "| 1     | 2    |\n",
        "\n",
        "* Back to visible\n",
        "Final content.\n",
    ]
    .concat();
    let exp = [
        "<div>",
        "<h1>Visible section</h1>",
        "<section><p>Some text.\n</p></section>",
        "<h1>Back to visible</h1>",
        "<section><p>Final content.\n</p></section></div>",
    ]
    .concat();
    assert_eq!(render(&org, &respecting()), exp);
}

#[test]
fn test_footnote_export() {
    let org = [
        "* Test Footnotes\n",
        "\n",
        "This is a test[fn:1] with a footnote reference.\n",
        "\n",
        "And another one[fn:second].\n",
        "\n",
        "* Footnotes\n",
        "\n",
        "[fn:1] This is the first footnote definition.\n",
        "\n",
        "[fn:second] This is the second footnote.\n",
    ]
    .concat();
    let result = render(&org, &HtmlExportSettings::default());
    println!("Footnote export result:\n{}", result);
    assert!(result.contains("<sup><a id=\"fnr.1\" class=\"footref\" href=\"#fn.1\">1</a></sup>"));
    assert!(result.contains(
        "<sup><a id=\"fnr.second\" class=\"footref\" href=\"#fn.second\">second</a></sup>"
    ));
    assert!(result.contains("<div class=\"footdef\"><sup><a id=\"fn.1\" class=\"footnum\" href=\"#fnr.1\">1</a></sup>"));
    assert!(result.contains("<div class=\"footdef\"><sup><a id=\"fn.second\" class=\"footnum\" href=\"#fnr.second\">second</a></sup>"));
    assert!(result.contains("This is the first footnote definition"));
    assert!(result.contains("This is the second footnote"));
    let footpara1_start =
        result.find("<div class=\"footpara\">").unwrap() + "<div class=\"footpara\">".len();
    let footpara1_end = result[footpara1_start..].find("</div>").unwrap() + footpara1_start;
    let footpara1_content = &result[footpara1_start..footpara1_end];
    println!("Footpara 1 content: '{}'", footpara1_content);
    assert!(!footpara1_content.trim().starts_with("1 This"));
    assert!(footpara1_content.contains("This is the first footnote definition"));
}

#[test]
fn test_footnote_with_inline_markup() {
    let org = [
        "Text with footnote[fn:1].\n",
        "\n",
        "[fn:1] Footnote with *bold* and /italic/ and =code= text.\n",
    ]
    .concat();
    let result = render(&org, &HtmlExportSettings::default());
    assert!(result.contains("class=\"footdef\""));
    assert!(result.contains("<b>bold</b>"));
    assert!(result.contains("<i>italic</i>"));
    assert!(result.contains("<code>code</code>"));
    assert!(!result.contains("*bold*"));
    assert!(!result.contains("/italic/"));
    assert!(!result.contains("=code="));
}

fn footnote_section(result: &str) -> &str {
    let footdef_start = result.find("<div class=\"footdef\">").unwrap();
    let footdef_end = result[footdef_start..].find("</div></div>").unwrap() + footdef_start;
    &result[footdef_start..footdef_end]
}

#[test]
fn test_multiline_footnote_no_indent() {
    let org = [
        "Text with footnote[fn:1].\n",
        "\n",
        "[fn:1] This is the first line of the footnote.\n",
        "This is the second line of the same footnote.\n",
        "And this is the third line.\n",
    ]
    .concat();
    let result = render(&org, &HtmlExportSettings::default());
    assert!(result.contains("class=\"footdef\""));
    assert!(result.contains("first line"));
    assert!(result.contains("second line"));
    assert!(result.contains("third line"));
    let section = footnote_section(&result);
    assert!(section.contains("first line"));
    assert!(section.contains("second line"));
    assert!(section.contains("third line"));
}

#[test]
fn test_multiline_footnote_with_indent() {
    let org = [
        "Text with footnote[fn:1].\n",
        "\n",
        "[fn:1] This is the first line of the footnote.\n",
        "       This is the second line of the same footnote.\n",
        "       And this is the third line.\n",
    ]
    .concat();
    let result = render(&org, &HtmlExportSettings::default());
    assert!(result.contains("class=\"footdef\""));
    assert!(result.contains("first line"));
    assert!(result.contains("second line"));
    assert!(result.contains("third line"));
    let section = footnote_section(&result);
    assert!(section.contains("first line"));
    assert!(section.contains("second line"));
    assert!(section.contains("third line"));
}

#[test]
fn test_multiple_footnotes() {
    let org = [
        "Text with first[fn:1] and second[fn:2] footnote.\n",
        "\n",
        "[fn:1] First footnote content.\n",
        "More content for first footnote.\n",
        "\n",
        "[fn:2] Second footnote content.\n",
        "More content for second footnote.\n",
    ]
    .concat();
    let result = render(&org, &HtmlExportSettings::default());
    assert!(result.contains("href=\"#fn.1\""));
    assert!(result.contains("href=\"#fn.2\""));
    assert!(result.contains("id=\"fn.1\""));
    assert!(result.contains("id=\"fn.2\""));
    let first_fn_start = result.find("id=\"fn.1\"").unwrap();
    let second_fn_start = result.find("id=\"fn.2\"").unwrap();
    let first_footnote = &result[first_fn_start..second_fn_start];
    assert!(first_footnote.contains("First footnote content"));
    assert!(first_footnote.contains("More content for first footnote"));
    let second_footnote = &result[second_fn_start..];
    assert!(second_footnote.contains("Second footnote content"));
    assert!(second_footnote.contains("More content for second footnote"));
}

#[test]
fn test_footnote_no_paragraph_tags() {
    let org = [
        "Text with footnote[fn:1].\n",
        "\n",
        "[fn:1] First line.\n",
        "Second line.\n",
        "Third line.\n",
    ]
    .concat();
    let result = render(&org, &HtmlExportSettings::default());
    let footdef_start = result.find("<div class=\"footdef\">").unwrap();
    let footdef_end = result[footdef_start..].find("</div></div>").unwrap() + footdef_start;
    let footnote = &result[footdef_start..=footdef_end];
    assert!(!footnote.contains("<p>"), "Footnote should not contain <p> tags, but got: {}", footnote);
    assert!(!footnote.contains("</p>"), "Footnote should not contain </p> tags, but got: {}", footnote);
    assert!(footnote.contains("First line"));
    assert!(footnote.contains("Second line"));
    assert!(footnote.contains("Third line"));
}

#[test]
fn links_latex_and_outgoing_ids() {
    let org = "See [[id:b][B]] and [[id:a][A]] and [[id:b]] and \\(x^2\\).\n";
    let (html, outgoing, latex) = render_with(org, &HtmlExportSettings::default(), "notes/a.org");
    assert!(html.contains("<a id=\"b\" class=\"org-preview-id-link\">B</a>"));
    assert!(html.contains("<a id=\"b\" class=\"org-preview-id-link\"></a>"));
    assert_eq!(outgoing, vec!["a".to_string(), "b".to_string()]);
    assert_eq!(latex, vec!["\\(x^2\\)".to_string()]);
    assert!(html.contains("<span class=\"org-latex-placeholder\" data-latex-index=\"0\">[LaTeX Block 0]</span>"));
}

#[test]
fn images_are_taken_relative_to_the_file() {
    let org = "[[img/x.png]]\n";
    let (html, _, _) = render_with(org, &HtmlExportSettings::default(), "notes/a.org");
    assert!(html.contains("src=\"assets?file=notes/img/x.png\""), "{html}");
}

#[test]
fn image_paths_ignore_repeated_slashes() {
    let org = "[[img/x.png]]\n";
    let (html, _, _) = render_with(org, &HtmlExportSettings::default(), "notes//a.org");
    assert!(html.contains("src=\"assets?file=notes/img/x.png\""), "{html}");
    let (html, _, _) = render_with(org, &HtmlExportSettings::default(), "notes/./a.org");
    assert!(html.contains("src=\"assets?file=notes/img/x.png\""), "{html}");
    let (html, _, _) = render_with(org, &HtmlExportSettings::default(), "/a.org");
    assert!(html.contains("src=\"assets?file=/img/x.png\""), "{html}");
    let (html, _, _) = render_with(org, &HtmlExportSettings::default(), "a.org");
    assert!(html.contains("src=\"assets?file=img/x.png\""), "{html}");
}

#[test]
fn special_blocks_use_their_advice() {
    let mut settings = HtmlExportSettings::default();
    settings.env_advices.push(EnvAdvice {
        on: "Theorem".into(),
        header: "<b>Theorem.</b>".into(),
        css_style: "border: 1px".into(),
        text_styling: "font-style: italic".into(),
    });
    let html = render("#+begin_theorem\nAll is well.\n#+end_theorem\n", &settings);
    assert!(html.contains("<div class=\"Theorem\" style=\"border: 1px\"><b>Theorem.</b><p style=\"font-style: italic\">"), "{html}");
    let plain = render("#+begin_remark\nNote.\n#+end_remark\n", &HtmlExportSettings::default());
    assert!(plain.contains("<div class=\"remark\"><p>"), "{plain}");
}

