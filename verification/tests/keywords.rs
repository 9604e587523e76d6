use org_roamers::keywords::KeywordCollector;
use org_roamers::org::get_latex_header;

#[test]
fn keywords_test_get_latex_header() {
    const ORG: &str = "
#+title: Test
#+subtitle: test
#+author: Joakim Brodén
#+filetags: :test2:test1:
#+options: date:nil author:t num:nil toc:nil
#+latex_header: \\usepackage{parskip}
* Some other
asfdjsadn

#+latex_header: \\usepackage[margin=3cm]{geometry}
\\( a = b \\)";
    let keywords = KeywordCollector::new("latex_header").perform(ORG);
    assert_eq!(
        keywords,
        vec!["\\usepackage{parskip}", "\\usepackage[margin=3cm]{geometry}"]
    );
}

#[test]
fn org_test_get_latex_header() {
    const ORG: &str = "
#+title: Test
#+subtitle: test
#+author: Joakim Brodén
#+filetags: :test2:test1:
#+options: date:nil author:t num:nil toc:nil
#+latex_header: \\usepackage{mathtools}
#+latex_header: \\setlength\\parindent{0pt}
#+latex_header: \\setlength{\\abovedisplayskip}{0pt}
#+latex_header: \\usepackage{parskip}
#+latex_header: \\usepackage[margin=3cm]{geometry}";
    let res = get_latex_header(ORG);
    assert_eq!(
        res,
        vec![
            "\\usepackage{mathtools}",
            "\\setlength\\parindent{0pt}",
            "\\setlength{\\abovedisplayskip}{0pt}",
            "\\usepackage{parskip}",
            "\\usepackage[margin=3cm]{geometry}"
        ]
    );
}

#[test]
fn collector_events_match_upper_cased_keys() {
    let mut c = KeywordCollector::new("Title");
    c.event("TITLE", "  a  ");
    c.event("title", "b");
    c.event("author", "c");
    assert_eq!(c.keywords, vec!["a".to_string(), "b".to_string()]);
}
