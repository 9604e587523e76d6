use org_roamers::emacs::{route_emacs_traffic, EmacsRequest, EmacsRequestError};

fn params(v: &[(&str, &str)]) -> Vec<(String, String)> {
    v.iter().map(|(k, v)| (k.to_string(), v.to_string())).collect()
}

#[test]
fn opened_buffer_needs_an_id() {
    assert_eq!(
        route_emacs_traffic(&params(&[("task", "opened"), ("id", "abc")])),
        Ok(EmacsRequest::BufferOpened("abc".into()))
    );
    assert_eq!(
        route_emacs_traffic(&params(&[("task", "opened")])),
        Err(EmacsRequestError::NoIDProvided)
    );
}

#[test]
fn modified_buffer_needs_a_file() {
    assert_eq!(
        route_emacs_traffic(&params(&[("file", "/a.org"), ("task", "modified")])),
        Ok(EmacsRequest::BufferModified("/a.org".into()))
    );
    assert_eq!(
        route_emacs_traffic(&params(&[("task", "modified"), ("id", "x")])),
        Err(EmacsRequestError::NoFileProvided)
    );
}

#[test]
fn other_tasks_are_refused() {
    assert_eq!(
        route_emacs_traffic(&params(&[("task", "closed")])),
        Err(EmacsRequestError::UnsupportedTask("closed".into()))
    );
    assert_eq!(route_emacs_traffic(&params(&[])), Err(EmacsRequestError::NoTaskProvided));
}

#[test]
fn the_last_value_of_a_key_counts() {
    assert_eq!(
        route_emacs_traffic(&params(&[("task", "closed"), ("task", "opened"), ("id", "1"), ("id", "2")])),
        Ok(EmacsRequest::BufferOpened("2".into()))
    );
}

#[test]
fn error_messages() {
    assert_eq!(EmacsRequestError::NoIDProvided.message(), "No id was provided");
    assert_eq!(EmacsRequestError::NoFileProvided.message(), "No file provided");
    assert_eq!(EmacsRequestError::NoTaskProvided.message(), "No task provided");
    assert_eq!(EmacsRequestError::UnsupportedTask("x".into()).message(), "Unsupported task: x");
}
