//! Requests from the Emacs package: which buffer event a query describes.
use vstd::prelude::*;

use crate::org::pair_views;
use crate::text::{str_eq, string_of, to_chars};

verus! {

/// A buffer event reported by Emacs.
#[derive(Clone, Debug, PartialEq)]
pub enum EmacsRequest {
    /// A buffer of the node with this id was opened.
    BufferOpened(String),
    /// The buffer of this file was modified.
    BufferModified(String),
}

/// Why a request from Emacs was refused.
#[derive(Clone, Debug, PartialEq)]
pub enum EmacsRequestError {
    NoIDProvided,
    NoFileProvided,
    NoTaskProvided,
    UnsupportedTask(String),
}

/// The value of a query parameter: the last one given under the key.
pub open spec fn lookup(params: Seq<(Seq<char>, Seq<char>)>, key: Seq<char>) -> Option<Seq<char>>
    decreases params.len(),
{
    if params.len() == 0 {
        None
    } else if params.last().0 == key {
        Some(params.last().1)
    } else {
        lookup(params.drop_last(), key)
    }
}

/// The views of a request.
pub open spec fn request_view(r: EmacsRequest) -> (bool, Seq<char>) {
    match r {
        EmacsRequest::BufferOpened(id) => (true, id@),
        EmacsRequest::BufferModified(f) => (false, f@),
    }
}

/// What a query from Emacs asks: the task `opened` needs an `id`, the task
/// `modified` needs a `file`, and any other task is refused.
pub open spec fn route_spec(params: Seq<(Seq<char>, Seq<char>)>) -> Result<(bool, Seq<char>), (
    nat,
    Seq<char>,
)> {
    match lookup(params, "task"@) {
        Some(task) => if task == "opened"@ {
            match lookup(params, "id"@) {
                Some(id) => Ok((true, id)),
                None => Err((0, Seq::empty())),
            }
        } else if task == "modified"@ {
            match lookup(params, "file"@) {
                Some(f) => Ok((false, f)),
                None => Err((1, Seq::empty())),
            }
        } else {
            Err((3, task))
        },
        None => Err((2, Seq::empty())),
    }
}

/// The views of an error: its variant's position and its task, if any.
pub open spec fn error_view(e: EmacsRequestError) -> (nat, Seq<char>) {
    match e {
        EmacsRequestError::NoIDProvided => (0, Seq::empty()),
        EmacsRequestError::NoFileProvided => (1, Seq::empty()),
        EmacsRequestError::NoTaskProvided => (2, Seq::empty()),
        EmacsRequestError::UnsupportedTask(t) => (3, t@),
    }
}

impl EmacsRequestError {
    /// The message of the error.
    pub fn message(&self) -> (r: String)
        ensures
            r@ == match self {
                EmacsRequestError::NoIDProvided => "No id was provided"@,
                EmacsRequestError::NoFileProvided => "No file provided"@,
                EmacsRequestError::NoTaskProvided => "No task provided"@,
                EmacsRequestError::UnsupportedTask(t) => "Unsupported task: "@ + t@,
            },
    {
        match self {
            EmacsRequestError::NoIDProvided => string_of(to_chars("No id was provided").as_slice()),
            EmacsRequestError::NoFileProvided => string_of(to_chars("No file provided").as_slice()),
            EmacsRequestError::NoTaskProvided => string_of(to_chars("No task provided").as_slice()),
            EmacsRequestError::UnsupportedTask(t) => {
                let mut m = string_of(to_chars("Unsupported task: ").as_slice());
                crate::text::push_str(&mut m, t.as_str());
                m
            },
        }
    }
}

/// Looks a parameter up (see `lookup`).
pub fn get_param(params: &Vec<(String, String)>, key: &str) -> (r: Option<String>)
    ensures
        match r {
            Some(v) => lookup(pair_views(params@), key@) == Some(v@),
            None => lookup(pair_views(params@), key@) is None,
        },
{
    let mut i = params.len();
    assert(pair_views(params@).take(i as int) =~= pair_views(params@));
    while i > 0
        invariant
            0 <= i <= params@.len(),
            lookup(pair_views(params@), key@) == lookup(pair_views(params@).take(i as int), key@),
        decreases i,
    {
        let ghost t = pair_views(params@).take(i as int);
        assert(t.drop_last() =~= pair_views(params@).take(i - 1));
        let (k, v) = &params[i - 1];
        if str_eq(k.as_str(), key) {
            return Some(string_of(to_chars(v.as_str()).as_slice()));
        }
        i = i - 1;
    }
    None
}

/// Reads the query of a request from Emacs (see `route_spec`).
pub fn route_emacs_traffic(params: &Vec<(String, String)>) -> (r: Result<
    EmacsRequest,
    EmacsRequestError,
>)
    ensures
        match r {
            Ok(req) => route_spec(pair_views(params@)) == Ok::<(bool, Seq<char>), (nat, Seq<char>)>(
                request_view(req),
            ),
            Err(e) => route_spec(pair_views(params@)) == Err::<(bool, Seq<char>), (nat, Seq<char>)>(
                error_view(e),
            ),
        },
{
    assert(pair_views(params@).take(params@.len() as int) =~= pair_views(params@));
    match get_param(params, "task") {
        Some(task) => {
            if str_eq(task.as_str(), "opened") {
                match get_param(params, "id") {
                    Some(id) => Ok(EmacsRequest::BufferOpened(id)),
                    None => Err(EmacsRequestError::NoIDProvided),
                }
            } else if str_eq(task.as_str(), "modified") {
                match get_param(params, "file") {
                    Some(f) => Ok(EmacsRequest::BufferModified(f)),
                    None => Err(EmacsRequestError::NoFileProvided),
                }
            } else {
                Err(EmacsRequestError::UnsupportedTask(task))
            }
        },
        None => Err(EmacsRequestError::NoTaskProvided),
    }
}

} // verus!
