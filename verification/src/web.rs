//! What the HTTP front end decides: the entry a URL asks for, the status
//! and the content type of a response, and where an incomplete URL is sent.

use crate::jar_manager::Error;
use crate::text::{chars_of, str_eq};
use bytes::Bytes;
use vstd::prelude::*;

verus! {

/// The number of requests that may wait for the manager.
pub const MAILBOX_CAPACITY: usize = 10_000;

/// The status of a response that carries the entry.
pub const OK: u16 = 200;

/// The status of a response for what does not exist.
pub const NOT_FOUND: u16 = 404;

/// The status of a response for any other failure.
pub const INTERNAL_SERVER_ERROR: u16 = 500;

/// The content types that are told apart.
#[derive(Clone, Copy, PartialEq, Eq, Structural, Debug)]
pub enum ContentType {
    /// `text/html`
    Html,
    /// `application/javascript`
    Javascript,
    /// `text/css`
    Css,
    /// `application/octet-stream`
    OctetStream,
}

impl ContentType {
    /// The media type, as it stands in a `Content-Type` header.
    pub fn media_type(&self) -> (name: &'static str)
        ensures
            name@ == match self {
                ContentType::Html => "text/html"@,
                ContentType::Javascript => "application/javascript"@,
                ContentType::Css => "text/css"@,
                ContentType::OctetStream => "application/octet-stream"@,
            },
    {
        match self {
            ContentType::Html => "text/html",
            ContentType::Javascript => "application/javascript",
            ContentType::Css => "text/css",
            ContentType::OctetStream => "application/octet-stream",
        }
    }
}

/// The entry that a path asks for: the empty path asks for `index.html`.
pub open spec fn entry_path(path: Seq<char>) -> Seq<char> {
    if path.len() == 0 {
        "index.html"@
    } else {
        path
    }
}

/// The entry that `path` asks for.
pub fn fixed_path(path: &str) -> (entry: String)
    ensures
        entry@ == entry_path(path@),
{
    if path.unicode_len() == 0 {
        String::from_str("index.html")
    } else {
        String::from_str(path)
    }
}

/// `i` is the index of the last `.` of `path`.
pub open spec fn is_last_dot(path: Seq<char>, i: int) -> bool {
    &&& 0 <= i < path.len()
    &&& path[i] == '.'
    &&& forall|j: int| i < j < path.len() ==> path[j] != '.'
}

/// What follows the last `.` of `path`, if it has one.
pub open spec fn suffix(path: Seq<char>) -> Option<Seq<char>> {
    if exists|i: int| is_last_dot(path, i) {
        Some(path.skip((choose|i: int| is_last_dot(path, i)) + 1))
    } else {
        None
    }
}

/// The content type guessed from the suffix of `path`.
pub open spec fn guessed_type(path: Seq<char>) -> ContentType {
    match suffix(path) {
        Some(s) => if s == "html"@ {
            ContentType::Html
        } else if s == "js"@ {
            ContentType::Javascript
        } else if s == "css"@ {
            ContentType::Css
        } else {
            ContentType::OctetStream
        },
        None => ContentType::OctetStream,
    }
}

/// The content type of the entry at `path`, guessed from what follows its
/// last `.`: `html`, `js` and `css` are known, all else is a stream of
/// bytes.
pub fn content_type(path: &str) -> (guess: ContentType)
    ensures
        guess == guessed_type(path@),
{
    let chars = chars_of(path);
    let mut i: usize = chars.len();
    while i > 0 && chars[i - 1] != '.'
        invariant
            i <= chars@.len(),
            chars@ == path@,
            forall|j: int| i <= j < chars@.len() ==> chars@[j] != '.',
        decreases i,
    {
        i -= 1;
    }
    if i == 0 {
        assert(suffix(path@) is None) by {
            if exists|k: int| is_last_dot(path@, k) {
                let k = choose|k: int| is_last_dot(path@, k);
                assert(chars@[k] == '.');
            }
        }
        return ContentType::OctetStream;
    }
    proof {
        assert(is_last_dot(path@, i - 1));
        let k = choose|k: int| is_last_dot(path@, k);
        assert(k == i - 1) by {
            if k < i - 1 {
                assert(path@[i - 1] != '.');
            }
            if k > i - 1 {
                assert(chars@[k] != '.');
            }
        }
    }
    let ending = path.substring_char(i, chars.len());
    assert(ending@ == path@.skip(i as int));
    if str_eq(ending, "html") {
        ContentType::Html
    } else if str_eq(ending, "js") {
        ContentType::Javascript
    } else if str_eq(ending, "css") {
        ContentType::Css
    } else {
        ContentType::OctetStream
    }
}

/// The status of the response to a reply: 200 with the entry, 404 where
/// the artifact or the entry does not exist, and only there, 500 for any
/// other failure.
pub open spec fn status_of(reply: Result<Bytes, Error>) -> u16 {
    match reply {
        Ok(_) => OK,
        Err(Error::NotFound) => NOT_FOUND,
        Err(_) => INTERNAL_SERVER_ERROR,
    }
}

/// The status of the response to a reply.
pub fn status_code(reply: &Result<Bytes, Error>) -> (status: u16)
    ensures
        status == status_of(*reply),
        status == NOT_FOUND <==> reply matches Err(Error::NotFound),
        status == OK <==> reply is Ok,
{
    match reply {
        Ok(_) => OK,
        Err(Error::NotFound) => NOT_FOUND,
        Err(_) => INTERNAL_SERVER_ERROR,
    }
}

/// The status of the response to what came of sending a request to the
/// manager; `None` stands for a request that could not be sent, or that
/// got no reply.
pub fn response_status(sent: Option<&Result<Bytes, Error>>) -> (status: u16)
    ensures
        status == match sent {
            Some(reply) => status_of(*reply),
            None => INTERNAL_SERVER_ERROR,
        },
        status == NOT_FOUND <==> sent matches Some(Err(Error::NotFound)),
        status == OK <==> sent matches Some(Ok(_)),
{
    match sent {
        Some(reply) => status_code(reply),
        None => INTERNAL_SERVER_ERROR,
    }
}

/// Whether one more request may wait for the manager while `waiting` do:
/// the mailbox holds `MAILBOX_CAPACITY` requests and no more.
pub fn mailbox_admits(waiting: usize) -> (ok: bool)
    ensures
        ok == (waiting < MAILBOX_CAPACITY),
{
    waiting < MAILBOX_CAPACITY
}

/// `/javadoc/{group}/{name}/{version}/`
pub open spec fn javadoc_root(group: Seq<char>, name: Seq<char>, version: Seq<char>) -> Seq<char> {
    "/javadoc/"@ + group + "/"@ + name + "/"@ + version + "/"@
}

/// Where a URL without the trailing slash is sent: the same with it.
pub fn redirect_location(group: &str, name: &str, version: &str) -> (location: String)
    ensures
        location@ == javadoc_root(group@, name@, version@),
{
    let mut location = String::from_str("/javadoc/");
    location.append(group);
    location.append("/");
    location.append(name);
    location.append("/");
    location.append(version);
    location.append("/");
    assert(location@ =~= javadoc_root(group@, name@, version@));
    location
}

} // verus!
