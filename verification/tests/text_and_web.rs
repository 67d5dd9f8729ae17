use bytes::Bytes;
use glovebox::jar_manager::Error;
use glovebox::text::{chars_of, str_contains, str_eq, to_slashed};
use glovebox::web::{
    content_type, fixed_path, mailbox_admits, redirect_location, response_status, status_code,
    ContentType, INTERNAL_SERVER_ERROR, MAILBOX_CAPACITY, NOT_FOUND, OK,
};

#[test]
fn chars_of_gives_each_character() {
    assert_eq!(chars_of("a.b"), vec!['a', '.', 'b']);
    assert_eq!(chars_of(""), Vec::<char>::new());
    assert_eq!(chars_of("é/ü"), vec!['é', '/', 'ü']);
}

#[test]
fn contains_finds_a_word_anywhere() {
    assert!(str_contains("1.2.3-SNAPSHOT", "-SNAPSHOT"));
    assert!(str_contains("-SNAPSHOT", "-SNAPSHOT"));
    assert!(str_contains("1.0-SNAPSHOT-2", "-SNAPSHOT"));
    assert!(!str_contains("1.2.3", "-SNAPSHOT"));
    assert!(!str_contains("1.2.3-snapshot", "-SNAPSHOT"));
    assert!(!str_contains("-SNAPSHO", "-SNAPSHOT"));
    assert!(!str_contains("", "-SNAPSHOT"));
}

#[test]
fn contains_the_empty_word() {
    assert!(str_contains("abc", ""));
    assert!(str_contains("", ""));
}

#[test]
fn eq_compares_characters() {
    assert!(str_eq("RELEASE", "RELEASE"));
    assert!(!str_eq("RELEASE", "RELEASES"));
    assert!(!str_eq("RELEASE", "RELEASe"));
    assert!(str_eq("", ""));
}

#[test]
fn slashed_turns_every_dot() {
    assert_eq!(to_slashed("org.example.lib"), "org/example/lib");
    assert_eq!(to_slashed("plain"), "plain");
    assert_eq!(to_slashed(""), "");
    assert_eq!(to_slashed("..a."), "//a/");
    assert_eq!(to_slashed("a/b.c"), "a/b/c");
}

#[test]
fn empty_path_asks_for_the_index() {
    assert_eq!(fixed_path(""), "index.html");
    assert_eq!(fixed_path("a/b.html"), "a/b.html");
    assert_eq!(fixed_path("index.html"), "index.html");
}

#[test]
fn content_type_goes_by_the_suffix() {
    assert_eq!(content_type("index.html"), ContentType::Html);
    assert_eq!(content_type("script.js"), ContentType::Javascript);
    assert_eq!(content_type("style.css"), ContentType::Css);
    assert_eq!(content_type("logo.png"), ContentType::OctetStream);
    assert_eq!(content_type("README"), ContentType::OctetStream);
    assert_eq!(content_type(""), ContentType::OctetStream);
    assert_eq!(content_type("trailing."), ContentType::OctetStream);
}

#[test]
fn content_type_goes_by_the_last_dot() {
    assert_eq!(content_type("org/example/package.summary.html"), ContentType::Html);
    assert_eq!(content_type("jquery-3.5.1.js"), ContentType::Javascript);
    assert_eq!(content_type("a.html.css"), ContentType::Css);
    assert_eq!(content_type("a.css.bin"), ContentType::OctetStream);
    assert_eq!(content_type(".html"), ContentType::Html);
}

#[test]
fn media_types_are_spelled_out() {
    assert_eq!(ContentType::Html.media_type(), "text/html");
    assert_eq!(ContentType::Javascript.media_type(), "application/javascript");
    assert_eq!(ContentType::Css.media_type(), "text/css");
    assert_eq!(ContentType::OctetStream.media_type(), "application/octet-stream");
}

#[test]
fn status_goes_by_the_reply() {
    assert_eq!(status_code(&Ok(Bytes::from(vec![1u8, 2, 3]))), OK);
    assert_eq!(status_code(&Err(Error::NotFound)), NOT_FOUND);
    assert_eq!(status_code(&Err(Error::Io(String::from("broken")))), INTERNAL_SERVER_ERROR);
    assert_eq!(status_code(&Err(Error::Other(String::from("x")))), INTERNAL_SERVER_ERROR);
    assert_eq!(
        status_code(&Err(Error::Maven(glovebox::maven::maven_repo::Error::Transport(
            glovebox::maven::transport::interface::Error::Other(String::from("503")),
        )))),
        INTERNAL_SERVER_ERROR
    );
    assert_eq!(OK, 200);
    assert_eq!(NOT_FOUND, 404);
    assert_eq!(INTERNAL_SERVER_ERROR, 500);
}

#[test]
fn redirect_adds_the_slash() {
    assert_eq!(
        redirect_location("org.example", "lib", "1.0.0"),
        "/javadoc/org.example/lib/1.0.0/"
    );
    assert_eq!(redirect_location("", "", ""), "/javadoc////");
}

#[test]
fn mailbox_holds_ten_thousand() {
    assert_eq!(MAILBOX_CAPACITY, 10_000);
}

#[test]
fn manager_errors_read_as_text() {
    assert_eq!(Error::NotFound.message(), "entry not found");
    assert_eq!(Error::Io(String::from("disk")).message(), "disk");
    assert_eq!(Error::Other(String::from("other")).message(), "other");
    assert_eq!(
        Error::Maven(glovebox::maven::maven_repo::Error::MissingJavadoc).message(),
        "no javadoc could be found"
    );
}

#[test]
fn failed_send_is_an_internal_error() {
    assert_eq!(response_status(None), 500);
    assert_eq!(response_status(Some(&Ok(Bytes::from(vec![1u8])))), 200);
    assert_eq!(response_status(Some(&Err(Error::NotFound))), 404);
    assert_eq!(response_status(Some(&Err(Error::Io(String::from("x"))))), 500);
    assert_eq!(response_status(Some(&Err(Error::Other(String::from("x"))))), 500);
}

#[test]
fn mailbox_admits_up_to_its_capacity() {
    assert!(mailbox_admits(0));
    assert!(mailbox_admits(9_999));
    assert!(!mailbox_admits(10_000));
    assert!(!mailbox_admits(usize::MAX));
}
