//! The message entity's derived views and the text utilities: parsing raw
//! text, rendering the sendable form, line-ending normalisation and the
//! small formatting helpers.

use mailflow::error::Error;
use mailflow::mbox::Mbox;
use mailflow::msg::Msg;
use mailflow::textutil;

#[test]
fn parse_splits_headers_and_body() {
    let raw = "From: a@x, b@y\nTo: c@z\nSubject: greetings\n\nline one\nline two";
    let m = Msg::parse(raw).expect("parses");
    assert_eq!(m.headers.from, vec!["a@x".to_string(), "b@y".to_string()]);
    assert_eq!(m.headers.to, vec!["c@z".to_string()]);
    assert_eq!(m.headers.subject.as_deref(), Some("greetings"));
    assert_eq!(m.body.text, "line one\nline two");
    assert_eq!(m.raw, raw);
}

#[test]
fn parse_without_blank_line_has_empty_body() {
    let m = Msg::parse("From: a@x\nTo: b@y").expect("parses");
    assert_eq!(m.body.text, "");
}

#[test]
fn parse_rejects_line_without_colon() {
    assert_eq!(
        Msg::parse("From: a@x\nnot a header\n\nbody").err(),
        Some(Error::MalformedMessage)
    );
}

#[test]
fn parse_repeated_key_overrides() {
    let m = Msg::parse("Subject: first\nSubject: second\n\n").expect("parses");
    assert_eq!(m.headers.subject.as_deref(), Some("second"));
}

#[test]
fn render_produces_wire_form() {
    let raw = "From: a@x\nTo: b@y\nSubject: s\n\nhello\nworld";
    let m = Msg::parse(raw).expect("parses");
    let sendable = m.to_sendable_msg().expect("sendable");
    assert_eq!(
        sendable.raw,
        "From: a@x\r\nTo: b@y\r\nSubject: s\r\n\r\nhello\r\nworld"
    );
}

#[test]
fn sendable_requires_sender_and_recipient() {
    let no_sender = Msg::parse("To: b@y\n\nx").expect("parses");
    assert_eq!(no_sender.to_sendable_msg().err(), Some(Error::MissingSender));
    let no_recipient = Msg::parse("From: a@x\n\nx").expect("parses");
    assert_eq!(
        no_recipient.to_sendable_msg().err(),
        Some(Error::MissingRecipient)
    );
}

#[test]
fn mbox_resolution() {
    let m = Mbox::try_from_opt(Some("Archive")).expect("resolves");
    assert_eq!(m.name, "Archive");
    assert_eq!(Mbox::try_from_opt(None).err(), Some(Error::NoTargetMbox));
}

#[test]
fn to_crlf_normalises_line_endings() {
    assert_eq!(textutil::to_crlf("a\nb"), "a\r\nb");
    assert_eq!(textutil::to_crlf("a\r\nb"), "a\r\nb");
    assert_eq!(textutil::to_crlf("a\n"), "a\r\n");
    assert_eq!(textutil::to_crlf(""), "");
}

#[test]
fn split_lines_matches_line_semantics() {
    assert_eq!(textutil::split_lines("a\nb"), vec!["a", "b"]);
    assert_eq!(textutil::split_lines("a\r\nb\n"), vec!["a", "b"]);
    assert_eq!(textutil::split_lines("a\n\nb"), vec!["a", "", "b"]);
    assert_eq!(textutil::split_lines(""), Vec::<String>::new());
}

#[test]
fn join_glues_with_separator() {
    let parts = vec!["a".to_string(), "b".to_string(), "c".to_string()];
    assert_eq!(textutil::join(&parts, ", "), "a, b, c");
    assert_eq!(textutil::join(&Vec::new(), ", "), "");
}

#[test]
fn decimal_rendering() {
    assert_eq!(textutil::usize_to_string(0), "0");
    assert_eq!(textutil::usize_to_string(7), "7");
    assert_eq!(textutil::usize_to_string(42), "42");
    assert_eq!(textutil::usize_to_string(1090), "1090");
}

#[test]
fn substring_search() {
    assert!(textutil::contains_sub("monthly report", "report"));
    assert!(textutil::contains_sub("abc", ""));
    assert!(!textutil::contains_sub("abc", "abcd"));
    assert!(!textutil::contains_sub("holiday", "report"));
}

#[test]
fn flags_are_cumulative() {
    let mut f = mailflow::flag::Flags::new();
    f.insert(mailflow::flag::Flag::Seen);
    f.insert(mailflow::flag::Flag::Deleted);
    f.insert(mailflow::flag::Flag::Seen);
    assert!(f.contains(mailflow::flag::Flag::Seen));
    assert!(f.contains(mailflow::flag::Flag::Deleted));
    assert!(!f.contains(mailflow::flag::Flag::Draft));
}

#[test]
fn account_address_forms() {
    let mut a = mailflow::account::Account {
        email: "test@localhost".to_string(),
        display_name: String::new(),
        signature: String::new(),
        downloads_dir: String::new(),
        default_page_size: 5,
    };
    assert_eq!(a.address(), "test@localhost");
    a.display_name = "Test User".to_string();
    assert_eq!(a.address(), "Test User <test@localhost>");
}

#[test]
fn signature_rendered_after_delimiter() {
    let mut m = Msg::parse("From: a@x\nTo: b@y\n\nbody").expect("parses");
    m.headers.signature = Some("sig line".to_string());
    let s = m.to_sendable_msg().expect("sendable");
    assert_eq!(s.raw, "From: a@x\r\nTo: b@y\r\n\r\nbody\r\n-- \r\nsig line");
}
