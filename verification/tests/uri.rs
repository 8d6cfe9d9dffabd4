use music_catalog::base16::from_hex;
use music_catalog::error::DecodeError;
use music_catalog::text::split_text;
use music_catalog::uri::{FileUri, JamendoUri, Uri};

#[test]
fn serialize_uri() {
    let uri = Uri::File(FileUri { machine_id: "foo-bar".into(), file_path: "/home/baz".into() });
    assert_eq!(serde_json::to_string(&uri.encode()).unwrap(), "\"file:foo-bar:2f686f6d652f62617a\"");

    let uri = Uri::Jamendo(JamendoUri { jamendo_id: "foo".into() });
    assert_eq!(serde_json::to_string(&uri.encode()).unwrap(), "\"jamendo:foo\"");
}

#[test]
fn deserialize_uri() {
    let text: String = serde_json::from_str("\"file:foo-bar:2f686f6d652f62617a\"").unwrap();
    let got: Uri = Uri::decode(&text).unwrap();
    let expected = Uri::File(FileUri { machine_id: "foo-bar".into(), file_path: "/home/baz".into() });
    assert_eq!(got, expected);

    let text: String = serde_json::from_str("\"jamendo:foo\"").unwrap();
    let got: Uri = Uri::decode(&text).unwrap();
    let expected = Uri::Jamendo(JamendoUri { jamendo_id: "foo".into() });
    assert_eq!(got, expected);
}

#[test]
fn encode_gives_the_plain_text() {
    let uri = Uri::File(FileUri::new("foo-bar", "/home/baz"));
    assert_eq!(uri.encode(), "file:foo-bar:2f686f6d652f62617a");
    let uri = Uri::Jamendo(JamendoUri::new("foo"));
    assert_eq!(uri.encode(), "jamendo:foo");
}

#[test]
fn decode_reads_the_plain_text() {
    assert_eq!(
        Uri::decode("file:foo-bar:2f686f6d652f62617a"),
        Ok(Uri::File(FileUri::new("foo-bar", "/home/baz")))
    );
    assert_eq!(Uri::decode("jamendo:foo"), Ok(Uri::Jamendo(JamendoUri::new("foo"))));
    assert_eq!(Uri::decode("file::"), Ok(Uri::File(FileUri::new("", ""))));
    assert_eq!(Uri::decode("jamendo:"), Ok(Uri::Jamendo(JamendoUri::new(""))));
}

#[test]
fn decode_rejects_digits_that_encode_does_not_write() {
    let error = Err(DecodeError::InvalidValue("file_path".into()));
    assert_eq!(Uri::decode("file:foo-bar:2F686F6D652f62617A"), error);
    assert_eq!(Uri::decode("file:m:2F"), error);
    assert_eq!(Uri::decode("file:m:2f"), Ok(Uri::File(FileUri::new("m", "/"))));
}

#[test]
fn encode_undoes_decode() {
    let texts = vec![
        "file:foo-bar:2f686f6d652f62617a",
        "file::",
        "file:m:c3a9",
        "jamendo:foo",
        "jamendo:",
    ];
    for text in texts {
        assert_eq!(Uri::decode(text).unwrap().encode(), text);
    }
}

#[test]
fn decode_rejects_other_shapes() {
    assert_eq!(Uri::decode("bogus"), Err(DecodeError::InvalidFormat));
    assert_eq!(Uri::decode("file:only-one-part"), Err(DecodeError::InvalidFormat));
    assert!(Uri::decode("file:only-one-part").is_err());
    assert_eq!(Uri::decode(""), Err(DecodeError::InvalidFormat));
    assert_eq!(Uri::decode("jamendo"), Err(DecodeError::InvalidFormat));
    assert_eq!(Uri::decode("jamendo:a:b"), Err(DecodeError::InvalidFormat));
    assert_eq!(Uri::decode("file:a:b:c"), Err(DecodeError::InvalidFormat));
    assert_eq!(Uri::decode("ftp:a:2f"), Err(DecodeError::InvalidFormat));
    assert_eq!(Uri::decode("File:a:2f"), Err(DecodeError::InvalidFormat));
}

#[test]
fn decode_rejects_a_path_that_is_no_hex() {
    let error = Err(DecodeError::InvalidValue("file_path".into()));
    assert_eq!(Uri::decode("file:foo-bar:xyz"), error);
    assert_eq!(Uri::decode("file:foo-bar:2f6"), error);
    assert_eq!(Uri::decode("file:foo-bar:2g"), error);
    assert_eq!(Uri::decode("file:foo-bar:é"), error);
}

#[test]
fn decode_rejects_a_path_that_is_no_text() {
    assert_eq!(
        Uri::decode("file:foo-bar:ff"),
        Err(DecodeError::InvalidValue("file_path".into()))
    );
    assert_eq!(
        Uri::decode("file:foo-bar:c328"),
        Err(DecodeError::InvalidValue("file_path".into()))
    );
}

#[test]
fn decode_undoes_encode() {
    let uris = vec![
        Uri::File(FileUri::new("foo-bar", "/home/baz")),
        Uri::File(FileUri::new("", "")),
        Uri::File(FileUri::new("m", "/with:colon/and é/日本語.mp3")),
        Uri::Jamendo(JamendoUri::new("12345")),
        Uri::Jamendo(JamendoUri::new("")),
    ];
    for uri in uris {
        assert_eq!(Uri::decode(&uri.encode()), Ok(uri));
    }
}

#[test]
fn encoding_tells_addresses_apart() {
    let a = Uri::File(FileUri::new("m", "/a"));
    let b = Uri::File(FileUri::new("m", "/b"));
    let c = Uri::Jamendo(JamendoUri::new("m"));
    assert_ne!(a.encode(), b.encode());
    assert_ne!(a.encode(), c.encode());
}

#[test]
fn path_is_written_in_lower_case_hex() {
    let uri = Uri::File(FileUri::new("m", "\u{0}\u{1}\u{f}\u{10}\u{7f}é"));
    assert_eq!(uri.encode(), "file:m:00010f107fc3a9");
    let uri = Uri::File(FileUri::new("m", "JKLMNOZ"));
    assert_eq!(uri.encode(), "file:m:4a4b4c4d4e4f5a");
}

#[test]
fn bytes_of_hex() {
    assert_eq!(from_hex(""), Some(vec![]));
    assert_eq!(from_hex("00010f10ff"), Some(vec![0, 1, 15, 16, 255]));
    assert_eq!(from_hex("00010F10Ff"), Some(vec![0, 1, 15, 16, 255]));
    assert_eq!(from_hex("0"), None);
    assert_eq!(from_hex("0g"), None);
    assert_eq!(from_hex("é0"), None);
}

#[test]
fn split_gives_the_pieces_between_separators() {
    assert_eq!(split_text("a:b:c", ':'), vec!["a", "b", "c"]);
    assert_eq!(split_text("abc", ':'), vec!["abc"]);
    assert_eq!(split_text("", ':'), vec![""]);
    assert_eq!(split_text(":", ':'), vec!["", ""]);
    assert_eq!(split_text("a::b:", ':'), vec!["a", "", "b", ""]);
    assert_eq!(split_text("é:日本", ':'), vec!["é", "日本"]);
}
