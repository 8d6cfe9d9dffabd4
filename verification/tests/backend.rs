use music_catalog::backend::{
    is_serialized_url, Backend, FileBackend, JamendoBackend, WebdavBackend,
};
use music_catalog::error::DecodeError;
use music_catalog::object::{Field, Object, Value};
use url::Url;

#[test]
fn file_backend() {
    let uri = Backend::File(FileBackend {
        id: "123".into(),
        machine_id: "foo-bar".into(),
        paths: Vec::new(),
    });
    assert_eq!(uri.encode().get("type"), Some(&Value::Text("file".into())));
    let uri_str = uri.to_json();
    assert_eq!(uri_str,
               "{\"type\":\"file\",\"id\":\"123\",\"machine_id\":\"foo-bar\",\"paths\":[]}");
    assert_eq!(Backend::from_json(&uri_str).unwrap(), uri);
}

#[test]
fn jamendo_backend() {
    let uri = Backend::Jamendo(JamendoBackend {
        id: "123".into(),
        user_name: "foo".into(),
    });
    assert_eq!(uri.encode().get("type"), Some(&Value::Text("jamendo".into())));
    let uri_str = uri.to_json();
    assert_eq!(uri_str,
               "{\"type\":\"jamendo\",\"id\":\"123\",\"user_name\":\"foo\"}");
    assert_eq!(Backend::from_json(&uri_str).unwrap(), uri);
}

#[test]
fn webdav_backend() {
    let uri = Backend::Webdav(WebdavBackend {
        id: "123".into(),
        webdav_url: Url::parse("http://example.com").unwrap().into(),
    });
    assert_eq!(uri.encode().get("type"), Some(&Value::Text("webdav".into())));
    let uri_str = uri.to_json();
    assert_eq!(uri_str,
               "{\"type\":\"webdav\",\"id\":\"123\",\"webdav_url\":\"http://example.com/\"}");
    assert_eq!(Backend::from_json(&uri_str).unwrap(), uri);
}

#[test]
fn decode_reports_missing_id() {
    let mut object = Object::new();
    object.insert("type".into(), Value::Text("file".into()));
    object.insert("machine_id".into(), Value::Text("foo-bar".into()));
    object.insert("paths".into(), Value::TextList(Vec::new()));
    assert_eq!(Backend::decode(&object), Err(DecodeError::MissingField("id".into())));
    assert_eq!(
        Backend::from_json("{\"type\":\"jamendo\",\"user_name\":\"foo\"}"),
        Err(DecodeError::MissingField("id".into()))
    );
}

#[test]
fn decode_reports_unknown_variant() {
    assert_eq!(
        Backend::from_json("{\"type\":\"ftp\",\"id\":\"123\"}"),
        Err(DecodeError::UnknownVariant)
    );
}

#[test]
fn decode_looks_at_the_type_before_any_other_field() {
    assert_eq!(Backend::from_json("{\"type\":\"ftp\"}"), Err(DecodeError::UnknownVariant));
    assert_eq!(
        Backend::from_json("{\"type\":\"ftp\",\"id\":7}"),
        Err(DecodeError::UnknownVariant)
    );
    assert_eq!(Backend::from_json("{\"type\":\"File\"}"), Err(DecodeError::UnknownVariant));
    let mut object = Object::new();
    object.insert("type".into(), Value::Text("ftp".into()));
    assert_eq!(Backend::decode(&object), Err(DecodeError::UnknownVariant));
}

#[test]
fn serialized_urls_are_told_from_other_texts() {
    assert!(is_serialized_url("http://example.com/"));
    assert!(is_serialized_url("https://example.com/dav/music?x=1"));
    assert!(!is_serialized_url("http://example.com"));
    assert!(!is_serialized_url("HTTP://example.com/"));
    assert!(!is_serialized_url("not a url"));
    assert!(!is_serialized_url(""));
}

#[test]
fn decode_reports_the_first_fault() {
    assert_eq!(Backend::from_json("{}"), Err(DecodeError::MissingField("type".into())));
    assert_eq!(
        Backend::from_json("{\"type\":1,\"id\":\"123\"}"),
        Err(DecodeError::InvalidValue("type".into()))
    );
    assert_eq!(
        Backend::from_json("{\"type\":\"file\"}"),
        Err(DecodeError::MissingField("id".into()))
    );
    assert_eq!(
        Backend::from_json("{\"type\":\"file\",\"id\":[]}"),
        Err(DecodeError::InvalidValue("id".into()))
    );
    assert_eq!(
        Backend::from_json("{\"type\":\"file\",\"id\":\"123\",\"paths\":[]}"),
        Err(DecodeError::MissingField("machine_id".into()))
    );
    assert_eq!(
        Backend::from_json("{\"type\":\"file\",\"id\":\"123\",\"machine_id\":null,\"paths\":[]}"),
        Err(DecodeError::InvalidValue("machine_id".into()))
    );
    assert_eq!(
        Backend::from_json("{\"type\":\"file\",\"id\":\"123\",\"machine_id\":\"m\"}"),
        Err(DecodeError::MissingField("paths".into()))
    );
    assert_eq!(
        Backend::from_json("{\"type\":\"file\",\"id\":\"123\",\"machine_id\":\"m\",\"paths\":[1]}"),
        Err(DecodeError::InvalidValue("paths".into()))
    );
    assert_eq!(
        Backend::from_json("{\"type\":\"file\",\"id\":\"123\",\"machine_id\":\"m\",\"paths\":\"/a\"}"),
        Err(DecodeError::InvalidValue("paths".into()))
    );
    assert_eq!(
        Backend::from_json("{\"type\":\"jamendo\",\"id\":\"123\"}"),
        Err(DecodeError::MissingField("user_name".into()))
    );
    assert_eq!(
        Backend::from_json("{\"type\":\"jamendo\",\"id\":\"123\",\"user_name\":true}"),
        Err(DecodeError::InvalidValue("user_name".into()))
    );
    assert_eq!(
        Backend::from_json("{\"type\":\"webdav\",\"id\":\"123\"}"),
        Err(DecodeError::MissingField("webdav_url".into()))
    );
    assert_eq!(
        Backend::from_json("{\"type\":\"webdav\",\"id\":\"123\",\"webdav_url\":{}}"),
        Err(DecodeError::InvalidValue("webdav_url".into()))
    );
    assert_eq!(
        Backend::from_json("{\"type\":\"webdav\",\"id\":\"123\",\"webdav_url\":\"not a url\"}"),
        Err(DecodeError::InvalidValue("webdav_url".into()))
    );
}

#[test]
fn decode_rejects_text_that_is_no_object() {
    assert_eq!(Backend::from_json(""), Err(DecodeError::InvalidFormat));
    assert_eq!(Backend::from_json("[]"), Err(DecodeError::InvalidFormat));
    assert_eq!(Backend::from_json("\"file\""), Err(DecodeError::InvalidFormat));
    assert_eq!(Backend::from_json("{\"type\":\"file\""), Err(DecodeError::InvalidFormat));
}

#[test]
fn decode_does_not_mind_the_order_of_fields() {
    let expected = Backend::File(FileBackend {
        id: "123".into(),
        machine_id: "foo-bar".into(),
        paths: vec!["/a".into(), "/b".into()],
    });
    assert_eq!(
        Backend::from_json(
            "{\"paths\":[\"/a\",\"/b\"],\"machine_id\":\"foo-bar\",\"id\":\"123\",\"type\":\"file\"}"
        ),
        Ok(expected.clone())
    );
    assert_eq!(
        Backend::from_json(
            "{\"extra\":1,\"id\":\"123\",\"type\":\"file\",\"paths\":[\"/a\",\"/b\"],\"machine_id\":\"foo-bar\"}"
        ),
        Ok(expected)
    );
}

#[test]
fn decode_normalizes_the_url() {
    assert_eq!(
        Backend::from_json("{\"type\":\"webdav\",\"id\":\"1\",\"webdav_url\":\"HTTP://Example.com\"}"),
        Ok(Backend::Webdav(WebdavBackend { id: "1".into(), webdav_url: "http://example.com/".into() }))
    );
    assert_eq!(
        Backend::webdav("1".into(), None),
        Err(DecodeError::InvalidValue("webdav_url".into()))
    );
    assert_eq!(
        Backend::webdav("1".into(), Some("http://example.com/".into())),
        Ok(Backend::Webdav(WebdavBackend { id: "1".into(), webdav_url: "http://example.com/".into() }))
    );
}

#[test]
fn encode_writes_the_fields_in_order() {
    let backend = Backend::File(FileBackend {
        id: "123".into(),
        machine_id: "foo-bar".into(),
        paths: vec!["/a".into(), "/b".into()],
    });
    let object = backend.encode();
    let names: Vec<&str> = object.fields().iter().map(|f| f.name.as_str()).collect();
    assert_eq!(names, vec!["type", "id", "machine_id", "paths"]);
    assert_eq!(object.get("paths"), Some(&Value::TextList(vec!["/a".into(), "/b".into()])));
    assert_eq!(object.get("user_name"), None);
    assert_eq!(
        backend.to_json(),
        "{\"type\":\"file\",\"id\":\"123\",\"machine_id\":\"foo-bar\",\"paths\":[\"/a\",\"/b\"]}"
    );
    assert_eq!(Backend::decode(&object), Ok(backend));
}

#[test]
fn object_keeps_one_field_of_a_name() {
    let mut object = Object::new();
    assert_eq!(object.len(), 0);
    object.insert("a".into(), Value::Text("1".into()));
    object.insert("b".into(), Value::Other);
    object.insert("a".into(), Value::Text("2".into()));
    assert_eq!(object.len(), 2);
    assert_eq!(object.get("a"), Some(&Value::Text("2".into())));
    assert_eq!(object.get("b"), Some(&Value::Other));
    assert_eq!(object.get("c"), None);
    let names: Vec<&str> = object.fields().iter().map(|f| f.name.as_str()).collect();
    assert_eq!(names, vec!["a", "b"]);
    let again = Object::from_fields(vec![
        Field { name: "a".into(), value: Value::Text("1".into()) },
        Field { name: "b".into(), value: Value::Other },
        Field { name: "a".into(), value: Value::Text("2".into()) },
    ]);
    assert_eq!(again, object);
}
