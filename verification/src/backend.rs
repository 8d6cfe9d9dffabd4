//! The configuration of a backend, and its encoding as an untyped object.
//!
//! On the wire a configuration is an object whose `type` field names the
//! variant; in memory the variant itself says so.
use vstd::prelude::*;
use vstd::string::StringExecFns;
use crate::error::{DecodeError, DecodeErrorView};
use crate::json::{json_fields, json_text, read_fields, write_fields};
use crate::object::{
    distinct_names, field_views, lemma_index_of, lemma_mapping_ignores_order,
    lemma_written_distinct, mapping, FieldView, Object, Value, ValueView,
};
use crate::text::{clone_texts, same_text, texts};

verus! {

/// How to reach one source of tracks.
#[derive(Debug, Clone, PartialEq, Eq)]
pub enum Backend {
    File(FileBackend),
    Jamendo(JamendoBackend),
    Webdav(WebdavBackend),
}

/// Directories on one machine.
#[derive(Debug, Clone, PartialEq, Eq)]
pub struct FileBackend {
    pub id: String,
    pub machine_id: String,
    pub paths: Vec<String>,
}

/// The tracks of one Jamendo account.
#[derive(Debug, Clone, PartialEq, Eq)]
pub struct JamendoBackend {
    pub id: String,
    pub user_name: String,
}

/// A WebDAV share. `webdav_url` holds the URL in its serialized form.
#[derive(Debug, Clone, PartialEq, Eq)]
pub struct WebdavBackend {
    pub id: String,
    pub webdav_url: String,
}

/// What a [`Backend`] says, with its fields as plain text.
pub enum BackendView {
    File { id: Seq<char>, machine_id: Seq<char>, paths: Seq<Seq<char>> },
    Jamendo { id: Seq<char>, user_name: Seq<char> },
    Webdav { id: Seq<char>, webdav_url: Seq<char> },
}

impl View for FileBackend {
    type V = BackendView;

    open spec fn view(&self) -> BackendView {
        BackendView::File {
            id: self.id@,
            machine_id: self.machine_id@,
            paths: texts(self.paths@),
        }
    }
}

impl View for JamendoBackend {
    type V = BackendView;

    open spec fn view(&self) -> BackendView {
        BackendView::Jamendo { id: self.id@, user_name: self.user_name@ }
    }
}

impl View for WebdavBackend {
    type V = BackendView;

    open spec fn view(&self) -> BackendView {
        BackendView::Webdav { id: self.id@, webdav_url: self.webdav_url@ }
    }
}

impl View for Backend {
    type V = BackendView;

    open spec fn view(&self) -> BackendView {
        match self {
            Backend::File(backend) => backend@,
            Backend::Jamendo(backend) => backend@,
            Backend::Webdav(backend) => backend@,
        }
    }
}

/// The serialized form of the URL that `text` parses to; `None` where
/// `text` is no well-formed absolute URL.
pub uninterp spec fn url_serialization(text: Seq<char>) -> Option<Seq<char>>;

/// `url::Url::parse`, the URL handed on as its serialization. Trusted:
/// whether a text parses, and what the URL it parses to serializes as,
/// depend on the text alone; `url_serialization` is the name of that result.
#[verifier::external_body]
fn parse_url(text: &str) -> (url: Option<String>)
    ensures
        url is Some <==> url_serialization(text@) is Some,
        url matches Some(u) ==> url_serialization(text@) == Some(u@),
{
    url::Url::parse(text).ok().map(String::from)
}

/// A field with a text in it.
pub open spec fn text_entry(name: Seq<char>, text: Seq<char>) -> FieldView {
    FieldView { name, value: ValueView::Text(text) }
}

impl BackendView {
    /// The identifier that the user gave this backend.
    pub open spec fn id(self) -> Seq<char> {
        match self {
            BackendView::File { id, .. } => id,
            BackendView::Jamendo { id, .. } => id,
            BackendView::Webdav { id, .. } => id,
        }
    }

    /// The word that stands for the variant in the `type` field.
    pub open spec fn kind(self) -> Seq<char> {
        match self {
            BackendView::File { .. } => "file"@,
            BackendView::Jamendo { .. } => "jamendo"@,
            BackendView::Webdav { .. } => "webdav"@,
        }
    }

    /// The fields of the encoding: `type`, then `id`, then the variant's
    /// own fields in the order of their declaration.
    pub open spec fn encoding(self) -> Seq<FieldView> {
        let head = seq![text_entry("type"@, self.kind()), text_entry("id"@, self.id())];
        match self {
            BackendView::File { id, machine_id, paths } => head + seq![
                text_entry("machine_id"@, machine_id),
                FieldView { name: "paths"@, value: ValueView::TextList(paths) },
            ],
            BackendView::Jamendo { id, user_name } => head + seq![
                text_entry("user_name"@, user_name),
            ],
            BackendView::Webdav { id, webdav_url } => head + seq![
                text_entry("webdav_url"@, webdav_url),
            ],
        }
    }
}

/// The text in the field `name`: the field must be there and hold a text.
pub open spec fn text_of(object: Map<Seq<char>, ValueView>, name: Seq<char>) -> Result<
    Seq<char>,
    DecodeErrorView,
> {
    if !object.contains_key(name) {
        Err(DecodeErrorView::MissingField(name))
    } else {
        match object[name] {
            ValueView::Text(text) => Ok(text),
            _ => Err(DecodeErrorView::InvalidValue(name)),
        }
    }
}

/// The texts in the field `name`: the field must be there and hold a list
/// of texts.
pub open spec fn list_of(object: Map<Seq<char>, ValueView>, name: Seq<char>) -> Result<
    Seq<Seq<char>>,
    DecodeErrorView,
> {
    if !object.contains_key(name) {
        Err(DecodeErrorView::MissingField(name))
    } else {
        match object[name] {
            ValueView::TextList(list) => Ok(list),
            _ => Err(DecodeErrorView::InvalidValue(name)),
        }
    }
}

/// What a WebDAV configuration is made of once its URL has been parsed:
/// the share at the parsed URL, or the refusal of the field.
pub open spec fn webdav_of(id: Seq<char>, url: Option<Seq<char>>) -> Result<
    BackendView,
    DecodeErrorView,
> {
    match url {
        Some(webdav_url) => Ok(BackendView::Webdav { id, webdav_url }),
        None => Err(DecodeErrorView::InvalidValue("webdav_url"@)),
    }
}

/// Whether `kind` is the word of a variant.
pub open spec fn is_kind(kind: Seq<char>) -> bool {
    kind == "file"@ || kind == "jamendo"@ || kind == "webdav"@
}

/// What decoding an object gives. `type` is read first and must name a
/// variant; then `id` is read, then the fields of that variant in the
/// order of their declaration. The first field that is absent or
/// ill-shaped decides the error. Fields that the variant does not have are
/// passed over.
pub open spec fn decoding(object: Map<Seq<char>, ValueView>) -> Result<
    BackendView,
    DecodeErrorView,
> {
    match text_of(object, "type"@) {
        Err(error) => Err(error),
        Ok(kind) => if !is_kind(kind) {
            Err(DecodeErrorView::UnknownVariant)
        } else {
            match text_of(object, "id"@) {
                Err(error) => Err(error),
                Ok(id) => if kind == "file"@ {
                    match (text_of(object, "machine_id"@), list_of(object, "paths"@)) {
                        (Err(error), _) => Err(error),
                        (Ok(_), Err(error)) => Err(error),
                        (Ok(machine_id), Ok(paths)) => Ok(
                            BackendView::File { id, machine_id, paths },
                        ),
                    }
                } else if kind == "jamendo"@ {
                    match text_of(object, "user_name"@) {
                        Err(error) => Err(error),
                        Ok(user_name) => Ok(BackendView::Jamendo { id, user_name }),
                    }
                } else {
                    match text_of(object, "webdav_url"@) {
                        Err(error) => Err(error),
                        Ok(text) => webdav_of(id, url_serialization(text)),
                    }
                },
            }
        },
    }
}

/// The view of what [`Backend::decode`] returns.
pub open spec fn decoded(result: Result<Backend, DecodeError>) -> Result<
    BackendView,
    DecodeErrorView,
> {
    match result {
        Ok(backend) => Ok(backend@),
        Err(error) => Err(error@),
    }
}

/// The text in the field `name` of `object`.
fn text_field(object: &Object, name: &str) -> (result: Result<String, DecodeError>)
    ensures
        match result {
            Ok(text) => text_of(object@, name@) == Ok::<Seq<char>, DecodeErrorView>(text@),
            Err(error) => text_of(object@, name@) == Err::<Seq<char>, DecodeErrorView>(error@),
        },
{
    match object.get(name) {
        None => Err(DecodeError::MissingField(name.to_owned())),
        Some(Value::Text(text)) => Ok(text.clone()),
        Some(_) => Err(DecodeError::InvalidValue(name.to_owned())),
    }
}

/// The texts in the field `name` of `object`.
fn list_field(object: &Object, name: &str) -> (result: Result<Vec<String>, DecodeError>)
    ensures
        match result {
            Ok(list) => list_of(object@, name@) == Ok::<Seq<Seq<char>>, DecodeErrorView>(
                texts(list@),
            ),
            Err(error) => list_of(object@, name@) == Err::<Seq<Seq<char>>, DecodeErrorView>(
                error@,
            ),
        },
{
    match object.get(name) {
        None => Err(DecodeError::MissingField(name.to_owned())),
        Some(Value::TextList(list)) => Ok(clone_texts(list)),
        Some(_) => Err(DecodeError::InvalidValue(name.to_owned())),
    }
}

impl Backend {
    /// The WebDAV configuration `id` whose URL text parsed to `url`, or
    /// did not parse.
    pub fn webdav(id: String, url: Option<String>) -> (result: Result<Backend, DecodeError>)
        ensures
            decoded(result) == webdav_of(
                id@,
                match url {
                    Some(u) => Some(u@),
                    None => None,
                },
            ),
    {
        match url {
            Some(webdav_url) => Ok(Backend::Webdav(WebdavBackend { id, webdav_url })),
            None => Err(DecodeError::InvalidValue(String::from_str("webdav_url"))),
        }
    }

    /// The object that encodes this configuration.
    pub fn encode(&self) -> (object: Object)
        ensures
            object.entries() == self@.encoding(),
    {
        let mut object = Object::new();
        proof {
            lemma_names_differ();
        }
        match self {
            Backend::File(backend) => {
                object.insert(String::from_str("type"), Value::Text(String::from_str("file")));
                proof {
                    lemma_index_of(object.entries(), "id"@, 1);
                }
                object.insert(String::from_str("id"), Value::Text(backend.id.clone()));
                proof {
                    lemma_index_of(object.entries(), "machine_id"@, 2);
                }
                object.insert(
                    String::from_str("machine_id"),
                    Value::Text(backend.machine_id.clone()),
                );
                proof {
                    lemma_index_of(object.entries(), "paths"@, 3);
                }
                object.insert(
                    String::from_str("paths"),
                    Value::TextList(clone_texts(&backend.paths)),
                );
                assert(object.entries() =~= self@.encoding());
            },
            Backend::Jamendo(backend) => {
                object.insert(String::from_str("type"), Value::Text(String::from_str("jamendo")));
                proof {
                    lemma_index_of(object.entries(), "id"@, 1);
                }
                object.insert(String::from_str("id"), Value::Text(backend.id.clone()));
                proof {
                    lemma_index_of(object.entries(), "user_name"@, 2);
                }
                object.insert(
                    String::from_str("user_name"),
                    Value::Text(backend.user_name.clone()),
                );
                assert(object.entries() =~= self@.encoding());
            },
            Backend::Webdav(backend) => {
                object.insert(String::from_str("type"), Value::Text(String::from_str("webdav")));
                proof {
                    lemma_index_of(object.entries(), "id"@, 1);
                }
                object.insert(String::from_str("id"), Value::Text(backend.id.clone()));
                proof {
                    lemma_index_of(object.entries(), "webdav_url"@, 2);
                }
                object.insert(
                    String::from_str("webdav_url"),
                    Value::Text(backend.webdav_url.clone()),
                );
                assert(object.entries() =~= self@.encoding());
            },
        }
        object
    }

    /// The JSON text that encodes this configuration.
    pub fn to_json(&self) -> (text: String)
        ensures
            text@ == json_text(self@.encoding()),
    {
        let object = self.encode();
        write_fields(object.fields())
    }

    /// The configuration that the JSON text `text` encodes: that of the
    /// object that `text` is, and `InvalidFormat` where it is none.
    pub fn from_json(text: &str) -> (result: Result<Backend, DecodeError>)
        ensures
            decoded(result) == (match json_fields(text@) {
                Some(fields) => decoding(mapping(fields)),
                None => Err(DecodeErrorView::InvalidFormat),
            }),
    {
        match read_fields(text) {
            Some(fields) => {
                proof {
                    lemma_written_distinct(field_views(fields@));
                }
                let object = Object::from_fields(fields);
                Backend::decode(&object)
            },
            None => Err(DecodeError::InvalidFormat),
        }
    }

    /// The configuration that `object` encodes, or why it encodes none.
    pub fn decode(object: &Object) -> (result: Result<Backend, DecodeError>)
        ensures
            decoded(result) == decoding(object@),
    {
        let kind = match text_field(object, "type") {
            Ok(kind) => kind,
            Err(error) => { return Err(error); },
        };
        let is_file = same_text(kind.as_str(), "file");
        let is_jamendo = same_text(kind.as_str(), "jamendo");
        let is_webdav = same_text(kind.as_str(), "webdav");
        if !is_file && !is_jamendo && !is_webdav {
            return Err(DecodeError::UnknownVariant);
        }
        let id = match text_field(object, "id") {
            Ok(id) => id,
            Err(error) => { return Err(error); },
        };
        if is_file {
            let machine_id = match text_field(object, "machine_id") {
                Ok(machine_id) => machine_id,
                Err(error) => { return Err(error); },
            };
            let paths = match list_field(object, "paths") {
                Ok(paths) => paths,
                Err(error) => { return Err(error); },
            };
            Ok(Backend::File(FileBackend { id, machine_id, paths }))
        } else if is_jamendo {
            let user_name = match text_field(object, "user_name") {
                Ok(user_name) => user_name,
                Err(error) => { return Err(error); },
            };
            Ok(Backend::Jamendo(JamendoBackend { id, user_name }))
        } else {
            let text = match text_field(object, "webdav_url") {
                Ok(text) => text,
                Err(error) => { return Err(error); },
            };
            Backend::webdav(id, parse_url(text.as_str()))
        }
    }
}

/// Whether `text` is a URL in serialized form: a text that parses, and to a
/// URL that is written as `text` itself. A WebDAV configuration that holds
/// such a URL is read back from its encoding as it is.
pub fn is_serialized_url(text: &str) -> (yes: bool)
    ensures
        yes == (url_serialization(text@) == Some(text@)),
{
    match parse_url(text) {
        Some(url) => same_text(url.as_str(), text),
        None => false,
    }
}

/// The field names of the encoding differ from one another, and so do the
/// words for the variants.
pub proof fn lemma_names_differ()
    ensures
        "type"@ != "id"@,
        "machine_id"@ != "type"@,
        "machine_id"@ != "id"@,
        "paths"@ != "type"@,
        "paths"@ != "id"@,
        "paths"@ != "machine_id"@,
        "user_name"@ != "type"@,
        "user_name"@ != "id"@,
        "webdav_url"@ != "type"@,
        "webdav_url"@ != "id"@,
        "file"@ != "jamendo"@,
        "file"@ != "webdav"@,
        "jamendo"@ != "webdav"@,
{
    reveal_strlit("type");
    reveal_strlit("id");
    reveal_strlit("machine_id");
    reveal_strlit("paths");
    reveal_strlit("user_name");
    reveal_strlit("webdav_url");
    reveal_strlit("file");
    reveal_strlit("jamendo");
    reveal_strlit("webdav");
    assert("type"@.len() == 4 && "id"@.len() == 2 && "machine_id"@.len() == 10);
    assert("paths"@.len() == 5 && "user_name"@.len() == 9 && "webdav_url"@.len() == 10);
    assert("file"@.len() == 4 && "jamendo"@.len() == 7 && "webdav"@.len() == 6);
}

/// Decoding undoes encoding: the object that encodes a configuration
/// decodes to that configuration. For a WebDAV share this holds where the
/// URL it holds is in serialized form, that is, parses to itself.
pub proof fn lemma_decode_encode(backend: BackendView)
    requires
        backend matches BackendView::Webdav { webdav_url, .. } ==> url_serialization(webdav_url)
            == Some(webdav_url),
    ensures
        decoding(mapping(backend.encoding())) == Ok::<BackendView, DecodeErrorView>(backend),
{
    lemma_names_differ();
    let fields = backend.encoding();
    let object = mapping(fields);
    lemma_index_of(fields, "type"@, 0);
    lemma_index_of(fields, "id"@, 1);
    assert(text_of(object, "type"@) == Ok::<Seq<char>, DecodeErrorView>(backend.kind()));
    assert(text_of(object, "id"@) == Ok::<Seq<char>, DecodeErrorView>(backend.id()));
    match backend {
        BackendView::File { id, machine_id, paths } => {
            lemma_index_of(fields, "machine_id"@, 2);
            lemma_index_of(fields, "paths"@, 3);
        },
        BackendView::Jamendo { id, user_name } => {
            lemma_index_of(fields, "user_name"@, 2);
        },
        BackendView::Webdav { id, webdav_url } => {
            lemma_index_of(fields, "webdav_url"@, 2);
        },
    }
}

/// Decoding does not depend on the order in which an object holds its
/// fields: objects that hold the same fields decode alike.
pub proof fn lemma_decoding_ignores_order(a: Seq<FieldView>, b: Seq<FieldView>)
    requires
        distinct_names(a),
        distinct_names(b),
        forall|f: FieldView| a.contains(f) <==> b.contains(f),
    ensures
        decoding(mapping(a)) == decoding(mapping(b)),
{
    lemma_mapping_ignores_order(a, b);
}

} // verus!
