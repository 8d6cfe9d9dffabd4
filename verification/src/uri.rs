//! The address of a track: enough to route a playback request back to the
//! backend that holds the track, with a text encoding that can be parsed
//! back.
use vstd::prelude::*;
use vstd::string::StringExecFns;
use vstd::utf8::{decode_utf8, encode_utf8, valid_utf8};
use crate::base16;
use crate::base16::{
    from_hex, hex_text, is_hex_text, lemma_hex_text_digits, lemma_unhex_hex_text, unhex,
};
use crate::error::{DecodeError, DecodeErrorView};
use crate::text::{
    join, lemma_join_split, lemma_split_head, lemma_split_none, lemma_split_pieces, same_text,
    split, split_text, texts,
};

verus! {

/// The address of a track, by the backend that holds it.
#[derive(Debug, Clone, PartialEq, Eq)]
pub enum Uri {
    File(FileUri),
    Jamendo(JamendoUri),
}

/// A track on a filesystem: the machine that can reach it and the path on
/// that machine. The machine identifier must not hold a `:`.
#[derive(Debug, Clone, PartialEq, Eq)]
pub struct FileUri {
    pub machine_id: String,
    pub file_path: String,
}

/// A track in the Jamendo catalog. The identifier must not hold a `:`.
#[derive(Debug, Clone, PartialEq, Eq)]
pub struct JamendoUri {
    pub jamendo_id: String,
}

/// What a [`Uri`] says, with its fields as plain text.
pub enum UriView {
    File { machine_id: Seq<char>, file_path: Seq<char> },
    Jamendo { jamendo_id: Seq<char> },
}

impl View for FileUri {
    type V = UriView;

    open spec fn view(&self) -> UriView {
        UriView::File { machine_id: self.machine_id@, file_path: self.file_path@ }
    }
}

impl View for JamendoUri {
    type V = UriView;

    open spec fn view(&self) -> UriView {
        UriView::Jamendo { jamendo_id: self.jamendo_id@ }
    }
}

impl View for Uri {
    type V = UriView;

    open spec fn view(&self) -> UriView {
        match self {
            Uri::File(uri) => uri@,
            Uri::Jamendo(uri) => uri@,
        }
    }
}

impl UriView {
    /// Whether the fields that the encoding writes as they are hold no `:`.
    /// Only such an address can be read back from its encoding.
    pub open spec fn is_plain(self) -> bool {
        match self {
            UriView::File { machine_id, file_path } => !machine_id.contains(':'),
            UriView::Jamendo { jamendo_id } => !jamendo_id.contains(':'),
        }
    }

    /// The text encoding: `file:`, the machine identifier, `:` and the path's
    /// bytes in hexadecimal; or `jamendo:` and the identifier.
    pub open spec fn encoding(self) -> Seq<char> {
        match self {
            UriView::File { machine_id, file_path } => "file:"@ + machine_id + ":"@ + hex_text(
                encode_utf8(file_path),
            ),
            UriView::Jamendo { jamendo_id } => "jamendo:"@ + jamendo_id,
        }
    }
}

/// Whether `text` is what the encoding writes for a path: hexadecimal
/// text, in the lower-case digits that encoding gives, of bytes that are
/// well-formed UTF-8.
pub open spec fn is_path_text(text: Seq<char>) -> bool {
    &&& is_hex_text(text)
    &&& hex_text(unhex(text)) == text
    &&& valid_utf8(unhex(text))
}

/// What decoding `text` gives: the text is split at each `:`, the first
/// piece selects the variant, and the number of pieces must be the
/// variant's. The last piece of a file address must be what the encoding
/// writes for some path.
pub open spec fn decoding(text: Seq<char>) -> Result<UriView, DecodeErrorView> {
    let parts = split(text, ':');
    if parts.len() == 3 && parts[0] == "file"@ {
        if is_path_text(parts[2]) {
            Ok(UriView::File { machine_id: parts[1], file_path: decode_utf8(unhex(parts[2])) })
        } else {
            Err(DecodeErrorView::InvalidValue("file_path"@))
        }
    } else if parts.len() == 2 && parts[0] == "jamendo"@ {
        Ok(UriView::Jamendo { jamendo_id: parts[1] })
    } else {
        Err(DecodeErrorView::InvalidFormat)
    }
}

/// The view of what [`Uri::decode`] returns.
pub open spec fn decoded(result: Result<Uri, DecodeError>) -> Result<UriView, DecodeErrorView> {
    match result {
        Ok(uri) => Ok(uri@),
        Err(error) => Err(error@),
    }
}

/// `std::string::FromUtf8Error`: why `String::from_utf8` failed. Nothing
/// is read from it.
#[verifier::external_type_specification]
#[verifier::external_body]
pub struct ExFromUtf8Error(std::string::FromUtf8Error);

/// `String::from_utf8`. Trusted: it succeeds exactly on well-formed UTF-8,
/// and the string then holds the characters that the bytes encode.
#[verifier::external_body]
fn string_from_utf8(bytes: Vec<u8>) -> (text: Result<String, std::string::FromUtf8Error>)
    ensures
        text is Ok <==> valid_utf8(bytes@),
        text matches Ok(t) ==> t@ == decode_utf8(bytes@),
{
    String::from_utf8(bytes)
}

impl FileUri {
    /// The address of the file at `file_path` on the machine `machine_id`.
    pub fn new(machine_id: &str, file_path: &str) -> (uri: Self)
        ensures
            uri@ == (UriView::File { machine_id: machine_id@, file_path: file_path@ }),
    {
        FileUri { machine_id: machine_id.to_owned(), file_path: file_path.to_owned() }
    }
}

impl JamendoUri {
    /// The address of the Jamendo track `jamendo_id`.
    pub fn new(jamendo_id: &str) -> (uri: Self)
        ensures
            uri@ == (UriView::Jamendo { jamendo_id: jamendo_id@ }),
    {
        JamendoUri { jamendo_id: jamendo_id.to_owned() }
    }
}

impl Uri {
    /// The text encoding of this address.
    pub fn encode(&self) -> (text: String)
        ensures
            text@ == self@.encoding(),
    {
        match self {
            Uri::File(uri) => {
                let mut text = String::from_str("file:");
                text.append(uri.machine_id.as_str());
                text.append(":");
                let path = base16::encode(uri.file_path.as_str().as_bytes());
                text.append(path.as_str());
                text
            },
            Uri::Jamendo(uri) => {
                let mut text = String::from_str("jamendo:");
                text.append(uri.jamendo_id.as_str());
                text
            },
        }
    }

    /// The address that `text` encodes, or why it encodes none.
    pub fn decode(text: &str) -> (result: Result<Uri, DecodeError>)
        ensures
            decoded(result) == decoding(text@),
    {
        let parts = split_text(text, ':');
        assert(parts@.len() == texts(parts@).len());
        if parts.len() == 3 && same_text(parts[0].as_str(), "file") {
            assert(texts(parts@)[0] == parts@[0]@);
            assert(texts(parts@)[1] == parts@[1]@);
            assert(texts(parts@)[2] == parts@[2]@);
            let bytes = match from_hex(parts[2].as_str()) {
                Some(bytes) => bytes,
                None => { return Err(DecodeError::InvalidValue(String::from_str("file_path"))); },
            };
            let written = base16::encode(bytes.as_slice());
            if !same_text(written.as_str(), parts[2].as_str()) {
                return Err(DecodeError::InvalidValue(String::from_str("file_path")));
            }
            match string_from_utf8(bytes) {
                Ok(file_path) => Ok(
                    Uri::File(FileUri { machine_id: parts[1].clone(), file_path }),
                ),
                Err(_) => Err(DecodeError::InvalidValue(String::from_str("file_path"))),
            }
        } else if parts.len() == 2 && same_text(parts[0].as_str(), "jamendo") {
            assert(texts(parts@)[0] == parts@[0]@);
            assert(texts(parts@)[1] == parts@[1]@);
            Ok(Uri::Jamendo(JamendoUri { jamendo_id: parts[1].clone() }))
        } else {
            assert(parts@.len() > 0 ==> texts(parts@)[0] == parts@[0]@);
            Err(DecodeError::InvalidFormat)
        }
    }
}

/// Decoding undoes encoding: an address whose plain fields hold no `:` is
/// read back from its encoding as it was.
pub proof fn lemma_decode_encode(uri: UriView)
    requires
        uri.is_plain(),
    ensures
        decoding(uri.encoding()) == Ok::<UriView, DecodeErrorView>(uri),
{
    reveal_strlit("file:");
    reveal_strlit("file");
    reveal_strlit("jamendo:");
    reveal_strlit("jamendo");
    reveal_strlit(":");
    match uri {
        UriView::File { machine_id, file_path } => {
            let bytes = encode_utf8(file_path);
            let path = hex_text(bytes);
            assert forall|j: int| 0 <= j < path.len() implies path[j] != ':' by {
                lemma_hex_text_digits(bytes, j);
            }
            lemma_split_none(path, ':');
            lemma_split_head(machine_id, path, ':');
            lemma_split_head("file"@, machine_id + seq![':'] + path, ':');
            assert(uri.encoding() =~= "file"@ + seq![':'] + (machine_id + seq![':'] + path));
            assert(split(uri.encoding(), ':') =~= seq!["file"@, machine_id, path]);
            lemma_unhex_hex_text(bytes);
            vstd::utf8::encode_utf8_valid_utf8(file_path);
            vstd::utf8::encode_utf8_decode_utf8(file_path);
        },
        UriView::Jamendo { jamendo_id } => {
            lemma_split_none(jamendo_id, ':');
            lemma_split_head("jamendo"@, jamendo_id, ':');
            assert(uri.encoding() =~= "jamendo"@ + seq![':'] + jamendo_id);
            assert(split(uri.encoding(), ':') =~= seq!["jamendo"@, jamendo_id]);
        },
    }
}

/// What decoding gives can be encoded and read back: the plain fields of
/// a decoded address hold no `:`.
pub proof fn lemma_decoded_is_plain(text: Seq<char>)
    ensures
        decoding(text) matches Ok(uri) ==> uri.is_plain(),
{
    if decoding(text) is Ok {
        lemma_split_pieces(text, ':', 1);
    }
}

/// Encoding undoes decoding: a text that decodes is the encoding of what
/// it decodes to. So the decoder takes the texts that the encoder writes,
/// and no others.
pub proof fn lemma_encode_decode(text: Seq<char>)
    ensures
        decoding(text) matches Ok(uri) ==> uri.encoding() == text,
{
    reveal_strlit("file:");
    reveal_strlit("file");
    reveal_strlit("jamendo:");
    reveal_strlit("jamendo");
    reveal_strlit(":");
    let parts = split(text, ':');
    lemma_join_split(text, ':');
    match decoding(text) {
        Ok(UriView::File { machine_id, file_path }) => {
            let tail = parts.drop_first();
            assert(join(tail.drop_first(), ':') == parts[2]);
            assert(join(tail, ':') == parts[1] + seq![':'] + parts[2]);
            assert(text == parts[0] + seq![':'] + join(tail, ':'));
            vstd::utf8::decode_utf8_encode_utf8(unhex(parts[2]));
            assert(UriView::File { machine_id, file_path }.encoding() =~= text);
        },
        Ok(UriView::Jamendo { jamendo_id }) => {
            assert(join(parts.drop_first(), ':') == parts[1]);
            assert(UriView::Jamendo { jamendo_id }.encoding() =~= text);
        },
        Err(_) => {},
    }
}

/// The encoding is injective: two addresses whose plain fields hold no `:`
/// and that encode to the same text are the same address.
pub proof fn lemma_encoding_injective(a: UriView, b: UriView)
    requires
        a.is_plain(),
        b.is_plain(),
        a.encoding() == b.encoding(),
    ensures
        a == b,
{
    lemma_decode_encode(a);
    lemma_decode_encode(b);
}

} // verus!
