//! The owner of a catalog, and where that catalog is kept.
use vstd::prelude::*;
use vstd::string::StringExecFns;
use vstd::utf8::encode_utf8;
use crate::backend::Backend;
use crate::base16;
use crate::base16::{hex_text, lemma_unhex_hex_text};

verus! {

/// A user: a name, and what the user's profile holds beside it.
#[derive(Debug, Clone, PartialEq, Eq)]
pub struct User {
    pub name: String,
    pub email: Option<String>,
    pub backends: Option<Vec<Backend>>,
}

/// Where the catalog of the user called `name` is kept: the tag `userdb-`
/// and the bytes of the name in hexadecimal.
pub open spec fn location(name: Seq<char>) -> Seq<char> {
    "userdb-"@ + hex_text(encode_utf8(name))
}

impl User {
    /// Where this user's catalog is kept.
    pub fn db_name(&self) -> (name: String)
        ensures
            name@ == location(self.name@),
    {
        let mut name = String::from_str("userdb-");
        let digits = base16::encode(self.name.as_str().as_bytes());
        name.append(digits.as_str());
        name
    }
}

/// Two users share a catalog only if they share a name.
pub proof fn lemma_location_injective(a: Seq<char>, b: Seq<char>)
    requires
        location(a) == location(b),
    ensures
        a == b,
{
    let tag = "userdb-"@;
    let x = hex_text(encode_utf8(a));
    let y = hex_text(encode_utf8(b));
    assert(x =~= (tag + x).skip(tag.len() as int));
    assert(y =~= (tag + y).skip(tag.len() as int));
    lemma_unhex_hex_text(encode_utf8(a));
    lemma_unhex_hex_text(encode_utf8(b));
    vstd::utf8::encode_utf8_decode_utf8(a);
    vstd::utf8::encode_utf8_decode_utf8(b);
}

} // verus!
