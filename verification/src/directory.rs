//! Named entries in a store of keys and texts.
//!
//! A directory is a part of such a store: the entries whose keys start
//! with its prefix. The store itself is kept by the host. Entries hold
//! text; bytes are kept as base64 text.
use crate::text::{chars_of, text_from};
use base64::engine::general_purpose::STANDARD_NO_PAD;
use base64::Engine;
use vstd::prelude::*;
use vstd::string::StringExecFns;

verus! {

/// The error of the base64 decoder. Nothing of it is looked at.
#[verifier::external_type_specification]
#[verifier::external_body]
pub struct ExDecodeError(base64::DecodeError);

/// The standard base64 text without padding for a sequence of bytes.
pub uninterp spec fn base64_text(data: Seq<u8>) -> Seq<char>;

/// The bytes that a text stands for as standard base64 without padding,
/// if it stands for any.
pub uninterp spec fn base64_bytes(text: Seq<char>) -> Option<Seq<u8>>;

/// `Engine::encode` of `base64` with the engine `STANDARD_NO_PAD`: the
/// bytes as base64 text. It panics only where the length of the text
/// does not fit the machine.
#[verifier::external_body]
fn base64_encode(data: &[u8]) -> (text: String)
    requires
        data@.len() / 3 * 4 + 3 <= usize::MAX,
    ensures
        text@ == base64_text(data@),
{
    STANDARD_NO_PAD.encode(data)
}

/// `Engine::decode` of `base64` with the engine `STANDARD_NO_PAD`: the
/// bytes that the text stands for, or an error if it stands for none.
#[verifier::external_body]
fn base64_decode(text: &str) -> (data: Result<Vec<u8>, base64::DecodeError>)
    ensures
        match data {
            Ok(bytes) => base64_bytes(text@) == Some(bytes@),
            Err(_) => base64_bytes(text@) is None,
        },
{
    STANDARD_NO_PAD.decode(text)
}

/// Why an entry could not be read as bytes.
#[derive(Copy, Clone, PartialEq, Eq, Structural, Hash, Debug)]
pub enum DirectoryError {
    /// The text of the entry is no base64.
    BadData,
}

/// The name of the entry with key `key` in the directory with prefix
/// `prefix`, if the key belongs to the directory.
pub open spec fn entry_name(prefix: Seq<char>, key: Seq<char>) -> Option<Seq<char>> {
    if prefix.is_prefix_of(key) {
        Some(key.skip(prefix.len() as int))
    } else {
        None
    }
}

/// The names of the entries of a directory among the first `n` of `keys`,
/// in the order of the keys.
pub open spec fn entry_names(prefix: Seq<char>, keys: Seq<String>, n: int) -> Seq<Seq<char>>
    decreases n,
{
    if n <= 0 {
        Seq::empty()
    } else {
        match entry_name(prefix, keys[n - 1]@) {
            Some(name) => entry_names(prefix, keys, n - 1).push(name),
            None => entry_names(prefix, keys, n - 1),
        }
    }
}

/// The texts of a sequence of strings.
pub open spec fn texts(names: Seq<String>) -> Seq<Seq<char>> {
    Seq::new(names.len(), |i: int| names[i]@)
}

/// A directory of entries in a store of keys and texts.
#[derive(Debug)]
pub struct Directory(String);

impl View for Directory {
    type V = Seq<char>;

    /// The prefix of the keys of the entries.
    closed spec fn view(&self) -> Seq<char> {
        self.0@
    }
}

impl Directory {
    /// The directory for the settings of an application.
    pub fn config(application_name: &str) -> (directory: Self)
        ensures
            directory@ == application_name@ + "/config/"@,
    {
        let mut prefix = String::from_str(application_name);
        prefix.append("/config/");
        Directory(prefix)
    }

    /// The directory for the data of an application.
    pub fn data(application_name: &str) -> (directory: Self)
        ensures
            directory@ == application_name@ + "/data/"@,
    {
        let mut prefix = String::from_str(application_name);
        prefix.append("/data/");
        Directory(prefix)
    }

    /// The key under which the store keeps the entry `name`.
    pub fn key(&self, name: &str) -> (key: String)
        ensures
            key@ == self@ + name@,
    {
        let mut key = self.0.clone();
        key.append(name);
        key
    }

    /// The name of the entry kept under `key`, if the key belongs to this
    /// directory.
    pub fn entry(&self, key: &str) -> (name: Option<String>)
        ensures
            match name {
                Some(name) => entry_name(self@, key@) == Some(name@),
                None => entry_name(self@, key@) is None,
            },
    {
        let prefix = chars_of(self.0.as_str());
        let chars = chars_of(key);
        if chars.len() < prefix.len() {
            return None;
        }
        let mut i: usize = 0;
        while i < prefix.len()
            invariant
                i <= prefix@.len() <= chars@.len(),
                prefix@ == self@,
                chars@ == key@,
                forall|j: int| 0 <= j < i ==> chars@[j] == prefix@[j],
            decreases prefix@.len() - i,
        {
            if chars[i] != prefix[i] {
                return None;
            }
            i += 1;
        }
        assert(prefix@ =~= chars@.subrange(0, prefix@.len() as int));
        Some(text_from(&chars, prefix.len()))
    }

    /// The names of the entries of this directory among the keys of the
    /// store, in the order of the keys.
    pub fn list(&self, keys: &Vec<String>) -> (names: Vec<String>)
        ensures
            texts(names@) == entry_names(self@, keys@, keys@.len() as int),
    {
        let mut names: Vec<String> = Vec::new();
        let mut i: usize = 0;
        while i < keys.len()
            invariant
                i <= keys@.len(),
                texts(names@) == entry_names(self@, keys@, i as int),
            decreases keys@.len() - i,
        {
            let ghost before = texts(names@);
            match self.entry(keys[i].as_str()) {
                Some(name) => {
                    names.push(name);
                    assert(texts(names@) =~= before.push(name@));
                },
                None => {},
            }
            i += 1;
        }
        names
    }

    /// Whether the store, which holds `keys`, has the entry `name`.
    pub fn has_entry(&self, keys: &Vec<String>, name: &str) -> (found: bool)
        ensures
            found == (exists|i: int| 0 <= i < keys@.len() && (#[trigger] keys@[i])@ == self@ + name@),
    {
        let wanted = self.key(name);
        let mut i: usize = 0;
        while i < keys.len()
            invariant
                i <= keys@.len(),
                wanted@ == self@ + name@,
                forall|j: int| 0 <= j < i ==> (#[trigger] keys@[j])@ != self@ + name@,
            decreases keys@.len() - i,
        {
            if keys[i] == wanted {
                return true;
            }
            i += 1;
        }
        false
    }

    /// The text under which bytes are kept: their base64.
    pub fn encode(data: &[u8]) -> (text: String)
        requires
            data@.len() / 3 * 4 + 3 <= usize::MAX,
        ensures
            text@ == base64_text(data@),
    {
        base64_encode(data)
    }

    /// The bytes that the text of an entry stands for.
    pub fn decode(text: &str) -> (data: Result<Vec<u8>, DirectoryError>)
        ensures
            match data {
                Ok(bytes) => base64_bytes(text@) == Some(bytes@),
                Err(e) => e == DirectoryError::BadData && base64_bytes(text@) is None,
            },
    {
        match base64_decode(text) {
            Ok(bytes) => Ok(bytes),
            Err(_) => Err(DirectoryError::BadData),
        }
    }
}

} // verus!
