use vstd::prelude::*;
use vstd::string::*;
use vstd::utf8::*;

use crate::document::{Document, DocumentView};

verus! {

broadcast use vstd::utf8::group_utf8_lib;

/// File name extension of project files.
pub const FILE_EXTENSION: &'static str = "vzd";

/// Format version written into new project files.
pub const PROJECT_VERSION: &'static str = "0.1.0";

/// The five bytes `VZD1\n` that open every project file.
pub open spec fn magic() -> Seq<u8> {
    seq![86u8, 90u8, 68u8, 49u8, 10u8]
}

/// The bytes of a project file whose JSON text is `json`.
pub open spec fn spec_framed(json: Seq<char>) -> Seq<u8> {
    magic() + encode_utf8(json)
}

/// `bytes` starts with the project file magic.
pub open spec fn has_magic(bytes: Seq<u8>) -> bool {
    bytes.len() >= magic().len() && bytes.take(magic().len() as int) == magic()
}

/// What follows the magic of a project file.
pub open spec fn after_magic(bytes: Seq<u8>) -> Seq<u8> {
    bytes.skip(magic().len() as int)
}

#[verifier::external_type_specification]
#[verifier::external_body]
pub struct ExUtf8Error(std::str::Utf8Error);

/// `std::str::from_utf8`: succeeds exactly on valid UTF-8, and then the text's
/// encoding is the input. The error's content is left unsaid.
#[verifier::external_body]
fn str_from_utf8(bytes: &[u8]) -> (r: Result<&str, std::str::Utf8Error>)
    ensures
        r is Ok <==> valid_utf8(bytes@),
        r matches Ok(s) ==> s.spec_bytes() == bytes@,
{
    std::str::from_utf8(bytes)
}

/// Why a project could not be saved or opened.
#[derive(Debug)]
pub enum ProjectError {
    SerializationError(String),
    DeserializationError(String),
    IoError(String),
    InvalidFormat,
}

impl ProjectError {
    /// The text shown to the user for this error.
    pub fn message(&self) -> (m: String)
        ensures
            m@ == match self {
                ProjectError::SerializationError(msg) => "Serialization error: "@ + msg@,
                ProjectError::DeserializationError(msg) => "Deserialization error: "@ + msg@,
                ProjectError::IoError(msg) => "IO error: "@ + msg@,
                ProjectError::InvalidFormat => "Invalid file format: not a Vizardra project"@,
            },
    {
        match self {
            ProjectError::SerializationError(msg) => {
                let mut m = String::from_str("Serialization error: ");
                m.append(msg.as_str());
                m
            },
            ProjectError::DeserializationError(msg) => {
                let mut m = String::from_str("Deserialization error: ");
                m.append(msg.as_str());
                m
            },
            ProjectError::IoError(msg) => {
                let mut m = String::from_str("IO error: ");
                m.append(msg.as_str());
                m
            },
            ProjectError::InvalidFormat => String::from_str(
                "Invalid file format: not a Vizardra project",
            ),
        }
    }
}

/// A saved project: format version and document.
#[derive(Debug)]
pub struct ProjectFile {
    pub version: String,
    pub document: Document,
}

impl ProjectFile {
    /// A project holding a copy of `document`, stamped with the current
    /// format version.
    pub fn from_document(document: &Document) -> (p: Self)
        ensures
            p.version@ == PROJECT_VERSION@,
            p.document@ == document@,
    {
        ProjectFile { version: String::from_str(PROJECT_VERSION), document: document.clone() }
    }

    /// The bytes of a project file: the magic, then the UTF-8 of `json`.
    pub fn frame_json(json: &str) -> (bytes: Vec<u8>)
        ensures
            bytes@ == spec_framed(json@),
    {
        let mut bytes: Vec<u8> = Vec::new();
        bytes.push(86u8);
        bytes.push(90u8);
        bytes.push(68u8);
        bytes.push(49u8);
        bytes.push(10u8);
        let mut body = json.as_bytes_vec();
        bytes.append(&mut body);
        proof {
            assert(bytes@ =~= spec_framed(json@));
        }
        bytes
    }

    /// The JSON text of a project file: fails with `InvalidFormat` when the
    /// magic is missing, and with a `DeserializationError` when what follows
    /// it is not UTF-8.
    pub fn unframe_json(bytes: &[u8]) -> (r: Result<String, ProjectError>)
        ensures
            !has_magic(bytes@) ==> (r matches Err(ProjectError::InvalidFormat)),
            has_magic(bytes@) && valid_utf8(after_magic(bytes@)) ==> (r matches Ok(text)
                && text@ == decode_utf8(after_magic(bytes@))),
            has_magic(bytes@) && !valid_utf8(after_magic(bytes@)) ==> (r matches Err(
                ProjectError::DeserializationError(_),
            )),
    {
        let n = bytes.len();
        if n < 5 || bytes[0] != 86u8 || bytes[1] != 90u8 || bytes[2] != 68u8 || bytes[3] != 49u8
            || bytes[4] != 10u8 {
            proof {
                if has_magic(bytes@) {
                    assert(bytes@.take(5)[0] == bytes@[0]);
                    assert(bytes@.take(5)[1] == bytes@[1]);
                    assert(bytes@.take(5)[2] == bytes@[2]);
                    assert(bytes@.take(5)[3] == bytes@[3]);
                    assert(bytes@.take(5)[4] == bytes@[4]);
                }
            }
            return Err(ProjectError::InvalidFormat);
        }
        proof {
            assert(bytes@.take(5) =~= magic());
        }
        let mut rest: Vec<u8> = Vec::new();
        let mut i: usize = 5;
        while i < n
            invariant
                n == bytes@.len(),
                5 <= i <= n,
                rest@ == bytes@.subrange(5, i as int),
            decreases n - i,
        {
            rest.push(bytes[i]);
            i = i + 1;
            proof {
                assert(rest@ =~= bytes@.subrange(5, i as int));
            }
        }
        proof {
            assert(rest@ =~= after_magic(bytes@));
        }
        match str_from_utf8(rest.as_slice()) {
            Ok(text) => {
                proof {
                    assert(decode_utf8(encode_utf8(text@)) == text@);
                }
                Ok(text.to_owned())
            },
            Err(e) => Err(ProjectError::DeserializationError(e.to_string())),
        }
    }
}

/// Reading back a framed project gives the JSON text that was framed.
pub proof fn lemma_unframe_frame(json: Seq<char>)
    ensures
        has_magic(spec_framed(json)),
        valid_utf8(after_magic(spec_framed(json))),
        decode_utf8(after_magic(spec_framed(json))) == json,
{
    let bytes = spec_framed(json);
    assert(bytes.take(5) =~= magic());
    assert(after_magic(bytes) =~= encode_utf8(json));
}

} // verus!
