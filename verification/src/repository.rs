//! The rules of the document store that keeps flags and environments: which
//! identifiers name a document, when a new document may be inserted, and
//! what each answer of the store means to the caller.
//!
//! The store itself is reached over the network by the program around this
//! library. Each operation is therefore split in two: a function that says
//! which document to ask for, and a function that turns the store's answer
//! into the operation's result.

pub mod memory;

use vstd::prelude::*;
use crate::text::join3;

verus! {

/// Why a repository operation failed.
#[derive(Debug, PartialEq, Eq, Structural)]
pub enum ErrorKind {
    NotFound,
    AlreadyExists,
}

impl Clone for ErrorKind {
    fn clone(&self) -> (r: Self)
        ensures
            r == *self,
    {
        match self {
            ErrorKind::NotFound => ErrorKind::NotFound,
            ErrorKind::AlreadyExists => ErrorKind::AlreadyExists,
        }
    }
}

/// A failed repository operation: its kind and a text for the operator.
#[derive(Debug)]
pub struct RepositoryError {
    pub message: String,
    pub kind: ErrorKind,
}

impl Clone for RepositoryError {
    fn clone(&self) -> (r: Self)
        ensures
            r.kind == self.kind,
            r.message@ == self.message@,
    {
        RepositoryError { message: self.message.clone(), kind: self.kind.clone() }
    }
}

impl RepositoryError {
    /// An error of the given kind with the given text.
    pub fn new(kind: ErrorKind, message: String) -> (r: Self)
        ensures
            r.kind == kind,
            r.message == message,
    {
        Self { message, kind }
    }

    /// The error's text.
    pub fn to_text(&self) -> (r: String)
        ensures
            r@ == self.message@,
    {
        self.message.clone()
    }
}

/// Whether a character is a hexadecimal digit, in either case.
pub open spec fn is_hex_digit(c: char) -> bool {
    ('0' <= c && c <= '9') || ('a' <= c && c <= 'f') || ('A' <= c && c <= 'F')
}

/// Whether a text names a document: 24 hexadecimal digits.
pub open spec fn is_object_id(text: Seq<char>) -> bool {
    text.len() == 24 && forall|i: int| 0 <= i < text.len() ==> is_hex_digit(#[trigger] text[i])
}

/// A hexadecimal digit in lower case; any other character as it is.
pub open spec fn lower_hex(c: char) -> char {
    if c == 'A' {
        'a'
    } else if c == 'B' {
        'b'
    } else if c == 'C' {
        'c'
    } else if c == 'D' {
        'd'
    } else if c == 'E' {
        'e'
    } else if c == 'F' {
        'f'
    } else {
        c
    }
}

/// The canonical spelling of an identifier: its digits in lower case.
pub open spec fn canonical_id(text: Seq<char>) -> Seq<char> {
    text.map_values(|c: char| lower_hex(c))
}

/// The text with which the identifier parser turns down a malformed
/// identifier.
pub uninterp spec fn object_id_error_text(id: Seq<char>) -> Seq<char>;

/// Trusted: `mongodb::bson::oid::ObjectId::parse_str` accepts exactly the
/// texts of 24 hexadecimal digits, upper or lower case, and
/// `ObjectId::to_hex` spells the identifier it read with the same digits in
/// lower case. A text that is turned down comes with the parser's own
/// message, read with `to_string`.
#[verifier::external_body]
pub(crate) fn parse_object_id(id: &str) -> (r: Result<String, String>)
    ensures
        r is Ok <==> is_object_id(id@),
        r matches Ok(hex) ==> hex@ == canonical_id(id@),
        r matches Err(text) ==> text@ == object_id_error_text(id@),
{
    match mongodb::bson::oid::ObjectId::parse_str(id) {
        Ok(oid) => Ok(oid.to_hex()),
        Err(e) => Err(e.to_string()),
    }
}

/// What the identifier of a document is answered with: its canonical
/// spelling where it is well formed, else a `NotFound` error that carries
/// the parser's message.
pub open spec fn document_id_result(id: Seq<char>, r: Result<String, RepositoryError>) -> bool {
    match r {
        Ok(hex) => is_object_id(id) && hex@ == canonical_id(id),
        Err(e) => !is_object_id(id) && e.kind == ErrorKind::NotFound && e.message@
            == object_id_error_text(id),
    }
}

/// Reads the identifier that a caller gave for `get`, `update` or `delete`.
/// A malformed identifier names no document, so it is answered with
/// `NotFound` before the store is asked.
pub fn document_id(id: &str) -> (r: Result<String, RepositoryError>)
    ensures
        document_id_result(id@, r),
{
    match parse_object_id(id) {
        Ok(hex) => Ok(hex),
        Err(text) => Err(RepositoryError::new(ErrorKind::NotFound, text)),
    }
}

/// The message of a refused `create`.
pub open spec fn duplicate_message(entity: Seq<char>, name: Seq<char>) -> Seq<char> {
    entity + " with name \""@ + name + "\" already exists"@
}

/// Decides whether a document of the given name may be inserted, from what
/// the store found under that name.
///
/// `entity` is the noun that the message uses for the kind of document. The
/// insert is refused with `AlreadyExists` exactly when the search succeeded
/// and found something; a search that failed does not stand in the way.
pub fn ensure_unique<T>(entity: &str, name: &str, existing: &Result<Vec<T>, RepositoryError>) -> (r:
    Result<(), RepositoryError>)
    ensures
        r is Err <==> (existing matches Ok(items) && items@.len() > 0),
        r matches Err(e) ==> e.kind == ErrorKind::AlreadyExists && e.message@ == duplicate_message(
            entity@,
            name@,
        ),
{
    match existing {
        Ok(items) => {
            if items.len() > 0 {
                let message = join3(entity, " with name \"", name);
                let message = join3(message.as_str(), "\" already exists", "");
                proof {
                    reveal_strlit("");
                    assert(message@ =~= duplicate_message(entity@, name@));
                }
                return Err(RepositoryError::new(ErrorKind::AlreadyExists, message));
            }
            Ok(())
        },
        Err(_) => Ok(()),
    }
}

/// The result of `get`, from the store's answer to a search by identifier:
/// the document, or `NotFound` where there is none or the search failed.
pub fn get_outcome<T>(found: Result<Option<T>, String>) -> (r: Result<T, RepositoryError>)
    ensures
        match found {
            Ok(Some(item)) => r == Ok::<T, RepositoryError>(item),
            Ok(None) => r matches Err(e) && e.kind == ErrorKind::NotFound && e.message@
                == "Entity not found"@,
            Err(text) => r matches Err(e) && e.kind == ErrorKind::NotFound && e.message@
                == "Error getting entity: "@ + text@,
        },
{
    match found {
        Ok(Some(item)) => Ok(item),
        Ok(None) => Err(RepositoryError::new(ErrorKind::NotFound, "Entity not found".to_owned())),
        Err(text) => {
            let message = join3("Error getting entity: ", text.as_str(), "");
            proof {
                reveal_strlit("");
                assert(message@ =~= "Error getting entity: "@ + text@);
            }
            Err(RepositoryError::new(ErrorKind::NotFound, message))
        },
    }
}

/// The result of `find`, from the store's answer to a search by filter:
/// every match, which may be none, or `NotFound` with the store's message
/// where the search failed.
pub fn find_outcome<T>(found: Result<Vec<T>, String>) -> (r: Result<Vec<T>, RepositoryError>)
    ensures
        match found {
            Ok(items) => r == Ok::<Vec<T>, RepositoryError>(items),
            Err(text) => r matches Err(e) && e.kind == ErrorKind::NotFound && e.message == text,
        },
{
    match found {
        Ok(items) => Ok(items),
        Err(text) => Err(RepositoryError::new(ErrorKind::NotFound, text)),
    }
}

/// The result of `update`, from the number of documents that the store
/// matched, or from its message where the write failed: `NotFound` unless a
/// document was matched.
pub fn update_outcome(matched: Result<u64, String>) -> (r: Result<(), RepositoryError>)
    ensures
        match matched {
            Ok(n) => if n > 0 {
                r is Ok
            } else {
                r matches Err(e) && e.kind == ErrorKind::NotFound && e.message@
                    == "Entity not found"@
            },
            Err(text) => r matches Err(e) && e.kind == ErrorKind::NotFound && e.message == text,
        },
{
    match matched {
        Ok(n) => {
            if n > 0 {
                Ok(())
            } else {
                Err(RepositoryError::new(ErrorKind::NotFound, "Entity not found".to_owned()))
            }
        },
        Err(text) => Err(RepositoryError::new(ErrorKind::NotFound, text)),
    }
}

/// The result of `delete`, from the document that the store removed, or
/// from its message where the removal failed: `NotFound` unless a document
/// was removed, so also for a second `delete` of the same identifier.
pub fn delete_outcome<T>(removed: Result<Option<T>, String>) -> (r: Result<(), RepositoryError>)
    ensures
        match removed {
            Ok(Some(_)) => r is Ok,
            Ok(None) => r matches Err(e) && e.kind == ErrorKind::NotFound && e.message@
                == "Entity not found"@,
            Err(text) => r matches Err(e) && e.kind == ErrorKind::NotFound && e.message == text,
        },
{
    match removed {
        Ok(Some(_)) => Ok(()),
        Ok(None) => Err(RepositoryError::new(ErrorKind::NotFound, "Entity not found".to_owned())),
        Err(text) => Err(RepositoryError::new(ErrorKind::NotFound, text)),
    }
}

} // verus!
