use vstd::prelude::*;
use vstd::string::StringExecFns;

verus! {

/// The failure classes of the library. Every error carries one, so callers
/// can tell what went wrong without parsing messages.
#[derive(Clone, Copy, Debug, PartialEq, Eq, Structural)]
pub enum ErrorKind {
    /// A profile or a target file is already present and no override was asked.
    AlreadyExists,
    /// A profile record, a key file or a source file is missing.
    NotFound,
    /// A profile record is present but cannot be parsed.
    Corrupt,
    /// An envelope file does not follow the binary envelope layout.
    MalformedEnvelope,
    /// A key file does not hold the base64 encoding of a key of the right size.
    DecodeError,
    /// The ciphertext does not verify under the profile's key pair.
    AuthenticationFailed,
    /// The backing store failed to create, write or read.
    PersistenceError,
    /// A storage directory could not be resolved to an absolute path.
    PathExpansionFailed,
    /// The source file already carries the envelope extension.
    AlreadyEncrypted,
    /// The source file does not carry the envelope extension.
    NotAnEnvelope,
}

/// An error of the library: a failure class, a message, and an optional
/// wrapped cause, forming a chain printable outermost first.
#[derive(Debug)]
pub struct AnyError {
    pub kind: ErrorKind,
    pub details: String,
    pub parent: Option<Box<AnyError>>,
}

impl AnyError {
    /// The full message chain, outermost first: "outer: inner: innermost".
    pub open spec fn spec_message(self) -> Seq<char>
        decreases self,
    {
        match self.parent {
            Option::None => self.details@,
            Option::Some(p) => self.details@ + seq![':', ' '] + p.spec_message(),
        }
    }

    pub fn new(kind: ErrorKind, details: &str, reason: Option<AnyError>) -> (e: AnyError)
        ensures
            e.kind == kind,
            e.details@ == details@,
            e.parent is Some <==> reason is Some,
            reason is Some ==> *e.parent->0 == reason->0,
    {
        AnyError {
            kind,
            details: details.to_owned(),
            parent: match reason {
                Option::Some(r) => Option::Some(Box::new(r)),
                Option::None => Option::None,
            },
        }
    }

    pub fn without_parent(kind: ErrorKind, details: &str) -> (e: AnyError)
        ensures
            e.kind == kind,
            e.details@ == details@,
            e.parent is None,
            e.spec_message() == details@,
    {
        AnyError::new(kind, details, Option::None)
    }

    /// Renders the error chain as one line, outermost message first.
    pub fn to_message(&self) -> (r: String)
        ensures
            r@ == self.spec_message(),
        decreases *self,
    {
        let mut s = self.details.clone();
        match &self.parent {
            Option::None => s,
            Option::Some(p) => {
                proof {
                    reveal_strlit(": ");
                    assert(": "@ =~= seq![':', ' ']);
                }
                s.append(": ");
                let rest = p.to_message();
                s.append(rest.as_str());
                s
            },
        }
    }
}

/// Wraps a cause into a new error with the given message; the failure class
/// of the cause is carried outward unchanged.
pub fn error<T>(message: &str, reason: AnyError) -> (r: Result<T, AnyError>)
    ensures
        r is Err,
        r->Err_0.kind == reason.kind,
        r->Err_0.details@ == message@,
        r->Err_0.parent is Some && *r->Err_0.parent->0 == reason,
        r->Err_0.spec_message() == message@ + seq![':', ' '] + reason.spec_message(),
{
    let kind = reason.kind;
    Result::Err(AnyError::new(kind, message, Option::Some(reason)))
}

/// An error with no wrapped cause.
pub fn error_without_parent<T>(kind: ErrorKind, message: &str) -> (r: Result<T, AnyError>)
    ensures
        r is Err,
        r->Err_0.kind == kind,
        r->Err_0.details@ == message@,
        r->Err_0.parent is None,
        r->Err_0.spec_message() == message@,
{
    Result::Err(AnyError::without_parent(kind, message))
}

} // verus!
