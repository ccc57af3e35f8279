//! Why a gate evaluation rejects a change.

use vstd::prelude::*;

verus! {

/// The broad class of a rejection.
#[derive(Clone, Copy, Debug, PartialEq, Eq, Structural)]
pub enum ErrorKind {
    /// A path or status that breaks the layout rules.
    Shape,
    Encoding,
    KeyResolution,
    Import,
    Signature,
    Policy,
}

/// A rejection, with the paths and reasons it names.
#[derive(Clone, Debug, PartialEq, Eq)]
pub enum GateError {
    /// A diff line without both a status and a path.
    MalformedLine { line: String },
    /// An attestation file whose status is not "A".
    AttestationStatus { status: String, path: String },
    /// A builder key whose status is neither "A" nor "M".
    KeyStatus { status: String, path: String },
    /// A path of no recognized shape.
    UnknownFile { path: String },
    /// A builder key listed twice in one diff.
    DuplicateKey { path: String },
    /// An attestation group without exactly one checksum file and one
    /// signature; `missing` is the member that is not there exactly once.
    MissingCounterpart { group: String, missing: String },
    /// The builder key of an attestation could not be read.
    KeyNotFound { attestation: String, key: String, builder: String, reason: String },
    /// A key, checksum or signature file holds a byte outside 7-bit ASCII.
    NotAscii { file: String },
    /// The key import itself failed.
    ImportFailed { key: String, reason: String },
    /// The import did not consider exactly one key, or left some key out.
    ImportCount { key: String, considered: u32, not_imported: u32 },
    /// The signature check itself failed.
    VerifyFailed { attestation: String, key: String, reason: String },
    /// The signature file did not hold exactly one signature.
    SignatureCount { attestation: String, key: String, count: usize },
    /// The one signature is present but not valid.
    BadSignature { attestation: String, key: String, reason: String },
    /// Builder keys changed without a new attestation of theirs.
    UnmatchedKeys { keys: Vec<String> },
}

/// The mathematical value of a `GateError`.
pub enum Fault {
    MalformedLine { line: Seq<char> },
    AttestationStatus { status: Seq<char>, path: Seq<char> },
    KeyStatus { status: Seq<char>, path: Seq<char> },
    UnknownFile { path: Seq<char> },
    DuplicateKey { path: Seq<char> },
    MissingCounterpart { group: Seq<char>, missing: Seq<char> },
    KeyNotFound { attestation: Seq<char>, key: Seq<char>, builder: Seq<char>, reason: Seq<char> },
    NotAscii { file: Seq<char> },
    ImportFailed { key: Seq<char>, reason: Seq<char> },
    ImportCount { key: Seq<char>, considered: u32, not_imported: u32 },
    VerifyFailed { attestation: Seq<char>, key: Seq<char>, reason: Seq<char> },
    SignatureCount { attestation: Seq<char>, key: Seq<char>, count: usize },
    BadSignature { attestation: Seq<char>, key: Seq<char>, reason: Seq<char> },
    UnmatchedKeys { keys: Seq<Seq<char>> },
}

/// The contents of a list of strings.
pub open spec fn texts(v: Seq<String>) -> Seq<Seq<char>> {
    v.map_values(|s: String| s@)
}

impl View for GateError {
    type V = Fault;

    open spec fn view(&self) -> Fault {
        match self {
            GateError::MalformedLine { line } => Fault::MalformedLine { line: line@ },
            GateError::AttestationStatus { status, path } => Fault::AttestationStatus {
                status: status@,
                path: path@,
            },
            GateError::KeyStatus { status, path } => Fault::KeyStatus {
                status: status@,
                path: path@,
            },
            GateError::UnknownFile { path } => Fault::UnknownFile { path: path@ },
            GateError::DuplicateKey { path } => Fault::DuplicateKey { path: path@ },
            GateError::MissingCounterpart { group, missing } => Fault::MissingCounterpart {
                group: group@,
                missing: missing@,
            },
            GateError::KeyNotFound { attestation, key, builder, reason } => Fault::KeyNotFound {
                attestation: attestation@,
                key: key@,
                builder: builder@,
                reason: reason@,
            },
            GateError::NotAscii { file } => Fault::NotAscii { file: file@ },
            GateError::ImportFailed { key, reason } => Fault::ImportFailed {
                key: key@,
                reason: reason@,
            },
            GateError::ImportCount { key, considered, not_imported } => Fault::ImportCount {
                key: key@,
                considered: *considered,
                not_imported: *not_imported,
            },
            GateError::VerifyFailed { attestation, key, reason } => Fault::VerifyFailed {
                attestation: attestation@,
                key: key@,
                reason: reason@,
            },
            GateError::SignatureCount { attestation, key, count } => Fault::SignatureCount {
                attestation: attestation@,
                key: key@,
                count: *count,
            },
            GateError::BadSignature { attestation, key, reason } => Fault::BadSignature {
                attestation: attestation@,
                key: key@,
                reason: reason@,
            },
            GateError::UnmatchedKeys { keys } => Fault::UnmatchedKeys { keys: texts(keys@) },
        }
    }
}

impl Fault {
    pub open spec fn kind(self) -> ErrorKind {
        match self {
            Fault::NotAscii { .. } => ErrorKind::Encoding,
            Fault::KeyNotFound { .. } => ErrorKind::KeyResolution,
            Fault::ImportFailed { .. } => ErrorKind::Import,
            Fault::ImportCount { .. } => ErrorKind::Import,
            Fault::VerifyFailed { .. } => ErrorKind::Signature,
            Fault::SignatureCount { .. } => ErrorKind::Signature,
            Fault::BadSignature { .. } => ErrorKind::Signature,
            Fault::UnmatchedKeys { .. } => ErrorKind::Policy,
            _ => ErrorKind::Shape,
        }
    }
}

impl GateError {
    pub fn kind(&self) -> (r: ErrorKind)
        ensures
            r == self@.kind(),
    {
        match self {
            GateError::NotAscii { .. } => ErrorKind::Encoding,
            GateError::KeyNotFound { .. } => ErrorKind::KeyResolution,
            GateError::ImportFailed { .. } => ErrorKind::Import,
            GateError::ImportCount { .. } => ErrorKind::Import,
            GateError::VerifyFailed { .. } => ErrorKind::Signature,
            GateError::SignatureCount { .. } => ErrorKind::Signature,
            GateError::BadSignature { .. } => ErrorKind::Signature,
            GateError::UnmatchedKeys { .. } => ErrorKind::Policy,
            _ => ErrorKind::Shape,
        }
    }
}

} // verus!
