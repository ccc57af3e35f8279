//! The text of each rejection, as printed to whoever proposed the change.

use vstd::prelude::*;
use vstd::string::*;
use crate::fault::{Fault, GateError};

verus! {

pub open spec fn digit_char(d: nat) -> char {
    "0123456789"@[d as int]
}

/// The decimal digits of `n`, most significant first.
pub open spec fn decimal(n: nat) -> Seq<char>
    decreases n,
{
    if n < 10 {
        seq![digit_char(n)]
    } else {
        decimal(n / 10) + seq![digit_char(n % 10)]
    }
}

/// The items of `s` separated by ", ".
pub open spec fn join(s: Seq<Seq<char>>) -> Seq<char>
    decreases s.len(),
{
    if s.len() == 0 {
        seq![]
    } else if s.len() == 1 {
        s[0]
    } else {
        join(s.drop_last()) + ", "@ + s.last()
    }
}

impl Fault {
    pub open spec fn message(self) -> Seq<char> {
        match self {
            Fault::MalformedLine { line } => "Malformed diff line: '"@ + line + "'"@,
            Fault::AttestationStatus { status, path } =>
                "File status for attestation is not 'A' (for add): '"@ + status + "' '"@ + path
                    + "'"@,
            Fault::KeyStatus { status, path } =>
                "File status for builder key is not 'A' (for add) or 'M' (for modified): '"@
                    + status + "' '"@ + path + "'"@,
            Fault::UnknownFile { path } => "Added unknown file '"@ + path + "'"@,
            Fault::DuplicateKey { path } => "Builder key listed more than once: '"@ + path + "'"@,
            Fault::MissingCounterpart { group, .. } => "Missing SHA256SUMS.asc or SHA256SUMS file in "@
                + group,
            Fault::KeyNotFound { attestation, key, builder, reason } =>
                "Builder key not found for attestation. Attestation: '"@ + attestation
                    + "', Key: '"@ + key + "', Error: '"@ + reason
                    + "'.\nHelp: Run 'gpg --export --armor "@ + builder + " > "@ + key
                    + " && git add "@ + key + "'"@,
            Fault::NotAscii { file } =>
                "All files must be in ascii format. Make sure to pass --armor to gpg. File: "@
                    + file,
            Fault::ImportFailed { key, reason } => "Builder key not imported. Key: '"@ + key
                + "', Error: '"@ + reason + "'"@,
            Fault::ImportCount { key, considered, not_imported } =>
                "Too many or too few builder keys considered for import. Key: '"@ + key
                    + "', Considered: "@ + decimal(considered as nat) + ", Not imported: "@
                    + decimal(not_imported as nat),
            Fault::VerifyFailed { attestation, key, reason } =>
                "Signature does not verify. Attestation: '"@ + attestation + "', Key: '"@ + key
                    + "', Error: '"@ + reason + "'"@,
            Fault::SignatureCount { attestation, key, count } =>
                "Too many or too few signatures. Attestation: '"@ + attestation + "', Key: '"@
                    + key + ", Sigs len: "@ + decimal(count as nat),
            Fault::BadSignature { attestation, key, reason } =>
                "Signature error. Attestation: '"@ + attestation + "', Key: '"@ + key
                    + "', Error: '"@ + reason + "'"@,
            Fault::UnmatchedKeys { keys } =>
                "Added builder keys without new attestation. Extra keys: '"@ + join(keys) + "'"@,
        }
    }
}

/// The decimal digits of `n`.
pub fn decimal_text(n: u64) -> (r: String)
    ensures
        r@ == decimal(n as nat),
    decreases n,
{
    proof {
        reveal_strlit("0123456789");
    }
    if n < 10 {
        let d = n as usize;
        "0123456789".substring_char(d, d + 1).to_owned()
    } else {
        let mut s = decimal_text(n / 10);
        let d = (n % 10) as usize;
        s.append("0123456789".substring_char(d, d + 1));
        s
    }
}

/// The items of `v` separated by ", ".
pub fn join_texts(v: &Vec<String>) -> (r: String)
    ensures
        r@ == join(crate::fault::texts(v@)),
{
    let ghost t = crate::fault::texts(v@);
    let mut out = String::new();
    let mut i: usize = 0;
    while i < v.len()
        invariant
            i <= v@.len(),
            t == crate::fault::texts(v@),
            out@ == join(t.take(i as int)),
        decreases v@.len() - i,
    {
        proof {
            assert(t.take(i + 1).drop_last() =~= t.take(i as int));
        }
        if i > 0 {
            out.append(", ");
        }
        out.append(v[i].as_str());
        proof {
            if i == 0 {
                assert(out@ =~= t.take(1)[0]);
            }
        }
        i = i + 1;
    }
    proof {
        assert(t.take(i as int) =~= t);
    }
    out
}

impl GateError {
    /// The text of this rejection.
    pub fn message(&self) -> (r: String)
        ensures
            r@ == self@.message(),
    {
        match self {
            GateError::MalformedLine { line } => {
                let mut m = String::from_str("Malformed diff line: '");
                m.append(line.as_str());
                m.append("'");
                m
            },
            GateError::AttestationStatus { status, path } => {
                let mut m = String::from_str("File status for attestation is not 'A' (for add): '");
                m.append(status.as_str());
                m.append("' '");
                m.append(path.as_str());
                m.append("'");
                m
            },
            GateError::KeyStatus { status, path } => {
                let mut m = String::from_str(
                    "File status for builder key is not 'A' (for add) or 'M' (for modified): '",
                );
                m.append(status.as_str());
                m.append("' '");
                m.append(path.as_str());
                m.append("'");
                m
            },
            GateError::UnknownFile { path } => {
                let mut m = String::from_str("Added unknown file '");
                m.append(path.as_str());
                m.append("'");
                m
            },
            GateError::DuplicateKey { path } => {
                let mut m = String::from_str("Builder key listed more than once: '");
                m.append(path.as_str());
                m.append("'");
                m
            },
            GateError::MissingCounterpart { group, .. } => {
                let mut m = String::from_str("Missing SHA256SUMS.asc or SHA256SUMS file in ");
                m.append(group.as_str());
                m
            },
            GateError::KeyNotFound { attestation, key, builder, reason } => {
                let mut m = String::from_str(
                    "Builder key not found for attestation. Attestation: '",
                );
                m.append(attestation.as_str());
                m.append("', Key: '");
                m.append(key.as_str());
                m.append("', Error: '");
                m.append(reason.as_str());
                m.append("'.\nHelp: Run 'gpg --export --armor ");
                m.append(builder.as_str());
                m.append(" > ");
                m.append(key.as_str());
                m.append(" && git add ");
                m.append(key.as_str());
                m.append("'");
                m
            },
            GateError::NotAscii { file } => {
                let mut m = String::from_str(
                    "All files must be in ascii format. Make sure to pass --armor to gpg. File: ",
                );
                m.append(file.as_str());
                m
            },
            GateError::ImportFailed { key, reason } => {
                let mut m = String::from_str("Builder key not imported. Key: '");
                m.append(key.as_str());
                m.append("', Error: '");
                m.append(reason.as_str());
                m.append("'");
                m
            },
            GateError::ImportCount { key, considered, not_imported } => {
                let mut m = String::from_str(
                    "Too many or too few builder keys considered for import. Key: '",
                );
                m.append(key.as_str());
                m.append("', Considered: ");
                let c = decimal_text(*considered as u64);
                m.append(c.as_str());
                m.append(", Not imported: ");
                let n = decimal_text(*not_imported as u64);
                m.append(n.as_str());
                m
            },
            GateError::VerifyFailed { attestation, key, reason } => {
                let mut m = String::from_str("Signature does not verify. Attestation: '");
                m.append(attestation.as_str());
                m.append("', Key: '");
                m.append(key.as_str());
                m.append("', Error: '");
                m.append(reason.as_str());
                m.append("'");
                m
            },
            GateError::SignatureCount { attestation, key, count } => {
                let mut m = String::from_str("Too many or too few signatures. Attestation: '");
                m.append(attestation.as_str());
                m.append("', Key: '");
                m.append(key.as_str());
                m.append(", Sigs len: ");
                let c = decimal_text(*count as u64);
                m.append(c.as_str());
                m
            },
            GateError::BadSignature { attestation, key, reason } => {
                let mut m = String::from_str("Signature error. Attestation: '");
                m.append(attestation.as_str());
                m.append("', Key: '");
                m.append(key.as_str());
                m.append("', Error: '");
                m.append(reason.as_str());
                m.append("'");
                m
            },
            GateError::UnmatchedKeys { keys } => {
                let mut m = String::from_str(
                    "Added builder keys without new attestation. Extra keys: '",
                );
                let j = join_texts(keys);
                m.append(j.as_str());
                m.append("'");
                m
            },
        }
    }
}

} // verus!
