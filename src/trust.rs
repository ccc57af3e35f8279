//! The trust chain: every attestation group must be signed by its builder's
//! key on file, and no builder key may change without a new attestation.
//!
//! Reading files and running OpenPGP happen outside the library; their
//! outcomes come in as a `GroupEvidence` for each group.

use vstd::prelude::*;
use vstd::string::*;
use crate::fault::{texts, ErrorKind, Fault, GateError};
use crate::paths::{builder_name, builder_of, is_group_key, key_path_for, key_path_of};

verus! {

/// What importing a builder key into a fresh keyring reported.
#[derive(Clone, Debug, PartialEq, Eq)]
pub enum ImportOutcome {
    Failed { reason: String },
    Counts { considered: u32, not_imported: u32 },
}

/// The status of one signature found in a detached signature file.
#[derive(Clone, Debug, PartialEq, Eq)]
pub enum SignatureStatus {
    Valid,
    Invalid { reason: String },
}

/// What checking a detached signature against a checksum file reported.
#[derive(Clone, Debug, PartialEq, Eq)]
pub enum VerifyOutcome {
    Failed { reason: String },
    Signatures { statuses: Vec<SignatureStatus> },
}

/// Everything known about one attestation group: the bytes of its builder
/// key (or why it could not be read), of its checksum file and of its
/// signature, and what the key import and the signature check reported.
#[derive(Debug, PartialEq, Eq)]
pub struct GroupEvidence {
    pub key: Result<Vec<u8>, String>,
    pub sums: Vec<u8>,
    pub sig: Vec<u8>,
    pub import: ImportOutcome,
    pub verify: VerifyOutcome,
}

/// Every byte is 7-bit ASCII.
pub open spec fn ascii_bytes(b: Seq<u8>) -> bool {
    forall|i: int| 0 <= i < b.len() ==> b[i] < 0x80
}

pub open spec fn sig_path_of(g: Seq<char>) -> Seq<char> {
    g + ".asc"@
}

/// The signature check's verdict, once the key is imported.
pub open spec fn signature_verdict(g: Seq<char>, k: Seq<char>, v: VerifyOutcome) -> Result<
    (),
    Fault,
> {
    match v {
        VerifyOutcome::Failed { reason } => Err(
            Fault::VerifyFailed { attestation: g, key: k, reason: reason@ },
        ),
        VerifyOutcome::Signatures { statuses } => {
            if statuses@.len() != 1 {
                Err(
                    Fault::SignatureCount {
                        attestation: g,
                        key: k,
                        count: statuses@.len() as usize,
                    },
                )
            } else {
                match statuses@[0] {
                    SignatureStatus::Valid => Ok(()),
                    SignatureStatus::Invalid { reason } => Err(
                        Fault::BadSignature { attestation: g, key: k, reason: reason@ },
                    ),
                }
            }
        },
    }
}

/// The checks made before any key is imported: the key file was read, and
/// the key, the checksum file and the signature are ASCII, in that order.
pub open spec fn files_verdict(
    g: Seq<char>,
    key: Result<Vec<u8>, String>,
    sums: Seq<u8>,
    sig: Seq<u8>,
) -> Result<(), Fault> {
    let k = key_path_of(g);
    match key {
        Err(reason) => Err(
            Fault::KeyNotFound { attestation: g, key: k, builder: builder_of(g), reason: reason@ },
        ),
        Ok(kb) => {
            if !ascii_bytes(kb@) {
                Err(Fault::NotAscii { file: k })
            } else if !ascii_bytes(sums) {
                Err(Fault::NotAscii { file: g })
            } else if !ascii_bytes(sig) {
                Err(Fault::NotAscii { file: sig_path_of(g) })
            } else {
                Ok(())
            }
        },
    }
}

/// The verdict on one group: the file checks, then exactly one key imported,
/// then exactly one signature, which is valid.
pub open spec fn group_verdict(g: Seq<char>, ev: GroupEvidence) -> Result<(), Fault> {
    let k = key_path_of(g);
    match files_verdict(g, ev.key, ev.sums@, ev.sig@) {
        Err(f) => Err(f),
        Ok(()) => match ev.import {
            ImportOutcome::Failed { reason } => Err(Fault::ImportFailed { key: k, reason: reason@ }),
            ImportOutcome::Counts { considered, not_imported } => {
                if considered != 1 || not_imported > 0 {
                    Err(Fault::ImportCount { key: k, considered, not_imported })
                } else {
                    signature_verdict(g, k, ev.verify)
                }
            },
        },
    }
}

/// `s` with every occurrence of `k` taken out.
pub open spec fn without(s: Seq<Seq<char>>, k: Seq<char>) -> Seq<Seq<char>>
    decreases s.len(),
{
    if s.len() == 0 {
        s
    } else {
        let r = without(s.drop_last(), k);
        if s.last() == k {
            r
        } else {
            r.push(s.last())
        }
    }
}

/// The touched keys that the first `n` groups leave unaccounted for.
pub open spec fn unmatched(groups: Seq<Seq<char>>, keys: Seq<Seq<char>>, n: int) -> Seq<Seq<char>>
    decreases n,
{
    if n <= 0 {
        keys
    } else {
        without(unmatched(groups, keys, n - 1), key_path_of(groups[n - 1]))
    }
}

/// Index of the first group at or after `i` that is rejected, or the number of groups.
pub open spec fn first_rejected(groups: Seq<Seq<char>>, evs: Seq<GroupEvidence>, i: int) -> int
    decreases groups.len() - i,
{
    if i < 0 || i >= groups.len() {
        groups.len() as int
    } else if group_verdict(groups[i], evs[i]) is Err {
        i
    } else {
        first_rejected(groups, evs, i + 1)
    }
}

/// The outcome over all groups: the fault of the first rejected group, else
/// the touched keys that no group accounts for, else success.
pub open spec fn attest(groups: Seq<Seq<char>>, keys: Seq<Seq<char>>, evs: Seq<GroupEvidence>) -> Result<(), Fault> {
    let i = first_rejected(groups, evs, 0);
    let rest = unmatched(groups, keys, groups.len() as int);
    if i < groups.len() {
        group_verdict(groups[i], evs[i])
    } else if rest.len() > 0 {
        Err(Fault::UnmatchedKeys { keys: rest })
    } else {
        Ok(())
    }
}

/// A key, checksum or signature file holding a byte at or above 0x80
/// rejects its group with an encoding error naming the first such file, in
/// the order key, checksum file, signature.
pub proof fn non_ascii_rejected(g: Seq<char>, ev: GroupEvidence, kb: Vec<u8>)
    requires
        ev.key == Ok::<Vec<u8>, String>(kb),
        !ascii_bytes(kb@) || !ascii_bytes(ev.sums@) || !ascii_bytes(ev.sig@),
    ensures
        group_verdict(g, ev) is Err,
        (group_verdict(g, ev)->Err_0).kind() == ErrorKind::Encoding,
        group_verdict(g, ev) == Err::<(), Fault>(
            Fault::NotAscii {
                file: if !ascii_bytes(kb@) {
                    key_path_of(g)
                } else if !ascii_bytes(ev.sums@) {
                    g
                } else {
                    sig_path_of(g)
                },
            },
        ),
{
}

fn is_ascii_bytes(b: &Vec<u8>) -> (r: bool)
    ensures
        r == ascii_bytes(b@),
{
    let mut i: usize = 0;
    while i < b.len()
        invariant
            i <= b@.len(),
            forall|j: int| 0 <= j < i ==> b@[j] < 0x80,
        decreases b@.len() - i,
    {
        if b[i] >= 0x80 {
            return false;
        }
        i = i + 1;
    }
    true
}

/// The key path of `g`, taken out of `keys`.
fn remove_key(keys: Vec<String>, k: &String) -> (r: Vec<String>)
    ensures
        texts(r@) == without(texts(keys@), k@),
{
    let mut out: Vec<String> = Vec::new();
    let mut i: usize = 0;
    while i < keys.len()
        invariant
            i <= keys@.len(),
            texts(out@) == without(texts(keys@).take(i as int), k@),
        decreases keys@.len() - i,
    {
        let ghost before = out@;
        proof {
            assert(texts(keys@).take(i + 1).drop_last() =~= texts(keys@).take(i as int));
        }
        if keys[i] != *k {
            out.push(keys[i].clone());
            proof {
                assert(texts(out@) =~= texts(before).push(keys@[i as int]@));
            }
        }
        i = i + 1;
    }
    proof {
        assert(texts(keys@).take(i as int) =~= texts(keys@));
    }
    out
}

fn signature_check(g: &str, k: &String, v: &VerifyOutcome) -> (r: Result<(), GateError>)
    ensures
        match r {
            Ok(()) => signature_verdict(g@, k@, *v) is Ok,
            Err(e) => signature_verdict(g@, k@, *v) == Err::<(), Fault>(e@),
        },
{
    match v {
        VerifyOutcome::Failed { reason } => Err(
            GateError::VerifyFailed {
                attestation: g.to_owned(),
                key: k.clone(),
                reason: reason.clone(),
            },
        ),
        VerifyOutcome::Signatures { statuses } => {
            if statuses.len() != 1 {
                Err(
                    GateError::SignatureCount {
                        attestation: g.to_owned(),
                        key: k.clone(),
                        count: statuses.len(),
                    },
                )
            } else {
                match &statuses[0] {
                    SignatureStatus::Valid => Ok(()),
                    SignatureStatus::Invalid { reason } => Err(
                        GateError::BadSignature {
                            attestation: g.to_owned(),
                            key: k.clone(),
                            reason: reason.clone(),
                        },
                    ),
                }
            }
        },
    }
}

/// Checks what must hold of group `g` before its key is imported: the key
/// file was read, and the key, checksum file and signature are all ASCII.
pub fn check_files(
    g: &str,
    key: &Result<Vec<u8>, String>,
    sums: &Vec<u8>,
    sig: &Vec<u8>,
) -> (r: Result<(), GateError>)
    requires
        is_group_key(g@),
    ensures
        match r {
            Ok(()) => files_verdict(g@, *key, sums@, sig@) is Ok,
            Err(e) => files_verdict(g@, *key, sums@, sig@) == Err::<(), Fault>(e@),
        },
{
    let k = key_path_for(g);
    match key {
        Err(reason) => Err(
            GateError::KeyNotFound {
                attestation: g.to_owned(),
                key: k,
                builder: builder_name(g),
                reason: reason.clone(),
            },
        ),
        Ok(kb) => {
            if !is_ascii_bytes(kb) {
                Err(GateError::NotAscii { file: k })
            } else if !is_ascii_bytes(sums) {
                Err(GateError::NotAscii { file: g.to_owned() })
            } else if !is_ascii_bytes(sig) {
                let mut file = String::from_str(g);
                file.append(".asc");
                Err(GateError::NotAscii { file })
            } else {
                Ok(())
            }
        },
    }
}

/// Checks one attestation group `g` against what was found for it.
pub fn check_group(g: &str, ev: &GroupEvidence) -> (r: Result<(), GateError>)
    requires
        is_group_key(g@),
    ensures
        match r {
            Ok(()) => group_verdict(g@, *ev) is Ok,
            Err(e) => group_verdict(g@, *ev) == Err::<(), Fault>(e@),
        },
{
    match check_files(g, &ev.key, &ev.sums, &ev.sig) {
        Err(e) => {
            return Err(e);
        },
        Ok(()) => {},
    }
    let k = key_path_for(g);
    match &ev.import {
        ImportOutcome::Failed { reason } => Err(
            GateError::ImportFailed { key: k, reason: reason.clone() },
        ),
        ImportOutcome::Counts { considered, not_imported } => {
            if *considered != 1 || *not_imported > 0 {
                Err(
                    GateError::ImportCount {
                        key: k,
                        considered: *considered,
                        not_imported: *not_imported,
                    },
                )
            } else {
                signature_check(g, &k, &ev.verify)
            }
        },
    }
}

/// Checks the trust chain of the attestation groups that passed the
/// structural check, given what was found for each group (`evidence[i]`
/// for `groups[i]`), and that every touched builder key in `keys` belongs
/// to one of them.
pub fn check_attestations(
    groups: &Vec<String>,
    keys: Vec<String>,
    evidence: &Vec<GroupEvidence>,
) -> (r: Result<(), GateError>)
    requires
        groups@.len() == evidence@.len(),
        forall|i: int| 0 <= i < groups@.len() ==> is_group_key(#[trigger] groups@[i]@),
    ensures
        match r {
            Ok(()) => attest(texts(groups@), texts(keys@), evidence@) is Ok,
            Err(e) => attest(texts(groups@), texts(keys@), evidence@) == Err::<(), Fault>(e@),
        },
{
    let ghost gs = texts(groups@);
    let ghost ks = texts(keys@);
    let mut left = keys;
    let mut i: usize = 0;
    while i < groups.len()
        invariant
            i <= groups@.len(),
            groups@.len() == evidence@.len(),
            gs == texts(groups@),
            forall|j: int| 0 <= j < groups@.len() ==> is_group_key(#[trigger] groups@[j]@),
            first_rejected(gs, evidence@, i as int) == first_rejected(gs, evidence@, 0),
            texts(left@) == unmatched(gs, ks, i as int),
        decreases groups@.len() - i,
    {
        let g = groups[i].as_str();
        proof {
            assert(gs[i as int] == g@);
        }
        match check_group(g, &evidence[i]) {
            Err(e) => {
                return Err(e);
            },
            Ok(()) => {},
        }
        let k = key_path_for(g);
        left = remove_key(left, &k);
        i = i + 1;
    }
    if left.len() > 0 {
        Err(GateError::UnmatchedKeys { keys: left })
    } else {
        Ok(())
    }
}

} // verus!
