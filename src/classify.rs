//! The structural check of a diff: which files a change may touch, and how.

use vstd::prelude::*;
use vstd::string::*;
use crate::fault::{texts, Fault, GateError};
use crate::paths::{
    group_of, is_attestation_path, is_exempt, is_exempt_path, is_group_key, is_group_key_path,
    is_key, is_key_path, is_signature, lines, lines_from, parse_diff_line, parse_line,
};
use crate::text::{find_char, same_text};

verus! {

/// One attestation group as it is being collected: its key, and how many
/// checksum files and signatures named it, each count capped at two.
pub type GroupCount = (Seq<char>, nat, nat);

/// What the scan has gathered after some lines: attestation groups in the
/// order first seen, and builder keys in order.
pub struct Scan {
    pub groups: Seq<GroupCount>,
    pub keys: Seq<Seq<char>>,
}

pub open spec fn bump(c: nat) -> nat {
    if c < 2 {
        c + 1
    } else {
        2
    }
}

/// Index of the first group at or after `i` with key `g`, or the number of groups.
pub open spec fn group_index(gs: Seq<GroupCount>, g: Seq<char>, i: int) -> int
    decreases gs.len() - i,
{
    if i < 0 || i >= gs.len() {
        gs.len() as int
    } else if gs[i].0 == g {
        i
    } else {
        group_index(gs, g, i + 1)
    }
}

/// Counts one more member of group `g`: a signature when `signed`, else a
/// checksum file.
pub open spec fn record(gs: Seq<GroupCount>, g: Seq<char>, signed: bool) -> Seq<GroupCount> {
    let k = group_index(gs, g, 0);
    if k < gs.len() {
        let t = gs[k];
        gs.update(k, if signed { (t.0, t.1, bump(t.2)) } else { (t.0, bump(t.1), t.2) })
    } else {
        gs.push(if signed { (g, 0nat, 1nat) } else { (g, 1nat, 0nat) })
    }
}

/// The effect of one diff line on the scan.
pub open spec fn step(st: Scan, line: Seq<char>) -> Result<Scan, Fault> {
    match parse_line(line) {
        None => Err(Fault::MalformedLine { line }),
        Some((status, path)) => {
            if is_exempt(path) {
                Ok(st)
            } else if is_attestation_path(path) {
                if status != "A"@ {
                    Err(Fault::AttestationStatus { status, path })
                } else {
                    Ok(Scan { groups: record(st.groups, group_of(path), !is_group_key(path)), ..st })
                }
            } else if is_key_path(path) {
                if st.keys.contains(path) {
                    Err(Fault::DuplicateKey { path })
                } else if status != "A"@ && status != "M"@ {
                    Err(Fault::KeyStatus { status, path })
                } else {
                    Ok(Scan { keys: st.keys.push(path), ..st })
                }
            } else {
                Err(Fault::UnknownFile { path })
            }
        },
    }
}

pub open spec fn empty_scan() -> Scan {
    Scan { groups: seq![], keys: seq![] }
}

/// The scan of a sequence of lines, stopping at the first rejected one.
pub open spec fn scan(ls: Seq<Seq<char>>) -> Result<Scan, Fault>
    decreases ls.len(),
{
    if ls.len() == 0 {
        Ok(empty_scan())
    } else {
        match scan(ls.drop_last()) {
            Ok(st) => step(st, ls.last()),
            Err(f) => Err(f),
        }
    }
}

/// A group is complete when it has exactly one checksum file and one signature.
pub open spec fn complete(t: GroupCount) -> bool {
    t.1 == 1 && t.2 == 1
}

/// The member of an incomplete group that is not there exactly once: the
/// checksum file if its count is off, else the signature.
pub open spec fn missing_member(t: GroupCount) -> Seq<char> {
    if t.1 != 1 {
        t.0
    } else {
        t.0 + ".asc"@
    }
}

pub open spec fn first_incomplete(gs: Seq<GroupCount>, i: int) -> int
    decreases gs.len() - i,
{
    if i < 0 || i >= gs.len() {
        gs.len() as int
    } else if !complete(gs[i]) {
        i
    } else {
        first_incomplete(gs, i + 1)
    }
}

pub open spec fn group_keys(gs: Seq<GroupCount>) -> Seq<Seq<char>> {
    gs.map_values(|t: GroupCount| t.0)
}

/// The outcome once every line is scanned: the first incomplete group is
/// rejected, else the group keys and builder keys are handed on.
pub open spec fn finish(st: Scan) -> Result<(Seq<Seq<char>>, Seq<Seq<char>>), Fault> {
    let k = first_incomplete(st.groups, 0);
    if k < st.groups.len() {
        Err(Fault::MissingCounterpart { group: st.groups[k].0, missing: missing_member(st.groups[k]) })
    } else {
        Ok((group_keys(st.groups), st.keys))
    }
}

/// The attestation group keys and builder keys that pass, or the rejection.
pub type Verdict = Result<(Seq<Seq<char>>, Seq<Seq<char>>), Fault>;

/// The structural verdict on a diff text.
pub open spec fn classify(text: Seq<char>) -> Verdict {
    match scan(lines(text)) {
        Ok(st) => finish(st),
        Err(f) => Err(f),
    }
}

/// Once a prefix is rejected, so is every extension of it, with the same fault.
pub proof fn lemma_scan_stuck(a: Seq<Seq<char>>, b: Seq<Seq<char>>)
    requires
        scan(a) is Err,
    ensures
        scan(a + b) == scan(a),
    decreases b.len(),
{
    if b.len() == 0 {
        assert(a + b =~= a);
    } else {
        lemma_scan_stuck(a, b.drop_last());
        assert((a + b).drop_last() =~= a + b.drop_last());
    }
}

struct Tally {
    key: String,
    plain: u8,
    signed: u8,
}

spec fn tallies(v: Seq<Tally>) -> Seq<GroupCount> {
    v.map_values(|t: Tally| (t.key@, t.plain as nat, t.signed as nat))
}

fn bump_count(c: u8) -> (r: u8)
    ensures
        r as nat == bump(c as nat),
{
    if c < 2 {
        c + 1
    } else {
        2
    }
}

fn record_member(groups: &mut Vec<Tally>, g: String, signed: bool)
    ensures
        tallies(final(groups)@) == record(tallies(old(groups)@), g@, signed),
{
    let ghost gs = tallies(groups@);
    let mut i: usize = 0;
    while i < groups.len()
        invariant
            i <= groups@.len(),
            gs == tallies(groups@),
            groups@ == old(groups)@,
            group_index(gs, g@, i as int) == group_index(gs, g@, 0),
        decreases groups@.len() - i,
    {
        if groups[i].key == g {
            let (p, s) = (groups[i].plain, groups[i].signed);
            let t = if signed {
                Tally { key: g, plain: p, signed: bump_count(s) }
            } else {
                Tally { key: g, plain: bump_count(p), signed: s }
            };
            groups[i] = t;
            proof {
                assert(tallies(groups@) =~= record(gs, gs[i as int].0, signed));
            }
            return;
        }
        i = i + 1;
    }
    let t = if signed {
        Tally { key: g, plain: 0, signed: 1 }
    } else {
        Tally { key: g, plain: 1, signed: 0 }
    };
    groups.push(t);
    proof {
        assert(tallies(groups@) =~= record(gs, g@, signed));
    }
}

fn contains_text(v: &Vec<String>, s: &String) -> (r: bool)
    ensures
        r == texts(v@).contains(s@),
{
    let mut i: usize = 0;
    while i < v.len()
        invariant
            i <= v@.len(),
            forall|j: int| 0 <= j < i ==> texts(v@)[j] != s@,
        decreases v@.len() - i,
    {
        if v[i] == *s {
            proof {
                assert(texts(v@)[i as int] == s@);
            }
            return true;
        }
        i = i + 1;
    }
    false
}

spec fn scan_of(groups: Seq<Tally>, keys: Seq<String>) -> Scan {
    Scan { groups: tallies(groups), keys: texts(keys) }
}

/// Applies one diff line to the scan state.
fn apply_line(line: &str, groups: &mut Vec<Tally>, keys: &mut Vec<String>) -> (r: Result<
    (),
    GateError,
>)
    ensures
        match r {
            Ok(()) => step(scan_of(old(groups)@, old(keys)@), line@) == Ok::<Scan, Fault>(
                scan_of(final(groups)@, final(keys)@),
            ),
            Err(e) => step(scan_of(old(groups)@, old(keys)@), line@) == Err::<Scan, Fault>(e@),
        },
{
    let parsed = parse_diff_line(line);
    match parsed {
        None => Err(GateError::MalformedLine { line: line.to_owned() }),
        Some((status, path)) => {
            if is_exempt_path(path.as_str()) {
                Ok(())
            } else if is_group_key_path(path.as_str()) || is_signature(path.as_str()) {
                if !same_text(status.as_str(), "A") {
                    return Err(GateError::AttestationStatus { status, path });
                }
                let signed = !is_group_key_path(path.as_str());
                let g = if signed {
                    let n = path.unicode_len();
                    proof {
                        reveal_strlit(".asc");
                    }
                    path.as_str().substring_char(0, n - 4).to_owned()
                } else {
                    path
                };
                record_member(groups, g, signed);
                Ok(())
            } else if is_key(path.as_str()) {
                if contains_text(keys, &path) {
                    Err(GateError::DuplicateKey { path })
                } else if !same_text(status.as_str(), "A") && !same_text(status.as_str(), "M") {
                    Err(GateError::KeyStatus { status, path })
                } else {
                    let ghost before = keys@;
                    keys.push(path);
                    proof {
                        assert(texts(keys@) =~= texts(before).push(path@));
                    }
                    Ok(())
                }
            } else {
                Err(GateError::UnknownFile { path })
            }
        },
    }
}

/// Checks which files a diff touches and how. Each line of `touched_files` is
/// a status and a path; the result is the complete attestation groups, in the
/// order first seen, and the builder keys that were added or modified.
pub fn check(touched_files: &str) -> (r: Result<(Vec<String>, Vec<String>), GateError>)
    ensures
        match r {
            Ok((g, k)) => classify(touched_files@) == Verdict::Ok((texts(g@), texts(k@))) && forall|
                i: int,
            | 0 <= i < g@.len() ==> is_group_key(#[trigger] g@[i]@),
            Err(e) => classify(touched_files@) == Verdict::Err(e@),
        },
{
    let ghost s = touched_files@;
    let n = touched_files.unicode_len();
    let mut pos: usize = 0;
    let ghost mut done: Seq<Seq<char>> = seq![];
    let mut groups: Vec<Tally> = Vec::new();
    let mut keys: Vec<String> = Vec::new();
    proof {
        assert(done + lines_from(s, 0) =~= lines(s));
        assert(tallies(groups@) =~= seq![]);
        assert(texts(keys@) =~= seq![]);
    }
    while pos < n
        invariant
            pos <= n,
            n == s.len(),
            s == touched_files@,
            done + lines_from(s, pos as int) == lines(s),
            scan(done) == Ok::<Scan, Fault>(scan_of(groups@, keys@)),
        decreases n - pos,
    {
        let e = find_char(touched_files, pos, '\n');
        let line = touched_files.substring_char(pos, e);
        let next = if e < n {
            e + 1
        } else {
            n
        };
        let ghost grown = done.push(line@);
        proof {
            assert(lines_from(s, pos as int) == seq![line@] + lines_from(s, e + 1));
            assert(lines_from(s, next as int) == lines_from(s, e + 1));
            assert(done + lines_from(s, pos as int) =~= grown + lines_from(s, next as int));
            assert(grown.drop_last() =~= done);
        }
        let r = apply_line(line, &mut groups, &mut keys);
        match r {
            Err(err) => {
                proof {
                    lemma_scan_stuck(grown, lines_from(s, next as int));
                }
                return Err(err);
            },
            Ok(()) => {},
        }
        proof {
            done = grown;
        }
        pos = next;
    }
    proof {
        assert(lines_from(s, pos as int) =~= seq![]);
        assert(done =~= done + lines_from(s, pos as int));
        assert(scan(lines(s)) == Ok::<Scan, Fault>(scan_of(groups@, keys@)));
    }
    let mut i: usize = 0;
    while i < groups.len()
        invariant
            i <= groups@.len(),
            first_incomplete(tallies(groups@), i as int) == first_incomplete(tallies(groups@), 0),
            scan(lines(touched_files@)) == Ok::<Scan, Fault>(scan_of(groups@, keys@)),
        decreases groups@.len() - i,
    {
        if groups[i].plain != 1 || groups[i].signed != 1 {
            let mut missing = groups[i].key.clone();
            if groups[i].plain == 1 {
                missing.append(".asc");
            }
            return Err(GateError::MissingCounterpart { group: groups[i].key.clone(), missing });
        }
        i = i + 1;
    }
    let mut out: Vec<String> = Vec::new();
    let mut j: usize = 0;
    while j < groups.len()
        invariant
            j <= groups@.len(),
            texts(out@) == group_keys(tallies(groups@)).take(j as int),
            scan(lines(touched_files@)) == Ok::<Scan, Fault>(scan_of(groups@, keys@)),
            first_incomplete(tallies(groups@), 0) == groups@.len(),
        decreases groups@.len() - j,
    {
        let ghost before = out@;
        out.push(groups[j].key.clone());
        proof {
            assert(texts(out@) =~= texts(before).push(groups@[j as int].key@));
            assert(texts(out@) =~= group_keys(tallies(groups@)).take(j + 1));
        }
        j = j + 1;
    }
    proof {
        assert(group_keys(tallies(groups@)).take(j as int) =~= group_keys(tallies(groups@)));
        crate::laws::lemma_scan_counted(lines(s));
        assert forall|i: int| 0 <= i < out@.len() implies is_group_key(#[trigger] out@[i]@) by {
            assert(texts(out@)[i] == tallies(groups@)[i].0);
        }
    }
    Ok((out, keys))
}

} // verus!
