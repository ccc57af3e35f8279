//! Properties of the structural check, proved over its specification.

use vstd::prelude::*;
use vstd::string::*;
use crate::classify::{
    classify, complete, empty_scan, first_incomplete, group_index, group_keys, missing_member, record, lemma_scan_stuck, scan, Verdict,
    Scan,
};
use crate::fault::Fault;
use crate::paths::{
    group_of, is_attestation_path, is_exempt, is_group_key, is_key_path, is_signature_path, lines,
    parse_line, sig_suffix,
};
use crate::text::{has_prefix, has_suffix};

verus! {

/// The line names an exempt path.
pub open spec fn exempt_line(l: Seq<char>) -> bool {
    match parse_line(l) {
        Some((_, p)) => is_exempt(p),
        None => false,
    }
}

proof fn lemma_exempt_scan(ls: Seq<Seq<char>>)
    requires
        forall|i: int| 0 <= i < ls.len() ==> exempt_line(#[trigger] ls[i]),
    ensures
        scan(ls) == Ok::<Scan, Fault>(empty_scan()),
    decreases ls.len(),
{
    if ls.len() > 0 {
        let d = ls.drop_last();
        assert forall|i: int| 0 <= i < d.len() implies exempt_line(#[trigger] d[i]) by {
            assert(d[i] == ls[i]);
        }
        lemma_exempt_scan(d);
        assert(exempt_line(ls[ls.len() - 1]));
    }
}

/// A diff that touches only exempt paths is accepted, with no attestation
/// groups and no builder keys.
pub proof fn exempt_only_accepted(text: Seq<char>)
    requires
        forall|i: int| 0 <= i < lines(text).len() ==> exempt_line(#[trigger] lines(text)[i]),
    ensures
        classify(text) == Verdict::Ok((seq![], seq![])),
{
    lemma_exempt_scan(lines(text));
    assert(group_keys(empty_scan().groups) =~= seq![]);
}

/// If line `k` of a diff is the first one rejected, the diff is rejected with
/// the fault of that line.
proof fn lemma_first_fault(ls: Seq<Seq<char>>, k: int, f: Fault)
    requires
        0 <= k < ls.len(),
        scan(ls.take(k)) is Ok,
        crate::classify::step(scan(ls.take(k))->Ok_0, ls[k]) == Err::<Scan, Fault>(f),
    ensures
        scan(ls) == Err::<Scan, Fault>(f),
{
    assert(ls.take(k + 1).drop_last() =~= ls.take(k));
    assert(scan(ls.take(k + 1)) == Err::<Scan, Fault>(f));
    lemma_scan_stuck(ls.take(k + 1), ls.skip(k + 1));
    assert(ls.take(k + 1) + ls.skip(k + 1) =~= ls);
}

/// An attestation file touched with a status other than "A" rejects the
/// diff, naming that status and path, when no earlier line was rejected.
pub proof fn attestation_status_rejected(
    text: Seq<char>,
    k: int,
    status: Seq<char>,
    path: Seq<char>,
)
    requires
        0 <= k < lines(text).len(),
        scan(lines(text).take(k)) is Ok,
        parse_line(lines(text)[k]) == Some((status, path)),
        !is_exempt(path),
        is_attestation_path(path),
        status != "A"@,
    ensures
        classify(text) == Verdict::Err(Fault::AttestationStatus { status, path }),
{
    lemma_first_fault(lines(text), k, Fault::AttestationStatus { status, path });
}

proof fn lemma_key_not_attestation(p: Seq<char>)
    requires
        is_key_path(p),
    ensures
        !is_attestation_path(p),
        !is_exempt(p),
{
    reveal_strlit("builder-keys/");
    reveal_strlit(".gpg");
    reveal_strlit(".asc");
    reveal_strlit("SHA256SUMS");
    reveal_strlit("README.md");
    reveal_strlit(".cirrus.yml");
    reveal_strlit("contrib/");
    reveal_strlit(".github/");
    assert(p.subrange(0, 13)[0] == p[0]);
    assert(p.subrange(p.len() - 4, p.len() as int)[3] == p[p.len() - 1]);
    if has_prefix(p, "README.md"@) {
        assert(p.subrange(0, 9)[0] == p[0]);
    }
    if has_prefix(p, ".cirrus.yml"@) {
        assert(p.subrange(0, 11)[0] == p[0]);
    }
    if has_prefix(p, "contrib/"@) {
        assert(p.subrange(0, 8)[0] == p[0]);
    }
    if has_prefix(p, ".github/"@) {
        assert(p.subrange(0, 8)[0] == p[0]);
    }
    if has_suffix(p, "SHA256SUMS"@) {
        assert(p.subrange(p.len() - 10, p.len() as int)[9] == p[p.len() - 1]);
    }
    if has_suffix(p, sig_suffix()) {
        assert(p.subrange(p.len() - 4, p.len() as int)[3] == p[p.len() - 1]);
    }
}

/// A builder key touched with a status other than "A" or "M" rejects the
/// diff, naming that status and path, when no earlier line was rejected and
/// the key was not already listed.
pub proof fn key_status_rejected(text: Seq<char>, k: int, status: Seq<char>, path: Seq<char>)
    requires
        0 <= k < lines(text).len(),
        scan(lines(text).take(k)) is Ok,
        !(scan(lines(text).take(k))->Ok_0.keys.contains(path)),
        parse_line(lines(text)[k]) == Some((status, path)),
        is_key_path(path),
        status != "A"@,
        status != "M"@,
    ensures
        classify(text) == Verdict::Err(Fault::KeyStatus { status, path }),
{
    lemma_key_not_attestation(path);
    lemma_first_fault(lines(text), k, Fault::KeyStatus { status, path });
}

/// Once every line passes, the first incomplete group is the one rejected.
pub proof fn incomplete_group_rejected(text: Seq<char>, j: int)
    requires
        scan(lines(text)) is Ok,
        0 <= j < scan(lines(text))->Ok_0.groups.len(),
        !complete(scan(lines(text))->Ok_0.groups[j]),
        forall|m: int| 0 <= m < j ==> complete(#[trigger] scan(lines(text))->Ok_0.groups[m]),
    ensures
        classify(text) == Verdict::Err(
            Fault::MissingCounterpart {
                group: scan(lines(text))->Ok_0.groups[j].0,
                missing: missing_member(scan(lines(text))->Ok_0.groups[j]),
            },
        ),
{
    let gs = scan(lines(text))->Ok_0.groups;
    lemma_first_incomplete(gs, 0, j);
}

proof fn lemma_first_incomplete(gs: Seq<(Seq<char>, nat, nat)>, i: int, j: int)
    requires
        0 <= i <= j < gs.len(),
        !complete(gs[j]),
        forall|m: int| 0 <= m < j ==> complete(#[trigger] gs[m]),
    ensures
        first_incomplete(gs, i) == j,
    decreases j - i,
{
    if i < j {
        lemma_first_incomplete(gs, i + 1, j);
    }
}

proof fn lemma_signature_of_group(g: Seq<char>)
    requires
        is_group_key(g),
    ensures
        is_signature_path(g + ".asc"@),
        !is_group_key(g + ".asc"@),
        group_of(g + ".asc"@) == g,
        is_exempt(g + ".asc"@) == is_exempt(g),
{
    reveal_strlit(".asc");
    reveal_strlit("SHA256SUMS");
    reveal_strlit("README.md");
    reveal_strlit(".cirrus.yml");
    reveal_strlit("contrib/");
    reveal_strlit(".github/");
    let s = g + ".asc"@;
    assert(s.subrange(s.len() - 4, s.len() as int) =~= ".asc"@);
    assert(s.subrange(0, s.len() - 4) =~= g);
    if has_suffix(s, "SHA256SUMS"@) {
        assert(s.subrange(s.len() - 10, s.len() as int)[9] == s[s.len() - 1]);
    }
    assert(s.subrange(0, 9) =~= g.subrange(0, 9));
    assert(s.subrange(0, 11) =~= g.subrange(0, 11));
    assert(s.subrange(0, 8) =~= g.subrange(0, 8));
}

/// One member of an attestation pair, added on its own, is rejected as an
/// incomplete group named by its group key, with the other member missing.
pub proof fn lone_member_rejected(text: Seq<char>, path: Seq<char>)
    requires
        lines(text).len() == 1,
        parse_line(lines(text)[0]) == Some(("A"@, path)),
        !is_exempt(path),
        is_attestation_path(path),
    ensures
        classify(text) == Verdict::Err(
            Fault::MissingCounterpart {
                group: group_of(path),
                missing: if is_group_key(path) {
                    path + ".asc"@
                } else {
                    group_of(path)
                },
            },
        ),
{
    let ls = lines(text);
    assert(ls.drop_last() =~= seq![]);
    assert(scan(ls.drop_last()) == Ok::<Scan, Fault>(empty_scan()));
    let e: Seq<(Seq<char>, nat, nat)> = seq![];
    assert(group_index(e, group_of(path), 0) == 0);
    let st = scan(ls)->Ok_0;
    assert(st.groups.len() == 1);
    assert(first_incomplete(st.groups, 0) == 0);
}

/// Both members of an attestation pair, added together in either order, pass
/// the structural check as exactly one group, with no builder keys.
pub proof fn pair_accepted(text: Seq<char>, g: Seq<char>, signature_first: bool)
    requires
        is_group_key(g),
        !is_exempt(g),
        lines(text).len() == 2,
        parse_line(lines(text)[0]) == Some(
            ("A"@, if signature_first { g + ".asc"@ } else { g }),
        ),
        parse_line(lines(text)[1]) == Some(
            ("A"@, if signature_first { g } else { g + ".asc"@ }),
        ),
    ensures
        classify(text) == Verdict::Ok((seq![g], seq![])),
{
    lemma_signature_of_group(g);
    let ls = lines(text);
    assert(ls.drop_last() =~= seq![ls[0]]);
    assert(ls.drop_last().drop_last() =~= seq![]);
    assert(scan(ls.drop_last().drop_last()) == Ok::<Scan, Fault>(empty_scan()));
    let e: Seq<(Seq<char>, nat, nat)> = seq![];
    assert(group_index(e, g, 0) == 0);
    let st1 = scan(ls.drop_last())->Ok_0;
    assert(st1.groups =~= seq![(g, if signature_first { 0nat } else { 1nat }, if signature_first { 1nat } else { 0nat })]);
    assert(group_index(st1.groups, g, 0) == 0);
    let st2 = scan(ls)->Ok_0;
    assert(st2.groups =~= seq![(g, 1nat, 1nat)]);
    assert(first_incomplete(st2.groups, 1) == 1);
    assert(first_incomplete(st2.groups, 0) == 1);
    assert(group_keys(st2.groups) =~= seq![g]);
}

/// The paths that make up the attestation group `g`: its checksum file and
/// its detached signature.
pub open spec fn member_paths(g: Seq<char>) -> Set<Seq<char>> {
    set![g, g + ".asc"@]
}

/// Turning the accepted group key of a two-file attestation back into paths
/// gives exactly the two paths of the diff.
pub proof fn pair_round_trip(
    text: Seq<char>,
    p0: Seq<char>,
    p1: Seq<char>,
)
    requires
        lines(text).len() == 2,
        parse_line(lines(text)[0]) == Some(("A"@, p0)),
        parse_line(lines(text)[1]) == Some(("A"@, p1)),
        !is_exempt(p0),
        (is_group_key(p0) && p1 == p0 + ".asc"@) || (is_group_key(p1) && p0 == p1 + ".asc"@),
    ensures
        classify(text) is Ok,
        (classify(text)->Ok_0).0.len() == 1,
        member_paths((classify(text)->Ok_0).0[0]) == set![p0, p1],
{
    if is_group_key(p0) && p1 == p0 + ".asc"@ {
        pair_accepted(text, p0, false);
        assert(member_paths(p0) =~= set![p0, p1]);
    } else {
        lemma_signature_of_group(p1);
        pair_accepted(text, p1, true);
        assert(member_paths(p1) =~= set![p0, p1]);
    }
}

/// Some line of `ls` adds the path `p`.
pub open spec fn adds_path(ls: Seq<Seq<char>>, p: Seq<char>) -> bool {
    exists|i: int| 0 <= i < ls.len() && parse_line(#[trigger] ls[i]) == Some(("A"@, p))
}

/// Every counted member of a scanned group was added by some line.
pub open spec fn members_added(ls: Seq<Seq<char>>, gs: Seq<(Seq<char>, nat, nat)>) -> bool {
    forall|j: int|
        0 <= j < gs.len() ==> ((#[trigger] gs[j]).1 >= 1 ==> adds_path(ls, gs[j].0)) && (gs[j].2
            >= 1 ==> adds_path(ls, gs[j].0 + ".asc"@))
}

proof fn lemma_adds_grow(d: Seq<Seq<char>>, l: Seq<char>, p: Seq<char>)
    requires
        adds_path(d, p),
    ensures
        adds_path(d.push(l), p),
{
    let i = choose|i: int| 0 <= i < d.len() && parse_line(#[trigger] d[i]) == Some(("A"@, p));
    assert(d.push(l)[i] == d[i]);
}

proof fn lemma_scan_members(ls: Seq<Seq<char>>)
    requires
        scan(ls) is Ok,
    ensures
        members_added(ls, (scan(ls)->Ok_0).groups),
    decreases ls.len(),
{
    if ls.len() > 0 {
        let d = ls.drop_last();
        let l = ls.last();
        assert(d.push(l) =~= ls);
        lemma_scan_members(d);
        let gd = (scan(d)->Ok_0).groups;
        let gs = (scan(ls)->Ok_0).groups;
        assert forall|x: Seq<char>| adds_path(d, x) implies adds_path(ls, x) by {
            lemma_adds_grow(d, l, x);
        }
        match parse_line(l) {
            Some((status, path)) => {
                if !is_exempt(path) && is_attestation_path(path) {
                    let g = group_of(path);
                    let signed = !is_group_key(path);
                    assert(ls[ls.len() - 1] == l);
                    if signed {
                        reveal_strlit(".asc");
                        assert(path.subrange(0, path.len() - 4) + ".asc"@ =~= path);
                        assert(adds_path(ls, g + ".asc"@));
                    } else {
                        assert(adds_path(ls, g));
                    }
                    assert forall|j: int| 0 <= j < gs.len() implies ((#[trigger] gs[j]).1 >= 1
                        ==> adds_path(ls, gs[j].0)) && (gs[j].2 >= 1 ==> adds_path(
                        ls,
                        gs[j].0 + ".asc"@,
                    )) by {
                        lemma_group_index(gd, g, 0);
                        if j < gd.len() {
                            assert(gd[j].1 >= 1 ==> adds_path(d, gd[j].0));
                            assert(gd[j].2 >= 1 ==> adds_path(d, gd[j].0 + ".asc"@));
                        }
                    }
                }
            },
            None => {},
        }
    }
}

proof fn lemma_group_index(gs: Seq<(Seq<char>, nat, nat)>, g: Seq<char>, i: int)
    requires
        0 <= i <= gs.len(),
    ensures
        i <= group_index(gs, g, i) <= gs.len(),
        group_index(gs, g, i) < gs.len() ==> gs[group_index(gs, g, i)].0 == g,
    decreases gs.len() - i,
{
    if i < gs.len() && gs[i].0 != g {
        lemma_group_index(gs, g, i + 1);
    }
}

proof fn lemma_all_complete(gs: Seq<(Seq<char>, nat, nat)>, i: int)
    requires
        0 <= i <= gs.len(),
        first_incomplete(gs, i) >= gs.len(),
    ensures
        forall|j: int| i <= j < gs.len() ==> complete(#[trigger] gs[j]),
    decreases gs.len() - i,
{
    if i < gs.len() {
        lemma_all_complete(gs, i + 1);
    }
}

/// Every group key that the structural check accepts turns back into the
/// two paths of its pair, the checksum file and its `.asc` signature, and the
/// diff added both of them.
pub proof fn accepted_groups_round_trip(text: Seq<char>)
    requires
        classify(text) is Ok,
    ensures
        forall|j: int|
            0 <= j < (classify(text)->Ok_0).0.len() ==> adds_path(
                lines(text),
                #[trigger] (classify(text)->Ok_0).0[j],
            ) && adds_path(lines(text), (classify(text)->Ok_0).0[j] + ".asc"@),
{
    let ls = lines(text);
    lemma_scan_members(ls);
    let gs = (scan(ls)->Ok_0).groups;
    lemma_all_complete(gs, 0);
    assert forall|j: int| 0 <= j < (classify(text)->Ok_0).0.len() implies adds_path(
        ls,
        #[trigger] (classify(text)->Ok_0).0[j],
    ) && adds_path(ls, (classify(text)->Ok_0).0[j] + ".asc"@) by {
        assert(complete(gs[j]));
        assert((classify(text)->Ok_0).0[j] == gs[j].0);
    }
}

/// Line `l` touches the attestation file `x`: `x` is its path, not exempt,
/// and of attestation shape.
pub open spec fn touches_member(l: Seq<char>, x: Seq<char>) -> bool {
    match parse_line(l) {
        Some((_, p)) => p == x && !is_exempt(p) && is_attestation_path(p),
        None => false,
    }
}

/// How many lines of `ls` touch the attestation file `x`.
pub open spec fn occurrences(ls: Seq<Seq<char>>, x: Seq<char>) -> nat
    decreases ls.len(),
{
    if ls.len() == 0 {
        0
    } else {
        occurrences(ls.drop_last(), x) + if touches_member(ls.last(), x) {
            1nat
        } else {
            0nat
        }
    }
}

pub open spec fn cap(n: nat) -> nat {
    if n < 2 {
        n
    } else {
        2
    }
}

/// The scanned groups count exactly the attestation lines of `ls`: each is a
/// group key counted at least once, the keys are distinct, and every
/// attestation file touched belongs to one of them.
pub open spec fn counted(ls: Seq<Seq<char>>, gs: Seq<(Seq<char>, nat, nat)>) -> bool {
    &&& forall|k: int|
        0 <= k < gs.len() ==> is_group_key((#[trigger] gs[k]).0) && gs[k].1 + gs[k].2 >= 1
            && gs[k].1 == cap(
            occurrences(ls, gs[k].0),
        ) && gs[k].2 == cap(occurrences(ls, gs[k].0 + ".asc"@))
    &&& forall|k: int, m: int| 0 <= k < gs.len() && 0 <= m < gs.len() && k != m ==> (#[trigger] gs[k]).0 != (#[trigger] gs[m]).0
    &&& forall|x: Seq<char>|
        #[trigger] occurrences(ls, x) > 0 ==> exists|k: int|
            0 <= k < gs.len() && (#[trigger] gs[k]).0 == group_of(x)
}

proof fn lemma_members_differ(y: Seq<char>, h: Seq<char>)
    requires
        is_group_key(y),
        is_group_key(h),
    ensures
        y != h + ".asc"@,
        y + ".asc"@ == h + ".asc"@ ==> y == h,
{
    reveal_strlit(".asc");
    reveal_strlit("SHA256SUMS");
    let a = h + ".asc"@;
    assert(a[a.len() - 1] == 'c');
    assert(y.subrange(y.len() - 10, y.len() as int)[9] == y[y.len() - 1]);
    if y + ".asc"@ == h + ".asc"@ {
        assert((y + ".asc"@).subrange(0, y.len() as int) =~= y);
        assert((h + ".asc"@).subrange(0, h.len() as int) =~= h);
    }
}

proof fn lemma_attestation_split(x: Seq<char>)
    requires
        is_attestation_path(x),
    ensures
        is_group_key(group_of(x)),
        is_group_key(x) ==> x == group_of(x),
        !is_group_key(x) ==> x == group_of(x) + ".asc"@,
{
    reveal_strlit(".asc");
    if !is_group_key(x) {
        assert(x.subrange(x.len() - 4, x.len() as int) =~= ".asc"@);
        assert(x.subrange(0, x.len() - 4) + ".asc"@ =~= x);
    }
}

proof fn lemma_occurrence_shape(ls: Seq<Seq<char>>, x: Seq<char>)
    requires
        occurrences(ls, x) > 0,
    ensures
        is_attestation_path(x),
        !is_exempt(x),
    decreases ls.len(),
{
    if !touches_member(ls.last(), x) {
        lemma_occurrence_shape(ls.drop_last(), x);
    }
}

pub proof fn lemma_scan_counted(ls: Seq<Seq<char>>)
    requires
        scan(ls) is Ok,
    ensures
        counted(ls, (scan(ls)->Ok_0).groups),
    decreases ls.len(),
{
    if ls.len() == 0 {
        return;
    }
    let d = ls.drop_last();
    let l = ls.last();
    lemma_scan_counted(d);
    let gd = (scan(d)->Ok_0).groups;
    let gs = (scan(ls)->Ok_0).groups;
    let (status, q) = parse_line(l)->Some_0;
    if is_exempt(q) || !is_attestation_path(q) {
        assert forall|x: Seq<char>| occurrences(ls, x) == occurrences(d, x) by {}
        assert(gs == gd);
        return;
    }
    let h = group_of(q);
    let signed = !is_group_key(q);
    lemma_attestation_split(q);
    lemma_signature_of_group(h);
    assert(gs == record(gd, h, signed));
    assert forall|x: Seq<char>| #[trigger] occurrences(ls, x) == occurrences(d, x) + if x == q {
        1nat
    } else {
        0nat
    } by {}
    lemma_group_index(gd, h, 0);
    let k0 = group_index(gd, h, 0);
    assert forall|k: int| 0 <= k < gd.len() && gd[k].0 != h implies gd[k].0 != q && gd[k].0
        + ".asc"@ != q by {
        lemma_members_differ(gd[k].0, h);
        lemma_members_differ(h, gd[k].0);
    }
    assert(h != h + ".asc"@) by {
        lemma_members_differ(h, h);
    }
    if k0 == gd.len() {
        lemma_group_absent(gd, h, 0);
        if occurrences(d, h) > 0 {
            lemma_occurrence_shape(d, h);
            lemma_attestation_split(h);
        }
        if occurrences(d, h + ".asc"@) > 0 {
            lemma_occurrence_shape(d, h + ".asc"@);
        }
        assert(occurrences(d, h) == 0);
        assert(occurrences(d, h + ".asc"@) == 0);
        assert forall|x: Seq<char>| #[trigger] occurrences(ls, x) > 0 implies exists|k: int|
            0 <= k < gs.len() && (#[trigger] gs[k]).0 == group_of(x) by {
            if x == q {
                assert(gs[gd.len() as int].0 == group_of(x));
            } else {
                let k = choose|k: int| 0 <= k < gd.len() && (#[trigger] gd[k]).0 == group_of(x);
                assert(gs[k] == gd[k]);
            }
        }
    } else {
        assert forall|x: Seq<char>| #[trigger] occurrences(ls, x) > 0 implies exists|k: int|
            0 <= k < gs.len() && (#[trigger] gs[k]).0 == group_of(x) by {
            if x == q {
                assert(gs[k0].0 == group_of(x));
            } else {
                let k = choose|k: int| 0 <= k < gd.len() && (#[trigger] gd[k]).0 == group_of(x);
                assert(gs[k].0 == gd[k].0);
            }
        }
    }
}

proof fn lemma_group_absent(gs: Seq<(Seq<char>, nat, nat)>, g: Seq<char>, i: int)
    requires
        0 <= i <= gs.len(),
        group_index(gs, g, i) == gs.len(),
    ensures
        forall|k: int| i <= k < gs.len() ==> (#[trigger] gs[k]).0 != g,
    decreases gs.len() - i,
{
    if i < gs.len() {
        lemma_group_absent(gs, g, i + 1);
    }
}

/// The accepted group keys of a diff are distinct, each group's checksum file
/// and `.asc` signature are each touched by exactly one line, and every
/// attestation file the diff touches is one of those two for some accepted
/// group: the accepted keys turned back into pair paths give the diff's
/// attestation files exactly.
pub proof fn accepted_groups_partition(text: Seq<char>)
    requires
        classify(text) is Ok,
    ensures
        forall|k: int, m: int|
            0 <= k < (classify(text)->Ok_0).0.len() && 0 <= m < (classify(text)->Ok_0).0.len()
                && k != m ==> (classify(text)->Ok_0).0[k] != (classify(text)->Ok_0).0[m],
        forall|k: int|
            0 <= k < (classify(text)->Ok_0).0.len() ==> occurrences(
                lines(text),
                #[trigger] (classify(text)->Ok_0).0[k],
            ) == 1 && occurrences(lines(text), (classify(text)->Ok_0).0[k] + ".asc"@) == 1,
        forall|x: Seq<char>|
            #[trigger] occurrences(lines(text), x) > 0 ==> exists|k: int|
                0 <= k < (classify(text)->Ok_0).0.len() && (x == (classify(text)->Ok_0).0[k] || x
                    == (classify(text)->Ok_0).0[k] + ".asc"@),
{
    let ls = lines(text);
    lemma_scan_counted(ls);
    let gs = (scan(ls)->Ok_0).groups;
    lemma_all_complete(gs, 0);
    let keys = (classify(text)->Ok_0).0;
    assert(keys == group_keys(gs));
    assert forall|k: int| 0 <= k < keys.len() implies occurrences(ls, #[trigger] keys[k]) == 1
        && occurrences(ls, keys[k] + ".asc"@) == 1 by {
        assert(complete(gs[k]));
        assert(keys[k] == gs[k].0);
    }
    assert forall|k: int, m: int|
        0 <= k < keys.len() && 0 <= m < keys.len() && k != m implies keys[k] != keys[m] by {
        assert(keys[k] == gs[k].0);
        assert(keys[m] == gs[m].0);
    }
    assert forall|x: Seq<char>| #[trigger] occurrences(ls, x) > 0 implies exists|k: int|
        0 <= k < keys.len() && (x == keys[k] || x == keys[k] + ".asc"@) by {
        let k = choose|k: int| 0 <= k < gs.len() && (#[trigger] gs[k]).0 == group_of(x);
        lemma_occurrence_shape(ls, x);
        lemma_attestation_split(x);
        assert(keys[k] == gs[k].0);
    }
}

/// A diff whose lines all pass, and that touches exactly one member of the
/// pair of group `g`, is rejected as missing a counterpart. The group named
/// lacks a member touched exactly once; it is `g` when every other group the
/// diff touches is complete.
pub proof fn lone_member_in_any_diff(text: Seq<char>, g: Seq<char>)
    requires
        scan(lines(text)) is Ok,
        is_group_key(g),
        occurrences(lines(text), g) + occurrences(lines(text), g + ".asc"@) == 1,
    ensures
        classify(text) is Err,
        (classify(text)->Err_0) is MissingCounterpart,
        occurrences(lines(text), (classify(text)->Err_0)->MissingCounterpart_group) != 1
            || occurrences(
            lines(text),
            (classify(text)->Err_0)->MissingCounterpart_group + ".asc"@,
        ) != 1,
        (forall|y: Seq<char>|
            is_group_key(y) && y != g && (occurrences(lines(text), y) > 0 || occurrences(
                lines(text),
                y + ".asc"@,
            ) > 0) ==> #[trigger] occurrences(lines(text), y) == 1 && occurrences(
                lines(text),
                y + ".asc"@,
            ) == 1) ==> (classify(text)->Err_0)->MissingCounterpart_group == g,
{
    let ls = lines(text);
    lemma_scan_counted(ls);
    let gs = (scan(ls)->Ok_0).groups;
    lemma_signature_of_group(g);
    let x = if occurrences(ls, g) > 0 {
        g
    } else {
        g + ".asc"@
    };
    assert(occurrences(ls, x) > 0);
    assert(group_of(x) == g);
    let k = choose|k: int| 0 <= k < gs.len() && (#[trigger] gs[k]).0 == group_of(x);
    assert(!complete(gs[k]));
    if first_incomplete(gs, 0) >= gs.len() {
        lemma_all_complete(gs, 0);
        assert(complete(gs[k]));
    }
    lemma_first_incomplete_found(gs, 0);
    let f = first_incomplete(gs, 0);
    assert(!complete(gs[f]));
    let h = gs[f].0;
    assert(is_group_key(h));
    assert(gs[f].1 + gs[f].2 >= 1);
}

proof fn lemma_first_incomplete_found(gs: Seq<(Seq<char>, nat, nat)>, i: int)
    requires
        0 <= i <= gs.len(),
        first_incomplete(gs, i) < gs.len(),
    ensures
        i <= first_incomplete(gs, i),
        !complete(gs[first_incomplete(gs, i)]),
    decreases gs.len() - i,
{
    if i < gs.len() && complete(gs[i]) {
        lemma_first_incomplete_found(gs, i + 1);
    }
}

/// The line is exempt, or adds the checksum file `g` or its signature.
pub open spec fn pair_or_exempt_line(l: Seq<char>, g: Seq<char>) -> bool {
    exempt_line(l) || parse_line(l) == Some(("A"@, g)) || parse_line(l) == Some(
        ("A"@, g + ".asc"@),
    )
}

proof fn lemma_pair_lines_scan(ls: Seq<Seq<char>>, g: Seq<char>)
    requires
        is_group_key(g),
        !is_exempt(g),
        forall|i: int| 0 <= i < ls.len() ==> pair_or_exempt_line(#[trigger] ls[i], g),
    ensures
        scan(ls) is Ok,
        (scan(ls)->Ok_0).keys == Seq::<Seq<char>>::empty(),
    decreases ls.len(),
{
    if ls.len() > 0 {
        let d = ls.drop_last();
        assert forall|i: int| 0 <= i < d.len() implies pair_or_exempt_line(#[trigger] d[i], g) by {
            assert(d[i] == ls[i]);
        }
        lemma_pair_lines_scan(d, g);
        lemma_signature_of_group(g);
        assert(pair_or_exempt_line(ls[ls.len() - 1], g));
    }
}

/// A diff whose only non-exempt lines add the checksum file `g` and its
/// signature, once each and in either order, passes the structural check as
/// the one group `g`, with no builder keys.
pub proof fn pair_among_exempt_accepted(text: Seq<char>, g: Seq<char>)
    requires
        is_group_key(g),
        !is_exempt(g),
        forall|i: int| 0 <= i < lines(text).len() ==> pair_or_exempt_line(#[trigger] lines(text)[i], g),
        occurrences(lines(text), g) == 1,
        occurrences(lines(text), g + ".asc"@) == 1,
    ensures
        classify(text) == Verdict::Ok((seq![g], seq![])),
{
    let ls = lines(text);
    lemma_pair_lines_scan(ls, g);
    lemma_scan_counted(ls);
    lemma_signature_of_group(g);
    let gs = (scan(ls)->Ok_0).groups;
    assert forall|x: Seq<char>| occurrences(ls, x) > 0 implies x == g || x == g + ".asc"@ by {
        lemma_occurrences_pair(ls, g, x);
    }
    assert forall|k: int| 0 <= k < gs.len() implies (#[trigger] gs[k]).0 == g by {
        let y = gs[k].0;
        assert(is_group_key(y));
        if occurrences(ls, y) > 0 {
            lemma_members_differ(y, g);
        } else {
            assert(occurrences(ls, y + ".asc"@) > 0);
            lemma_members_differ(y, g);
            lemma_members_differ(g, y);
        }
    }
    assert(occurrences(ls, g) > 0);
    let k = choose|k: int| 0 <= k < gs.len() && (#[trigger] gs[k]).0 == group_of(g);
    if gs.len() > 1 {
        assert(gs[0].0 == gs[1].0);
    }
    assert(gs.len() == 1);
    assert(gs =~= seq![(g, 1nat, 1nat)]);
    assert(first_incomplete(gs, 1) == 1);
    assert(group_keys(gs) =~= seq![g]);
}

proof fn lemma_occurrences_pair(ls: Seq<Seq<char>>, g: Seq<char>, x: Seq<char>)
    requires
        forall|i: int| 0 <= i < ls.len() ==> pair_or_exempt_line(#[trigger] ls[i], g),
        occurrences(ls, x) > 0,
    ensures
        x == g || x == g + ".asc"@,
    decreases ls.len(),
{
    let d = ls.drop_last();
    assert(pair_or_exempt_line(ls[ls.len() - 1], g));
    if !touches_member(ls.last(), x) {
        assert forall|i: int| 0 <= i < d.len() implies pair_or_exempt_line(#[trigger] d[i], g) by {
            assert(d[i] == ls[i]);
        }
        lemma_occurrences_pair(d, g, x);
    }
}

} // verus!
