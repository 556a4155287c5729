//! The hash-verification engine: given the manifest's candidate records
//! and what the filesystem shows for each, classify every record as
//! matched, mismatched or missing, count the classes, and collect the bad
//! paths.
//!
//! Reading the filesystem is the caller's job; this module decides, so a
//! verification run is a pure function of the manifest and the observed
//! file states.

use vstd::prelude::*;
use crate::changes::{Changes, ChangesData, spec_no_common};
use crate::hashing;
use crate::manifest::{GameFile, Manifest, files_view};
use crate::text;

verus! {

/// What the filesystem shows for one manifest path.
pub enum FileProbe {
    /// The path names a directory: skipped silently, not counted.
    Directory,
    /// The path could not be opened as a regular file.
    Unreadable,
    /// The path is a regular file with this content.
    Content(Vec<u8>),
}

/// The mathematical image of a probe.
pub enum ProbeData {
    Directory,
    Unreadable,
    Content(Seq<u8>),
}

impl View for FileProbe {
    type V = ProbeData;

    open spec fn view(&self) -> ProbeData {
        match self {
            FileProbe::Directory => ProbeData::Directory,
            FileProbe::Unreadable => ProbeData::Unreadable,
            FileProbe::Content(data) => ProbeData::Content(data@),
        }
    }
}

/// The probe views of a probe list, in order.
pub open spec fn probes_view(ps: Seq<FileProbe>) -> Seq<ProbeData> {
    ps.map_values(|p: FileProbe| p@)
}

/// How one record fares against the filesystem.
#[derive(Debug, Clone, Copy, PartialEq, Eq, Structural)]
pub enum Outcome {
    /// A directory: not counted.
    Skipped,
    /// A regular file whose content hashes to the expected hash.
    Matched,
    /// A regular file whose content hashes to something else.
    Mismatched,
    /// Not a readable regular file.
    Missing,
}

/// The outcome for one record: directories are skipped, unreadable paths
/// are missing, and content is hashed and compared case-insensitively.
pub open spec fn spec_classify(expected_hash: Seq<char>, probe: ProbeData) -> Outcome {
    match probe {
        ProbeData::Directory => Outcome::Skipped,
        ProbeData::Unreadable => Outcome::Missing,
        ProbeData::Content(data) => if hashing::spec_hash_matches(expected_hash, data) {
            Outcome::Matched
        } else {
            Outcome::Mismatched
        },
    }
}

/// The outcome of every record, in order.
pub open spec fn spec_outcomes(
    entries: Seq<(Seq<char>, Seq<char>)>,
    probes: Seq<ProbeData>,
) -> Seq<Outcome> {
    Seq::new(entries.len(), |i: int| spec_classify(entries[i].0, probes[i]))
}

/// How many outcomes equal `o`.
pub open spec fn spec_count(cs: Seq<Outcome>, o: Outcome) -> nat
    decreases cs.len(),
{
    if cs.len() == 0 {
        0
    } else {
        (if cs[0] == o {
            1nat
        } else {
            0nat
        }) + spec_count(cs.skip(1), o)
    }
}

/// The paths of the records classified mismatched or missing, in record
/// order.
pub open spec fn spec_bad_files(
    entries: Seq<(Seq<char>, Seq<char>)>,
    probes: Seq<ProbeData>,
) -> Seq<Seq<char>>
    decreases entries.len(),
{
    if entries.len() == 0 {
        Seq::empty()
    } else {
        let o = spec_classify(entries[0].0, probes[0]);
        let hd: Seq<Seq<char>> = if o == Outcome::Mismatched || o == Outcome::Missing {
            seq![entries[0].1]
        } else {
            Seq::empty()
        };
        hd + spec_bad_files(entries.skip(1), probes.skip(1))
    }
}

/// The counts and bad paths one verification run produced. The run
/// succeeded exactly when the bad list is empty; mismatches are reported
/// here, never as an error.
pub struct VerificationResult {
    /// Records checked: every candidate that was not a directory.
    pub total: usize,
    pub matched: usize,
    pub mismatched: usize,
    pub missing: usize,
    /// The mismatched or missing paths, in manifest order.
    pub bad_files: Vec<String>,
}

impl VerificationResult {
    /// The run found nothing wrong.
    pub fn ok(&self) -> (r: bool)
        ensures
            r == (self.bad_files@.len() == 0),
    {
        self.bad_files.len() == 0
    }
}

/// The changeset paths a restricted verification checks: added and
/// modified, in that order.
pub open spec fn spec_changed_names(c: ChangesData) -> Seq<Seq<char>> {
    c.added + c.modified
}

/// The record path occurs among the changeset's added and modified paths,
/// comparing normalized separators.
pub open spec fn spec_is_changed(name: Seq<char>, c: ChangesData) -> bool {
    exists|k: int|
        0 <= k < spec_changed_names(c).len() && text::spec_normalize(
            #[trigger] spec_changed_names(c)[k],
        ) == text::spec_normalize(name)
}

/// The records whose path is among the changeset's added and modified
/// paths, in manifest order.
pub open spec fn spec_restrict(
    entries: Seq<(Seq<char>, Seq<char>)>,
    c: ChangesData,
) -> Seq<(Seq<char>, Seq<char>)>
    decreases entries.len(),
{
    if entries.len() == 0 {
        Seq::empty()
    } else if spec_is_changed(entries[0].1, c) {
        seq![entries[0]] + spec_restrict(entries.skip(1), c)
    } else {
        spec_restrict(entries.skip(1), c)
    }
}

/// The records a verification run checks: the whole manifest, or the
/// records the changeset touches.
pub open spec fn spec_candidates(
    entries: Seq<(Seq<char>, Seq<char>)>,
    changes: Option<ChangesData>,
) -> Seq<(Seq<char>, Seq<char>)> {
    match changes {
        None => entries,
        Some(c) => spec_restrict(entries, c),
    }
}

/// `name_norm` occurs in the (already normalized) list.
fn contains_norm(nv: &Vec<Vec<char>>, name_norm: &Vec<char>) -> (r: bool)
    ensures
        r == exists|k: int|
            0 <= k < nv.deep_view().len() && #[trigger] nv.deep_view()[k] == name_norm@,
{
    let ghost dv = nv.deep_view();
    let mut k: usize = 0;
    while k < nv.len()
        invariant
            k <= nv@.len(),
            dv == nv.deep_view(),
            forall|x: int| 0 <= x < k ==> #[trigger] dv[x] != name_norm@,
        decreases nv@.len() - k,
    {
        proof {
            assert(dv[k as int] =~= nv@[k as int]@);
        }
        if text::eq_chars(&nv[k], name_norm) {
            return true;
        }
        k = k + 1;
    }
    false
}

impl Manifest {
    /// The records a verification run will check: all of them, or - when a
    /// changeset is given - only those whose normalized path is among its
    /// added and modified paths.
    pub fn candidate_files(&self, changes: &Option<Changes>) -> (r: Vec<GameFile>)
        ensures
            files_view(r@) == spec_candidates(
                self@,
                match changes {
                    Some(c) => Some(c@),
                    None => None,
                },
            ),
    {
        let files = self.files();
        let mut r: Vec<GameFile> = Vec::new();
        match changes {
            None => {
                let mut i: usize = 0;
                while i < files.len()
                    invariant
                        i <= files@.len(),
                        files_view(files@) == self@,
                        files_view(r@) == self@.take(i as int),
                    decreases files@.len() - i,
                {
                    let ghost old_fv = files_view(r@);
                    let g = GameFile::new(
                        text::clone_string(&files[i].hash),
                        text::clone_string(&files[i].name),
                    );
                    r.push(g);
                    proof {
                        assert(files_view(r@) =~= old_fv.push((g.hash@, g.name@)));
                        assert(self@.take(i + 1) =~= self@.take(i as int).push(self@[i as int]));
                    }
                    i = i + 1;
                }
                proof {
                    assert(self@.take(self@.len() as int) =~= self@);
                }
                r
            },
            Some(c) => {
                let changed = c.added_modified();
                let nv = crate::changes::norm_all_paths(&changed);
                proof {
                    assert(changed.deep_view() =~= spec_changed_names(c@));
                }
                let ghost es = self@;
                let mut i: usize = 0;
                proof {
                    assert(es.skip(0) =~= es);
                    assert(files_view(r@) =~= Seq::<(Seq<char>, Seq<char>)>::empty());
                    assert(files_view(r@) + spec_restrict(es, c@) =~= spec_restrict(es, c@));
                }
                while i < files.len()
                    invariant
                        i <= files@.len(),
                        files_view(files@) == es,
                        es == self@,
                        changed.deep_view() == spec_changed_names(c@),
                        nv.deep_view() == changed.deep_view().map_values(
                            |p: Seq<char>| text::spec_normalize(p),
                        ),
                        spec_restrict(es, c@) == files_view(r@) + spec_restrict(
                            es.skip(i as int),
                            c@,
                        ),
                    decreases files@.len() - i,
                {
                    proof {
                        assert(es.skip(i as int).skip(1) =~= es.skip(i + 1));
                        assert(es.skip(i as int)[0] == es[i as int]);
                    }
                    let ghost old_fv = files_view(r@);
                    let name_chars = text::chars_of(files[i].name.as_str());
                    let name_norm = text::normalize_separators(&name_chars);
                    let hit = contains_norm(&nv, &name_norm);
                    proof {
                        let cn = spec_changed_names(c@);
                        if hit {
                            let k = choose|k: int|
                                0 <= k < nv.deep_view().len() && #[trigger] nv.deep_view()[k]
                                    == name_norm@;
                            assert(nv.deep_view()[k] == text::spec_normalize(cn[k]));
                            assert(spec_is_changed(es[i as int].1, c@));
                        } else {
                            if spec_is_changed(es[i as int].1, c@) {
                                let k = choose|k: int|
                                    0 <= k < cn.len() && text::spec_normalize(#[trigger] cn[k])
                                        == text::spec_normalize(es[i as int].1);
                                assert(nv.deep_view()[k] == name_norm@);
                            }
                        }
                    }
                    if hit {
                        let g = GameFile::new(
                            text::clone_string(&files[i].hash),
                            text::clone_string(&files[i].name),
                        );
                        r.push(g);
                        proof {
                            assert(files_view(r@) =~= old_fv.push((g.hash@, g.name@)));
                            assert(old_fv + (seq![es[i as int]] + spec_restrict(es.skip(i + 1), c@))
                                =~= files_view(r@) + spec_restrict(es.skip(i + 1), c@));
                        }
                    }
                    i = i + 1;
                }
                proof {
                    assert(es.skip(es.len() as int) =~= Seq::<(Seq<char>, Seq<char>)>::empty());
                    assert(files_view(r@) + Seq::<(Seq<char>, Seq<char>)>::empty() =~= files_view(
                        r@,
                    ));
                }
                r
            },
        }
    }

    /// Classifies every candidate record against the observed file state
    /// at the same position and aggregates the counts and bad paths.
    pub fn validate_files(files: &Vec<GameFile>, probes: &Vec<FileProbe>) -> (r:
        VerificationResult)
        requires
            probes@.len() == files@.len(),
        ensures
            r.matched == spec_count(
                spec_outcomes(files_view(files@), probes_view(probes@)),
                Outcome::Matched,
            ),
            r.mismatched == spec_count(
                spec_outcomes(files_view(files@), probes_view(probes@)),
                Outcome::Mismatched,
            ),
            r.missing == spec_count(
                spec_outcomes(files_view(files@), probes_view(probes@)),
                Outcome::Missing,
            ),
            r.total == r.matched + r.mismatched + r.missing,
            r.bad_files.deep_view() == spec_bad_files(files_view(files@), probes_view(probes@)),
    {
        let ghost es = files_view(files@);
        let ghost pv = probes_view(probes@);
        let ghost oc = spec_outcomes(es, pv);
        let mut total: usize = 0;
        let mut matched: usize = 0;
        let mut mismatched: usize = 0;
        let mut missing: usize = 0;
        let mut bad_files: Vec<String> = Vec::new();
        let mut i: usize = 0;
        proof {
            assert(es.skip(0) =~= es);
            assert(pv.skip(0) =~= pv);
            assert(oc.skip(0) =~= oc);
            assert(bad_files.deep_view() =~= Seq::<Seq<char>>::empty());
            assert(bad_files.deep_view() + spec_bad_files(es, pv) =~= spec_bad_files(es, pv));
        }
        while i < files.len()
            invariant
                i <= files@.len(),
                probes@.len() == files@.len(),
                es == files_view(files@),
                pv == probes_view(probes@),
                oc == spec_outcomes(es, pv),
                matched + spec_count(oc.skip(i as int), Outcome::Matched) == spec_count(
                    oc,
                    Outcome::Matched,
                ),
                mismatched + spec_count(oc.skip(i as int), Outcome::Mismatched) == spec_count(
                    oc,
                    Outcome::Mismatched,
                ),
                missing + spec_count(oc.skip(i as int), Outcome::Missing) == spec_count(
                    oc,
                    Outcome::Missing,
                ),
                total == matched + mismatched + missing,
                total <= i,
                spec_bad_files(es, pv) == bad_files.deep_view() + spec_bad_files(
                    es.skip(i as int),
                    pv.skip(i as int),
                ),
            decreases files@.len() - i,
        {
            proof {
                assert(oc.skip(i as int).skip(1) =~= oc.skip(i + 1));
                assert(es.skip(i as int).skip(1) =~= es.skip(i + 1));
                assert(pv.skip(i as int).skip(1) =~= pv.skip(i + 1));
                assert(oc.skip(i as int)[0] == oc[i as int]);
                assert(es.skip(i as int)[0] == es[i as int]);
                assert(pv.skip(i as int)[0] == pv[i as int]);
                assert(oc[i as int] == spec_classify(es[i as int].0, pv[i as int]));
            }
            let ghost old_bad = bad_files.deep_view();
            match &probes[i] {
                FileProbe::Directory => {
                    proof {
                        assert(oc[i as int] == Outcome::Skipped);
                        assert(old_bad + (Seq::<Seq<char>>::empty() + spec_bad_files(
                            es.skip(i + 1),
                            pv.skip(i + 1),
                        )) =~= old_bad + spec_bad_files(es.skip(i + 1), pv.skip(i + 1)));
                    }
                },
                FileProbe::Unreadable => {
                    total = total + 1;
                    missing = missing + 1;
                    let name = text::clone_string(&files[i].name);
                    bad_files.push(name);
                    proof {
                        assert(oc[i as int] == Outcome::Missing);
                        assert(bad_files.deep_view() =~= old_bad.push(es[i as int].1));
                        assert(old_bad + (seq![es[i as int].1] + spec_bad_files(
                            es.skip(i + 1),
                            pv.skip(i + 1),
                        )) =~= bad_files.deep_view() + spec_bad_files(es.skip(i + 1), pv.skip(i + 1)));
                    }
                },
                FileProbe::Content(data) => {
                    total = total + 1;
                    let expected = text::chars_of(files[i].hash.as_str());
                    if hashing::hash_matches(&expected, data) {
                        matched = matched + 1;
                        proof {
                            assert(oc[i as int] == Outcome::Matched);
                            assert(old_bad + (Seq::<Seq<char>>::empty() + spec_bad_files(
                                es.skip(i + 1),
                                pv.skip(i + 1),
                            )) =~= old_bad + spec_bad_files(es.skip(i + 1), pv.skip(i + 1)));
                        }
                    } else {
                        mismatched = mismatched + 1;
                        let name = text::clone_string(&files[i].name);
                        bad_files.push(name);
                        proof {
                            assert(oc[i as int] == Outcome::Mismatched);
                            assert(bad_files.deep_view() =~= old_bad.push(es[i as int].1));
                            assert(old_bad + (seq![es[i as int].1] + spec_bad_files(
                                es.skip(i + 1),
                                pv.skip(i + 1),
                            )) =~= bad_files.deep_view() + spec_bad_files(
                                es.skip(i + 1),
                                pv.skip(i + 1),
                            ));
                        }
                    }
                },
            }
            i = i + 1;
        }
        proof {
            assert(oc.skip(oc.len() as int) =~= Seq::<Outcome>::empty());
            assert(es.skip(es.len() as int) =~= Seq::<(Seq<char>, Seq<char>)>::empty());
            assert(pv.skip(pv.len() as int) =~= Seq::<ProbeData>::empty());
            assert(bad_files.deep_view() + Seq::<Seq<char>>::empty() =~= bad_files.deep_view());
        }
        VerificationResult { total, matched, mismatched, missing, bad_files }
    }
}

// ---------------------------------------------------------------------
// Laws of verification.
// ---------------------------------------------------------------------

/// A directory holding every candidate file with correct content verifies
/// clean: no mismatches, no missing files, an empty bad list, and every
/// checked record matched.
pub proof fn lemma_verify_all_matched(entries: Seq<(Seq<char>, Seq<char>)>, pv: Seq<ProbeData>)
    requires
        pv.len() == entries.len(),
        forall|i: int|
            0 <= i < entries.len() ==> spec_classify(#[trigger] entries[i].0, pv[i])
                == Outcome::Matched,
    ensures
        spec_count(spec_outcomes(entries, pv), Outcome::Mismatched) == 0,
        spec_count(spec_outcomes(entries, pv), Outcome::Missing) == 0,
        spec_count(spec_outcomes(entries, pv), Outcome::Matched) == entries.len(),
        spec_bad_files(entries, pv).len() == 0,
    decreases entries.len(),
{
    let oc = spec_outcomes(entries, pv);
    if entries.len() == 0 {
        assert(oc.len() == 0);
    } else {
        let et = entries.skip(1);
        let pt = pv.skip(1);
        assert(forall|i: int|
            0 <= i < et.len() ==> spec_classify(#[trigger] et[i].0, pt[i]) == Outcome::Matched);
        lemma_verify_all_matched(et, pt);
        assert(oc.skip(1) =~= spec_outcomes(et, pt));
        assert(oc[0] == spec_classify(entries[0].0, pv[0]));
    }
}

/// Changing one outcome changes each class count by exactly the obvious
/// amount and leaves every other record's contribution untouched.
pub proof fn lemma_count_update(cs: Seq<Outcome>, k: int, v: Outcome, o: Outcome)
    requires
        0 <= k < cs.len(),
    ensures
        spec_count(cs.update(k, v), o) == spec_count(cs, o) + (if v == o {
            1int
        } else {
            0int
        }) - (if cs[k] == o {
            1int
        } else {
            0int
        }),
    decreases cs.len(),
{
    if k == 0 {
        assert(cs.update(0, v).skip(1) =~= cs.skip(1));
        assert(cs.update(0, v)[0] == v);
    } else {
        lemma_count_update(cs.skip(1), k - 1, v, o);
        assert(cs.update(k, v).skip(1) =~= cs.skip(1).update(k - 1, v));
        assert(cs.update(k, v)[0] == cs[0]);
    }
}

/// A record classified mismatched or missing has its path in the bad
/// list.
pub proof fn lemma_bad_files_at(entries: Seq<(Seq<char>, Seq<char>)>, pv: Seq<ProbeData>, k: int)
    requires
        pv.len() == entries.len(),
        0 <= k < entries.len(),
        spec_classify(entries[k].0, pv[k]) == Outcome::Mismatched || spec_classify(
            entries[k].0,
            pv[k],
        ) == Outcome::Missing,
    ensures
        spec_bad_files(entries, pv).contains(entries[k].1),
    decreases entries.len(),
{
    let o = spec_classify(entries[0].0, pv[0]);
    let hd: Seq<Seq<char>> = if o == Outcome::Mismatched || o == Outcome::Missing {
        seq![entries[0].1]
    } else {
        Seq::empty()
    };
    let rest = spec_bad_files(entries.skip(1), pv.skip(1));
    if k == 0 {
        assert(spec_bad_files(entries, pv)[0] == entries[0].1);
    } else {
        lemma_bad_files_at(entries.skip(1), pv.skip(1), k - 1);
        let idx = choose|idx: int| 0 <= idx < rest.len() && rest[idx] == entries[k].1;
        assert(spec_bad_files(entries, pv)[hd.len() + idx] == entries[k].1);
    }
}

/// Making exactly one checked record unreadable increments `missing` by
/// one, takes one off `matched`, leaves `mismatched` alone, and puts that
/// record's path in the bad list: no other record's counts are affected.
pub proof fn lemma_one_missing(entries: Seq<(Seq<char>, Seq<char>)>, pv: Seq<ProbeData>, k: int)
    requires
        pv.len() == entries.len(),
        0 <= k < entries.len(),
        spec_classify(entries[k].0, pv[k]) == Outcome::Matched,
    ensures
        spec_count(spec_outcomes(entries, pv.update(k, ProbeData::Unreadable)), Outcome::Missing)
            == spec_count(spec_outcomes(entries, pv), Outcome::Missing) + 1,
        spec_count(spec_outcomes(entries, pv.update(k, ProbeData::Unreadable)), Outcome::Matched)
            + 1 == spec_count(spec_outcomes(entries, pv), Outcome::Matched),
        spec_count(
            spec_outcomes(entries, pv.update(k, ProbeData::Unreadable)),
            Outcome::Mismatched,
        ) == spec_count(spec_outcomes(entries, pv), Outcome::Mismatched),
        spec_bad_files(entries, pv.update(k, ProbeData::Unreadable)).contains(entries[k].1),
{
    let oc = spec_outcomes(entries, pv);
    let pv2 = pv.update(k, ProbeData::Unreadable);
    assert(spec_outcomes(entries, pv2) =~= oc.update(k, Outcome::Missing));
    lemma_count_update(oc, k, Outcome::Missing, Outcome::Missing);
    lemma_count_update(oc, k, Outcome::Missing, Outcome::Matched);
    lemma_count_update(oc, k, Outcome::Missing, Outcome::Mismatched);
    assert(oc[k] == Outcome::Matched);
    lemma_bad_files_at(entries, pv2, k);
}

/// Every bad path is the path of some checked record.
proof fn lemma_bad_name_source(
    entries: Seq<(Seq<char>, Seq<char>)>,
    pv: Seq<ProbeData>,
    n: Seq<char>,
)
    requires
        pv.len() == entries.len(),
        spec_bad_files(entries, pv).contains(n),
    ensures
        exists|i: int| 0 <= i < entries.len() && #[trigger] entries[i].1 == n,
    decreases entries.len(),
{
    let o = spec_classify(entries[0].0, pv[0]);
    let hd: Seq<Seq<char>> = if o == Outcome::Mismatched || o == Outcome::Missing {
        seq![entries[0].1]
    } else {
        Seq::empty()
    };
    let rest = spec_bad_files(entries.skip(1), pv.skip(1));
    let idx = choose|idx: int|
        0 <= idx < spec_bad_files(entries, pv).len() && spec_bad_files(entries, pv)[idx] == n;
    if idx < hd.len() {
        assert(entries[0].1 == n);
    } else {
        assert(rest[idx - hd.len()] == n);
        assert(rest.contains(n));
        lemma_bad_name_source(entries.skip(1), pv.skip(1), n);
        let i = choose|i: int| 0 <= i < entries.skip(1).len() && #[trigger] entries.skip(1)[i].1 == n;
        assert(entries[i + 1].1 == n);
    }
}

/// Every record kept by the restriction has a path among the changeset's
/// added and modified paths.
proof fn lemma_restrict_changed(entries: Seq<(Seq<char>, Seq<char>)>, c: ChangesData, i: int)
    requires
        0 <= i < spec_restrict(entries, c).len(),
    ensures
        spec_is_changed(spec_restrict(entries, c)[i].1, c),
    decreases entries.len(),
{
    if entries.len() == 0 {
    } else if spec_is_changed(entries[0].1, c) {
        if i == 0 {
        } else {
            lemma_restrict_changed(entries.skip(1), c, i - 1);
        }
    } else {
        lemma_restrict_changed(entries.skip(1), c, i);
    }
}

/// A verification restricted to a changeset's added and modified paths
/// never reports a removed path: for a well-formed changeset, no path in
/// the bad list normalizes to a removed path.
pub proof fn lemma_restricted_excludes_removed(
    entries: Seq<(Seq<char>, Seq<char>)>,
    c: ChangesData,
    p: Seq<char>,
    pv: Seq<ProbeData>,
)
    requires
        spec_no_common(c.added, c.removed),
        spec_no_common(c.removed, c.modified),
        c.removed.contains(p),
        pv.len() == spec_restrict(entries, c).len(),
    ensures
        forall|j: int|
            0 <= j < spec_bad_files(spec_restrict(entries, c), pv).len() ==> text::spec_normalize(
                #[trigger] spec_bad_files(spec_restrict(entries, c), pv)[j],
            ) != text::spec_normalize(p),
{
    let kept = spec_restrict(entries, c);
    let bad = spec_bad_files(kept, pv);
    let jp = choose|jp: int| 0 <= jp < c.removed.len() && c.removed[jp] == p;
    assert forall|j: int| 0 <= j < bad.len() implies text::spec_normalize(#[trigger] bad[j])
        != text::spec_normalize(p) by {
        let n = bad[j];
        assert(bad.contains(n));
        lemma_bad_name_source(kept, pv, n);
        let i = choose|i: int| 0 <= i < kept.len() && #[trigger] kept[i].1 == n;
        lemma_restrict_changed(entries, c, i);
        if text::spec_normalize(n) == text::spec_normalize(p) {
            let cn = spec_changed_names(c);
            let k = choose|k: int|
                0 <= k < cn.len() && text::spec_normalize(#[trigger] cn[k]) == text::spec_normalize(
                    n,
                );
            if k < c.added.len() {
                assert(cn[k] == c.added[k]);
                assert(text::spec_normalize(c.added[k]) != text::spec_normalize(c.removed[jp]));
            } else {
                assert(cn[k] == c.modified[k - c.added.len()]);
                assert(text::spec_normalize(c.removed[jp]) != text::spec_normalize(
                    c.modified[k - c.added.len()],
                ));
            }
        }
    }
}


} // verus!
