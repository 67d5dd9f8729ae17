//! Kinds of versions, and the choice of the newest one by semantic-version
//! order.

use crate::maven::transport::interface::{opt_view, strings_view};
use crate::text::{contains, str_contains};
use vstd::prelude::*;

verus! {

/// The marker that makes a version a snapshot.
pub open spec fn snapshot_marker() -> Seq<char> {
    "-SNAPSHOT"@
}

/// Whether a version is a release or a snapshot.
#[derive(Clone, Copy, PartialEq, Eq, Structural, Debug)]
pub enum VersionKind {
    Release,
    Snapshot,
}

impl VersionKind {
    /// A version is of the snapshot kind if it contains `-SNAPSHOT`, and of
    /// the release kind if it does not.
    pub open spec fn matches(self, version: Seq<char>) -> bool {
        (self is Snapshot) == contains(version, snapshot_marker())
    }

    /// Whether `version` is of this kind.
    pub fn matches_version(&self, version: &str) -> (r: bool)
        ensures
            r == self.matches(version@),
    {
        let is_snap = match self {
            VersionKind::Snapshot => true,
            VersionKind::Release => false,
        };
        is_snap == str_contains(version, "-SNAPSHOT")
    }
}

/// Whether `semver::Version::parse` accepts `text`.
pub uninterp spec fn semver_parses(text: Seq<char>) -> bool;

/// Whether the version that `a` parses to is greater than the one that `b`
/// parses to, in the order of `semver::Version`.
pub uninterp spec fn semver_exceeds(a: Seq<char>, b: Seq<char>) -> bool;

/// `semver::Version::parse`, for whether it succeeds. No version is greater
/// than itself.
#[verifier::external_body]
fn is_semver(text: &str) -> (ok: bool)
    ensures
        ok == semver_parses(text@),
        ok ==> !semver_exceeds(text@, text@),
{
    semver::Version::parse(text).is_ok()
}

/// `>` on two `semver::Version`s, each parsed from its text. The order is
/// total, so whatever is greater than `a` is greater than anything that `a`
/// is greater than.
#[verifier::external_body]
fn semver_gt(a: &str, b: &str) -> (gt: bool)
    requires
        semver_parses(a@),
        semver_parses(b@),
    ensures
        gt == semver_exceeds(a@, b@),
        gt ==> forall|c: Seq<char>|
            semver_parses(c) && #[trigger] semver_exceeds(c, a@) ==> semver_exceeds(c, b@),
{
    semver::Version::parse(a).unwrap() > semver::Version::parse(b).unwrap()
}

/// A version that can be chosen: of the wanted kind, and a semantic version.
pub open spec fn is_candidate(version: Seq<char>, kind: VersionKind) -> bool {
    kind.matches(version) && semver_parses(version)
}

/// The newest candidate among `versions`: going through them in order, a
/// candidate replaces the choice so far if it is greater.
pub open spec fn latest(versions: Seq<Seq<char>>, kind: VersionKind) -> Option<Seq<char>>
    decreases versions.len(),
{
    if versions.len() == 0 {
        None
    } else {
        let before = latest(versions.drop_last(), kind);
        let version = versions.last();
        if !is_candidate(version, kind) {
            before
        } else {
            match before {
                None => Some(version),
                Some(best) => if semver_exceeds(version, best) {
                    Some(version)
                } else {
                    Some(best)
                },
            }
        }
    }
}

/// The newest version of `kind` among `versions`, by semantic-version order.
/// Versions of the other kind, and those that are no semantic versions, are
/// passed over; `None` means that nothing was left. No version left is
/// greater than the one chosen.
pub fn latest_version(versions: &Vec<String>, kind: VersionKind) -> (chosen: Option<String>)
    ensures
        opt_view(chosen) == latest(strings_view(versions@), kind),
        chosen is None <==> forall|i: int|
            0 <= i < versions@.len() ==> !is_candidate(#[trigger] versions@[i]@, kind),
        chosen matches Some(best) ==> {
            &&& is_candidate(best@, kind)
            &&& exists|i: int| 0 <= i < versions@.len() && #[trigger] versions@[i]@ == best@
            &&& forall|i: int|
                0 <= i < versions@.len() && is_candidate(#[trigger] versions@[i]@, kind)
                    ==> !semver_exceeds(versions@[i]@, best@)
        },
{
    let mut best: Option<usize> = None;
    let mut i: usize = 0;
    while i < versions.len()
        invariant
            i <= versions@.len(),
            best matches Some(b) ==> b < i && is_candidate(versions@[b as int]@, kind),
            match best {
                Some(b) => latest(strings_view(versions@).take(i as int), kind) == Some(
                    versions@[b as int]@,
                ),
                None => latest(strings_view(versions@).take(i as int), kind) is None,
            },
            best is None ==> forall|j: int|
                0 <= j < i ==> !is_candidate(#[trigger] versions@[j]@, kind),
            best matches Some(b) ==> forall|j: int|
                0 <= j < i && is_candidate(#[trigger] versions@[j]@, kind) ==> !semver_exceeds(
                    versions@[j]@,
                    versions@[b as int]@,
                ),
        decreases versions@.len() - i,
    {
        let version = versions[i].as_str();
        proof {
            let all = strings_view(versions@);
            assert(all.take(i + 1).drop_last() =~= all.take(i as int));
            assert(all.take(i + 1).last() == version@);
        }
        if kind.matches_version(version) && is_semver(version) {
            match best {
                None => {
                    best = Some(i);
                },
                Some(b) => {
                    if semver_gt(version, versions[b].as_str()) {
                        best = Some(i);
                    }
                },
            }
        }
        i += 1;
    }
    proof {
        assert(strings_view(versions@).take(i as int) =~= strings_view(versions@));
    }
    match best {
        Some(b) => Some(versions[b].clone()),
        None => None,
    }
}

} // verus!
