//! What resolving coordinates means, stated over what a resolver remembers
//! and what it has asked its transport, and what follows for calls that
//! come one after the other.

use crate::maven::cache::{is_fresh, lookup, CacheEntryView, CacheKeyView, TTL_MILLIS};
use crate::maven::maven_repo::{
    form, is_snapshot, javadoc, Error, MavenCoordsView, MavenUrlCoords, MavenUrlCoordsView,
    VersionForm,
};
use crate::maven::transport::interface::{
    MavenArtifactRequestView, MavenMetadata, MavenMetadataRequestView, SnapshotVersionView,
    VersioningView,
};
use crate::maven::version::{latest, VersionKind};
use crate::text::slashed;
use vstd::prelude::*;

verus! {

/// A request for metadata and what the transport answered.
pub ghost struct MetadataExchange {
    pub request: MavenMetadataRequestView,
    pub answer: Result<VersioningView, crate::maven::transport::interface::Error>,
}

/// A request for an artifact and why the transport failed on it, if it did.
pub ghost struct ArtifactExchange {
    pub request: MavenArtifactRequestView,
    pub failure: Option<crate::maven::transport::interface::Error>,
}

/// What a resolver remembers, and what it has asked its transport.
pub ghost struct MavenRepoView {
    /// The newest versions found, by artifact and kind.
    pub versions: Map<CacheKeyView, CacheEntryView>,
    /// The file versions found, by artifact and snapshot version.
    pub snapshots: Map<CacheKeyView, CacheEntryView>,
    /// The requests for metadata made so far, in order.
    pub metadata_log: Seq<MetadataExchange>,
    /// The requests for artifacts made so far, in order.
    pub artifact_log: Seq<ArtifactExchange>,
}

/// The answer to a request for metadata, as contracts speak of it.
pub open spec fn answer_view(
    fetched: Result<MavenMetadata, crate::maven::transport::interface::Error>,
) -> Result<VersioningView, crate::maven::transport::interface::Error> {
    match fetched {
        Ok(metadata) => Ok(metadata@),
        Err(e) => Err(e),
    }
}

/// Why a call failed, if it did.
pub open spec fn failure_of<A, E>(r: Result<A, E>) -> Option<E> {
    match r {
        Ok(_) => None,
        Err(e) => Some(e),
    }
}

/// A version or an error, the version as its characters.
pub open spec fn text_result(r: Result<String, Error>) -> Result<Seq<char>, Error> {
    match r {
        Ok(v) => Ok(v@),
        Err(e) => Err(e),
    }
}

/// Coordinates or an error, the coordinates as their view.
pub open spec fn coords_result(r: Result<MavenUrlCoords, Error>) -> Result<
    MavenUrlCoordsView,
    Error,
> {
    match r {
        Ok(c) => Ok(c@),
        Err(e) => Err(e),
    }
}

/// The value of the first snapshot version whose classifier is `javadoc`.
pub open spec fn first_javadoc(versions: Seq<SnapshotVersionView>) -> Option<Seq<char>>
    decreases versions.len(),
{
    if versions.len() == 0 {
        None
    } else if versions[0].classifier == Some(javadoc()) {
        Some(versions[0].value)
    } else {
        first_javadoc(versions.drop_first())
    }
}

/// A value that stands for a snapshot only if `-SNAPSHOT` has been replaced
/// in it, as a timestamped version has it.
pub open spec fn timestamped_value(value: Option<Seq<char>>) -> Option<Seq<char>> {
    match value {
        Some(v) => if is_snapshot(v) {
            None
        } else {
            Some(v)
        },
        None => None,
    }
}

/// The file version that a snapshot's metadata gives to its javadoc: the
/// value of the first javadoc snapshot version, if it is timestamped.
pub open spec fn snapshot_value(metadata: VersioningView) -> Option<Seq<char>> {
    match metadata.snapshot_versions {
        Some(versions) => timestamped_value(first_javadoc(versions)),
        None => None,
    }
}

/// The newest version of `kind` that an artifact's metadata lists.
pub open spec fn latest_value(metadata: VersioningView, kind: VersionKind) -> Option<Seq<char>> {
    match metadata.versions {
        Some(versions) => latest(versions, kind),
        None => None,
    }
}

/// The file version of the javadoc of a snapshot, from the answer to the
/// request for the snapshot's metadata. A repository without the metadata
/// has no javadoc for it, and neither has metadata without a javadoc
/// snapshot version.
pub open spec fn snapshot_result(
    answer: Result<VersioningView, crate::maven::transport::interface::Error>,
) -> Result<Seq<char>, Error> {
    match answer {
        Ok(metadata) => match snapshot_value(metadata) {
            Some(value) => Ok(value),
            None => Err(Error::MissingJavadoc),
        },
        Err(e) => if e is NotFound {
            Err(Error::MissingJavadoc)
        } else {
            Err(Error::Transport(e))
        },
    }
}

/// The newest version of `kind`, from the answer to the request for the
/// artifact's metadata.
pub open spec fn latest_result(
    answer: Result<VersioningView, crate::maven::transport::interface::Error>,
    kind: VersionKind,
) -> Result<Seq<char>, Error> {
    match answer {
        Ok(metadata) => match latest_value(metadata, kind) {
            Some(value) => Ok(value),
            None => Err(Error::MissingJavadoc),
        },
        Err(e) => Err(Error::Transport(e)),
    }
}

/// What a failed request for a javadoc JAR means: a repository without the
/// file has no javadoc.
pub open spec fn artifact_error(failure: crate::maven::transport::interface::Error) -> Error {
    if failure is NotFound {
        Error::MissingJavadoc
    } else {
        Error::Transport(failure)
    }
}

/// Where the newest version of `kind` of the artifact of `coords` is filed.
pub open spec fn version_key(coords: MavenCoordsView, kind: VersionKind) -> CacheKeyView {
    CacheKeyView::Version { group: coords.group, name: coords.name, kind }
}

/// Where the file version of `version` of the artifact of `coords` is filed.
pub open spec fn snapshot_key(coords: MavenCoordsView, version: Seq<char>) -> CacheKeyView {
    CacheKeyView::Snapshot { group: coords.group, name: coords.name, version }
}

/// The request for the metadata of the artifact of `coords`.
pub open spec fn versions_request_view(coords: MavenCoordsView) -> MavenMetadataRequestView {
    MavenMetadataRequestView { group: slashed(coords.group), name: coords.name, version: None }
}

/// The request for the metadata of `version` of the artifact of `coords`.
pub open spec fn snapshot_request_view(
    coords: MavenCoordsView,
    version: Seq<char>,
) -> MavenMetadataRequestView {
    MavenMetadataRequestView {
        group: slashed(coords.group),
        name: coords.name,
        version: Some(version),
    }
}

/// The request for the javadoc JAR at `coords`.
pub open spec fn javadoc_request_view(coords: MavenUrlCoordsView) -> MavenArtifactRequestView {
    MavenArtifactRequestView {
        group: coords.group,
        name: coords.name,
        path_version: coords.path_version,
        file_version: coords.file_version,
        classifier: Some(javadoc()),
        extension: "jar"@,
    }
}

/// The URL coordinates of the artifact of `coords` in the given versions.
pub open spec fn url_coords(
    coords: MavenCoordsView,
    path_version: Seq<char>,
    file_version: Seq<char>,
) -> MavenUrlCoordsView {
    MavenUrlCoordsView {
        group: slashed(coords.group),
        name: coords.name,
        path_version,
        file_version,
    }
}

/// `s` after a request for metadata was answered.
pub open spec fn asked(
    s: MavenRepoView,
    request: MavenMetadataRequestView,
    answer: Result<VersioningView, crate::maven::transport::interface::Error>,
) -> MavenRepoView {
    MavenRepoView { metadata_log: s.metadata_log.push(MetadataExchange { request, answer }), ..s }
}

/// What asking for the file version of `version` does, given the answer:
/// the request is logged, and a file version is remembered as written at
/// `now`.
pub open spec fn snapshot_miss(
    pre: MavenRepoView,
    coords: MavenCoordsView,
    version: Seq<char>,
    now: u64,
    answer: Result<VersioningView, crate::maven::transport::interface::Error>,
) -> (MavenRepoView, Result<Seq<char>, Error>) {
    let logged = asked(pre, snapshot_request_view(coords, version), answer);
    match snapshot_result(answer) {
        Ok(value) => (
            MavenRepoView {
                snapshots: pre.snapshots.insert(
                    snapshot_key(coords, version),
                    CacheEntryView { write_time: now, version: value },
                ),
                ..logged
            },
            Ok(value),
        ),
        Err(e) => (logged, Err(e)),
    }
}

/// What asking for the newest version of `kind` does, given the answer.
pub open spec fn latest_miss(
    pre: MavenRepoView,
    coords: MavenCoordsView,
    kind: VersionKind,
    now: u64,
    answer: Result<VersioningView, crate::maven::transport::interface::Error>,
) -> (MavenRepoView, Result<Seq<char>, Error>) {
    let logged = asked(pre, versions_request_view(coords), answer);
    match latest_result(answer, kind) {
        Ok(value) => (
            MavenRepoView {
                versions: pre.versions.insert(
                    version_key(coords, kind),
                    CacheEntryView { write_time: now, version: value },
                ),
                ..logged
            },
            Ok(value),
        ),
        Err(e) => (logged, Err(e)),
    }
}

/// What the memory alone gives for `version` of the artifact of `coords`,
/// where `version` is no selector: a literal version stands for itself, a
/// snapshot version needs a fresh entry.
pub open spec fn settled(
    s: MavenRepoView,
    coords: MavenCoordsView,
    version: Seq<char>,
    now: u64,
) -> Option<MavenUrlCoordsView> {
    if is_snapshot(version) {
        match lookup(s.snapshots, snapshot_key(coords, version), now) {
            Some(file_version) => Some(url_coords(coords, version, file_version)),
            None => None,
        }
    } else {
        Some(url_coords(coords, version, version))
    }
}

/// What the memory alone gives for `coords` at `now`: `None` where the
/// repository has to be asked.
pub open spec fn resolved(s: MavenRepoView, coords: MavenCoordsView, now: u64) -> Option<
    MavenUrlCoordsView,
> {
    match form(coords.version) {
        VersionForm::Selector(kind) => match lookup(s.versions, version_key(coords, kind), now) {
            Some(found) => settled(s, coords, found, now),
            None => None,
        },
        _ => settled(s, coords, coords.version, now),
    }
}

/// What looking up the file version of the snapshot version of `coords`
/// does: a fresh entry is the answer and nothing changes; else the
/// repository is asked once, and the last entry of the log holds what it
/// answered.
pub open spec fn snapshot_post(
    pre: MavenRepoView,
    post: MavenRepoView,
    coords: MavenCoordsView,
    now: u64,
    r: Result<Seq<char>, Error>,
) -> bool {
    match lookup(pre.snapshots, snapshot_key(coords, coords.version), now) {
        Some(cached) => post == pre && r == Ok::<Seq<char>, Error>(cached),
        None => post.metadata_log.len() == pre.metadata_log.len() + 1 && (post, r)
            == snapshot_miss(pre, coords, coords.version, now, post.metadata_log.last().answer),
    }
}

/// What looking up the newest version of a kind does, in the same way.
pub open spec fn latest_post(
    pre: MavenRepoView,
    post: MavenRepoView,
    coords: MavenCoordsView,
    kind: VersionKind,
    now: u64,
    r: Result<Seq<char>, Error>,
) -> bool {
    match lookup(pre.versions, version_key(coords, kind), now) {
        Some(cached) => post == pre && r == Ok::<Seq<char>, Error>(cached),
        None => post.metadata_log.len() == pre.metadata_log.len() + 1 && (post, r) == latest_miss(
            pre,
            coords,
            kind,
            now,
            post.metadata_log.last().answer,
        ),
    }
}

/// The URL coordinates that a file version makes.
pub open spec fn with_file_version(
    coords: MavenCoordsView,
    version: Seq<char>,
    file_version: Result<Seq<char>, Error>,
) -> Result<MavenUrlCoordsView, Error> {
    match file_version {
        Ok(value) => Ok(url_coords(coords, version, value)),
        Err(e) => Err(e),
    }
}

/// What resolving `version`, which is taken as no selector, does.
pub open spec fn settle_post(
    pre: MavenRepoView,
    post: MavenRepoView,
    coords: MavenCoordsView,
    version: Seq<char>,
    now: u64,
    r: Result<MavenUrlCoordsView, Error>,
) -> bool {
    if is_snapshot(version) {
        match lookup(pre.snapshots, snapshot_key(coords, version), now) {
            Some(cached) => post == pre && r == Ok::<MavenUrlCoordsView, Error>(
                url_coords(coords, version, cached),
            ),
            None => post.metadata_log.len() == pre.metadata_log.len() + 1 && {
                let (after, file_version) = snapshot_miss(
                    pre,
                    coords,
                    version,
                    now,
                    post.metadata_log.last().answer,
                );
                post == after && r == with_file_version(coords, version, file_version)
            },
        }
    } else {
        post == pre && r == Ok::<MavenUrlCoordsView, Error>(url_coords(coords, version, version))
    }
}

/// What resolving `coords` at `now` does. A selector is first replaced by
/// the newest version of its kind, remembered or asked for, and that
/// version is then resolved as if it had been given. What is asked of the
/// repository, and what it answered, stands in the log.
pub open spec fn resolve_post(
    pre: MavenRepoView,
    post: MavenRepoView,
    coords: MavenCoordsView,
    now: u64,
    r: Result<MavenUrlCoordsView, Error>,
) -> bool {
    match form(coords.version) {
        VersionForm::Selector(kind) => match lookup(pre.versions, version_key(coords, kind), now) {
            Some(found) => settle_post(pre, post, coords, found, now, r),
            None => post.metadata_log.len() > pre.metadata_log.len() && {
                let (after, found) = latest_miss(
                    pre,
                    coords,
                    kind,
                    now,
                    post.metadata_log[pre.metadata_log.len() as int].answer,
                );
                match found {
                    Ok(version) => settle_post(after, post, coords, version, now, r),
                    Err(e) => post == after && r == Err::<MavenUrlCoordsView, Error>(e),
                }
            },
        },
        _ => settle_post(pre, post, coords, coords.version, now, r),
    }
}

/// What asking for the javadoc JAR at `coords` does: the request is logged
/// with why it failed, if it did, and the memory is left as it is.
pub open spec fn javadoc_post(
    pre: MavenRepoView,
    post: MavenRepoView,
    coords: MavenUrlCoordsView,
    failure: Option<Error>,
) -> bool {
    &&& post.artifact_log.len() == pre.artifact_log.len() + 1
    &&& post == (MavenRepoView {
        artifact_log: pre.artifact_log.push(
            ArtifactExchange {
                request: javadoc_request_view(coords),
                failure: post.artifact_log.last().failure,
            },
        ),
        ..pre
    })
    &&& failure == match post.artifact_log.last().failure {
        Some(e) => Some(artifact_error(e)),
        None => None,
    }
}

/// The memory holds nothing for the artifact of `coords`.
pub open spec fn knows_nothing_of(s: MavenRepoView, coords: MavenCoordsView) -> bool {
    &&& forall|kind: VersionKind| !s.versions.contains_key(#[trigger] version_key(coords, kind))
    &&& forall|version: Seq<char>|
        !s.snapshots.contains_key(#[trigger] snapshot_key(coords, version))
}

/// What the memory gives for coordinates does not depend on the time, as
/// long as it gives anything.
pub proof fn lemma_memory_is_steady(s: MavenRepoView, coords: MavenCoordsView, t1: u64, t2: u64)
    requires
        resolved(s, coords, t1) is Some,
        resolved(s, coords, t2) is Some,
    ensures
        resolved(s, coords, t1) == resolved(s, coords, t2),
{
}

/// Coordinates that the memory alone resolves are returned as the memory
/// has them, and neither the memory changes nor is the repository asked.
pub proof fn law_remembered_is_returned(
    pre: MavenRepoView,
    post: MavenRepoView,
    coords: MavenCoordsView,
    now: u64,
    r: Result<MavenUrlCoordsView, Error>,
)
    requires
        resolve_post(pre, post, coords, now, r),
        resolved(pre, coords, now) is Some,
    ensures
        post == pre,
        r matches Ok(c) && Some(c) == resolved(pre, coords, now),
{
}

/// Coordinates that were resolved are resolved by the memory alone from
/// then on: at the time of the call, and while the entries stay fresh.
pub proof fn law_returned_is_remembered(
    pre: MavenRepoView,
    post: MavenRepoView,
    coords: MavenCoordsView,
    now: u64,
    r: Result<MavenUrlCoordsView, Error>,
)
    requires
        resolve_post(pre, post, coords, now, r),
        r is Ok,
    ensures
        resolved(post, coords, now) == Some(r->Ok_0),
{
    assert(forall|entry: CacheEntryView|
        entry.write_time == now ==> #[trigger] is_fresh(entry, now));
}

/// Every file version that the memory holds is timestamped: `-SNAPSHOT` has
/// been replaced in it.
pub open spec fn timestamped(s: MavenRepoView) -> bool {
    forall|key: CacheKeyView|
        s.snapshots.contains_key(key) ==> !is_snapshot(#[trigger] s.snapshots[key].version)
}

/// A memory whose file versions are timestamped stays so: what is
/// remembered of a snapshot is timestamped.
pub proof fn law_memory_stays_timestamped(
    pre: MavenRepoView,
    post: MavenRepoView,
    coords: MavenCoordsView,
    now: u64,
    r: Result<MavenUrlCoordsView, Error>,
)
    requires
        resolve_post(pre, post, coords, now, r),
        timestamped(pre),
    ensures
        timestamped(post),
{
    assert forall|key: CacheKeyView| post.snapshots.contains_key(key) implies !is_snapshot(
        #[trigger] post.snapshots[key].version,
    ) by {
        if pre.snapshots.contains_key(key) {
            assert(!is_snapshot(pre.snapshots[key].version));
        }
    }
}

/// Resolved coordinates keep the artifact: the group in slashed form, with
/// no `.` left in it, and the name. A version that is no selector is the
/// version of the path. Where the version of the path is a snapshot, the
/// version of the file is not: `-SNAPSHOT` has been replaced by a
/// timestamp. Where it is none, it is the version of the file too.
pub proof fn law_resolved_coordinates_keep_the_artifact(
    pre: MavenRepoView,
    post: MavenRepoView,
    coords: MavenCoordsView,
    now: u64,
    r: Result<MavenUrlCoordsView, Error>,
)
    requires
        resolve_post(pre, post, coords, now, r),
        timestamped(pre),
        r is Ok,
    ensures
        r->Ok_0.group == slashed(coords.group),
        forall|i: int| 0 <= i < r->Ok_0.group.len() ==> r->Ok_0.group[i] != '.',
        r->Ok_0.name == coords.name,
        !(form(coords.version) is Selector) ==> r->Ok_0.path_version == coords.version,
        is_snapshot(r->Ok_0.path_version) ==> !is_snapshot(r->Ok_0.file_version),
        !is_snapshot(r->Ok_0.path_version) ==> r->Ok_0.file_version == r->Ok_0.path_version,
{
}

/// The repository is asked for metadata at most twice in one call, at most
/// once unless the version is a selector, and never for a literal version.
/// It is not asked for an artifact.
pub proof fn law_fetches_are_bounded(
    pre: MavenRepoView,
    post: MavenRepoView,
    coords: MavenCoordsView,
    now: u64,
    r: Result<MavenUrlCoordsView, Error>,
)
    requires
        resolve_post(pre, post, coords, now, r),
    ensures
        pre.metadata_log.len() <= post.metadata_log.len() <= pre.metadata_log.len() + 2,
        !(form(coords.version) is Selector) ==> post.metadata_log.len() <= pre.metadata_log.len()
            + 1,
        form(coords.version) is Literal ==> post.metadata_log == pre.metadata_log,
        post.artifact_log == pre.artifact_log,
{
}

/// Of two calls for the same coordinates, one after the other, the second
/// returns what the first returned, changes nothing and asks the repository
/// nothing, if it comes while the memory still resolves the coordinates,
/// that is, within the time to live of what the first call rested on.
pub proof fn law_repeated_call_is_idempotent(
    s0: MavenRepoView,
    s1: MavenRepoView,
    s2: MavenRepoView,
    coords: MavenCoordsView,
    t1: u64,
    t2: u64,
    r1: Result<MavenUrlCoordsView, Error>,
    r2: Result<MavenUrlCoordsView, Error>,
)
    requires
        resolve_post(s0, s1, coords, t1, r1),
        r1 is Ok,
        resolved(s1, coords, t2) is Some,
        resolve_post(s1, s2, coords, t2, r2),
    ensures
        r2 == r1,
        s2 == s1,
        s2.metadata_log.len() <= s0.metadata_log.len() + 2,
        !(form(coords.version) is Selector) ==> s2.metadata_log.len() <= s0.metadata_log.len() + 1,
{
    law_returned_is_remembered(s0, s1, coords, t1, r1);
    lemma_memory_is_steady(s1, coords, t1, t2);
    law_remembered_is_returned(s1, s2, coords, t2, r2);
    law_fetches_are_bounded(s0, s1, coords, t1, r1);
}

/// After a call that succeeded on a memory that held nothing for the
/// artifact, the memory resolves the coordinates for the time to live.
pub proof fn law_memory_lasts_for_the_ttl(
    s0: MavenRepoView,
    s1: MavenRepoView,
    coords: MavenCoordsView,
    t1: u64,
    t2: u64,
    r1: Result<MavenUrlCoordsView, Error>,
)
    requires
        knows_nothing_of(s0, coords),
        resolve_post(s0, s1, coords, t1, r1),
        r1 is Ok,
        t1 <= t2 < t1 + TTL_MILLIS,
    ensures
        resolved(s1, coords, t2) == Some(r1->Ok_0),
{
    law_returned_is_remembered(s0, s1, coords, t1, r1);
    if let VersionForm::Selector(kind) = form(coords.version) {
        assert(!s0.versions.contains_key(version_key(coords, kind)));
        let (after, found) = latest_miss(
            s0,
            coords,
            kind,
            t1,
            s1.metadata_log[s0.metadata_log.len() as int].answer,
        );
        assert(!s0.snapshots.contains_key(snapshot_key(coords, found->Ok_0)));
    } else {
        assert(!s0.snapshots.contains_key(snapshot_key(coords, coords.version)));
    }
}

/// Whatever the memory holds for the artifact of `coords` was written at
/// `t` or before.
pub open spec fn written_by(s: MavenRepoView, coords: MavenCoordsView, t: u64) -> bool {
    &&& forall|kind: VersionKind| #[trigger]
        s.versions.contains_key(version_key(coords, kind)) ==> s.versions[version_key(
            coords,
            kind,
        )].write_time <= t
    &&& forall|version: Seq<char>| #[trigger]
        s.snapshots.contains_key(snapshot_key(coords, version)) ==> s.snapshots[snapshot_key(
            coords,
            version,
        )].write_time <= t
}

/// A call writes at its own time: if all that the memory holds for the
/// artifact was written by the time of the call, as it is where it holds
/// nothing, so it is after the call. With a clock that does not go back
/// this holds of a resolver from the start, and by any later time.
pub proof fn lemma_calls_write_at_their_time(
    pre: MavenRepoView,
    post: MavenRepoView,
    coords: MavenCoordsView,
    now: u64,
    later: u64,
    r: Result<MavenUrlCoordsView, Error>,
)
    requires
        written_by(pre, coords, now),
        resolve_post(pre, post, coords, now, r),
        now <= later,
    ensures
        written_by(post, coords, later),
{
    assert forall|kind: VersionKind| #[trigger]
        post.versions.contains_key(version_key(coords, kind)) implies post.versions[version_key(
        coords,
        kind,
    )].write_time <= later by {
        if pre.versions.contains_key(version_key(coords, kind)) {
        }
    }
    assert forall|version: Seq<char>| #[trigger]
        post.snapshots.contains_key(
            snapshot_key(coords, version),
        ) implies post.snapshots[snapshot_key(coords, version)].write_time <= later by {
        if pre.snapshots.contains_key(snapshot_key(coords, version)) {
        }
    }
}

/// Once the time to live has passed since the memory for the artifact was
/// last written, the memory resolves nothing, and the next call asks the
/// repository again, unless the version is a literal, which is never asked
/// for.
pub proof fn law_stale_memory_is_refreshed(
    s1: MavenRepoView,
    s2: MavenRepoView,
    coords: MavenCoordsView,
    t1: u64,
    t2: u64,
    r2: Result<MavenUrlCoordsView, Error>,
)
    requires
        written_by(s1, coords, t1),
        t2 >= t1 + TTL_MILLIS,
        !(form(coords.version) is Literal),
        resolve_post(s1, s2, coords, t2, r2),
    ensures
        resolved(s1, coords, t2) is None,
        s2.metadata_log.len() > s1.metadata_log.len(),
{
    if let VersionForm::Selector(kind) = form(coords.version) {
        if s1.versions.contains_key(version_key(coords, kind)) {
        }
    } else {
        if s1.snapshots.contains_key(snapshot_key(coords, coords.version)) {
        }
    }
}

} // verus!
