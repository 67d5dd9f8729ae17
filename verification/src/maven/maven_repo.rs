//! The resolver: from coordinates as a user writes them to the coordinates
//! that a repository's URLs are made of.

use crate::maven::cache::{lookup, CacheKey, TtlCache};
use crate::maven::clock::Clock;
use crate::maven::resolution::{
    answer_view, artifact_error, coords_result, failure_of, first_javadoc, javadoc_post,
    javadoc_request_view, latest_post, latest_result, law_resolved_coordinates_keep_the_artifact,
    resolve_post, settle_post, snapshot_key, snapshot_post, snapshot_request_view,
    snapshot_result, snapshot_value, text_result, timestamped, timestamped_value, url_coords,
    version_key, versions_request_view, ArtifactExchange, MavenRepoView, MetadataExchange,
};
use crate::maven::transport::interface::{
    MavenArtifactRequest, MavenMetadata, MavenMetadataRequest, Transport,
};
use crate::maven::version::{latest_version, snapshot_marker, VersionKind};
use crate::text::{contains, slashed, str_contains, str_eq, to_slashed};
use vstd::prelude::*;

verus! {

/// Why coordinates could not be resolved, or a javadoc JAR not be had.
#[derive(Debug)]
pub enum Error {
    /// The transport failed.
    Transport(crate::maven::transport::interface::Error),
    /// The artifact does not exist, or its metadata names no javadoc.
    MissingJavadoc,
}

impl Error {
    /// What the error reads as.
    pub open spec fn text(&self) -> Seq<char> {
        match self {
            Error::Transport(e) => e.text(),
            Error::MissingJavadoc => "no javadoc could be found"@,
        }
    }

    /// What the error reads as.
    pub fn message(&self) -> (text: String)
        ensures
            text@ == self.text(),
    {
        match self {
            Error::Transport(e) => e.message(),
            Error::MissingJavadoc => String::from_str("no javadoc could be found"),
        }
    }
}

/// Coordinates as a user writes them: a dotted group, and a version that is
/// a literal, or one of the selectors `RELEASE` and `SNAPSHOT`.
#[derive(Clone, Debug)]
pub struct MavenCoords {
    pub group: String,
    pub name: String,
    pub version: String,
}

pub ghost struct MavenCoordsView {
    pub group: Seq<char>,
    pub name: Seq<char>,
    pub version: Seq<char>,
}

impl View for MavenCoords {
    type V = MavenCoordsView;

    open spec fn view(&self) -> MavenCoordsView {
        MavenCoordsView { group: self.group@, name: self.name@, version: self.version@ }
    }
}

/// Coordinates as they stand in a URL: a slashed group, the version of the
/// directory and the version of the file name.
#[derive(Debug)]
pub struct MavenUrlCoords {
    pub group: String,
    pub name: String,
    /// The version in the path of the URL
    pub path_version: String,
    /// The version embedded in the filename of the URL
    pub file_version: String,
}

pub ghost struct MavenUrlCoordsView {
    pub group: Seq<char>,
    pub name: Seq<char>,
    pub path_version: Seq<char>,
    pub file_version: Seq<char>,
}

impl View for MavenUrlCoords {
    type V = MavenUrlCoordsView;

    open spec fn view(&self) -> MavenUrlCoordsView {
        MavenUrlCoordsView {
            group: self.group@,
            name: self.name@,
            path_version: self.path_version@,
            file_version: self.file_version@,
        }
    }
}

/// What a version asks for.
#[derive(Clone, Copy, PartialEq, Eq, Structural, Debug)]
pub enum VersionForm {
    /// A snapshot version, whose file version the metadata gives.
    Snapshot,
    /// The newest version of a kind.
    Selector(VersionKind),
    /// The version itself.
    Literal,
}

/// `text` in upper case, as `str::to_uppercase` gives it.
pub uninterp spec fn uppercase(text: Seq<char>) -> Seq<char>;

/// `str::to_uppercase`.
#[verifier::external_body]
fn to_uppercase(text: &str) -> (upper: String)
    ensures
        upper@ == uppercase(text@),
{
    text.to_uppercase()
}

/// A version is a snapshot version if it contains `-SNAPSHOT` as written.
pub open spec fn is_snapshot(version: Seq<char>) -> bool {
    contains(version, snapshot_marker())
}

/// The form of a version, from the version and the same in upper case: a
/// version that contains `-SNAPSHOT` as written is a snapshot version; else
/// one that is `RELEASE` or `SNAPSHOT` in upper case is a selector; any
/// other stands for itself.
pub open spec fn form_of(version: Seq<char>, upper: Seq<char>) -> VersionForm {
    if is_snapshot(version) {
        VersionForm::Snapshot
    } else if upper == "RELEASE"@ {
        VersionForm::Selector(VersionKind::Release)
    } else if upper == "SNAPSHOT"@ {
        VersionForm::Selector(VersionKind::Snapshot)
    } else {
        VersionForm::Literal
    }
}

/// The form of a version: letter case counts for the snapshot marker, and
/// does not count for the selectors.
pub open spec fn form(version: Seq<char>) -> VersionForm {
    form_of(version, uppercase(version))
}

/// The form of a version, from the version and the same in upper case.
pub fn version_form(version: &str, upper: &str) -> (r: VersionForm)
    ensures
        r == form_of(version@, upper@),
{
    if str_contains(version, "-SNAPSHOT") {
        VersionForm::Snapshot
    } else if str_eq(upper, "RELEASE") {
        VersionForm::Selector(VersionKind::Release)
    } else if str_eq(upper, "SNAPSHOT") {
        VersionForm::Selector(VersionKind::Snapshot)
    } else {
        VersionForm::Literal
    }
}

/// The classifier of javadoc artifacts.
pub open spec fn javadoc() -> Seq<char> {
    "javadoc"@
}

/// The file version of the javadoc of a snapshot, from the answer to a
/// request for the snapshot's metadata. A repository without the metadata
/// has no javadoc for it, and neither has metadata without a javadoc
/// snapshot version, or with one whose value is no timestamped version but
/// still contains `-SNAPSHOT`.
pub fn snapshot_outcome(
    fetched: Result<MavenMetadata, crate::maven::transport::interface::Error>,
) -> (r: Result<String, Error>)
    ensures
        text_result(r) == snapshot_result(answer_view(fetched)),
{
    let metadata = match fetched {
        Ok(metadata) => metadata,
        Err(e) => {
            return match e {
                crate::maven::transport::interface::Error::NotFound => Err(Error::MissingJavadoc),
                _ => Err(Error::Transport(e)),
            };
        },
    };
    let versions = match metadata.versioning.snapshot_versions {
        Some(versions) => versions.snapshot_versions,
        None => {
            return Err(Error::MissingJavadoc);
        },
    };
    let ghost all = versions@.map_values(
        |s: crate::maven::transport::interface::SnapshotVersion| s@,
    );
    proof {
        assert(all.skip(0) =~= all);
    }
    let mut i: usize = 0;
    while i < versions.len()
        invariant
            i <= versions@.len(),
            all == versions@.map_values(
                |s: crate::maven::transport::interface::SnapshotVersion| s@,
            ),
            fetched matches Ok(metadata) && snapshot_value(metadata@) == timestamped_value(
                first_javadoc(all.skip(i as int)),
            ),
        decreases versions@.len() - i,
    {
        let is_javadoc = match &versions[i].classifier {
            Some(c) => str_eq(c.as_str(), "javadoc"),
            None => false,
        };
        proof {
            assert(all.skip(i as int)[0] == versions@[i as int]@);
            assert(all.skip(i as int).drop_first() =~= all.skip(i + 1));
        }
        if is_javadoc {
            if str_contains(versions[i].value.as_str(), "-SNAPSHOT") {
                return Err(Error::MissingJavadoc);
            }
            return Ok(versions[i].value.clone());
        }
        i += 1;
    }
    Err(Error::MissingJavadoc)
}

/// The newest version of `kind`, from the answer to a request for the
/// artifact's metadata.
pub fn latest_outcome(
    fetched: Result<MavenMetadata, crate::maven::transport::interface::Error>,
    kind: VersionKind,
) -> (r: Result<String, Error>)
    ensures
        text_result(r) == latest_result(answer_view(fetched), kind),
{
    let metadata = match fetched {
        Ok(metadata) => metadata,
        Err(e) => {
            return Err(Error::Transport(e));
        },
    };
    let versions = match metadata.versioning.versions {
        Some(versions) => versions.versions,
        None => {
            return Err(Error::MissingJavadoc);
        },
    };
    match latest_version(&versions, kind) {
        Some(version) => Ok(version),
        None => Err(Error::MissingJavadoc),
    }
}

/// A javadoc JAR or the reason there is none, from the answer to a request
/// for it: a repository without the file has no javadoc.
pub fn artifact_outcome<A>(
    fetched: Result<A, crate::maven::transport::interface::Error>,
) -> (r: Result<A, Error>)
    ensures
        match fetched {
            Ok(artifact) => r == Ok::<A, Error>(artifact),
            Err(e) => r == Err::<A, Error>(artifact_error(e)),
        },
{
    match fetched {
        Ok(artifact) => Ok(artifact),
        Err(e) => match e {
            crate::maven::transport::interface::Error::NotFound => Err(Error::MissingJavadoc),
            _ => Err(Error::Transport(e)),
        },
    }
}

/// The request for the javadoc JAR at `coords`.
pub fn javadoc_request(coords: MavenUrlCoords) -> (request: MavenArtifactRequest)
    ensures
        request@ == javadoc_request_view(coords@),
{
    MavenArtifactRequest {
        group: coords.group,
        name: coords.name,
        path_version: coords.path_version,
        file_version: coords.file_version,
        classifier: Some(String::from_str("javadoc")),
        extension: String::from_str("jar"),
    }
}

/// The request for the metadata of the version of `coords`, whose group in
/// slashed form is `group`.
pub fn snapshot_request(group: &str, coords: &MavenCoords) -> (request: MavenMetadataRequest)
    ensures
        request@.group == group@,
        request@.name == coords@.name,
        request@.version == Some(coords@.version),
        group@ == slashed(coords@.group) ==> request@ == snapshot_request_view(
            coords@,
            coords@.version,
        ),
{
    MavenMetadataRequest {
        group: String::from_str(group),
        name: coords.name.clone(),
        version: Some(coords.version.clone()),
    }
}

/// The request for the metadata of the artifact of `coords`, whose group in
/// slashed form is `group`.
pub fn versions_request(group: &str, coords: &MavenCoords) -> (request: MavenMetadataRequest)
    ensures
        request@.group == group@,
        request@.name == coords@.name,
        request@.version is None,
        group@ == slashed(coords@.group) ==> request@ == versions_request_view(coords@),
{
    MavenMetadataRequest {
        group: String::from_str(group),
        name: coords.name.clone(),
        version: None,
    }
}

/// A resolver of Maven coordinates over a transport. It remembers what the
/// repository's metadata said for 30 minutes.
pub struct MavenRepo<T: Transport> {
    transport: T,
    clock: Clock,
    version_map: TtlCache,
    snapshot_map: TtlCache,
    metadata_log: Ghost<Seq<MetadataExchange>>,
    artifact_log: Ghost<Seq<ArtifactExchange>>,
}

impl<T: Transport> MavenRepo<T> {
    pub closed spec fn view(&self) -> MavenRepoView {
        MavenRepoView {
            versions: self.version_map@,
            snapshots: self.snapshot_map@,
            metadata_log: self.metadata_log@,
            artifact_log: self.artifact_log@,
        }
    }

    /// The resolver's memory is in order, and every file version in it is
    /// timestamped.
    pub closed spec fn wf(&self) -> bool {
        self.version_map.wf() && self.snapshot_map.wf() && timestamped(self@)
    }

    /// What well-formedness says of the memory.
    pub proof fn lemma_wf(&self)
        requires
            self.wf(),
        ensures
            timestamped(self@),
    {
    }

    /// A resolver that remembers nothing and has asked nothing yet.
    pub fn new(transport: T) -> (repo: MavenRepo<T>)
        ensures
            repo.wf(),
            repo@ == (MavenRepoView {
                versions: Map::empty(),
                snapshots: Map::empty(),
                metadata_log: Seq::empty(),
                artifact_log: Seq::empty(),
            }),
    {
        MavenRepo {
            transport,
            clock: Clock::start(),
            version_map: TtlCache::new(),
            snapshot_map: TtlCache::new(),
            metadata_log: Ghost(Seq::empty()),
            artifact_log: Ghost(Seq::empty()),
        }
    }

    /// Asks the transport for the javadoc JAR at `coords`: the artifact as
    /// the transport gave it, or `artifact_error` of why it failed.
    pub fn resolve_javadoc(&mut self, coords: MavenUrlCoords) -> (r: Result<T::Artifact, Error>)
        requires
            old(self).wf(),
        ensures
            final(self).wf(),
            javadoc_post(old(self)@, final(self)@, coords@, failure_of(r)),
    {
        let request = javadoc_request(coords);
        let ghost asked_for = request@;
        let fetched = self.transport.get_artifact(request);
        proof {
            self.artifact_log@ = self.artifact_log@.push(
                ArtifactExchange { request: asked_for, failure: failure_of(fetched) },
            );
        }
        artifact_outcome(fetched)
    }

    /// Resolves `coords` at the time that the resolver's clock shows.
    pub fn resolve_full_coords(&mut self, coords: MavenCoords) -> (r: Result<MavenUrlCoords, Error>)
        requires
            old(self).wf(),
        ensures
            final(self).wf(),
            exists|now: u64| #[trigger]
                resolve_post(old(self)@, final(self)@, coords@, now, coords_result(r)),
    {
        let now = self.clock.now();
        self.resolve_full_coords_at(coords, now)
    }

    /// Resolves `coords` at the time `now`, in milliseconds of a clock that
    /// does not go back.
    pub fn resolve_full_coords_at(&mut self, coords: MavenCoords, now: u64) -> (r: Result<
        MavenUrlCoords,
        Error,
    >)
        requires
            old(self).wf(),
        ensures
            final(self).wf(),
            resolve_post(old(self)@, final(self)@, coords@, now, coords_result(r)),
            r matches Ok(c) ==> {
                &&& c@.group == slashed(coords@.group)
                &&& c@.name == coords@.name
                &&& is_snapshot(c@.path_version) ==> !is_snapshot(c@.file_version)
                &&& !is_snapshot(c@.path_version) ==> c@.file_version == c@.path_version
            },
    {
        let ghost pre = self@;
        let ghost given = coords@;
        let group = to_slashed(coords.group.as_str());
        let upper = to_uppercase(coords.version.as_str());
        let r = match version_form(coords.version.as_str(), upper.as_str()) {
            VersionForm::Selector(kind) => {
                let found = match self.find_latest_version(group.as_str(), &coords, kind, now) {
                    Ok(found) => found,
                    Err(e) => {
                        return Err(e);
                    },
                };
                let ghost mid = self@;
                let substituted = MavenCoords {
                    group: coords.group,
                    name: coords.name,
                    version: found,
                };
                let r = self.settle(group, substituted, now);
                proof {
                    let version = substituted@.version;
                    assert(snapshot_key(substituted@, version) == snapshot_key(given, version));
                    assert(snapshot_request_view(substituted@, version) == snapshot_request_view(
                        given,
                        version,
                    ));
                    assert(forall|file_version: Seq<char>|
                        #[trigger] url_coords(substituted@, version, file_version) == url_coords(
                            given,
                            version,
                            file_version,
                        ));
                    assert(settle_post(mid, self@, given, version, now, coords_result(r)));
                    if lookup(pre.versions, version_key(given, kind), now) is None {
                        assert(self@.metadata_log[pre.metadata_log.len() as int]
                            == mid.metadata_log.last());
                    }
                }
                r
            },
            _ => self.settle(group, coords, now),
        };
        proof {
            if r is Ok {
                law_resolved_coordinates_keep_the_artifact(
                    pre,
                    self@,
                    given,
                    now,
                    coords_result(r),
                );
            }
        }
        r
    }

    /// Resolves the version of `coords`, which is taken as no selector.
    fn settle(&mut self, group: String, coords: MavenCoords, now: u64) -> (r: Result<
        MavenUrlCoords,
        Error,
    >)
        requires
            old(self).wf(),
            group@ == slashed(coords@.group),
        ensures
            final(self).wf(),
            settle_post(old(self)@, final(self)@, coords@, coords@.version, now, coords_result(r)),
    {
        if str_contains(coords.version.as_str(), "-SNAPSHOT") {
            match self.resolve_snapshot(group.as_str(), &coords, now) {
                Ok(file_version) => Ok(
                    MavenUrlCoords {
                        group,
                        name: coords.name,
                        path_version: coords.version,
                        file_version,
                    },
                ),
                Err(e) => Err(e),
            }
        } else {
            Ok(
                MavenUrlCoords {
                    group,
                    name: coords.name,
                    path_version: coords.version.clone(),
                    file_version: coords.version,
                },
            )
        }
    }

    /// The file version of the javadoc of the snapshot version of `coords`:
    /// the remembered one while it is fresh, else what the repository's
    /// metadata of that version says, which is then remembered.
    fn resolve_snapshot(&mut self, group: &str, coords: &MavenCoords, now: u64) -> (r: Result<
        String,
        Error,
    >)
        requires
            old(self).wf(),
            group@ == slashed(coords@.group),
        ensures
            final(self).wf(),
            snapshot_post(old(self)@, final(self)@, coords@, now, text_result(r)),
    {
        let cache_key = CacheKey::Snapshot {
            group: coords.group.clone(),
            name: coords.name.clone(),
            version: coords.version.clone(),
        };
        match self.snapshot_map.get(&cache_key, now) {
            Some(version) => {
                return Ok(version);
            },
            None => {},
        }
        let request = snapshot_request(group, coords);
        let ghost asked_for = request@;
        let fetched = self.transport.get_metadata(request);
        proof {
            self.metadata_log@ = self.metadata_log@.push(
                MetadataExchange { request: asked_for, answer: answer_view(fetched) },
            );
            assert(self@.snapshots == old(self)@.snapshots);
            assert(timestamped(self@));
        }
        let snap_value = match snapshot_outcome(fetched) {
            Ok(value) => value,
            Err(e) => {
                return Err(e);
            },
        };
        self.snapshot_map.insert(cache_key, snap_value.clone(), now);
        proof {
            assert forall|key: crate::maven::cache::CacheKeyView|
                self@.snapshots.contains_key(key) implies !is_snapshot(
                #[trigger] self@.snapshots[key].version,
            ) by {
                if old(self)@.snapshots.contains_key(key) {
                    assert(!is_snapshot(old(self)@.snapshots[key].version));
                }
            }
        }
        Ok(snap_value)
    }

    /// The newest version of `kind` of the artifact of `coords`: the
    /// remembered one while it is fresh, else the newest that the
    /// repository's metadata of the artifact lists, which is then
    /// remembered.
    fn find_latest_version(
        &mut self,
        group: &str,
        coords: &MavenCoords,
        kind: VersionKind,
        now: u64,
    ) -> (r: Result<String, Error>)
        requires
            old(self).wf(),
            group@ == slashed(coords@.group),
        ensures
            final(self).wf(),
            latest_post(old(self)@, final(self)@, coords@, kind, now, text_result(r)),
    {
        let cache_key = CacheKey::Version {
            group: coords.group.clone(),
            name: coords.name.clone(),
            kind,
        };
        match self.version_map.get(&cache_key, now) {
            Some(version) => {
                return Ok(version);
            },
            None => {},
        }
        let request = versions_request(group, coords);
        let ghost asked_for = request@;
        let fetched = self.transport.get_metadata(request);
        proof {
            self.metadata_log@ = self.metadata_log@.push(
                MetadataExchange { request: asked_for, answer: answer_view(fetched) },
            );
            assert(self@.snapshots == old(self)@.snapshots);
            assert(timestamped(self@));
        }
        let version = match latest_outcome(fetched, kind) {
            Ok(version) => version,
            Err(e) => {
                return Err(e);
            },
        };
        self.version_map.insert(cache_key, version.clone(), now);
        Ok(version)
    }
}

} // verus!
