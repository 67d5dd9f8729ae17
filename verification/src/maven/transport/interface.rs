//! Requests to a Maven repository, the metadata it answers with, and the
//! capability the resolver depends on.

use vstd::prelude::*;

verus! {

/// An optional string, as its characters.
pub open spec fn opt_view(s: Option<String>) -> Option<Seq<char>> {
    match s {
        Some(s) => Some(s@),
        None => None,
    }
}

/// A list of strings, as their characters.
pub open spec fn strings_view(v: Seq<String>) -> Seq<Seq<char>> {
    v.map_values(|s: String| s@)
}

/// A request for one artifact file. `group` is in slashed form, and both
/// versions have been resolved.
#[derive(Debug)]
pub struct MavenArtifactRequest {
    pub group: String,
    pub name: String,
    pub path_version: String,
    pub file_version: String,
    pub classifier: Option<String>,
    pub extension: String,
}

pub ghost struct MavenArtifactRequestView {
    pub group: Seq<char>,
    pub name: Seq<char>,
    pub path_version: Seq<char>,
    pub file_version: Seq<char>,
    pub classifier: Option<Seq<char>>,
    pub extension: Seq<char>,
}

impl View for MavenArtifactRequest {
    type V = MavenArtifactRequestView;

    open spec fn view(&self) -> MavenArtifactRequestView {
        MavenArtifactRequestView {
            group: self.group@,
            name: self.name@,
            path_version: self.path_version@,
            file_version: self.file_version@,
            classifier: opt_view(self.classifier),
            extension: self.extension@,
        }
    }
}

/// A request for `maven-metadata.xml`: that of the artifact, or, with a
/// version, that of one version of it. `group` is in slashed form.
#[derive(Debug)]
pub struct MavenMetadataRequest {
    pub group: String,
    pub name: String,
    pub version: Option<String>,
}

pub ghost struct MavenMetadataRequestView {
    pub group: Seq<char>,
    pub name: Seq<char>,
    pub version: Option<Seq<char>>,
}

impl View for MavenMetadataRequest {
    type V = MavenMetadataRequestView;

    open spec fn view(&self) -> MavenMetadataRequestView {
        MavenMetadataRequestView {
            group: self.group@,
            name: self.name@,
            version: opt_view(self.version),
        }
    }
}

/// One `<snapshotVersion>` of a version's metadata.
#[derive(Debug)]
pub struct SnapshotVersion {
    pub classifier: Option<String>,
    pub value: String,
}

pub ghost struct SnapshotVersionView {
    pub classifier: Option<Seq<char>>,
    pub value: Seq<char>,
}

impl View for SnapshotVersion {
    type V = SnapshotVersionView;

    open spec fn view(&self) -> SnapshotVersionView {
        SnapshotVersionView { classifier: opt_view(self.classifier), value: self.value@ }
    }
}

/// The `<snapshotVersions>` element.
#[derive(Debug)]
pub struct SnapshotVersions {
    pub snapshot_versions: Vec<SnapshotVersion>,
}

impl View for SnapshotVersions {
    type V = Seq<SnapshotVersionView>;

    open spec fn view(&self) -> Seq<SnapshotVersionView> {
        self.snapshot_versions@.map_values(|s: SnapshotVersion| s@)
    }
}

/// The `<versions>` element.
#[derive(Debug)]
pub struct Versions {
    pub versions: Vec<String>,
}

impl View for Versions {
    type V = Seq<Seq<char>>;

    open spec fn view(&self) -> Seq<Seq<char>> {
        strings_view(self.versions@)
    }
}

/// The `<versioning>` element; either list may be absent.
#[derive(Debug)]
pub struct Versioning {
    pub versions: Option<Versions>,
    pub snapshot_versions: Option<SnapshotVersions>,
}

pub ghost struct VersioningView {
    pub versions: Option<Seq<Seq<char>>>,
    pub snapshot_versions: Option<Seq<SnapshotVersionView>>,
}

impl View for Versioning {
    type V = VersioningView;

    open spec fn view(&self) -> VersioningView {
        VersioningView {
            versions: match self.versions {
                Some(v) => Some(v@),
                None => None,
            },
            snapshot_versions: match self.snapshot_versions {
                Some(v) => Some(v@),
                None => None,
            },
        }
    }
}

/// A parsed `maven-metadata.xml`.
#[derive(Debug)]
pub struct MavenMetadata {
    pub versioning: Versioning,
}

impl View for MavenMetadata {
    type V = VersioningView;

    open spec fn view(&self) -> VersioningView {
        self.versioning@
    }
}

/// Why a transport could not answer. The variants other than `NotFound`
/// carry the message of the underlying failure.
#[derive(Debug)]
pub enum Error {
    /// The repository answered 404.
    NotFound,
    Io(String),
    Other(String),
    /// The metadata could not be parsed.
    Deserialize(String),
}

impl Error {
    /// What the error reads as.
    pub open spec fn text(&self) -> Seq<char> {
        match self {
            Error::NotFound => "item not found"@,
            Error::Io(m) => m@,
            Error::Other(m) => m@,
            Error::Deserialize(m) => m@,
        }
    }

    /// What the error reads as.
    pub fn message(&self) -> (text: String)
        ensures
            text@ == self.text(),
    {
        match self {
            Error::NotFound => String::from_str("item not found"),
            Error::Io(m) => m.clone(),
            Error::Other(m) => m.clone(),
            Error::Deserialize(m) => m.clone(),
        }
    }
}

/// Access to a remote Maven repository. Nothing is assumed of an
/// implementation: the resolver is correct whatever it answers.
pub trait Transport {
    /// What a fetched artifact comes as, typically a stream of its bytes.
    type Artifact;

    fn get_artifact(&self, request: MavenArtifactRequest) -> Result<Self::Artifact, Error>;

    fn get_metadata(&self, request: MavenMetadataRequest) -> Result<MavenMetadata, Error>;
}

} // verus!
