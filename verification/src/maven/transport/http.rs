//! The HTTP side of a transport: where a request is found under the
//! repository's base URL, and what a failed response means.

use crate::maven::transport::interface::{
    Error, MavenArtifactRequest, MavenArtifactRequestView, MavenMetadataRequest,
    MavenMetadataRequestView,
};
use vstd::prelude::*;

verus! {

/// The HTTP status that means the item does not exist.
pub const NOT_FOUND: u16 = 404;

/// `{name}-{file_version}[-{classifier}].{extension}`
pub open spec fn artifact_file_name(request: MavenArtifactRequestView) -> Seq<char> {
    request.name + "-"@ + request.file_version + match request.classifier {
        Some(classifier) => "-"@ + classifier,
        None => Seq::empty(),
    } + "."@ + request.extension
}

/// `{base}/{group}/{name}/{path_version}/` and the file's name.
pub open spec fn artifact_url(base: Seq<char>, request: MavenArtifactRequestView) -> Seq<char> {
    base + "/"@ + request.group + "/"@ + request.name + "/"@ + request.path_version + "/"@
        + artifact_file_name(request)
}

/// `{base}/{group}/{name}/[{version}/]maven-metadata.xml`
pub open spec fn metadata_url(base: Seq<char>, request: MavenMetadataRequestView) -> Seq<char> {
    base + "/"@ + request.group + "/"@ + request.name + "/"@ + match request.version {
        Some(version) => version + "/"@,
        None => Seq::empty(),
    } + "maven-metadata.xml"@
}

/// The URL of the artifact file that `request` names.
pub fn artifact_request_url(base: &str, request: &MavenArtifactRequest) -> (url: String)
    ensures
        url@ == artifact_url(base@, request@),
{
    let mut url = String::from_str(base);
    url.append("/");
    url.append(request.group.as_str());
    url.append("/");
    url.append(request.name.as_str());
    url.append("/");
    url.append(request.path_version.as_str());
    url.append("/");
    url.append(request.name.as_str());
    url.append("-");
    url.append(request.file_version.as_str());
    match &request.classifier {
        Some(classifier) => {
            url.append("-");
            url.append(classifier.as_str());
        },
        None => {},
    }
    url.append(".");
    url.append(request.extension.as_str());
    assert(url@ =~= artifact_url(base@, request@));
    url
}

/// The URL of the metadata file that `request` names.
pub fn metadata_request_url(base: &str, request: &MavenMetadataRequest) -> (url: String)
    ensures
        url@ == metadata_url(base@, request@),
{
    let mut url = String::from_str(base);
    url.append("/");
    url.append(request.group.as_str());
    url.append("/");
    url.append(request.name.as_str());
    url.append("/");
    match &request.version {
        Some(version) => {
            url.append(version.as_str());
            url.append("/");
        },
        None => {},
    }
    url.append("maven-metadata.xml");
    assert(url@ =~= metadata_url(base@, request@));
    url
}

/// What a request that did not succeed means: a 404 is `NotFound`, anything
/// else, a failure without a status included, is `Other` with `message`.
pub fn error_for_status(status: Option<u16>, message: String) -> (error: Error)
    ensures
        status == Some(NOT_FOUND) ==> error is NotFound,
        status != Some(NOT_FOUND) ==> error == Error::Other(message),
{
    match status {
        Some(code) => {
            if code == NOT_FOUND {
                Error::NotFound
            } else {
                Error::Other(message)
            }
        },
        None => Error::Other(message),
    }
}

} // verus!
