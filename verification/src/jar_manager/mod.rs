//! The JAR manager: what the request handler decides between one piece of
//! work on the disk cache and the next.

pub mod rimfs;
pub mod special_cache;

use crate::jar_manager::rimfs::{
    all_readable, blob_bytes, entries_of, merged, total_len, zip_listing, InMemoryFs,
};
use crate::jar_manager::special_cache::{added, has_key, touched, value_of, SpecialCache};
use crate::maven::maven_repo::{MavenCoords, MavenRepo, MavenUrlCoords, MavenUrlCoordsView};
use crate::maven::resolution::{
    artifact_error, coords_result, javadoc_post, resolve_post, MavenRepoView,
};
use crate::maven::transport::interface::Transport;
use byte_unit::Byte;
use bytes::Bytes;
use vstd::prelude::*;

verus! {

/// Why a request could not be served.
#[derive(Debug)]
pub enum Error {
    /// The artifact, or the entry in its JAR, does not exist.
    NotFound,
    /// Reading the JAR failed.
    Io(String),
    /// The resolver failed.
    Maven(crate::maven::maven_repo::Error),
    /// Anything else, with what was being done.
    Other(String),
}

impl Error {
    /// What the error reads as.
    pub open spec fn text(&self) -> Seq<char> {
        match self {
            Error::NotFound => "entry not found"@,
            Error::Io(m) => m@,
            Error::Maven(e) => e.text(),
            Error::Other(m) => m@,
        }
    }

    /// What the error reads as.
    pub fn message(&self) -> (text: String)
        ensures
            text@ == self.text(),
    {
        match self {
            Error::NotFound => String::from_str("entry not found"),
            Error::Io(m) => m.clone(),
            Error::Maven(e) => e.message(),
            Error::Other(m) => m.clone(),
        }
    }
}

/// A request for one entry of the javadoc JAR of an artifact.
#[derive(Debug)]
pub struct JarDataRequest {
    pub group: String,
    pub name: String,
    pub version: String,
    pub path: String,
}

/// `{group}/{name}/{file_version}.jar`
pub open spec fn jar_path(coords: MavenUrlCoordsView) -> Seq<char> {
    coords.group + "/"@ + coords.name + "/"@ + coords.file_version + ".jar"@
}

/// The path under which both caches keep the JAR at `request`.
pub fn resolve_jar(request: &MavenUrlCoords) -> (path: String)
    ensures
        path@ == jar_path(request@),
{
    let mut path = request.group.clone();
    path.append("/");
    path.append(request.name.as_str());
    path.append("/");
    path.append(request.file_version.as_str());
    path.append(".jar");
    assert(path@ =~= jar_path(request@));
    path
}

/// A request on its way: the coordinates it resolved to, the path of their
/// JAR in both caches, and the entry asked for.
pub struct Pending {
    pub coords: MavenUrlCoords,
    pub jar_path: String,
    pub path: String,
}

/// What the disk cache said of a JAR.
pub enum DiskLookup {
    /// It holds the JAR.
    Hit,
    /// It does not.
    Miss,
    /// It failed, with this text.
    Failed(String),
}

/// What became of a downloaded JAR on its way into the disk cache.
pub enum DiskStore {
    /// It was written, and the disk cache holds it.
    Stored,
    /// Writing it failed, with this text.
    InsertFailed(String),
    /// It was written, but the disk cache failed to hand it out again.
    LookupFailed(String),
}

/// What reading a JAR from the disk cache gave.
pub enum ArchiveRead {
    /// The bytes of the JAR.
    Read(Vec<u8>),
    /// It failed, with this text.
    Failed(String),
}

/// What the handler wants done next for a request, or its reply.
pub enum Step<A> {
    /// Ask the disk cache for the JAR at `jar_path`, and come back with
    /// what it said.
    LookUpOnDisk(Pending),
    /// Write the fetched artifact into the disk cache at `jar_path`, and
    /// come back with what became of it.
    Store(Pending, A),
    /// Read the JAR at `jar_path` from the disk cache, and come back with
    /// its bytes.
    ReadArchive(Pending),
    /// The request is answered.
    Reply(Result<Bytes, Error>),
    /// The JAR is larger than the whole memory cache: nothing can go on.
    Fatal(String),
}

/// What the manager holds: the resolver's memory and the memory cache.
pub ghost struct JarManagerView {
    pub maven: MavenRepoView,
    /// The JARs in memory by their path, the least recently used first.
    pub memory: Seq<(Seq<char>, InMemoryFs)>,
    /// The number of bytes that the JARs in memory may take together.
    pub capacity: nat,
}

/// The reply with the entry at `path` of a JAR in memory.
pub open spec fn served(
    files: Map<Seq<char>, Seq<u8>>,
    path: Seq<char>,
    reply: Result<Bytes, Error>,
) -> bool {
    if files.contains_key(path) {
        reply matches Ok(blob) && blob_bytes(blob) == files[path]
    } else {
        reply matches Err(Error::NotFound)
    }
}

/// What a failure of the resolver is to the client: a missing javadoc and
/// a missing item are `NotFound`, all else is the resolver's error.
pub open spec fn reply_error(cause: crate::maven::maven_repo::Error) -> Error {
    match cause {
        crate::maven::maven_repo::Error::MissingJavadoc => Error::NotFound,
        crate::maven::maven_repo::Error::Transport(
            crate::maven::transport::interface::Error::NotFound,
        ) => Error::NotFound,
        _ => Error::Maven(cause),
    }
}

/// What a failure of the resolver is to the client.
pub fn error_reply(cause: crate::maven::maven_repo::Error) -> (e: Error)
    ensures
        e == reply_error(cause),
{
    match cause {
        crate::maven::maven_repo::Error::MissingJavadoc => Error::NotFound,
        crate::maven::maven_repo::Error::Transport(t) => match t {
            crate::maven::transport::interface::Error::NotFound => Error::NotFound,
            _ => Error::Maven(crate::maven::maven_repo::Error::Transport(t)),
        },
    }
}

/// `context`, a colon and a space, and `text`.
pub fn with_context(context: &str, text: &str) -> (message: String)
    ensures
        message@ == context@ + ": "@ + text@,
{
    let mut message = String::from_str(context);
    message.append(": ");
    message.append(text);
    message
}

/// What serving `pending` from memory does: a JAR in memory is used, which
/// makes it the most recently used, and the entry is the reply; for a JAR
/// that is not in memory its bytes are asked for.
pub open spec fn serve_post<A>(
    pre: JarManagerView,
    post: JarManagerView,
    pending: Pending,
    step: Step<A>,
) -> bool {
    &&& post.maven == pre.maven
    &&& post.capacity == pre.capacity
    &&& if has_key(pre.memory, pending.jar_path@) {
        &&& post.memory == touched(pre.memory, pending.jar_path@)
        &&& step matches Step::Reply(reply) && served(
            value_of(pre.memory, pending.jar_path@)@,
            pending.path@,
            reply,
        )
    } else {
        post.memory == pre.memory && step == Step::<A>::ReadArchive(pending)
    }
}

/// What fetching the JAR of `pending` does: the transport is asked for it
/// once, and either the artifact is to be stored, or the reply is why there
/// is none.
pub open spec fn fetch_post<A>(
    pre: JarManagerView,
    post: JarManagerView,
    pending: Pending,
    step: Step<A>,
) -> bool {
    &&& post.memory == pre.memory
    &&& post.capacity == pre.capacity
    &&& match step {
        Step::Store(waiting, _) => waiting == pending && javadoc_post(
            pre.maven,
            post.maven,
            pending.coords@,
            None,
        ),
        Step::Reply(Err(e)) => post.maven.artifact_log.len() > 0 && (
        post.maven.artifact_log.last().failure matches Some(failure) && e == reply_error(
            artifact_error(failure),
        ) && javadoc_post(
            pre.maven,
            post.maven,
            pending.coords@,
            Some(artifact_error(failure)),
        )),
        _ => false,
    }
}

/// What taking up the request `msg` at `now` does: its coordinates are
/// resolved, and either the disk cache is to be looked at for their JAR, or
/// the reply is why they do not resolve.
pub open spec fn handle_post<A>(
    pre: JarManagerView,
    post: JarManagerView,
    msg: JarDataRequest,
    now: u64,
    step: Step<A>,
) -> bool {
    let coords = crate::maven::maven_repo::MavenCoordsView {
        group: msg.group@,
        name: msg.name@,
        version: msg.version@,
    };
    &&& post.memory == pre.memory
    &&& post.capacity == pre.capacity
    &&& match step {
        Step::LookUpOnDisk(pending) => {
            &&& resolve_post(pre.maven, post.maven, coords, now, Ok(pending.coords@))
            &&& pending.jar_path@ == jar_path(pending.coords@)
            &&& pending.path@ == msg.path@
        },
        Step::Reply(Err(e)) => exists|cause: crate::maven::maven_repo::Error|
            #![trigger reply_error(cause)]
            e == reply_error(cause) && resolve_post(
                pre.maven,
                post.maven,
                coords,
                now,
                Err(cause),
            ),
        _ => false,
    }
}

/// The first step for a request, from what its coordinates resolved to: a
/// look at the disk cache for their JAR, or the reply why they do not
/// resolve.
pub fn first_step<A>(
    resolved: Result<MavenUrlCoords, crate::maven::maven_repo::Error>,
    path: String,
) -> (step: Step<A>)
    ensures
        match resolved {
            Ok(coords) => step matches Step::LookUpOnDisk(pending) && pending.coords == coords
                && pending.jar_path@ == jar_path(coords@) && pending.path == path,
            Err(cause) => step == Step::<A>::Reply(Err(reply_error(cause))),
        },
{
    match resolved {
        Ok(coords) => {
            let jar_path = resolve_jar(&coords);
            Step::LookUpOnDisk(Pending { coords, jar_path, path })
        },
        Err(cause) => {
            let e = error_reply(cause);
            Step::Reply(Err(e))
        },
    }
}

/// The manager of javadoc JARs. It resolves coordinates, keeps decompressed
/// JARs in memory, and says what is to be done on the disk cache, which its
/// caller holds. One request is handled at a time, from `handle` to the
/// step that is a reply.
pub struct JarManager<T: Transport> {
    maven: MavenRepo<T>,
    mem_cache: SpecialCache,
}

impl<T: Transport> JarManager<T> {
    pub closed spec fn view(&self) -> JarManagerView {
        JarManagerView {
            maven: self.maven@,
            memory: self.mem_cache@,
            capacity: self.mem_cache.capacity(),
        }
    }

    /// The resolver and the memory cache are in order.
    pub closed spec fn wf(&self) -> bool {
        self.maven.wf() && self.mem_cache.wf()
    }

    /// What well-formedness says: the JARs in memory have distinct paths and
    /// take no more together than the capacity, and the resolver remembers
    /// timestamped file versions only.
    pub proof fn lemma_wf(&self)
        requires
            self.wf(),
        ensures
            crate::jar_manager::special_cache::keys_distinct(self@.memory),
            crate::jar_manager::special_cache::total_size(self@.memory) <= self@.capacity,
            crate::maven::resolution::timestamped(self@.maven),
    {
        self.mem_cache.lemma_wf();
        self.maven.lemma_wf();
    }

    /// A manager over `transport` that holds nothing yet, with a memory
    /// cache of `mem_cache_size`.
    pub fn new(transport: T, mem_cache_size: Byte) -> (manager: JarManager<T>)
        ensures
            manager.wf(),
            manager@.memory == Seq::<(Seq<char>, InMemoryFs)>::empty(),
            manager@.capacity == crate::jar_manager::special_cache::byte_count(mem_cache_size),
            manager@.maven == (MavenRepoView {
                versions: Map::empty(),
                snapshots: Map::empty(),
                metadata_log: Seq::empty(),
                artifact_log: Seq::empty(),
            }),
    {
        JarManager {
            maven: MavenRepo::new(transport),
            mem_cache: SpecialCache::new(mem_cache_size),
        }
    }

    /// Takes up a request at the time that the resolver's clock shows.
    pub fn handle(&mut self, msg: JarDataRequest) -> (step: Step<T::Artifact>)
        requires
            old(self).wf(),
        ensures
            final(self).wf(),
            exists|now: u64| #[trigger] handle_post(old(self)@, final(self)@, msg, now, step),
    {
        let ghost pre = self@;
        let coords = MavenCoords { group: msg.group, name: msg.name, version: msg.version };
        let ghost asked = coords@;
        let resolved = self.maven.resolve_full_coords(coords);
        let ghost now = choose|now: u64| #[trigger]
            resolve_post(pre.maven, self@.maven, asked, now, coords_result(resolved));
        let step = first_step(resolved, msg.path);
        proof {
            assert(handle_post(pre, self@, msg, now, step));
        }
        step
    }

    /// Takes up a request at the time `now`: resolves its coordinates and
    /// asks for a look at the disk cache, or replies why they do not
    /// resolve.
    pub fn handle_at(&mut self, msg: JarDataRequest, now: u64) -> (step: Step<T::Artifact>)
        requires
            old(self).wf(),
        ensures
            final(self).wf(),
            handle_post(old(self)@, final(self)@, msg, now, step),
    {
        let coords = MavenCoords { group: msg.group, name: msg.name, version: msg.version };
        let resolved = self.maven.resolve_full_coords_at(coords, now);
        first_step(resolved, msg.path)
    }

    /// Goes on after the look at the disk cache. A JAR that the disk cache
    /// holds is never fetched: it is served from memory, or its bytes are
    /// asked for. Only after a miss is the transport asked for the JAR.
    pub fn after_lookup(&mut self, pending: Pending, lookup: DiskLookup) -> (step: Step<
        T::Artifact,
    >)
        requires
            old(self).wf(),
        ensures
            final(self).wf(),
            match lookup {
                DiskLookup::Hit => serve_post(old(self)@, final(self)@, pending, step),
                DiskLookup::Miss => fetch_post(old(self)@, final(self)@, pending, step),
                DiskLookup::Failed(text) => final(self)@ == old(self)@ && (step matches Step::Reply(
                    Err(Error::Other(m)),
                ) && m@ == "failed to get from FS cache"@ + ": "@ + text@),
            },
            final(self)@.maven.artifact_log.len() == old(self)@.maven.artifact_log.len() + (
            if lookup is Miss {
                1nat
            } else {
                0nat
            }),
    {
        match lookup {
            DiskLookup::Hit => self.serve(pending),
            DiskLookup::Miss => self.cache_file(pending),
            DiskLookup::Failed(text) => Step::Reply(
                Err(Error::Other(with_context("failed to get from FS cache", text.as_str()))),
            ),
        }
    }

    /// Asks the transport for the JAR of `pending`, to have it stored in
    /// the disk cache.
    pub fn cache_file(&mut self, pending: Pending) -> (step: Step<T::Artifact>)
        requires
            old(self).wf(),
        ensures
            final(self).wf(),
            fetch_post(old(self)@, final(self)@, pending, step),
    {
        let coords = MavenUrlCoords {
            group: pending.coords.group.clone(),
            name: pending.coords.name.clone(),
            path_version: pending.coords.path_version.clone(),
            file_version: pending.coords.file_version.clone(),
        };
        match self.maven.resolve_javadoc(coords) {
            Ok(artifact) => Step::Store(pending, artifact),
            Err(cause) => {
                let e = error_reply(cause);
                Step::Reply(Err(e))
            },
        }
    }

    /// Goes on after the downloaded JAR went into the disk cache.
    pub fn after_store(&mut self, pending: Pending, stored: DiskStore) -> (step: Step<
        T::Artifact,
    >)
        requires
            old(self).wf(),
        ensures
            final(self).wf(),
            match stored {
                DiskStore::Stored => serve_post(old(self)@, final(self)@, pending, step),
                DiskStore::InsertFailed(text) => final(self)@ == old(self)@ && (
                step matches Step::Reply(Err(Error::Other(m))) && m@
                    == "Failed to insert into FS cache"@ + ": "@ + text@),
                DiskStore::LookupFailed(text) => final(self)@ == old(self)@ && (
                step matches Step::Reply(Err(Error::Other(m))) && m@
                    == "Failed to get from FS cache"@ + ": "@ + text@),
            },
    {
        match stored {
            DiskStore::Stored => self.serve(pending),
            DiskStore::InsertFailed(text) => Step::Reply(
                Err(Error::Other(with_context("Failed to insert into FS cache", text.as_str()))),
            ),
            DiskStore::LookupFailed(text) => Step::Reply(
                Err(Error::Other(with_context("Failed to get from FS cache", text.as_str()))),
            ),
        }
    }

    /// Serves `pending` from memory, or asks for the bytes of its JAR.
    pub fn serve(&mut self, pending: Pending) -> (step: Step<T::Artifact>)
        requires
            old(self).wf(),
        ensures
            final(self).wf(),
            serve_post(old(self)@, final(self)@, pending, step),
    {
        let reply = match self.mem_cache.get(&pending.jar_path) {
            Some(fs) => Some(entry_reply(fs, pending.path.clone())),
            None => None,
        };
        match reply {
            Some(reply) => Step::Reply(reply),
            None => Step::ReadArchive(pending),
        }
    }

    /// Goes on with the bytes of the JAR: decompresses them into memory,
    /// which may make older JARs leave it, and replies with the entry.
    pub fn after_read(&mut self, pending: Pending, read: ArchiveRead) -> (step: Step<T::Artifact>)
        requires
            old(self).wf(),
        ensures
            final(self).wf(),
            final(self)@.maven == old(self)@.maven,
            final(self)@.capacity == old(self)@.capacity,
            match read {
                ArchiveRead::Failed(text) => final(self)@ == old(self)@ && step
                    == Step::<T::Artifact>::Reply(Err(Error::Io(text))),
                ArchiveRead::Read(archive) => match zip_listing(archive@) {
                    Some(listing) if all_readable(listing) && total_len(
                        merged(entries_of(listing)),
                    ) <= usize::MAX => {
                        let files = merged(entries_of(listing));
                        if total_len(files) <= old(self)@.capacity {
                            &&& final(self)@.memory.len() > 0
                            &&& final(self)@.memory.last().1.files() == files
                            &&& final(self)@.memory.last().1.spec_size() == total_len(files)
                            &&& final(self)@.memory == added(
                                old(self)@.memory,
                                old(self)@.capacity,
                                pending.jar_path@,
                                final(self)@.memory.last().1,
                            )
                            &&& step matches Step::Reply(reply) && served(
                                crate::jar_manager::rimfs::files_map(files),
                                pending.path@,
                                reply,
                            )
                        } else {
                            final(self)@ == old(self)@ && step is Fatal
                        }
                    },
                    _ => final(self)@ == old(self)@ && step matches Step::Reply(
                        Err(Error::Io(_)),
                    ),
                },
            },
    {
        let archive = match read {
            ArchiveRead::Read(archive) => archive,
            ArchiveRead::Failed(text) => {
                return Step::Reply(Err(Error::Io(text)));
            },
        };
        let fs = match InMemoryFs::from_zip(archive) {
            Ok(fs) => fs,
            Err(e) => {
                return Step::Reply(Err(Error::Io(e.message())));
            },
        };
        let ghost held = fs;
        let ghost before = self.mem_cache@;
        match self.mem_cache.try_add(pending.jar_path.clone(), fs) {
            Some(_) => {
                return Step::Fatal(String::from_str("Value is bigger than cache size"));
            },
            None => {},
        }
        proof {
            let after = self.mem_cache@;
            assert(after.last() == (pending.jar_path@, held));
            assert(after[after.len() - 1].0 == pending.jar_path@);
            assert(has_key(after, pending.jar_path@));
            self.mem_cache.lemma_wf();
            let at = crate::jar_manager::special_cache::index_of(after, pending.jar_path@);
            assert(at == after.len() - 1);
            assert(after.remove(at) =~= after.drop_last());
            assert(touched(after, pending.jar_path@) =~= after);
        }
        let reply = match self.mem_cache.get(&pending.jar_path) {
            Some(fs) => entry_reply(fs, pending.path.clone()),
            None => Err(Error::NotFound),
        };
        Step::Reply(reply)
    }
}

/// The reply with the entry at `path` of `fs`.
pub fn entry_reply(fs: &InMemoryFs, path: String) -> (reply: Result<Bytes, Error>)
    ensures
        served(fs@, path@, reply),
{
    match fs.bytes(path) {
        Ok(blob) => Ok(blob),
        Err(_) => Err(Error::NotFound),
    }
}

} // verus!
