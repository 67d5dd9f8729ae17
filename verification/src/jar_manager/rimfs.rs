//! A JAR held in memory: every entry decompressed, looked up by name.

use crate::jar_manager::special_cache::RuntimeSized;
use bytes::Bytes;
use std::io::Cursor;
use std::io::Read;
use vstd::prelude::*;
use zip::result::ZipError;
use zip::ZipArchive;

verus! {

/// `bytes::Bytes`, a reference-counted slice of bytes that is cheap to clone.
#[verifier::external_type_specification]
#[verifier::external_body]
pub struct ExBytes(bytes::Bytes);

/// `std::io::Cursor`, which lets a buffer be read like a file.
#[verifier::external_type_specification]
#[verifier::external_body]
#[verifier::reject_recursive_types(T)]
pub struct ExCursor<T>(std::io::Cursor<T>);

/// `zip::ZipArchive`, an archive whose directory has been read.
#[verifier::external_type_specification]
#[verifier::external_body]
#[verifier::reject_recursive_types(R)]
pub struct ExZipArchive<R>(zip::ZipArchive<R>);

/// `zip::result::ZipError`, why an archive or an entry could not be read.
#[verifier::external_type_specification]
#[verifier::external_body]
pub struct ExZipError(zip::result::ZipError);

/// The bytes that a `Bytes` value holds.
pub uninterp spec fn blob_bytes(blob: Bytes) -> Seq<u8>;

/// What `zip` reads out of the bytes of an archive: `None` where it finds
/// no archive in them, else, for each entry of the directory in order, the
/// entry's name and decompressed payload, or `None` for an entry that it
/// cannot read.
pub uninterp spec fn zip_listing(archive: Seq<u8>) -> Option<Seq<Option<(Seq<char>, Seq<u8>)>>>;

/// The same for an open archive.
pub uninterp spec fn archive_entries(archive: ZipArchive<Cursor<Vec<u8>>>) -> Seq<
    Option<(Seq<char>, Seq<u8>)>,
>;

/// `Bytes::from(Vec<u8>)`: the buffer takes the vector's allocation over, so
/// it holds the vector's bytes in the same order.
#[verifier::external_body]
fn blob_from_vec(data: Vec<u8>) -> (blob: Bytes)
    ensures
        blob_bytes(blob) == data@,
{
    Bytes::from(data)
}

/// `Bytes::clone`: a second handle on the same bytes.
#[verifier::external_body]
fn blob_share(blob: &Bytes) -> (shared: Bytes)
    ensures
        blob_bytes(shared) == blob_bytes(*blob),
{
    blob.clone()
}

/// `Bytes::len`: the number of bytes held.
pub assume_specification[ Bytes::len ](blob: &Bytes) -> (n: usize)
    ensures
        n == blob_bytes(*blob).len(),
;

/// `ZipArchive::new` on a cursor over `data`: it reads the directory at the
/// end of the bytes and fails where there is none.
#[verifier::external_body]
fn open_archive(data: Vec<u8>) -> (r: Result<ZipArchive<Cursor<Vec<u8>>>, ZipError>)
    ensures
        match r {
            Ok(archive) => zip_listing(data@) == Some(archive_entries(archive)),
            Err(_) => zip_listing(data@) is None,
        },
{
    ZipArchive::new(Cursor::new(data))
}

/// `ZipArchive::len`: the number of entries in the directory.
#[verifier::external_body]
fn archive_len(archive: &ZipArchive<Cursor<Vec<u8>>>) -> (n: usize)
    ensures
        n == archive_entries(*archive).len(),
{
    archive.len()
}

/// `ZipArchive::by_index`, then `ZipFile::name` and all of the entry read
/// to its end. Reading moves the cursor and leaves the archive as it is.
#[verifier::external_body]
fn read_entry(archive: &mut ZipArchive<Cursor<Vec<u8>>>, index: usize) -> (r: Result<
    (String, Vec<u8>),
    ZipError,
>)
    requires
        index < archive_entries(*old(archive)).len(),
    ensures
        archive_entries(*final(archive)) == archive_entries(*old(archive)),
        match r {
            Ok(entry) => archive_entries(*old(archive))[index as int] == Some(
                (entry.0@, entry.1@),
            ),
            Err(_) => archive_entries(*old(archive))[index as int] is None,
        },
{
    let mut file = archive.by_index(index)?;
    let name = file.name()?.into_owned();
    let mut data = Vec::new();
    file.read_to_end(&mut data)?;
    Ok((name, data))
}

/// The `Display` text of a `ZipError`.
#[verifier::external_body]
fn describe(error: &ZipError) -> (text: String) {
    format!("{}", error)
}

/// Why an archive could not be held in memory, or a file not be found in it.
#[derive(Debug)]
pub enum Error {
    /// No entry has this name.
    NotFound(String),
    /// The bytes are no archive that can be read.
    BadArchive(String),
    /// The entry at this index cannot be read.
    BadEntry(usize, String),
    /// The decompressed entries are larger than memory.
    TooLarge,
}

impl Error {
    /// What the error reads as.
    pub open spec fn text(&self) -> Seq<char> {
        match self {
            Error::NotFound(name) => "file "@ + name@ + " not found"@,
            Error::BadArchive(text) => text@,
            Error::BadEntry(_, text) => text@,
            Error::TooLarge => "archive too large for memory"@,
        }
    }

    /// What the error reads as.
    pub fn message(&self) -> (text: String)
        ensures
            text@ == self.text(),
    {
        match self {
            Error::NotFound(name) => {
                let mut text = String::from_str("file ");
                text.append(name.as_str());
                text.append(" not found");
                text
            },
            Error::BadArchive(text) => text.clone(),
            Error::BadEntry(_, text) => text.clone(),
            Error::TooLarge => String::from_str("archive too large for memory"),
        }
    }
}

/// Some file of `files` has the name.
pub open spec fn has_file(files: Seq<(Seq<char>, Seq<u8>)>, name: Seq<char>) -> bool {
    exists|i: int| 0 <= i < files.len() && #[trigger] files[i].0 == name
}

/// No two files have the same name.
pub open spec fn names_distinct(files: Seq<(Seq<char>, Seq<u8>)>) -> bool {
    forall|i: int, j: int| 0 <= i < j < files.len() ==> files[i].0 != files[j].0
}

/// The index of a file with the name.
pub open spec fn position_of(files: Seq<(Seq<char>, Seq<u8>)>, name: Seq<char>) -> int {
    choose|i: int| 0 <= i < files.len() && #[trigger] files[i].0 == name
}

/// `files` with the payload under `name` set to `payload`: in place where
/// the name was there, at the end where it was not.
pub open spec fn put(files: Seq<(Seq<char>, Seq<u8>)>, name: Seq<char>, payload: Seq<u8>) -> Seq<
    (Seq<char>, Seq<u8>),
> {
    if has_file(files, name) {
        files.update(position_of(files, name), (name, payload))
    } else {
        files.push((name, payload))
    }
}

/// The files that the entries of an archive make: a later entry takes the
/// place of an earlier one of the same name.
pub open spec fn merged(entries: Seq<(Seq<char>, Seq<u8>)>) -> Seq<(Seq<char>, Seq<u8>)>
    decreases entries.len(),
{
    if entries.len() == 0 {
        Seq::empty()
    } else {
        put(merged(entries.drop_last()), entries.last().0, entries.last().1)
    }
}

/// The sum of the lengths of the payloads.
pub open spec fn total_len(files: Seq<(Seq<char>, Seq<u8>)>) -> nat
    decreases files.len(),
{
    if files.len() == 0 {
        0
    } else {
        total_len(files.drop_last()) + files.last().1.len()
    }
}

/// The payload by name.
pub open spec fn files_map(files: Seq<(Seq<char>, Seq<u8>)>) -> Map<Seq<char>, Seq<u8>> {
    Map::new(
        |name: Seq<char>| has_file(files, name),
        |name: Seq<char>| files[position_of(files, name)].1,
    )
}

/// Every entry of a listing could be read.
pub open spec fn all_readable(listing: Seq<Option<(Seq<char>, Seq<u8>)>>) -> bool {
    forall|i: int| 0 <= i < listing.len() ==> #[trigger] listing[i] is Some
}

/// The entries of a listing.
pub open spec fn entries_of(listing: Seq<Option<(Seq<char>, Seq<u8>)>>) -> Seq<
    (Seq<char>, Seq<u8>),
> {
    listing.map_values(|entry: Option<(Seq<char>, Seq<u8>)>| entry->0)
}

/// Putting a file keeps the names distinct.
pub proof fn lemma_put_keeps_distinct(
    files: Seq<(Seq<char>, Seq<u8>)>,
    name: Seq<char>,
    payload: Seq<u8>,
)
    requires
        names_distinct(files),
    ensures
        names_distinct(put(files, name, payload)),
        has_file(put(files, name, payload), name),
        files_map(put(files, name, payload)) == files_map(files).insert(name, payload),
{
    let after = put(files, name, payload);
    let at = if has_file(files, name) {
        position_of(files, name)
    } else {
        files.len() as int
    };
    assert(after[at].0 == name);
    assert forall|i: int, j: int| 0 <= i < j < after.len() implies after[i].0 != after[j].0 by {
        if has_file(files, name) {
            assert(after[i].0 == files[i].0);
            assert(after[j].0 == files[j].0);
        } else {
            if j == at {
                assert(files[i].0 != name);
            }
        }
    }
    assert forall|n: Seq<char>| has_file(after, n) == (n == name || has_file(files, n)) by {
        if has_file(after, n) && n != name {
            let i = position_of(after, n);
            assert(files[i].0 == n);
        }
        if has_file(files, n) && n != name {
            let i = position_of(files, n);
            assert(after[i].0 == n);
        }
    }
    assert forall|n: Seq<char>| has_file(after, n) implies #[trigger] files_map(after)[n]
        == files_map(files).insert(name, payload)[n] by {
        let i = position_of(after, n);
        if n == name {
            assert(i == at);
        } else {
            assert(files[i].0 == n);
            let i0 = position_of(files, n);
            assert(i0 == i);
        }
    }
    assert(files_map(after) =~= files_map(files).insert(name, payload));
}

/// The files of an archive have distinct names.
pub proof fn lemma_merged_is_distinct(entries: Seq<(Seq<char>, Seq<u8>)>)
    ensures
        names_distinct(merged(entries)),
    decreases entries.len(),
{
    if entries.len() > 0 {
        lemma_merged_is_distinct(entries.drop_last());
        lemma_put_keeps_distinct(
            merged(entries.drop_last()),
            entries.last().0,
            entries.last().1,
        );
    }
}

/// Entries with distinct names come back as they went in: each name gives
/// the payload that was stored with it.
pub proof fn law_stored_is_found(entries: Seq<(Seq<char>, Seq<u8>)>, i: int)
    requires
        names_distinct(entries),
        0 <= i < entries.len(),
    ensures
        files_map(merged(entries)).contains_key(entries[i].0),
        files_map(merged(entries))[entries[i].0] == entries[i].1,
    decreases entries.len(),
{
    let before = entries.drop_last();
    lemma_merged_is_distinct(before);
    lemma_put_keeps_distinct(merged(before), entries.last().0, entries.last().1);
    if i < entries.len() - 1 {
        law_stored_is_found(before, i);
        assert(before[i] == entries[i]);
        assert(entries[i].0 != entries.last().0);
    }
}

/// The decompressed entries of a JAR, by name. It does not change once it
/// is made.
pub struct InMemoryFs {
    size: usize,
    data: Vec<(String, Bytes)>,
}

impl InMemoryFs {
    #[verifier::type_invariant]
    spec fn inv(self) -> bool {
        names_distinct(self.files()) && self.size == total_len(self.files())
    }

    /// The files held, each with its name and payload, under distinct names.
    pub closed spec fn files(self) -> Seq<(Seq<char>, Seq<u8>)> {
        self.data@.map_values(|e: (String, Bytes)| (e.0@, blob_bytes(e.1)))
    }

    /// The payload by name.
    pub open spec fn view(&self) -> Map<Seq<char>, Seq<u8>> {
        files_map(self.files())
    }

    /// Reads every entry of the archive in `archive` into memory.
    pub fn from_zip(archive: Vec<u8>) -> (r: Result<InMemoryFs, Error>)
        ensures
            match zip_listing(archive@) {
                None => r matches Err(Error::BadArchive(_)),
                Some(listing) => if !all_readable(listing) {
                    r matches Err(Error::BadEntry(i, _)) && i < listing.len()
                        && listing[i as int] is None
                } else if total_len(merged(entries_of(listing))) > usize::MAX {
                    r matches Err(Error::TooLarge)
                } else {
                    r matches Ok(fs) && fs.files() == merged(entries_of(listing))
                },
            },
    {
        let mut zip_ar = match open_archive(archive) {
            Ok(zip_ar) => zip_ar,
            Err(e) => {
                return Err(Error::BadArchive(describe(&e)));
            },
        };
        let ghost listing = archive_entries(zip_ar);
        let count = archive_len(&zip_ar);
        let mut data: Vec<(String, Bytes)> = Vec::new();
        let mut i: usize = 0;
        while i < count
            invariant
                i <= count == listing.len(),
                archive_entries(zip_ar) == listing,
                zip_listing(archive@) == Some(listing),
                forall|j: int| 0 <= j < i ==> #[trigger] listing[j] is Some,
                files_of(data@) == merged(entries_of(listing).take(i as int)),
            decreases count - i,
        {
            let (name, payload) = match read_entry(&mut zip_ar, i) {
                Ok(entry) => entry,
                Err(e) => {
                    return Err(Error::BadEntry(i, describe(&e)));
                },
            };
            proof {
                let entries = entries_of(listing);
                assert(entries.take(i + 1).drop_last() =~= entries.take(i as int));
                assert(entries.take(i + 1).last() == (name@, payload@));
                lemma_merged_is_distinct(entries.take(i as int));
            }
            store(&mut data, name, blob_from_vec(payload));
            i += 1;
        }
        proof {
            assert(entries_of(listing).take(i as int) =~= entries_of(listing));
            lemma_merged_is_distinct(entries_of(listing));
        }
        let mut size: usize = 0;
        let mut k: usize = 0;
        while k < data.len()
            invariant
                k <= data@.len(),
                size == total_len(files_of(data@).take(k as int)),
                all_readable(listing),
                zip_listing(archive@) == Some(listing),
                files_of(data@) == merged(entries_of(listing)),
            decreases data@.len() - k,
        {
            proof {
                let files = files_of(data@);
                assert(files.take(k + 1).drop_last() =~= files.take(k as int));
                lemma_total_len_grows(files, k + 1);
            }
            size = match size.checked_add(data[k].1.len()) {
                Some(sum) => sum,
                None => {
                    return Err(Error::TooLarge);
                },
            };
            k += 1;
        }
        proof {
            assert(files_of(data@).take(k as int) =~= files_of(data@));
        }
        Ok(InMemoryFs { size, data })
    }

    /// The payload of the file named `path`, shared and not copied.
    pub fn bytes(&self, path: String) -> (r: Result<Bytes, Error>)
        ensures
            match r {
                Ok(blob) => self@.contains_key(path@) && blob_bytes(blob) == self@[path@],
                Err(e) => !self@.contains_key(path@) && e == Error::NotFound(path),
            },
    {
        proof {
            use_type_invariant(self);
        }
        match find(&self.data, path.as_str()) {
            Some(i) => {
                assert(self.files()[i as int].0 == path@);
                assert(position_of(self.files(), path@) == i);
                Ok(blob_share(&self.data[i].1))
            },
            None => Err(Error::NotFound(path)),
        }
    }

    /// The number of bytes that the payloads take together.
    pub open spec fn spec_size(&self) -> nat {
        total_len(self.files())
    }
}

impl RuntimeSized for InMemoryFs {
    open spec fn size_spec(&self) -> nat {
        self.spec_size()
    }

    /// The sum of the lengths of the decompressed payloads.
    fn size(&self) -> (n: usize) {
        proof {
            use_type_invariant(self);
        }
        self.size
    }
}

/// The files that stored entries stand for.
spec fn files_of(data: Seq<(String, Bytes)>) -> Seq<(Seq<char>, Seq<u8>)> {
    data.map_values(|e: (String, Bytes)| (e.0@, blob_bytes(e.1)))
}

/// The sum over a longer part is the sum over a shorter part and more.
proof fn lemma_total_len_grows(files: Seq<(Seq<char>, Seq<u8>)>, k: int)
    requires
        0 <= k <= files.len(),
    ensures
        total_len(files.take(k)) <= total_len(files),
    decreases files.len() - k,
{
    if k < files.len() {
        lemma_total_len_grows(files, k + 1);
        assert(files.take(k + 1).drop_last() =~= files.take(k));
    } else {
        assert(files.take(k) =~= files);
    }
}

/// The index of the entry named `name`.
fn find(data: &Vec<(String, Bytes)>, name: &str) -> (found: Option<usize>)
    ensures
        found matches Some(i) ==> i < data@.len() && data@[i as int].0@ == name@,
        found is None ==> !has_file(files_of(data@), name@),
{
    let mut i: usize = 0;
    while i < data.len()
        invariant
            i <= data@.len(),
            forall|j: int| 0 <= j < i ==> data@[j].0@ != name@,
        decreases data@.len() - i,
    {
        if crate::text::str_eq(data[i].0.as_str(), name) {
            return Some(i);
        }
        i += 1;
    }
    assert(!has_file(files_of(data@), name@)) by {
        if has_file(files_of(data@), name@) {
            let j = position_of(files_of(data@), name@);
            assert(data@[j].0@ == name@);
        }
    }
    None
}

/// Stores `blob` under `name`, in place of what was there.
fn store(data: &mut Vec<(String, Bytes)>, name: String, blob: Bytes)
    requires
        names_distinct(files_of(old(data)@)),
    ensures
        files_of(final(data)@) == put(files_of(old(data)@), name@, blob_bytes(blob)),
{
    let ghost before = files_of(data@);
    match find(data, name.as_str()) {
        Some(i) => {
            proof {
                assert(before[i as int].0 == name@);
                assert(position_of(before, name@) == i);
            }
            data.set(i, (name, blob));
            assert(files_of(data@) =~= put(before, name@, blob_bytes(blob)));
        },
        None => {
            data.push((name, blob));
            assert(files_of(data@) =~= put(before, name@, blob_bytes(blob)));
        },
    }
}

/// Reads a buffer piece by piece, from its start to its end.
pub struct Reader<'a> {
    file_data: &'a Vec<u8>,
    offset: usize,
}

impl<'a> Reader<'a> {
    #[verifier::type_invariant]
    spec fn inv(self) -> bool {
        self.offset <= self.file_data@.len()
    }

    /// The bytes being read.
    pub closed spec fn data(self) -> Seq<u8> {
        self.file_data@
    }

    /// The number of bytes read so far.
    pub closed spec fn position(self) -> nat {
        self.offset as nat
    }

    /// A reader at the start of `file_data`.
    pub fn new(file_data: &'a Vec<u8>) -> (reader: Reader<'a>)
        ensures
            reader.data() == file_data@,
            reader.position() == 0,
    {
        Reader { file_data, offset: 0 }
    }

    /// Copies the next bytes into the front of `buf`, as many as are left
    /// and fit, and says how many they were.
    pub fn read(&mut self, buf: &mut [u8]) -> (n: usize)
        ensures
            final(self).data() == old(self).data(),
            old(self).position() <= old(self).data().len(),
            n == vstd::math::min(
                old(self).data().len() - old(self).position(),
                old(buf)@.len() as int,
            ),
            final(self).position() == old(self).position() + n,
            final(buf)@ == old(self).data().subrange(
                old(self).position() as int,
                old(self).position() + n,
            ) + old(buf)@.skip(n as int),
    {
        proof {
            use_type_invariant(&*self);
        }
        let remaining: usize = self.file_data.len() - self.offset;
        let len: usize = if remaining < buf.len() {
            remaining
        } else {
            buf.len()
        };
        let start: usize = self.offset;
        let mut i: usize = 0;
        while i < len
            invariant
                i <= len <= buf@.len(),
                buf@.len() == old(buf)@.len(),
                start + len <= self.file_data@.len() <= usize::MAX,
                self.file_data@ == old(self).data(),
                start == old(self).position(),
                forall|j: int| 0 <= j < i ==> buf@[j] == self.file_data@[start + j],
                forall|j: int| i <= j < buf@.len() ==> buf@[j] == old(buf)@[j],
            decreases len - i,
        {
            buf[i] = self.file_data[start + i];
            i += 1;
        }
        self.offset = start + len;
        assert(buf@ =~= self.file_data@.subrange(start as int, start + len) + old(buf)@.skip(
            len as int,
        ));
        len
    }
}

} // verus!
