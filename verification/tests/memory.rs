use byte_unit::Byte;
use glovebox::jar_manager::rimfs::{Error, InMemoryFs, Reader};
use glovebox::jar_manager::special_cache::{RuntimeSized, SpecialCache};
use std::io::{Cursor, Write};
use zip::write::SimpleFileOptions;
use zip::{CompressionMethod, ZipWriter};

const KIB: usize = 1024;

fn jar(entries: &[(&str, &[u8])]) -> Vec<u8> {
    let mut writer = ZipWriter::new(Cursor::new(Vec::new()));
    for (name, data) in entries {
        writer.start_file(name.to_string(), SimpleFileOptions::default()).unwrap();
        writer.write_all(data).unwrap();
    }
    writer.finish().unwrap().into_inner()
}

fn fs_of_size(size: usize) -> InMemoryFs {
    let data: Vec<u8> = (0..size).map(|i| (i % 251) as u8).collect();
    InMemoryFs::from_zip(jar(&[("blob.bin", &data)])).unwrap()
}

fn key(name: &str) -> String {
    String::from(name)
}

#[test]
fn every_entry_comes_back_as_it_went_in() {
    let big: Vec<u8> = (0..100_000usize).map(|i| (i * 7 % 256) as u8).collect();
    let entries: Vec<(&str, &[u8])> = vec![
        ("index.html", b"<html>OK</html>"),
        ("org/example/Lib.html", b"<html>Lib</html>"),
        ("script.js", b"console.log(1)"),
        ("empty.txt", b""),
        ("big.bin", &big),
    ];
    let fs = InMemoryFs::from_zip(jar(&entries)).unwrap();
    for (name, data) in &entries {
        assert_eq!(&fs.bytes(name.to_string()).unwrap()[..], *data);
    }
    assert_eq!(fs.size(), 15 + 16 + 14 + 100_000);
}

#[test]
fn stored_entries_come_back_too() {
    let mut writer = ZipWriter::new(Cursor::new(Vec::new()));
    let options = SimpleFileOptions::default().compression_method(CompressionMethod::Stored);
    writer.start_file("a.txt", options).unwrap();
    writer.write_all(b"plain").unwrap();
    let bytes = writer.finish().unwrap().into_inner();
    let fs = InMemoryFs::from_zip(bytes).unwrap();
    assert_eq!(&fs.bytes(String::from("a.txt")).unwrap()[..], b"plain");
    assert_eq!(fs.size(), 5);
}

#[test]
fn size_is_of_the_decompressed_entries() {
    let zeros = vec![0u8; 50_000];
    let archive = jar(&[("zeros.bin", &zeros)]);
    assert!(archive.len() < 5_000);
    let fs = InMemoryFs::from_zip(archive).unwrap();
    assert_eq!(fs.size(), 50_000);
}

#[test]
fn empty_archive_is_an_empty_filesystem() {
    let fs = InMemoryFs::from_zip(jar(&[])).unwrap();
    assert_eq!(fs.size(), 0);
    assert!(matches!(fs.bytes(String::from("index.html")), Err(Error::NotFound(_))));
}

#[test]
fn directories_are_kept_with_empty_payloads() {
    let mut writer = ZipWriter::new(Cursor::new(Vec::new()));
    writer.add_directory("docs/", SimpleFileOptions::default()).unwrap();
    writer.start_file("docs/index.html", SimpleFileOptions::default()).unwrap();
    writer.write_all(b"hi").unwrap();
    let fs = InMemoryFs::from_zip(writer.finish().unwrap().into_inner()).unwrap();
    assert_eq!(fs.size(), 2);
    assert_eq!(fs.bytes(String::from("docs/")).unwrap().len(), 0);
    assert_eq!(&fs.bytes(String::from("docs/index.html")).unwrap()[..], b"hi");
    assert!(matches!(fs.bytes(String::from("docs")), Err(Error::NotFound(_))));
}

#[test]
fn missing_entry_is_not_found() {
    let fs = InMemoryFs::from_zip(jar(&[("index.html", b"x")])).unwrap();
    match fs.bytes(String::from("does/not/exist.html")) {
        Err(Error::NotFound(name)) => assert_eq!(name, "does/not/exist.html"),
        _ => panic!("the entry is not there"),
    }
    assert!(matches!(fs.bytes(String::from("Index.html")), Err(Error::NotFound(_))));
    assert!(matches!(fs.bytes(String::new()), Err(Error::NotFound(_))));
}

#[test]
fn what_is_no_archive_is_refused() {
    assert!(matches!(InMemoryFs::from_zip(Vec::new()), Err(Error::BadArchive(_))));
    assert!(matches!(
        InMemoryFs::from_zip(b"this is no zip file at all".to_vec()),
        Err(Error::BadArchive(_))
    ));
    let mut cut = jar(&[("a", b"12345")]);
    cut.truncate(cut.len() - 10);
    assert!(matches!(InMemoryFs::from_zip(cut), Err(Error::BadArchive(_))));
}

#[test]
fn refusal_says_why() {
    match InMemoryFs::from_zip(b"this is no zip file at all".to_vec()) {
        Err(e) => {
            assert!(matches!(e, Error::BadArchive(_)));
            assert!(!e.message().is_empty());
        }
        Ok(_) => panic!("these bytes are no archive"),
    }
}

#[test]
fn damaged_entry_is_refused() {
    let mut writer = ZipWriter::new(Cursor::new(Vec::new()));
    let options = SimpleFileOptions::default().compression_method(CompressionMethod::Stored);
    writer.start_file("a.txt", options).unwrap();
    writer.write_all(b"hello, archive").unwrap();
    let mut bytes = writer.finish().unwrap().into_inner();
    let at = bytes.windows(5).position(|w| w == b"hello").unwrap();
    bytes[at] = b'j';
    match InMemoryFs::from_zip(bytes) {
        Err(Error::BadEntry(index, _)) => assert_eq!(index, 0),
        _ => panic!("the checksum does not match"),
    }
}

#[test]
fn filesystem_errors_read_as_text() {
    assert_eq!(Error::NotFound(String::from("a/b")).message(), "file a/b not found");
    assert_eq!(Error::BadArchive(String::from("bad")).message(), "bad");
    assert_eq!(Error::BadEntry(3, String::from("crc")).message(), "crc");
    assert_eq!(Error::TooLarge.message(), "archive too large for memory");
}

#[test]
fn blobs_are_shared_not_copied() {
    let fs = InMemoryFs::from_zip(jar(&[("a", b"abcdef")])).unwrap();
    let one = fs.bytes(String::from("a")).unwrap();
    let two = fs.bytes(String::from("a")).unwrap();
    assert_eq!(one.as_ptr(), two.as_ptr());
    assert_eq!(one, two);
}

#[test]
fn new_cache_is_empty() {
    let mut cache = SpecialCache::new(Byte::from_u64(100));
    assert_eq!(cache.size(), 0);
    assert_eq!(cache.len(), 0);
    assert!(cache.get(&key("a")).is_none());
}

#[test]
fn added_value_is_found() {
    let mut cache = SpecialCache::new(Byte::from_u64(1_000));
    cache.add(key("a"), fs_of_size(300));
    assert_eq!(cache.size(), 300);
    assert_eq!(cache.len(), 1);
    let found = cache.get(&key("a")).unwrap();
    assert_eq!(found.size(), 300);
    assert_eq!(found.bytes(key("blob.bin")).unwrap().len(), 300);
    assert!(cache.get(&key("b")).is_none());
}

#[test]
fn size_stays_within_capacity() {
    let mut cache = SpecialCache::new(Byte::from_u64(1_000));
    let sizes = [300usize, 300, 300, 300, 700, 1_000, 0, 1, 999, 500, 500, 500];
    for (i, size) in sizes.iter().enumerate() {
        cache.add(format!("k{}", i), fs_of_size(*size));
        assert!(cache.size() <= 1_000);
    }
    assert_eq!(cache.size(), 1_000);
    assert_eq!(cache.len(), 2);
}

#[test]
fn eviction_takes_the_least_recently_used() {
    let mut cache = SpecialCache::new(Byte::from_u64(100));
    cache.add(key("k1"), fs_of_size(40));
    cache.add(key("k2"), fs_of_size(40));
    assert!(cache.get(&key("k1")).is_some());
    cache.add(key("k3"), fs_of_size(40));
    assert_eq!(cache.len(), 2);
    assert!(cache.get(&key("k2")).is_none());
    assert!(cache.get(&key("k1")).is_some());
    assert!(cache.get(&key("k3")).is_some());
}

#[test]
fn eviction_without_use_takes_the_oldest() {
    let mut cache = SpecialCache::new(Byte::from_u64(100));
    cache.add(key("k1"), fs_of_size(40));
    cache.add(key("k2"), fs_of_size(40));
    cache.add(key("k3"), fs_of_size(40));
    assert!(cache.get(&key("k1")).is_none());
    assert!(cache.get(&key("k2")).is_some());
    assert!(cache.get(&key("k3")).is_some());
    assert_eq!(cache.size(), 80);
}

#[test]
fn sixty_kib_filesystems_in_a_hundred_kib() {
    let mut cache = SpecialCache::new(Byte::from_u64(100 * KIB as u64));
    cache.add(key("A"), fs_of_size(60 * KIB));
    cache.add(key("B"), fs_of_size(60 * KIB));
    assert_eq!(cache.len(), 1);
    assert!(cache.get(&key("A")).is_none());
    cache.add(key("C"), fs_of_size(60 * KIB));
    assert!(cache.get(&key("B")).is_none());
    assert!(cache.get(&key("C")).is_some());
    assert_eq!(cache.len(), 1);
    assert!(cache.size() <= 100 * KIB as u64);
    let mut cache = SpecialCache::new(Byte::from_u64(100 * KIB as u64));
    cache.add(key("A"), fs_of_size(40 * KIB));
    cache.add(key("B"), fs_of_size(60 * KIB));
    assert!(cache.get(&key("A")).is_some());
    cache.add(key("C"), fs_of_size(60 * KIB));
    assert!(cache.get(&key("B")).is_none());
    assert!(cache.get(&key("A")).is_some());
    assert!(cache.get(&key("C")).is_some());
    assert!(cache.size() <= 100 * KIB as u64);
    assert_eq!(cache.size(), 100 * KIB as u64);
}

#[test]
fn eviction_goes_on_until_the_value_fits() {
    let mut cache = SpecialCache::new(Byte::from_u64(100));
    cache.add(key("a"), fs_of_size(30));
    cache.add(key("b"), fs_of_size(30));
    cache.add(key("c"), fs_of_size(30));
    cache.add(key("d"), fs_of_size(90));
    assert_eq!(cache.len(), 1);
    assert_eq!(cache.size(), 90);
    assert!(cache.get(&key("d")).is_some());
    assert!(cache.get(&key("c")).is_none());
}

#[test]
fn value_of_the_whole_capacity_fits() {
    let mut cache = SpecialCache::new(Byte::from_u64(64));
    cache.add(key("a"), fs_of_size(10));
    cache.add(key("full"), fs_of_size(64));
    assert_eq!(cache.size(), 64);
    assert_eq!(cache.len(), 1);
    assert!(cache.get(&key("full")).is_some());
}

#[test]
fn same_key_again_replaces_the_value() {
    let mut cache = SpecialCache::new(Byte::from_u64(100));
    cache.add(key("a"), fs_of_size(30));
    cache.add(key("b"), fs_of_size(20));
    cache.add(key("a"), fs_of_size(50));
    assert_eq!(cache.len(), 2);
    assert_eq!(cache.size(), 70);
    assert_eq!(cache.get(&key("a")).unwrap().size(), 50);
    cache.add(key("c"), fs_of_size(40));
    assert!(cache.get(&key("b")).is_none());
    assert_eq!(cache.size(), 90);
}

#[test]
fn empty_values_take_no_room() {
    let mut cache = SpecialCache::new(Byte::from_u64(0));
    cache.add(key("a"), fs_of_size(0));
    cache.add(key("b"), fs_of_size(0));
    assert_eq!(cache.len(), 2);
    assert_eq!(cache.size(), 0);
    assert!(cache.get(&key("a")).is_some());
}

#[test]
fn too_large_a_value_is_handed_back() {
    let mut cache = SpecialCache::new(Byte::from_u64(100));
    cache.add(key("a"), fs_of_size(60));
    assert!(!cache.admits(&fs_of_size(101)));
    assert!(cache.admits(&fs_of_size(100)));
    let refused = cache.try_add(key("big"), fs_of_size(101));
    assert_eq!(refused.unwrap().size(), 101);
    assert_eq!(cache.len(), 1);
    assert_eq!(cache.size(), 60);
    assert!(cache.get(&key("a")).is_some());
    assert!(cache.try_add(key("ok"), fs_of_size(100)).is_none());
    assert_eq!(cache.size(), 100);
    assert!(cache.get(&key("a")).is_none());
}

#[test]
fn capacity_is_read_in_bytes() {
    let mut cache = SpecialCache::new(Byte::parse_str("1 KiB", true).unwrap());
    assert!(cache.admits(&fs_of_size(1024)));
    assert!(!cache.admits(&fs_of_size(1025)));
    cache.add(key("a"), fs_of_size(1024));
    assert_eq!(cache.size(), 1024);
}

#[test]
fn reader_hands_out_the_buffer_in_pieces() {
    let data: Vec<u8> = vec![1, 2, 3, 4, 5, 6, 7];
    let mut reader = Reader::new(&data);
    let mut buf = [0u8; 3];
    assert_eq!(reader.read(&mut buf), 3);
    assert_eq!(buf, [1, 2, 3]);
    assert_eq!(reader.read(&mut buf), 3);
    assert_eq!(buf, [4, 5, 6]);
    assert_eq!(reader.read(&mut buf), 1);
    assert_eq!(buf, [7, 5, 6]);
    assert_eq!(reader.read(&mut buf), 0);
    assert_eq!(buf, [7, 5, 6]);
}

#[test]
fn reader_with_room_to_spare() {
    let data: Vec<u8> = vec![9, 8];
    let mut reader = Reader::new(&data);
    let mut buf = [0u8; 5];
    assert_eq!(reader.read(&mut buf), 2);
    assert_eq!(buf, [9, 8, 0, 0, 0]);
    let mut none: [u8; 0] = [];
    assert_eq!(reader.read(&mut none), 0);
    let empty: Vec<u8> = Vec::new();
    let mut reader = Reader::new(&empty);
    assert_eq!(reader.read(&mut buf), 0);
    assert_eq!(buf, [9, 8, 0, 0, 0]);
}
