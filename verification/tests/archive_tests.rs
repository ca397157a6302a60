use aoe_archive::archive::{extract_7z, extract_tar_gz, extract_zip, ArchiveFiles};
use std::io::{Cursor, Write};

fn zip_bytes(files: &[(&str, &[u8])]) -> Vec<u8> {
    let mut w = zip::ZipWriter::new(Cursor::new(Vec::new()));
    for (name, data) in files {
        w.start_file(*name, zip::write::SimpleFileOptions::default()).unwrap();
        w.write_all(data).unwrap();
    }
    w.finish().unwrap().into_inner()
}

fn tar_gz_bytes(files: &[(&str, &[u8])]) -> Vec<u8> {
    let enc = flate2::write::GzEncoder::new(Vec::new(), flate2::Compression::default());
    let mut b = tar::Builder::new(enc);
    for (name, data) in files {
        let mut h = tar::Header::new_gnu();
        h.set_size(data.len() as u64);
        h.set_mode(0o644);
        h.set_cksum();
        b.append_data(&mut h, *name, *data).unwrap();
    }
    b.into_inner().unwrap().finish().unwrap()
}

fn sevenz_bytes(files: &[(&str, &[u8])]) -> Vec<u8> {
    let mut w = sevenz_rust2::ArchiveWriter::new(Cursor::new(Vec::new())).unwrap();
    for (name, data) in files {
        w.push_archive_entry(sevenz_rust2::ArchiveEntry::new_file(name), Some(*data)).unwrap();
    }
    w.finish().unwrap().into_inner()
}

fn as_pairs(files: &ArchiveFiles) -> Vec<(String, Vec<u8>)> {
    let mut v: Vec<(String, Vec<u8>)> = (0..files.len())
        .map(|i| {
            let f = files.get_index(i);
            (f.name.clone(), f.content.clone())
        })
        .collect();
    v.sort();
    v
}

#[test]
fn zip_round_trip() {
    let data = zip_bytes(&[("a.txt", b"hello"), ("dir/b.dll", b"\x00\x01\x02")]);
    let files = extract_zip(&data).unwrap();
    assert_eq!(files.len(), 2);
    assert_eq!(
        as_pairs(&files),
        vec![("a.txt".to_string(), b"hello".to_vec()), ("dir/b.dll".to_string(), vec![0, 1, 2])]
    );
}

#[test]
fn zip_garbage_is_refused() {
    let err = extract_zip(b"not a zip archive").err().unwrap();
    assert!(!err.message.is_empty());
}

#[test]
fn tar_gz_round_trip() {
    let data = tar_gz_bytes(&[("launcher/config.toml", b"x = 1"), ("server/bin/genCert.exe", b"MZ")]);
    let files = extract_tar_gz(&data).unwrap();
    assert_eq!(
        as_pairs(&files),
        vec![
            ("launcher/config.toml".to_string(), b"x = 1".to_vec()),
            ("server/bin/genCert.exe".to_string(), b"MZ".to_vec()),
        ]
    );
}

#[test]
fn tar_gz_later_entry_replaces_earlier() {
    let data = tar_gz_bytes(&[("f", b"old"), ("g", b"x"), ("f", b"new")]);
    let files = extract_tar_gz(&data).unwrap();
    assert_eq!(files.len(), 2);
    assert_eq!(as_pairs(&files), vec![("f".to_string(), b"new".to_vec()), ("g".to_string(), b"x".to_vec())]);
}

#[test]
fn tar_gz_garbage_is_refused() {
    assert!(extract_tar_gz(b"definitely not gzip").is_err());
}

#[test]
fn sevenz_round_trip() {
    let data = sevenz_bytes(&[
        ("release/steamclient_experimental/steamclient.dll", b"dll"),
        ("readme.txt", b"read me"),
    ]);
    let files = extract_7z(&data).unwrap();
    assert_eq!(
        as_pairs(&files),
        vec![
            ("readme.txt".to_string(), b"read me".to_vec()),
            ("release/steamclient_experimental/steamclient.dll".to_string(), b"dll".to_vec()),
        ]
    );
}

#[test]
fn sevenz_garbage_is_refused() {
    assert!(extract_7z(b"7z? no").is_err());
}

#[test]
fn files_replace_by_name() {
    let mut f = ArchiveFiles::new();
    f.insert("a".to_string(), vec![1]);
    f.insert("b".to_string(), vec![2]);
    f.insert("a".to_string(), vec![3]);
    assert_eq!(f.len(), 2);
    assert_eq!(as_pairs(&f), vec![("a".to_string(), vec![3]), ("b".to_string(), vec![2])]);
}
