use std::io::{Read, Write};

use archsum::{Compressor, Container, FileFormat, Opts, PathFilter};

const HI_MD5: &str = "49F68A5C8493EC2C0BF489821C21FC3B";

fn opts() -> Opts {
    Opts {
        regex: None,
        hash: checksums::Algorithm::MD5,
        lower: false,
        escaped: false,
        format: None,
        size: 0,
        target: None,
    }
}

fn tar_of(entries: &[(&str, Option<&[u8]>)]) -> Vec<u8> {
    let mut b = tar::Builder::new(Vec::new());
    for (path, content) in entries {
        let mut h = tar::Header::new_gnu();
        match content {
            None => {
                h.set_entry_type(tar::EntryType::Directory);
                h.set_size(0);
                h.set_mode(0o755);
                b.append_data(&mut h, path, &[][..]).unwrap();
            }
            Some(data) => {
                h.set_size(data.len() as u64);
                h.set_mode(0o644);
                b.append_data(&mut h, path, *data).unwrap();
            }
        }
    }
    b.into_inner().unwrap()
}

fn line_of<R: Read>(o: &Opts, is_dir: bool, path: &[u8], size: u64, content: &mut R) -> Option<String> {
    if o.selects(is_dir, path) {
        let raw = checksums::hash_reader(content, o.hash);
        Some(o.entry_line(path, size, raw))
    } else {
        None
    }
}

fn list_tar<R: Read>(r: R, o: &Opts) -> Vec<String> {
    let mut out = Vec::new();
    let mut arc = tar::Archive::new(r);
    for e in arc.entries().unwrap() {
        let mut e = e.unwrap();
        let is_dir = e.header().entry_type() == tar::EntryType::Directory;
        let path = e.path_bytes().into_owned();
        let size = e.size();
        if let Some(l) = line_of(o, is_dir, &path, size, &mut e) {
            out.push(l);
        }
    }
    out
}

fn list(fmt: FileFormat, data: &[u8], o: &Opts) -> Vec<String> {
    assert_eq!(fmt.container(), Container::Tar);
    match fmt.compressor() {
        None => list_tar(data, o),
        Some(Compressor::Gz) => list_tar(flate2::read::GzDecoder::new(data), o),
        Some(Compressor::Xz) => list_tar(xz2::read::XzDecoder::new(data), o),
        Some(Compressor::Bz2) => list_tar(bzip2::read::BzDecoder::new(data), o),
    }
}

#[test]
fn directories_are_not_listed() {
    let t = tar_of(&[("d/", None), ("d/f.txt", Some(b"hi"))]);
    let lines = list(FileFormat::Tar, &t, &opts());
    assert_eq!(lines, vec![format!("d/f.txt {}", HI_MD5)]);
    assert!(!opts().selects(true, b"d/"));
}

#[test]
fn regex_filter_keeps_matching_paths() {
    let t = tar_of(&[("a.txt", Some(b"hi")), ("b.log", Some(b"hi"))]);
    let mut o = opts();
    o.regex = Some(PathFilter::new(r"\.txt$").unwrap());
    let first = list(FileFormat::Tar, &t, &o);
    assert_eq!(first, vec![format!("a.txt {}", HI_MD5)]);
    assert_eq!(list(FileFormat::Tar, &t, &o), first);
    let all = list(FileFormat::Tar, &t, &opts());
    assert_eq!(all, vec![format!("a.txt {}", HI_MD5), format!("b.log {}", HI_MD5)]);
}

#[test]
fn filter_works_on_raw_bytes() {
    let f = PathFilter::new(r"(?-u)\xff").unwrap();
    assert!(f.path_matches(b"a\xffb"));
    assert!(!f.path_matches(b"abc"));
    assert!(PathFilter::new("(").is_err());
    assert!(PathFilter::new("[").is_err());
    assert!(PathFilter::new("").is_ok());
}

#[test]
fn digest_case_and_determinism() {
    let mut o = opts();
    o.lower = true;
    let raw = || checksums::hash_reader(&mut &b"hi"[..], checksums::Algorithm::MD5);
    let a = o.entry_line(b"hi.txt", 2, raw());
    let b = o.entry_line(b"hi.txt", 2, raw());
    assert_eq!(a, "hi.txt 49f68a5c8493ec2c0bf489821c21fc3b");
    assert_eq!(a, b);
    o.lower = false;
    assert_eq!(o.entry_line(b"hi.txt", 2, raw()), format!("hi.txt {}", HI_MD5));
}

#[test]
fn compressed_tars_round_trip() {
    let payload: Vec<u8> = (0..5000u32).map(|i| (i * 7 % 251) as u8).collect();
    let t = tar_of(&[("p.bin", Some(&payload))]);
    let mut o = opts();
    o.size = 1;
    let direct = checksums::hash_reader(&mut &payload[..], checksums::Algorithm::MD5);
    let expected = vec![format!("p.bin {} 5000", direct)];

    let mut gz = flate2::write::GzEncoder::new(Vec::new(), flate2::Compression::default());
    gz.write_all(&t).unwrap();
    let gz = gz.finish().unwrap();
    assert_eq!(list(FileFormat::TarGz, &gz, &o), expected);

    let mut xz = xz2::write::XzEncoder::new(Vec::new(), 6);
    xz.write_all(&t).unwrap();
    let xz = xz.finish().unwrap();
    assert_eq!(list(FileFormat::TarXz, &xz, &o), expected);

    let mut bz = bzip2::write::BzEncoder::new(Vec::new(), bzip2::Compression::default());
    bz.write_all(&t).unwrap();
    let bz = bz.finish().unwrap();
    assert_eq!(list(FileFormat::TarBz2, &bz, &o), expected);

    assert_eq!(list(FileFormat::Tar, &t, &o), expected);
}

#[test]
fn zip_stream_entries() {
    let mut w = zip::ZipWriter::new(std::io::Cursor::new(Vec::new()));
    let fo = zip::write::FileOptions::default();
    w.add_directory("d/", fo).unwrap();
    w.start_file("d/f.txt", fo).unwrap();
    w.write_all(b"hi").unwrap();
    let data = w.finish().unwrap().into_inner();

    let o = opts();
    let mut reader = &data[..];
    let mut lines = Vec::new();
    while let Some(mut f) = zip::read::read_zipfile_from_stream(&mut reader).unwrap() {
        let path = f.name_raw().to_vec();
        let (is_dir, size) = (f.is_dir(), f.size());
        if let Some(l) = line_of(&o, is_dir, &path, size, &mut f) {
            lines.push(l);
        }
    }
    assert_eq!(lines, vec![format!("d/f.txt {}", HI_MD5)]);
}

#[test]
fn entry_lines_with_sizes_and_escapes() {
    let mut o = opts();
    o.escaped = true;
    o.size = 2;
    assert_eq!(o.entry_line(b"x\xff", 2048, "AB".to_string()), "x\\xff AB 2.0 kiB");
    o.escaped = false;
    o.size = 1;
    assert_eq!(o.entry_line(b"x\xff", 2048, "AB".to_string()), "x\u{FFFD} AB 2048");
}
