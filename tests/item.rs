use sscan::item::{File, RawDatum, Realization, ScanItem, UNKNOWN_FILENAME};
use sscan::queue::QueueError;

#[test]
fn raw_datum_keeps_name_and_content() {
    let d = RawDatum::new("payload", b"\x00\x01binary\xff");
    assert_eq!(d.dname, "payload");
    assert_eq!(d.content, b"\x00\x01binary\xff".to_vec());
}

#[test]
fn raw_datum_with_empty_content() {
    let d = RawDatum::new("", b"");
    assert_eq!(d.dname, "");
    assert!(d.content.is_empty());
}

#[test]
fn file_name_is_final_path_component() {
    let f = File::new("/var/data/sample.exe");
    assert_eq!(f.path, "/var/data/sample.exe");
    assert_eq!(f.name(), "sample.exe");
    assert_eq!(File::new("relative/dir/notes.txt").name(), "notes.txt");
}

#[test]
fn file_without_final_component_gets_sentinel_name() {
    assert_eq!(File::new("").name(), UNKNOWN_FILENAME);
    assert_eq!(File::new("/").name(), "<unknown filename>");
    assert_eq!(File::new("a/..").name(), "<unknown filename>");
}

#[test]
fn name_of_component() {
    assert_eq!(File::name_of(Some("x.bin".to_string())), "x.bin");
    assert_eq!(File::name_of(None), "<unknown filename>");
}

#[test]
fn raw_item_realizes_at_once() {
    let item = ScanItem::Raw(RawDatum::new("inline", b"data"));
    match item.realize() {
        Realization::Ready((name, path, content)) => {
            assert_eq!(name, "inline");
            assert_eq!(path, None);
            assert_eq!(content, b"data".to_vec());
        }
        Realization::Load(_) => panic!("an in-memory item needs no read"),
    }
}

#[test]
fn file_item_realizes_to_a_read() {
    let item = ScanItem::File(File::new("/tmp/scan/me.txt"));
    match item.realize() {
        Realization::Load(f) => assert_eq!(f.path, "/tmp/scan/me.txt"),
        Realization::Ready(_) => panic!("a file item must be read"),
    }
}

#[test]
fn file_loaded_successfully() {
    let f = File::new("docs/../docs/report.pdf");
    let out = f.loaded(Ok(("/home/u/docs/report.pdf".to_string(), b"%PDF".to_vec())));
    let (name, path, content) = out.ok().expect("read succeeded");
    assert_eq!(name, "report.pdf");
    assert_eq!(path, Some("/home/u/docs/report.pdf".to_string()));
    assert_eq!(content, b"%PDF".to_vec());
}

#[test]
fn file_loaded_with_io_error() {
    let f = File::new("/gone/file.txt");
    let err = std::io::Error::new(std::io::ErrorKind::NotFound, "no such file");
    match f.loaded(Err(err)) {
        Err(QueueError::IOError { source }) => {
            assert_eq!(source.kind(), std::io::ErrorKind::NotFound)
        }
        _ => panic!("an unreadable file is an I/O error"),
    }
}
