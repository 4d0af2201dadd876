use sscan::host::{EvalChunk, ExecChunk, SendWarning};
use sscan::process::MemoryMap;

#[test]
fn chunks_hold_their_code() {
    let exec = ExecChunk::from("x = 5".to_string());
    assert_eq!(exec.0, "x = 5");
    let eval = EvalChunk::from("5 + 6".to_string());
    assert_eq!(eval.0, "5 + 6");
}

#[test]
fn warning_text_and_kind() {
    let w = SendWarning::Complete("done".to_string());
    assert_eq!(w.text(), "done");
    assert!(!w.is_incomplete());
    let w = SendWarning::Incomplete("part".to_string());
    assert_eq!(w.text(), "part");
    assert!(w.is_incomplete());
}

#[test]
fn memory_map_keeps_its_fields() {
    let m = MemoryMap::new(42, Some("proc".to_string()), 0x1000, 0x2000, true, false, true);
    assert_eq!(m.pid, 42);
    assert_eq!(m.name, Some("proc".to_string()));
    assert_eq!(m.start, 0x1000);
    assert_eq!(m.stop, 0x2000);
    assert!(m.readable);
    assert!(!m.writable);
    assert!(m.executable);
}
