use sscan::item::{File, Materialized, RawDatum, Realization, ScanItem};
use sscan::queue::{Enqueue, Queue, QueueError};

fn materialize(item: ScanItem) -> Result<Materialized, QueueError> {
    match item.realize() {
        Realization::Ready(m) => Ok(m),
        Realization::Load(f) => f.loaded(Err(std::io::Error::new(
            std::io::ErrorKind::NotFound,
            "not read in this test",
        ))),
    }
}

#[test]
fn enqueue_then_dequeue_hello_world() {
    let mut queue = Queue::new();
    let data = RawDatum::new("hello_world", b"blablabla-Hello World-blablabla");
    queue.enqueue(ScanItem::Raw(data));
    let item = queue.dequeue().ok().expect("one item was enqueued");
    let (name, path, content) = materialize(item).ok().expect("in-memory item");
    assert_eq!(name, "hello_world");
    assert_eq!(path, None);
    assert_eq!(content, b"blablabla-Hello World-blablabla".to_vec());
    assert_eq!(queue.len(), 0);
}

#[test]
fn enqueued_item_comes_out_exactly_once() {
    let mut queue = Queue::with_capacity(4);
    queue.enqueue(ScanItem::Raw(RawDatum::new("x", b"abc")));
    assert_eq!(queue.len(), 1);
    assert!(queue.dequeue().is_ok());
    assert!(matches!(queue.dequeue(), Err(QueueError::QueueEmpty)));
}

#[test]
fn dequeue_empty_queue_is_empty_error() {
    let mut queue = Queue::new();
    assert!(matches!(queue.dequeue(), Err(QueueError::QueueEmpty)));
    assert!(matches!(queue.dequeue(), Err(QueueError::QueueEmpty)));
    assert_eq!(queue.len(), 0);
    assert!(matches!(QueueError::empty(), QueueError::QueueEmpty));
}

#[test]
fn queue_is_first_in_first_out() {
    let mut queue = Queue::new();
    let first = Enqueue::item(ScanItem::Raw(RawDatum::new("first", b"1")));
    queue.enqueue(first.0);
    queue.enqueue(ScanItem::File(File::new("/no/such/dir/second.bin")));
    queue.enqueue(ScanItem::Raw(RawDatum::new("third", b"3")));
    assert_eq!(queue.len(), 3);
    let (name, _, content) = materialize(queue.dequeue().ok().unwrap()).ok().unwrap();
    assert_eq!(name, "first");
    assert_eq!(content, b"1".to_vec());
    let second = materialize(queue.dequeue().ok().unwrap());
    assert!(matches!(second, Err(QueueError::IOError { .. })));
    let (name, _, _) = materialize(queue.dequeue().ok().unwrap()).ok().unwrap();
    assert_eq!(name, "third");
    assert_eq!(queue.len(), 0);
}
