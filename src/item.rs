//! Scan items: data resident in memory, or a file read on demand.

use crate::queue::QueueError;
use vstd::prelude::*;

verus! {

/// Text that stands for a file whose path has no final component.
pub const UNKNOWN_FILENAME: &'static str = "<unknown filename>";

/// The final component of `path`, as `std::path::Path::file_name` finds
/// it, if there is one.
pub uninterp spec fn file_name_of(path: Seq<char>) -> Option<Seq<char>>;

/// Relies on `std::path::Path::file_name`: the final component of `path`,
/// if there is one, as a `String` (it came from a `str`, so the lossy
/// conversion loses nothing). An empty path has none.
#[verifier::external_body]
fn path_file_name(path: &str) -> (r: Option<String>)
    ensures
        file_name_of(path@) == match r {
            Some(n) => Some(n@),
            None => None::<Seq<char>>,
        },
        path@.len() == 0 ==> r is None,
{
    std::path::Path::new(path).file_name().map(|n| n.to_string_lossy().into_owned())
}

/// Raw, caller-supplied data that does not come from a file.
pub struct RawDatum {
    /// Human-friendly name of the data item.
    pub dname: String,
    /// The bytes to scan.
    pub content: Vec<u8>,
}

impl RawDatum {
    /// Create a new, boxed [`RawDatum`] holding a copy of `content`.
    pub fn new(name: &str, content: &[u8]) -> (r: Box<RawDatum>)
        ensures
            r.dname@ == name@,
            r.content@ == content@,
    {
        let mut bytes: Vec<u8> = Vec::with_capacity(content.len());
        let mut i: usize = 0;
        while i < content.len()
            invariant
                i <= content@.len(),
                bytes@ == content@.subrange(0, i as int),
            decreases content@.len() - i,
        {
            bytes.push(content[i]);
            i += 1;
        }
        Box::new(RawDatum { dname: name.to_owned(), content: bytes })
    }
}

/// A file, named by its path and read only when it is materialized.
pub struct File {
    /// Path to the file, as it was given.
    pub path: String,
}

/// The name of a file item whose path has the final component `component`.
pub open spec fn file_item_name(component: Option<Seq<char>>) -> Seq<char> {
    match component {
        Some(c) => c,
        None => UNKNOWN_FILENAME@,
    }
}

impl File {
    /// Create a new, boxed [`File`]. Nothing is read from disk here.
    pub fn new(path: &str) -> (r: Box<File>)
        ensures
            r.path@ == path@,
    {
        Box::new(File { path: path.to_owned() })
    }

    /// The item name for the final component `component` of a file's path:
    /// the component itself, or [`UNKNOWN_FILENAME`] where there is none.
    pub fn name_of(component: Option<String>) -> (r: String)
        ensures
            r@ == file_item_name(
                match component {
                    Some(c) => Some(c@),
                    None => None,
                },
            ),
    {
        match component {
            Some(c) => c,
            None => UNKNOWN_FILENAME.to_owned(),
        }
    }

    /// The human-friendly name of this file item: the final component of
    /// its path, or [`UNKNOWN_FILENAME`] where there is none.
    pub fn name(&self) -> (r: String)
        ensures
            r@ == file_item_name(file_name_of(self.path@)),
            self.path@.len() == 0 ==> r@ == UNKNOWN_FILENAME@,
    {
        File::name_of(path_file_name(self.path.as_str()))
    }

    /// Complete the materialization of this file from the outcome of
    /// reading it: its canonical path and its bytes, or the I/O error that
    /// stopped the read. The item is consumed either way.
    pub fn loaded(self, outcome: Result<(String, Vec<u8>), std::io::Error>) -> (r: Result<
        Materialized,
        QueueError,
    >)
        ensures
            match outcome {
                Ok((p, c)) => r matches Ok(m) && m.0@ == file_item_name(file_name_of(self.path@))
                    && m.1 == Some(p) && m.2 == c,
                Err(e) => r == Err::<Materialized, QueueError>(QueueError::IOError { source: e }),
            },
    {
        let name = self.name();
        match outcome {
            Ok((path, content)) => Ok((name, Some(path), content)),
            Err(source) => Err(QueueError::IOError { source }),
        }
    }
}

/// The materialized form of a scan item: its name, the path it was read
/// from (if any) and its content.
pub type Materialized = (String, Option<String>, Vec<u8>);

/// A queued unit of scannable content.
pub enum ScanItem {
    /// Content already resident in memory.
    Raw(Box<RawDatum>),
    /// Content still on disk.
    File(Box<File>),
}

/// What materializing a [`ScanItem`] takes: nothing more, or a read of a file.
pub enum Realization {
    /// The item's materialized form.
    Ready(Materialized),
    /// The file to read; finish with [`File::loaded`].
    Load(Box<File>),
}

/// The realization of `item`.
pub open spec fn realization_of(item: ScanItem) -> Realization {
    match item {
        ScanItem::Raw(d) => Realization::Ready((d.dname, None, d.content)),
        ScanItem::File(f) => Realization::Load(f),
    }
}

impl ScanItem {
    /// Consume the item: an in-memory item yields its materialized form at
    /// once, a file item the file that is still to be read.
    pub fn realize(self) -> (r: Realization)
        ensures
            r == realization_of(self),
    {
        match self {
            ScanItem::Raw(d) => {
                let d = *d;
                Realization::Ready((d.dname, None, d.content))
            },
            ScanItem::File(f) => Realization::Load(f),
        }
    }
}

} // verus!
