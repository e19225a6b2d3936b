use vstd::prelude::*;

use crate::path::{join_path, joined};

verus! {

/// Where the records of the store go: each record is a file of JSON text,
/// named after the record, in the store directory or in one of its
/// subdirectories. Encoding and decoding the text is left to the caller.
#[derive(Debug)]
pub struct JsonSerializer {
    base_dir: String,
}

/// The place of the record `name`, in the subdirectory `dir` of `base` if one is given.
pub open spec fn record_location(base: Seq<char>, name: Seq<char>, dir: Option<Seq<char>>) -> Seq<char> {
    match dir {
        Some(d) => joined(joined(base, d), name),
        None => joined(base, name),
    }
}

/// The characters of an optional string.
pub open spec fn opt_text(dir: Option<&str>) -> Option<Seq<char>> {
    match dir {
        Some(d) => Some(d@),
        None => None,
    }
}

impl View for JsonSerializer {
    type V = Seq<char>;

    closed spec fn view(&self) -> Seq<char> {
        self.base_dir@
    }
}

impl JsonSerializer {
    /// A serializer for the store at `base_dir`.
    pub fn create(base_dir: &str) -> (r: JsonSerializer)
        ensures
            r@ == base_dir@,
    {
        JsonSerializer { base_dir: String::from_str(base_dir) }
    }

    /// The path of the record `name`, inside the subdirectory `dir` of the
    /// store when one is given.
    pub fn record_path(&self, name: &str, dir: Option<&str>) -> (r: String)
        ensures
            r@ == record_location(self@, name@, opt_text(dir)),
    {
        match dir {
            Some(d) => {
                let inner = join_path(self.base_dir.as_str(), d);
                join_path(inner.as_str(), name)
            },
            None => join_path(self.base_dir.as_str(), name),
        }
    }
}

} // verus!
