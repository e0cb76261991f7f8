//! The directories of a maildir, and the names its messages are stored under.

use vstd::prelude::*;

verus! {

/// A maildir at a path.
pub struct Maildir {
    path: String,
}

/// A path followed by a relative segment, as `Path::join` forms it: the segment alone after
/// an empty path, and otherwise with one separator between the two.
pub open spec fn path_join(base: Seq<char>, seg: Seq<char>) -> Seq<char> {
    if base.len() == 0 {
        seg
    } else if base.last() == '/' {
        base + seg
    } else {
        base + seq!['/'] + seg
    }
}

impl Maildir {
    pub closed spec fn path(&self) -> Seq<char> {
        self.path@
    }

    /// The maildir at `path`.
    pub fn open(path: &str) -> (r: Maildir)
        ensures
            r.path() == path@,
    {
        Maildir { path: String::from_str(path) }
    }

    fn subdir(&self, seg: &str) -> (r: String)
        ensures
            r@ == path_join(self.path(), seg@),
    {
        let base = self.path.as_str();
        let n = base.unicode_len();
        if n == 0 {
            String::from_str(seg)
        } else if base.get_char(n - 1) == '/' {
            self.path.clone().concat(seg)
        } else {
            proof {
                reveal_strlit("/");
            }
            self.path.clone().concat("/").concat(seg)
        }
    }

    /// The path of the `tmp` subdirectory.
    pub fn tmp_dir(&self) -> (r: String)
        ensures
            r@ == path_join(self.path(), "tmp"@),
    {
        self.subdir("tmp")
    }

    /// The path of the `new` subdirectory.
    pub fn new_dir(&self) -> (r: String)
        ensures
            r@ == path_join(self.path(), "new"@),
    {
        self.subdir("new")
    }

    /// The path of the `cur` subdirectory.
    pub fn cur_dir(&self) -> (r: String)
        ensures
            r@ == path_join(self.path(), "cur"@),
    {
        self.subdir("cur")
    }
}

/// The options that decide the name a message is stored under.
pub struct StoreOptions {}

impl StoreOptions {
    /// The unique name to store a message under; no options are defined yet, and it is empty.
    pub fn create_unique_name(&self) -> (r: String)
        ensures
            r@ == Seq::<char>::empty(),
    {
        String::new()
    }
}

} // verus!
