//! The decisions of the `file` and `path` libraries: how an open mode number
//! becomes the options a file is opened with, and the common ancestor of two
//! paths.
use crate::strings::strings_view;
use vstd::prelude::*;

verus! {

/// The bit of an open mode that asks to read.
pub const FILE_MODE_READ: i64 = 1;

/// The bit of an open mode that asks to write.
pub const FILE_MODE_WRITE: i64 = 2;

/// The bit of an open mode that asks to append.
pub const FILE_MODE_APPEND: i64 = 4;

/// The bit of an open mode that asks to truncate an existing file.
pub const FILE_MODE_TRUNCATE: i64 = 8;

/// The bit of an open mode that asks for a file that does not exist yet.
pub const FILE_MODE_NEED_NEW: i64 = 16;

/// The options a file is opened with.
#[derive(Clone, Copy, Debug, PartialEq, Eq, Structural)]
pub struct OpenFlags {
    pub read: bool,
    pub write: bool,
    pub append: bool,
    pub truncate: bool,
    pub create: bool,
    pub create_new: bool,
}

/// Whether open mode `n` has bit `bit` set.
pub open spec fn mode_has(n: i64, bit: i64) -> bool {
    (n & bit) != 0
}

/// The options for open mode `n`: reading, writing and appending as asked; a
/// file opened to write or append is created, and must not exist yet if the
/// mode asks for a new one, and is truncated if the mode asks for it.
pub fn open_options_from_int(n: i64) -> (r: OpenFlags)
    ensures
        r.read == mode_has(n, FILE_MODE_READ),
        r.write == mode_has(n, FILE_MODE_WRITE),
        r.append == mode_has(n, FILE_MODE_APPEND),
        r.create == ((mode_has(n, FILE_MODE_WRITE) || mode_has(n, FILE_MODE_APPEND)) && !mode_has(n, FILE_MODE_NEED_NEW)),
        r.create_new == ((mode_has(n, FILE_MODE_WRITE) || mode_has(n, FILE_MODE_APPEND)) && mode_has(n, FILE_MODE_NEED_NEW)),
        r.truncate == ((mode_has(n, FILE_MODE_WRITE) || mode_has(n, FILE_MODE_APPEND)) && mode_has(n, FILE_MODE_TRUNCATE)),
{
    let mut opts = OpenFlags { read: false, write: false, append: false, truncate: false, create: false, create_new: false };
    if (n & FILE_MODE_READ) != 0 {
        opts.read = true;
    }
    if (n & FILE_MODE_WRITE) != 0 {
        opts.write = true;
        if (n & FILE_MODE_NEED_NEW) != 0 {
            opts.create_new = true;
        } else {
            opts.create = true;
        }
        if (n & FILE_MODE_TRUNCATE) != 0 {
            opts.truncate = true;
        }
    }
    if (n & FILE_MODE_APPEND) != 0 {
        opts.append = true;
        if (n & FILE_MODE_NEED_NEW) != 0 {
            opts.create_new = true;
        } else {
            opts.create = true;
        }
        if (n & FILE_MODE_TRUNCATE) != 0 {
            opts.truncate = true;
        }
    }
    opts
}

/// The ancestors of path `p`, from `p` itself up to its root
/// (`std::path::Path::ancestors`).
pub uninterp spec fn path_ancestors(p: Seq<char>) -> Seq<Seq<char>>;

/// Whether path `base` is a leading part of path `p`, component by component
/// (`std::path::Path::starts_with`).
pub uninterp spec fn path_starts_with(p: Seq<char>, base: Seq<char>) -> bool;

/// `std::path::Path::ancestors`, each ancestor as text; the list is named.
#[verifier::external_body]
fn ancestors_of(p: &str) -> (r: Vec<String>)
    ensures
        strings_view(r@) == path_ancestors(p@),
{
    std::path::Path::new(p).ancestors().map(|a| a.to_string_lossy().into_owned()).collect()
}

/// `std::path::Path::starts_with`; the answer is named.
#[verifier::external_body]
fn path_begins_with(p: &str, base: &str) -> (r: bool)
    ensures
        r == path_starts_with(p@, base@),
{
    std::path::Path::new(p).starts_with(base)
}

/// The nearest ancestor of path `this` that path `other` starts with (the
/// `common_ancestor` method of `Path`), if there is one.
pub fn common_ancestor(this: &str, other: &str) -> (r: Option<String>)
    ensures
        r is None ==> forall|i: int| 0 <= i < path_ancestors(this@).len() ==> !path_starts_with(other@, #[trigger] path_ancestors(this@)[i]),
        r matches Some(a) ==> exists|i: int| 0 <= i < path_ancestors(this@).len() && a@ == #[trigger] path_ancestors(this@)[i]
            && path_starts_with(other@, a@) && forall|j: int| 0 <= j < i ==> !path_starts_with(other@, path_ancestors(this@)[j]),
{
    let ancestors = ancestors_of(this);
    let ghost all = path_ancestors(this@);
    let mut i: usize = 0;
    while i < ancestors.len()
        invariant
            i <= ancestors@.len(),
            strings_view(ancestors@) == all,
            all == path_ancestors(this@),
            forall|j: int| 0 <= j < i ==> !path_starts_with(other@, #[trigger] all[j]),
        decreases ancestors@.len() - i,
    {
        proof {
            assert(strings_view(ancestors@)[i as int] == ancestors@[i as int]@);
        }
        if path_begins_with(other, ancestors[i].as_str()) {
            return Some(ancestors[i].clone());
        }
        i += 1;
    }
    None
}

} // verus!
