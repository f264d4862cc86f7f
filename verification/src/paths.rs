//! Paths held as text, and what the path library computes on them without
//! touching the file system.
use crate::files::{common_ancestor, path_ancestors, path_starts_with};
use vstd::prelude::*;

verus! {

/// The path `base` with `tail` pushed onto it (`std::path::PathBuf::push`).
pub uninterp spec fn path_pushed(base: Seq<char>, tail: Seq<char>) -> Seq<char>;

/// The path without its last component, if it has one (`std::path::Path::parent`).
pub uninterp spec fn path_parent(p: Seq<char>) -> Option<Seq<char>>;

/// Whether the path is absolute (`std::path::Path::is_absolute`).
pub uninterp spec fn path_is_absolute(p: Seq<char>) -> bool;

/// The last component of the path, if it is a normal one (`std::path::Path::file_name`).
pub uninterp spec fn path_file_name(p: Seq<char>) -> Option<Seq<char>>;

/// The extension of the path's file name, if it has one (`std::path::Path::extension`).
pub uninterp spec fn path_extension(p: Seq<char>) -> Option<Seq<char>>;

/// Whether two paths have the same components (`==` on `std::path::Path`).
pub uninterp spec fn paths_equal(a: Seq<char>, b: Seq<char>) -> bool;

/// `std::path::PathBuf::push` on `base`; the result is named, and, as its
/// documentation says, an absolute `tail` replaces the path.
#[verifier::external_body]
fn pushed(base: &str, tail: &str) -> (r: String)
    ensures
        r@ == path_pushed(base@, tail@),
        path_is_absolute(tail@) ==> r@ == tail@,
{
    let mut p = std::path::PathBuf::from(base);
    p.push(tail);
    p.to_string_lossy().into_owned()
}

/// `std::path::Path::parent`; the result is named.
#[verifier::external_body]
fn parent_of(p: &str) -> (r: Option<String>)
    ensures
        r is Some <==> path_parent(p@) is Some,
        r matches Some(q) ==> path_parent(p@) == Some(q@),
{
    std::path::Path::new(p).parent().map(|q| q.to_string_lossy().into_owned())
}

/// `std::path::Path::is_absolute`; the answer is named.
#[verifier::external_body]
fn absolute(p: &str) -> (r: bool)
    ensures
        r == path_is_absolute(p@),
{
    std::path::Path::new(p).is_absolute()
}

/// `std::path::Path::file_name`; the result is named.
#[verifier::external_body]
fn file_name_of(p: &str) -> (r: Option<String>)
    ensures
        r is Some <==> path_file_name(p@) is Some,
        r matches Some(n) ==> path_file_name(p@) == Some(n@),
{
    std::path::Path::new(p).file_name().map(|n| n.to_string_lossy().into_owned())
}

/// `std::path::Path::extension`; the result is named.
#[verifier::external_body]
fn extension_of(p: &str) -> (r: Option<String>)
    ensures
        r is Some <==> path_extension(p@) is Some,
        r matches Some(n) ==> path_extension(p@) == Some(n@),
{
    std::path::Path::new(p).extension().map(|n| n.to_string_lossy().into_owned())
}

/// `==` on two `std::path::Path`s; the answer is named.
#[verifier::external_body]
fn same_path(a: &str, b: &str) -> (r: bool)
    ensures
        r == paths_equal(a@, b@),
{
    std::path::Path::new(a) == std::path::Path::new(b)
}

/// A path, as the path library's objects hold it.
pub struct PathValue {
    text: String,
}

impl View for PathValue {
    type V = Seq<char>;

    closed spec fn view(&self) -> Seq<char> {
        self.text@
    }
}

impl PathValue {
    /// The path that `text` spells.
    pub fn new(text: &str) -> (r: PathValue)
        ensures
            r@ == text@,
    {
        PathValue { text: text.to_owned() }
    }

    /// The path as text (its pretty form).
    pub fn prettyprint(&self) -> (r: String)
        ensures
            r@ == self@,
    {
        self.text.clone()
    }

    /// Appends `tail` to the path; an absolute `tail` replaces it.
    pub fn append(&mut self, tail: &str)
        ensures
            final(self)@ == path_pushed(old(self)@, tail@),
            path_is_absolute(tail@) ==> final(self)@ == tail@,
    {
        self.text = pushed(self.text.as_str(), tail);
    }

    /// Drops the last component of the path; a path without a parent stays
    /// as it is. Tells whether it changed.
    pub fn pop(&mut self) -> (r: bool)
        ensures
            r == path_parent(old(self)@) is Some,
            r ==> path_parent(old(self)@) == Some(final(self)@),
            !r ==> final(self)@ == old(self)@,
    {
        match parent_of(self.text.as_str()) {
            Some(q) => {
                self.text = q;
                true
            },
            None => false,
        }
    }

    /// Whether the path is absolute.
    pub fn is_absolute(&self) -> (r: bool)
        ensures
            r == path_is_absolute(self@),
    {
        absolute(self.text.as_str())
    }

    /// The path's last component, if it is a file or directory name.
    pub fn filename(&self) -> (r: Option<String>)
        ensures
            r is Some <==> path_file_name(self@) is Some,
            r matches Some(n) ==> path_file_name(self@) == Some(n@),
    {
        file_name_of(self.text.as_str())
    }

    /// The extension of the path's file name, if it has one.
    pub fn extension(&self) -> (r: Option<String>)
        ensures
            r is Some <==> path_extension(self@) is Some,
            r matches Some(n) ==> path_extension(self@) == Some(n@),
    {
        extension_of(self.text.as_str())
    }

    /// Whether the two paths have the same components.
    pub fn equals(&self, other: &PathValue) -> (r: bool)
        ensures
            r == paths_equal(self@, other@),
    {
        same_path(self.text.as_str(), other.text.as_str())
    }

    /// The nearest ancestor of this path that `other` starts with, if any.
    pub fn common_ancestor(&self, other: &PathValue) -> (r: Option<PathValue>)
        ensures
            r is None ==> forall|i: int| 0 <= i < path_ancestors(self@).len() ==> !path_starts_with(other@, #[trigger] path_ancestors(self@)[i]),
            r matches Some(a) ==> exists|i: int| 0 <= i < path_ancestors(self@).len() && a@ == #[trigger] path_ancestors(self@)[i]
                && path_starts_with(other@, a@) && forall|j: int| 0 <= j < i ==> !path_starts_with(other@, path_ancestors(self@)[j]),
    {
        match common_ancestor(self.text.as_str(), other.text.as_str()) {
            Some(a) => Some(PathValue { text: a }),
            None => None,
        }
    }
}

} // verus!
