//! Paths of source files.

use vstd::prelude::*;

verus! {

/// The components of `path`, as `std::path::Path::components` lists them, written out as one text.
pub uninterp spec fn path_key(path: Seq<char>) -> Seq<char>;

/// The extension of `path`, as `std::path::Path::extension` finds it.
pub uninterp spec fn path_extension(path: Seq<char>) -> Option<Seq<char>>;

/// The text of `path` with its extension replaced, as `std::path::Path::with_extension` does it.
pub uninterp spec fn path_with_extension(path: Seq<char>, extension: Seq<char>) -> Seq<char>;

/// Calls `std::path::Path::components` and writes the list of components out. A prefix, such as a
/// drive, is written as it was parsed and not as it was spelt. The contract claims only that the
/// text which comes out is a function of the text that goes in; how a path falls into components
/// is fixed by the platform that the library is built for.
#[verifier::external_body]
fn components_text(path: &str) -> (key: String)
    ensures
        key@ == path_key(path@),
{
    let components: Vec<String> = std::path::Path::new(path)
        .components()
        .map(|component| match component {
            std::path::Component::Prefix(prefix) => format!("{:?}", prefix.kind()),
            other => format!("{:?}", other),
        })
        .collect();
    format!("{:?}", components)
}

/// Calls `std::path::Path::extension`. The contract claims only that the extension is a function
/// of the path's text, on the platform that the library is built for.
#[verifier::external_body]
pub(crate) fn extension_of(path: &str) -> (extension: Option<String>)
    ensures
        crate::text::opt_text(extension) == path_extension(path@),
{
    std::path::Path::new(path).extension().map(|e| e.to_string_lossy().into_owned())
}

/// Calls `std::path::Path::with_extension`, which refuses an extension that holds a path
/// separator. The contract claims only that the result is a function of both texts, on the platform
/// that the library is built for.
#[verifier::external_body]
pub(crate) fn replace_extension(path: &str, extension: &str) -> (replaced: String)
    requires
        !extension@.contains('/'),
        !extension@.contains('\\'),
    ensures
        replaced@ == path_with_extension(path@, extension@),
{
    std::path::Path::new(path).with_extension(extension).to_string_lossy().into_owned()
}

/// A source file: its path as it was written, and the text of its components, under which the file
/// is looked up. Two paths name the same file when their keys are equal. The key belongs to the
/// text in a path made by `new`; files are looked up by whatever key a path holds.
#[derive(Debug)]
pub struct SourcePath {
    pub text: String,
    pub key: String,
}

impl SourcePath {
    /// The file that `text` names.
    pub fn new(text: String) -> (path: SourcePath)
        ensures
            path.text == text,
            path.key@ == path_key(text@),
    {
        let key = components_text(text.as_str());
        SourcePath { text, key }
    }

    /// Whether both paths name the same file.
    pub open spec fn same_file(self, other: SourcePath) -> bool {
        self.key@ == other.key@
    }

    /// Whether both paths name the same file.
    pub fn names_same_file(&self, other: &SourcePath) -> (same: bool)
        ensures
            same == self.same_file(*other),
    {
        self.key == other.key
    }
}

impl Clone for SourcePath {
    fn clone(&self) -> (copy: Self)
        ensures
            copy == *self,
    {
        SourcePath { text: self.text.clone(), key: self.key.clone() }
    }
}

} // verus!
