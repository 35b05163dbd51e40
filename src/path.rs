use vstd::prelude::*;
use crate::metadata::str_eq;

verus! {

/// What `relative_path` makes of a path when it normalizes it.
pub uninterp spec fn normalized(s: Seq<char>) -> Seq<char>;

/// The extension that `relative_path` reads from a path, if any.
pub uninterp spec fn extension_of(s: Seq<char>) -> Option<Seq<char>>;

/// The file stem that `relative_path` reads from a path, if any.
pub uninterp spec fn stem_of(s: Seq<char>) -> Option<Seq<char>>;

/// Relies on `RelativePath::normalize`: resolves `.` and `..` components; the
/// result depends on the text alone.
#[verifier::external_body]
fn normalize_text(s: &str) -> (r: String)
    ensures
        r@ == normalized(s@),
{
    relative_path::RelativePath::new(s).normalize().into_string()
}

/// Relies on `RelativePath::extension`: the text after the last `.` of the
/// file name, where there is one.
#[verifier::external_body]
fn extension_text(s: &str) -> (r: Option<String>)
    ensures
        r matches Some(e) ==> extension_of(s@) == Some(e@),
        r is None ==> extension_of(s@) is None,
{
    relative_path::RelativePath::new(s).extension().map(|e| e.to_owned())
}

/// Relies on `RelativePath::file_stem`: the file name without its extension.
#[verifier::external_body]
fn stem_text(s: &str) -> (r: Option<String>)
    ensures
        r matches Some(e) ==> stem_of(s@) == Some(e@),
        r is None ==> stem_of(s@) is None,
{
    relative_path::RelativePath::new(s).file_stem().map(|e| e.to_owned())
}

/// The components that `relative_path` reads from a path, in order.
pub uninterp spec fn components_of(s: Seq<char>) -> Seq<Seq<char>>;

/// The path that `relative_path` makes by pushing `b` onto `a`.
pub uninterp spec fn pushed(a: Seq<char>, b: Seq<char>) -> Seq<char>;

/// What is left of `a` once the whole components of `prefix` are taken off
/// its front, if `prefix` is a prefix of it.
pub uninterp spec fn stripped(a: Seq<char>, prefix: Seq<char>) -> Option<Seq<char>>;

/// The parent that `relative_path` reads from a path, if any.
pub uninterp spec fn parent_of(s: Seq<char>) -> Option<Seq<char>>;

/// The file name that `relative_path` reads from a path, if any.
pub uninterp spec fn file_name_of(s: Seq<char>) -> Option<Seq<char>>;

/// Relies on `RelativePath::components`: the path's components, in order.
#[verifier::external_body]
fn components_text(s: &str) -> (r: Vec<String>)
    ensures
        r@.map_values(|c: String| c@) == components_of(s@),
{
    relative_path::RelativePath::new(s).components().map(|c| c.as_str().to_owned()).collect()
}

/// Relies on `RelativePath::join`: `b` pushed onto `a`.
#[verifier::external_body]
fn push_text(a: &str, b: &str) -> (r: String)
    ensures
        r@ == pushed(a@, b@),
{
    relative_path::RelativePath::new(a).join(b).into_string()
}

/// Relies on `RelativePath::strip_prefix`: whole components of the prefix
/// taken off the front.
#[verifier::external_body]
fn strip_text(a: &str, prefix: &str) -> (r: Option<String>)
    ensures
        r matches Some(t) ==> stripped(a@, prefix@) == Some(t@),
        r is None ==> stripped(a@, prefix@) is None,
{
    relative_path::RelativePath::new(a).strip_prefix(prefix).ok().map(|p| p.as_str().to_owned())
}

/// Relies on `RelativePath::parent`: the path without its last component.
#[verifier::external_body]
fn parent_text(s: &str) -> (r: Option<String>)
    ensures
        r matches Some(t) ==> parent_of(s@) == Some(t@),
        r is None ==> parent_of(s@) is None,
{
    relative_path::RelativePath::new(s).parent().map(|p| p.as_str().to_owned())
}

/// Relies on `RelativePath::file_name`: the last component, if it is a name.
#[verifier::external_body]
fn file_name_text(s: &str) -> (r: Option<String>)
    ensures
        r matches Some(t) ==> file_name_of(s@) == Some(t@),
        r is None ==> file_name_of(s@) is None,
{
    relative_path::RelativePath::new(s).file_name().map(|p| p.to_owned())
}

/// The path that `relative_path` makes by replacing the extension of `s`
/// with `ext`.
pub uninterp spec fn with_extension(s: Seq<char>, ext: Seq<char>) -> Seq<char>;

/// The path that `relative_path` makes by replacing the file name of `s`
/// with `name`.
pub uninterp spec fn with_file_name(s: Seq<char>, name: Seq<char>) -> Seq<char>;

/// Relies on `RelativePathBuf::set_extension`: the extension replaced (or
/// removed, for an empty one); a path without a file name is left as it is.
#[verifier::external_body]
fn set_extension_text(s: &str, ext: &str) -> (r: String)
    ensures
        r@ == with_extension(s@, ext@),
{
    let mut p = relative_path::RelativePathBuf::from(s.to_owned());
    p.set_extension(ext);
    p.into_string()
}

/// Relies on `RelativePathBuf::set_file_name`: the last component replaced,
/// or the name pushed where there is none.
#[verifier::external_body]
fn set_file_name_text(s: &str, name: &str) -> (r: String)
    ensures
        r@ == with_file_name(s@, name@),
{
    let mut p = relative_path::RelativePathBuf::from(s.to_owned());
    p.set_file_name(name);
    p.into_string()
}

/// The file name that setting a stem of `name` on `s` gives: `name` as it
/// is where it has an extension, else `name` with the extension of `s` (or
/// an empty one).
pub open spec fn stem_file_name(s: Seq<char>, name: Seq<char>) -> Seq<char> {
    if extension_of(name) is Some {
        name
    } else {
        with_extension(
            name,
            match extension_of(s) {
                Some(e) => e,
                None => Seq::empty(),
            },
        )
    }
}

/// The texts of a list of strings.
pub open spec fn texts(v: Seq<String>) -> Seq<Seq<char>> {
    v.map_values(|c: String| c@)
}

/// The 0-based component that a 1-based index reads; index 0 reads the
/// first component too.
pub open spec fn component_slot(i: int) -> int {
    if i == 0 {
        0
    } else {
        i - 1
    }
}

/// The path that joining segments gives: each present segment pushed in
/// order onto the empty path, absent ones skipped.
pub open spec fn joined_segments(parts: Seq<Option<RelPath>>) -> Seq<char>
    decreases parts.len(),
{
    if parts.len() == 0 {
        Seq::empty()
    } else {
        match parts.last() {
            Some(p) => pushed(joined_segments(parts.drop_last()), p@),
            None => joined_segments(parts.drop_last()),
        }
    }
}

/// A path relative to a project directory, held as text. Paths made with
/// `new` are normalized.
#[derive(Debug, Clone, PartialEq)]
pub struct RelPath {
    pub text: String,
}

impl View for RelPath {
    type V = Seq<char>;

    open spec fn view(&self) -> Seq<char> {
        self.text@
    }
}

impl RelPath {
    /// The normalized form of a path.
    pub fn new(s: &str) -> (r: RelPath)
        ensures
            r@ == normalized(s@),
    {
        RelPath { text: normalize_text(s) }
    }

    /// The empty path, the default output path of a file made by a script.
    pub fn empty() -> (r: RelPath)
        ensures
            r@ == Seq::<char>::empty(),
    {
        RelPath { text: String::new() }
    }

    /// The path as text.
    pub fn as_str(&self) -> (r: &str)
        ensures
            r@ == self@,
    {
        self.text.as_str()
    }

    /// A copy of the path.
    pub fn copy(&self) -> (r: RelPath)
        ensures
            r == *self,
    {
        RelPath { text: self.text.clone() }
    }

    /// The extension, if any.
    pub fn extension(&self) -> (r: Option<String>)
        ensures
            r matches Some(e) ==> extension_of(self@) == Some(e@),
            r is None ==> extension_of(self@) is None,
    {
        extension_text(self.text.as_str())
    }

    /// The file stem, if any.
    pub fn file_stem(&self) -> (r: Option<String>)
        ensures
            r matches Some(e) ==> stem_of(self@) == Some(e@),
            r is None ==> stem_of(self@) is None,
    {
        stem_text(self.text.as_str())
    }

    /// Whether the path names a Markdown file (extension `md`).
    pub fn is_markdown(&self) -> (r: bool)
        ensures
            r == (extension_of(self@) == Some("md"@)),
    {
        match self.extension() {
            Some(e) => str_eq(e.as_str(), "md"),
            None => false,
        }
    }

    /// Replaces the extension.
    pub fn set_extension(&mut self, ext: &str)
        ensures
            final(self)@ == with_extension(old(self)@, ext@),
    {
        self.text = set_extension_text(self.text.as_str(), ext);
    }

    /// Replaces the file name.
    pub fn set_file_name(&mut self, name: &str)
        ensures
            final(self)@ == with_file_name(old(self)@, name@),
    {
        self.text = set_file_name_text(self.text.as_str(), name);
    }

    /// Replaces the file stem: a name without an extension keeps the path's
    /// current extension.
    pub fn set_stem(&mut self, name: &str)
        ensures
            final(self)@ == with_file_name(old(self)@, stem_file_name(old(self)@, name@)),
    {
        let file_name = if extension_text(name).is_none() {
            let ext = match self.extension() {
                Some(e) => e,
                None => String::new(),
            };
            set_extension_text(name, ext.as_str())
        } else {
            name.to_owned()
        };
        self.set_file_name(file_name.as_str());
    }

    /// The components, in order.
    pub fn components(&self) -> (r: Vec<String>)
        ensures
            texts(r@) == components_of(self@),
    {
        components_text(self.text.as_str())
    }

    /// The number of components.
    pub fn component_count(&self) -> (r: usize)
        ensures
            r == components_of(self@).len(),
    {
        let c = self.components();
        assert(texts(c@).len() == c@.len());
        c.len()
    }

    /// The component at a 1-based index, the scripting runtime's convention.
    pub fn component(&self, index: usize) -> (r: Option<String>)
        ensures
            ({
                let c = components_of(self@);
                let k = component_slot(index as int);
                &&& k < c.len() ==> (r matches Some(t) && t@ == c[k])
                &&& k >= c.len() ==> r is None
            }),
    {
        let mut c = self.components();
        let k: usize = if index == 0 {
            0
        } else {
            index - 1
        };
        if k < c.len() {
            let ghost all = c@;
            let t = c.swap_remove(k);
            assert(t@ == texts(all)[k as int]);
            Some(t)
        } else {
            None
        }
    }

    /// `other` pushed onto this path.
    pub fn join(&self, other: &RelPath) -> (r: RelPath)
        ensures
            r@ == pushed(self@, other@),
    {
        RelPath { text: push_text(self.text.as_str(), other.text.as_str()) }
    }

    /// This path without the components of `prefix` at its front, if
    /// `prefix` is a prefix of it; without a prefix, the path itself.
    pub fn strip(&self, prefix: Option<&RelPath>) -> (r: Option<RelPath>)
        ensures
            prefix is None ==> r == Some(*self),
            prefix matches Some(p) ==> (match stripped(self@, p@) {
                Some(t) => r matches Some(q) && q@ == t,
                None => r is None,
            }),
    {
        match prefix {
            None => Some(self.copy()),
            Some(p) => match strip_text(self.text.as_str(), p.text.as_str()) {
                Some(t) => Some(RelPath { text: t }),
                None => None,
            },
        }
    }

    /// The parent path, if any.
    pub fn parent(&self) -> (r: Option<RelPath>)
        ensures
            r matches Some(p) ==> parent_of(self@) == Some(p@),
            r is None ==> parent_of(self@) is None,
    {
        match parent_text(self.text.as_str()) {
            Some(t) => Some(RelPath { text: t }),
            None => None,
        }
    }

    /// The file name, if any.
    pub fn file_name(&self) -> (r: Option<String>)
        ensures
            r matches Some(t) ==> file_name_of(self@) == Some(t@),
            r is None ==> file_name_of(self@) is None,
    {
        file_name_text(self.text.as_str())
    }
}

/// Joins path segments in order; absent segments are skipped.
pub fn join_segments(parts: &Vec<Option<RelPath>>) -> (r: RelPath)
    ensures
        r@ == joined_segments(parts@),
{
    let mut r = RelPath::empty();
    let mut i: usize = 0;
    while i < parts.len()
        invariant
            i <= parts@.len(),
            r@ == joined_segments(parts@.subrange(0, i as int)),
        decreases parts@.len() - i,
    {
        let ghost prefix = parts@.subrange(0, i + 1);
        assert(prefix.drop_last() =~= parts@.subrange(0, i as int));
        match &parts[i] {
            Some(p) => {
                r = r.join(p);
            },
            None => {},
        }
        i = i + 1;
    }
    assert(parts@.subrange(0, i as int) =~= parts@);
    r
}

} // verus!
