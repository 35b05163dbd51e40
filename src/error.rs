use vstd::prelude::*;

verus! {

/// What went wrong.
#[derive(Debug, Clone, PartialEq)]
pub enum HydeError {
    /// A scope named a layout that the layout table does not hold.
    LayoutNotFound(String),
    /// A layout chain came back to a layout it had already gone through.
    LayoutCycle(String),
    /// A layout file has no file stem to name it by.
    LayoutUnnamed(String),
    /// A layout file is not valid UTF-8.
    FileNotUtf8(String),
    /// A discovered file does not lie under the directory it was found in.
    UnexpectedFilePath(String),
    /// A script tried to give a body to a binary file.
    BinaryContent(String),
    /// A script value has no template form (a function, a host object, a
    /// table that mixes a sequence with string keys).
    NotConvertible,
    /// A directory overlay's glob pattern was refused.
    Glob(String),
    /// An error raised by a collaborator: template engine, scripting runtime,
    /// file system or metadata parser.
    External(String),
}

/// An error with the trail of contexts (file paths, function names) that it
/// was wrapped in on its way up, innermost first.
#[derive(Debug, Clone, PartialEq)]
pub struct Error {
    pub kind: HydeError,
    pub context: Vec<String>,
}

impl Error {
    /// An error without context.
    pub fn new(kind: HydeError) -> (r: Error)
        ensures
            r.kind == kind,
            r.context@.len() == 0,
    {
        Error { kind, context: Vec::new() }
    }

    /// The same error wrapped in one more context.
    pub fn with_context(self, context: String) -> (r: Error)
        ensures
            r.kind == self.kind,
            r.context@ == self.context@.push(context),
    {
        let mut r = self;
        r.context.push(context);
        r
    }
}

/// `prefix` followed by `x` in single quotes.
pub open spec fn quoted(prefix: Seq<char>, x: Seq<char>) -> Seq<char> {
    prefix + "'"@ + x + "'"@
}

/// The text that describes an error kind.
pub open spec fn describe_kind(k: HydeError) -> Seq<char> {
    match k {
        HydeError::LayoutNotFound(n) => quoted("Layout not found: "@, n@),
        HydeError::LayoutCycle(n) => quoted("Layout chain returns to "@, n@),
        HydeError::LayoutUnnamed(p) => quoted("Layout file has no name: "@, p@),
        HydeError::FileNotUtf8(p) => quoted("File is not valid UTF-8: "@, p@),
        HydeError::UnexpectedFilePath(p) => quoted("File not in expected directory: "@, p@),
        HydeError::BinaryContent(p) => "Cannot set content of a binary file: "@ + p@,
        HydeError::NotConvertible => "Value has no template form"@,
        HydeError::Glob(m) => "Invalid glob: "@ + m@,
        HydeError::External(m) => m@,
    }
}

/// The full message: each context, outermost first, then the kind.
pub open spec fn message_of(context: Seq<String>, kind: HydeError) -> Seq<char>
    decreases context.len(),
{
    if context.len() == 0 {
        describe_kind(kind)
    } else {
        context.last()@ + ": "@ + message_of(context.drop_last(), kind)
    }
}

fn quote(prefix: &str, x: &String) -> (r: String)
    ensures
        r@ == quoted(prefix@, x@),
{
    let mut r = String::from_str(prefix);
    r.append("'");
    r.append(x.as_str());
    r.append("'");
    r
}

impl HydeError {
    /// The text that describes the kind.
    pub fn describe(&self) -> (r: String)
        ensures
            r@ == describe_kind(*self),
    {
        match self {
            HydeError::LayoutNotFound(n) => quote("Layout not found: ", n),
            HydeError::LayoutCycle(n) => quote("Layout chain returns to ", n),
            HydeError::LayoutUnnamed(p) => quote("Layout file has no name: ", p),
            HydeError::FileNotUtf8(p) => quote("File is not valid UTF-8: ", p),
            HydeError::UnexpectedFilePath(p) => quote("File not in expected directory: ", p),
            HydeError::BinaryContent(p) => String::from_str("Cannot set content of a binary file: ").concat(
                p.as_str(),
            ),
            HydeError::NotConvertible => String::from_str("Value has no template form"),
            HydeError::Glob(m) => String::from_str("Invalid glob: ").concat(m.as_str()),
            HydeError::External(m) => m.clone(),
        }
    }
}

impl Error {
    /// The full message: each context, outermost first, then the kind.
    pub fn message(&self) -> (r: String)
        ensures
            r@ == message_of(self.context@, self.kind),
    {
        let mut r = self.kind.describe();
        let mut i: usize = 0;
        while i < self.context.len()
            invariant
                i <= self.context@.len(),
                r@ == message_of(self.context@.subrange(0, i as int), self.kind),
            decreases self.context@.len() - i,
        {
            let ghost prefix = self.context@.subrange(0, i + 1);
            assert(prefix.drop_last() =~= self.context@.subrange(0, i as int));
            let mut m = self.context[i].clone();
            m.append(": ");
            m.append(r.as_str());
            r = m;
            i = i + 1;
        }
        assert(self.context@.subrange(0, i as int) =~= self.context@);
        r
    }
}

/// A context string that is only built when an error needs it.
pub trait LazyContext {
    fn eval(self) -> String;
}

impl LazyContext for String {
    fn eval(self) -> String {
        self
    }
}

impl<'a> LazyContext for &'a str {
    fn eval(self) -> String {
        self.to_owned()
    }
}

/// Wraps the error of a result, if any, in a context.
pub fn with_context<T, C: LazyContext>(r: Result<T, Error>, context: C) -> (out: Result<T, Error>)
    ensures
        r is Ok ==> out == r,
        r matches Err(e) ==> out matches Err(o) && o.kind == e.kind && o.context@.len()
            == e.context@.len() + 1 && o.context@.subrange(0, e.context@.len() as int)
            == e.context@,
{
    match r {
        Ok(v) => Ok(v),
        Err(e) => {
            let c = context.eval();
            let o = e.with_context(c);
            assert(o.context@.subrange(0, o.context@.len() - 1) =~= e.context@);
            Err(o)
        },
    }
}

} // verus!
