use vstd::prelude::*;
use crate::bridge::{
    ScriptValue, ScriptTable, ScriptList, ScriptFields, ScriptIndexed, script_of, value_of, to_script, from_script,
    bridge_round_trip,
};
use crate::error::{Error, HydeError};
use crate::metadata::{Metadata, map_of};
use crate::path::RelPath;
use crate::value::Value;

verus! {

/// A file body: text, or binary content that is only ever copied.
#[derive(Debug, Clone)]
pub enum FileContent<T> {
    Utf8(T),
    Binary,
}

impl<T> FileContent<T> {
    /// The text, if the content is text.
    pub open spec fn spec_into_option(self) -> Option<T> {
        match self {
            FileContent::Utf8(t) => Some(t),
            FileContent::Binary => None,
        }
    }

    /// The text, if the content is text.
    pub fn as_option(&self) -> (r: Option<&T>)
        ensures
            r == (match self {
                FileContent::Utf8(t) => Some(t),
                FileContent::Binary => None,
            }),
    {
        match self {
            FileContent::Utf8(t) => Some(t),
            FileContent::Binary => None,
        }
    }

    /// The text, if the content is text.
    pub fn into_option(self) -> (r: Option<T>)
        ensures
            r == (match self {
                FileContent::Utf8(t) => Some(t),
                FileContent::Binary => None,
            }),
    {
        match self {
            FileContent::Utf8(t) => Some(t),
            FileContent::Binary => None,
        }
    }

    /// Whether the content is binary.
    pub fn is_binary(&self) -> (r: bool)
        ensures
            r == (self is Binary),
    {
        match self {
            FileContent::Utf8(_) => false,
            FileContent::Binary => true,
        }
    }
}

impl<T> From<Option<T>> for FileContent<T> {
    fn from(o: Option<T>) -> (r: FileContent<T>) {
        match o {
            Some(t) => FileContent::Utf8(t),
            None => FileContent::Binary,
        }
    }
}

impl<T> vstd::std_specs::convert::FromSpecImpl<Option<T>> for FileContent<T> {
    open spec fn obeys_from_spec() -> bool {
        true
    }

    open spec fn from_spec(o: Option<T>) -> FileContent<T> {
        match o {
            Some(t) => FileContent::Utf8(t),
            None => FileContent::Binary,
        }
    }
}

impl<T> From<FileContent<T>> for Option<T> {
    fn from(c: FileContent<T>) -> (r: Option<T>) {
        match c {
            FileContent::Utf8(t) => Some(t),
            FileContent::Binary => None,
        }
    }
}

impl<T> vstd::std_specs::convert::FromSpecImpl<FileContent<T>> for Option<T> {
    open spec fn obeys_from_spec() -> bool {
        true
    }

    open spec fn from_spec(c: FileContent<T>) -> Option<T> {
        c.spec_into_option()
    }
}

impl<T: Default> Default for FileContent<T> {
    /// Empty text: the default value of the text type.
    fn default() -> (r: FileContent<T>)
        ensures
            r is Utf8,
    {
        FileContent::Utf8(T::default())
    }
}

/// Copies a file body.
pub fn copy_content(c: &FileContent<String>) -> (r: FileContent<String>)
    ensures
        r == *c,
{
    match c {
        FileContent::Utf8(t) => FileContent::Utf8(t.clone()),
        FileContent::Binary => FileContent::Binary,
    }
}

/// Where a file comes from: a source file, or script code.
#[derive(Debug, Clone, PartialEq)]
pub enum FileSource {
    Src(RelPath),
    Lua,
}

impl FileSource {
    /// The source path, if the file has one.
    pub fn as_option(&self) -> (r: Option<&RelPath>)
        ensures
            r == (match self {
                FileSource::Src(p) => Some(p),
                FileSource::Lua => None,
            }),
    {
        match self {
            FileSource::Src(p) => Some(p),
            FileSource::Lua => None,
        }
    }

    /// The source path, if the file has one.
    pub fn into_option(self) -> (r: Option<RelPath>)
        ensures
            r == (match self {
                FileSource::Src(p) => Some(p),
                FileSource::Lua => None,
            }),
    {
        match self {
            FileSource::Src(p) => Some(p),
            FileSource::Lua => None,
        }
    }

    /// Whether the file was made by script code.
    pub fn is_lua(&self) -> (r: bool)
        ensures
            r == (self is Lua),
    {
        matches!(self, FileSource::Lua)
    }
}

/// A file as the collector found it.
#[derive(Debug)]
pub struct JakeFileT1 {
    pub source: RelPath,
    pub front_matter: Metadata,
    pub content: FileContent<String>,
}

/// A file during the scripting stage. Post-processors are handles of
/// callables of the scripting runtime, in the order they run.
#[derive(Debug)]
pub struct JakeFileT2 {
    pub source: FileSource,
    pub output: RelPath,
    pub front_matter: Metadata,
    pub content: FileContent<String>,
    pub to_write: bool,
    pub post_processor: Vec<u64>,
}

/// A file as scripts see it: a host object whose metadata is a table.
#[derive(Debug)]
pub struct FileUserData {
    pub to_write: bool,
    pub source: Option<RelPath>,
    pub output: RelPath,
    pub content: Option<String>,
    pub data: ScriptValue,
    pub post_processor: Vec<u64>,
}

/// A collected file enters the scripting stage: it is to be written, to the
/// path it was read from, with no post-processor.
pub fn to_mutable(f: JakeFileT1) -> (r: JakeFileT2)
    ensures
        r.source == FileSource::Src(f.source),
        r.output == f.source,
        r.front_matter == f.front_matter,
        r.content == f.content,
        r.to_write,
        r.post_processor@.len() == 0,
{
    let output = f.source.copy();
    JakeFileT2 {
        source: FileSource::Src(f.source),
        output,
        front_matter: f.front_matter,
        content: f.content,
        to_write: true,
        post_processor: Vec::new(),
    }
}

/// The string-keyed part that metadata pairs become: the last pair comes
/// first, so that it is the one a lookup finds.
pub open spec fn fields_from_pairs(p: Seq<(String, Value)>) -> ScriptFields
    decreases p.len(),
{
    if p.len() == 0 {
        ScriptFields::Empty
    } else {
        ScriptFields::Cons(
            p.last().0,
            Box::new(script_of(p.last().1)),
            Box::new(fields_from_pairs(p.drop_last())),
        )
    }
}

/// The metadata that a string-keyed part stands for, if every value has a
/// template form; an earlier field shadows a later one with the same key.
pub open spec fn fields_map(f: ScriptFields) -> Option<Map<Seq<char>, Value>>
    decreases f,
{
    match f {
        ScriptFields::Empty => Some(Map::empty()),
        ScriptFields::Cons(k, v, t) => match (fields_map(*t), value_of(*v)) {
            (Some(m), Some(x)) => Some(m.insert(k@, x)),
            _ => None,
        },
    }
}

/// The metadata that a table stands for: a table with string keys only,
/// whose values all have a template form.
pub open spec fn table_metadata(d: ScriptValue) -> Option<Map<Seq<char>, Value>> {
    match d {
        ScriptValue::Table(t) => if t.seq is Empty && t.indexed is Empty {
            fields_map(t.fields)
        } else {
            None
        },
        _ => None,
    }
}

/// The table that metadata becomes.
pub open spec fn metadata_table(m: Metadata) -> ScriptValue {
    ScriptValue::Table(
        ScriptTable { seq: ScriptList::Empty, indexed: ScriptIndexed::Empty, fields: fields_from_pairs(m.entries@), array: false },
    )
}

/// Metadata pairs that become a table and come back give the map they stood
/// for.
pub proof fn lemma_fields_round_trip(p: Seq<(String, Value)>)
    ensures
        fields_map(fields_from_pairs(p)) == Some(map_of(p)),
    decreases p.len(),
{
    if p.len() > 0 {
        lemma_fields_round_trip(p.drop_last());
        bridge_round_trip(p.last().1);
    }
}

/// Converts key-value pairs into the string-keyed part of a table.
pub fn pairs_to_fields(p: &Vec<(String, Value)>) -> (r: ScriptFields)
    ensures
        r == fields_from_pairs(p@),
{
    let mut fields = ScriptFields::Empty;
    let mut i: usize = 0;
    while i < p.len()
        invariant
            i <= p@.len(),
            fields == fields_from_pairs(p@.subrange(0, i as int)),
        decreases p@.len() - i,
    {
        let ghost before = p@.subrange(0, i as int);
        let ghost after = p@.subrange(0, i + 1);
        assert(after.drop_last() =~= before);
        let k = p[i].0.clone();
        let v = to_script(&p[i].1);
        fields = ScriptFields::Cons(k, Box::new(v), Box::new(fields));
        i = i + 1;
    }
    assert(p@.subrange(0, i as int) =~= p@);
    fields
}

/// Converts metadata into a table.
pub fn metadata_to_table(m: &Metadata) -> (r: ScriptValue)
    ensures
        r == metadata_table(*m),
{
    let fields = pairs_to_fields(&m.entries);
    ScriptValue::Table(ScriptTable { seq: ScriptList::Empty, indexed: ScriptIndexed::Empty, fields, array: false })
}

/// Converts a string-keyed part into metadata.
fn fields_to_metadata(f: &ScriptFields) -> (r: Option<Metadata>)
    ensures
        r matches Some(m) ==> fields_map(*f) == Some(m@),
        r is None ==> fields_map(*f) is None,
    decreases f,
{
    match f {
        ScriptFields::Empty => Some(Metadata::new()),
        ScriptFields::Cons(k, v, t) => {
            match fields_to_metadata(t) {
                Some(mut m) => match from_script(v) {
                    Some(x) => {
                        m.insert(k.clone(), x);
                        Some(m)
                    },
                    None => None,
                },
                None => None,
            }
        },
    }
}

/// Converts a table into metadata.
pub fn table_to_metadata(d: &ScriptValue) -> (r: Option<Metadata>)
    ensures
        r matches Some(m) ==> table_metadata(*d) == Some(m@),
        r is None ==> table_metadata(*d) is None,
{
    match d {
        ScriptValue::Table(t) => {
            if matches!(t.seq, ScriptList::Empty) && matches!(t.indexed, ScriptIndexed::Empty) {
                fields_to_metadata(&t.fields)
            } else {
                None
            }
        },
        _ => None,
    }
}

/// `h` is the host object made from `f`.
pub open spec fn hosts(h: FileUserData, f: JakeFileT2) -> bool {
    &&& h.to_write == f.to_write
    &&& h.source == (match f.source {
        FileSource::Src(p) => Some(p),
        FileSource::Lua => None,
    })
    &&& h.output == f.output
    &&& h.content == (match f.content {
        FileContent::Utf8(t) => Some(t),
        FileContent::Binary => None,
    })
    &&& h.data == metadata_table(f.front_matter)
    &&& h.post_processor@ == f.post_processor@
}

/// `r` is what the host object `h` converts back into: a file with the same
/// fields, or an error where its data has no metadata form.
pub open spec fn converts_back(h: FileUserData, r: Result<JakeFileT2, Error>) -> bool {
    match table_metadata(h.data) {
        Some(m) => r matches Ok(f) && {
            &&& f.to_write == h.to_write
            &&& f.source == (match h.source {
                Some(p) => FileSource::Src(p),
                None => FileSource::Lua,
            })
            &&& f.output == h.output
            &&& f.content == (match h.content {
                Some(t) => FileContent::Utf8(t),
                None => FileContent::Binary,
            })
            &&& f.front_matter@ == m
            &&& f.post_processor@ == h.post_processor@
        },
        None => r matches Err(e) && e.kind == HydeError::NotConvertible && e.context@.len() == 0,
    }
}

impl FileUserData {
    /// The host object for a file.
    pub fn from_mutable(f: JakeFileT2) -> (r: FileUserData)
        ensures
            hosts(r, f),
    {
        let data = metadata_to_table(&f.front_matter);
        FileUserData {
            to_write: f.to_write,
            source: f.source.into_option(),
            output: f.output,
            content: f.content.into_option(),
            data,
            post_processor: f.post_processor,
        }
    }

    /// The host object for a collected file.
    pub fn from_file(f: JakeFileT1) -> (r: FileUserData)
        ensures
            r.to_write,
            r.source == Some(f.source),
            r.output == f.source,
            r.content == f.content.spec_into_option(),
            r.data == metadata_table(f.front_matter),
            r.post_processor@.len() == 0,
    {
        FileUserData::from_mutable(to_mutable(f))
    }

    /// Converts the host object back into a file.
    pub fn into_file(self) -> (r: Result<JakeFileT2, Error>)
        ensures
            converts_back(self, r),
    {
        let front_matter = match table_to_metadata(&self.data) {
            Some(m) => m,
            None => {
                return Err(Error::new(HydeError::NotConvertible));
            },
        };
        let source = match self.source {
            Some(p) => FileSource::Src(p),
            None => FileSource::Lua,
        };
        let content = match self.content {
            Some(t) => FileContent::Utf8(t),
            None => FileContent::Binary,
        };
        Ok(
            JakeFileT2 {
                source,
                output: self.output,
                front_matter,
                content,
                to_write: self.to_write,
                post_processor: self.post_processor,
            },
        )
    }
}

impl FileUserData {
    /// A file made by script code: an empty text body, empty metadata, the
    /// empty output path and no post-processor unless given.
    pub fn new(
        content: Option<String>,
        data: Option<ScriptValue>,
        output: Option<RelPath>,
        post_processor: Vec<u64>,
    ) -> (r: FileUserData)
        ensures
            r.to_write,
            r.source is None,
            r.content is Some,
            r.content->0@ == (match content {
                Some(t) => t@,
                None => Seq::<char>::empty(),
            }),
            data matches Some(d) ==> r.data == d,
            data is None ==> table_metadata(r.data) == Some(Map::<Seq<char>, Value>::empty()),
            r.output@ == (match output {
                Some(p) => p@,
                None => Seq::<char>::empty(),
            }),
            r.post_processor@ == post_processor@,
    {
        let content = match content {
            Some(t) => t,
            None => String::new(),
        };
        let data = match data {
            Some(d) => d,
            None => ScriptValue::Table(
                ScriptTable { seq: ScriptList::Empty, indexed: ScriptIndexed::Empty, fields: ScriptFields::Empty, array: false },
            ),
        };
        let output = match output {
            Some(p) => p,
            None => RelPath::empty(),
        };
        FileUserData { to_write: true, source: None, output, content: Some(content), data, post_processor }
    }

    /// Whether the file has a text body.
    pub fn is_text(&self) -> (r: bool)
        ensures
            r == (self.content is Some),
    {
        self.content.is_some()
    }

    /// Whether the file is binary.
    pub fn is_binary(&self) -> (r: bool)
        ensures
            r == (self.content is None),
    {
        self.content.is_none()
    }

    /// Replaces the body of a text file; a binary file refuses, naming its
    /// source path (or, without one, its output path).
    pub fn set_content(&mut self, body: String) -> (r: Result<(), Error>)
        ensures
            old(self).content is Some ==> r is Ok && final(self).content == Some(body)
                && final(self).to_write == old(self).to_write && final(self).output == old(self).output
                && final(self).source == old(self).source && final(self).data == old(self).data
                && final(self).post_processor == old(self).post_processor,
            old(self).content is None ==> (r matches Err(e) && *final(self) == *old(self)
                && e.context@.len() == 0 && e.kind == HydeError::BinaryContent(match old(self).source {
                    Some(p) => p.text,
                    None => old(self).output.text,
                })),
    {
        if self.content.is_some() {
            self.content = Some(body);
            Ok(())
        } else {
            let name = match &self.source {
                Some(p) => p.text.clone(),
                None => self.output.text.clone(),
            };
            Err(Error::new(HydeError::BinaryContent(name)))
        }
    }

    /// Sets the output path from text, normalized.
    pub fn set_output_text(&mut self, path: &str)
        ensures
            final(self).output@ == crate::path::normalized(path@),
            final(self).to_write == old(self).to_write,
            final(self).source == old(self).source,
            final(self).content == old(self).content,
            final(self).data == old(self).data,
            final(self).post_processor == old(self).post_processor,
    {
        self.output = RelPath::new(path);
    }

    /// Marks the file as not to be written.
    pub fn ignore(&mut self)
        ensures
            !final(self).to_write,
            final(self).source == old(self).source,
            final(self).output == old(self).output,
            final(self).content == old(self).content,
            final(self).data == old(self).data,
            final(self).post_processor == old(self).post_processor,
    {
        self.to_write = false;
    }
}

/// A file that goes to the scripting runtime and comes back without a
/// script touching it comes back as the same file: same source, output path,
/// body, metadata, flag and post-processors.
pub proof fn host_round_trip(f: JakeFileT2, h: FileUserData, r: Result<JakeFileT2, Error>)
    requires
        hosts(h, f),
        converts_back(h, r),
    ensures
        r matches Ok(g) && {
            &&& g.source == f.source
            &&& g.output == f.output
            &&& g.content == f.content
            &&& g.front_matter@ == f.front_matter@
            &&& g.to_write == f.to_write
            &&& g.post_processor@ == f.post_processor@
        },
{
    lemma_fields_round_trip(f.front_matter.entries@);
}

/// Keeps the files that are to be written, in order.
pub fn retain_writable(files: Vec<JakeFileT2>) -> (r: Vec<JakeFileT2>)
    ensures
        r@ == files@.filter(|f: JakeFileT2| f.to_write),
{
    let ghost whole = files@;
    let ghost keep = |f: JakeFileT2| f.to_write;
    let mut rest = files;
    let mut out: Vec<JakeFileT2> = Vec::new();
    let ghost mut t: int = 0;
    while rest.len() > 0
        invariant
            keep == (|f: JakeFileT2| f.to_write),
            0 <= t <= whole.len(),
            rest@ == whole.subrange(t, whole.len() as int),
            out@ == whole.subrange(0, t).filter(keep),
        decreases rest@.len(),
    {
        let f = rest.remove(0);
        proof {
            assert(f == whole[t]);
            assert(whole.subrange(0, t + 1) =~= whole.subrange(0, t).push(f));
            whole.subrange(0, t).lemma_filter_push(f, keep);
            t = t + 1;
            assert(rest@ =~= whole.subrange(t, whole.len() as int));
        }
        if f.to_write {
            out.push(f);
        }
    }
    assert(whole.subrange(0, t) =~= whole);
    out
}

/// Whether a binary file is copied to its output: when the source is newer
/// than the output, or when either time is unknown (no output yet, or a file
/// system that keeps none).
pub fn should_copy(source_modified: Option<u128>, output_modified: Option<u128>) -> (r: bool)
    ensures
        r == !(source_modified is Some && output_modified is Some && source_modified->0
            <= output_modified->0),
{
    match (source_modified, output_modified) {
        (Some(s), Some(o)) => s > o,
        _ => true,
    }
}

} // verus!
