use vstd::prelude::*;
use crate::error::{Error, HydeError};
use crate::metadata::{Metadata, merged, str_eq};
use crate::files::FileContent;
use crate::frontmatter::FrontmatterSplit;
use crate::path::{RelPath, extension_of, stem_of};
use crate::value::{Value, decimal, int_text};

verus! {

/// The HTML that the markdown crate makes of a text with this library's
/// options.
pub uninterp spec fn markdown_html(s: Seq<char>) -> Seq<char>;

/// Relies on `markdown::to_html_with_options`: GFM constructs without
/// indented code, raw HTML and any link protocol let through, no tag filter.
/// The crate documents that it never errors on Markdown; errors only come
/// from MDX, which these options leave off.
#[verifier::external_body]
fn markdown_to_html(s: &str) -> (r: Result<String, String>)
    ensures
        r is Ok,
        r matches Ok(h) ==> h@ == markdown_html(s@),
{
    let options = markdown::Options {
        compile: markdown::CompileOptions {
            allow_dangerous_html: true,
            allow_dangerous_protocol: true,
            gfm_tagfilter: false,
            ..markdown::CompileOptions::gfm()
        },
        parse: markdown::ParseOptions {
            constructs: markdown::Constructs { code_indented: false, ..markdown::Constructs::gfm() },
            ..markdown::ParseOptions::gfm()
        },
    };
    markdown::to_html_with_options(s, &options).map_err(|m| m.to_string())
}

/// Renders Markdown to HTML.
pub fn render_markdown(content: &str) -> (r: String)
    ensures
        r@ == markdown_html(content@),
{
    match markdown_to_html(content) {
        Ok(h) => h,
        Err(_) => String::new(),
    }
}

/// The name of the project-level scope file.
pub const GLOBAL_SCOPE_FILE: &'static str = "hyde.yml";

/// The label of a file that script code made, used where a path would be.
pub const SCRIPT_FILE_LABEL: &'static str = "Lua-generated File";

/// A layout: a named template that wraps rendered content.
#[derive(Debug)]
pub struct Layout {
    pub name: String,
    pub path: RelPath,
    pub metadata: Option<Metadata>,
}

/// A layout file as read, before its header is parsed and its body
/// compiled.
#[derive(Debug)]
pub struct LayoutSource {
    pub name: String,
    pub path: RelPath,
    pub header: Option<String>,
    pub body: String,
}

/// Prepares a layout file found at `path` (relative to the layout
/// directory): it is named by its file stem and must be text.
pub fn layout_source(path: RelPath, content: FileContent<FrontmatterSplit>) -> (r: Result<
    LayoutSource,
    Error,
>)
    ensures
        stem_of(path@) is None ==> (r matches Err(e) && e.kind == HydeError::LayoutUnnamed(path.text)),
        stem_of(path@) is Some && content is Binary ==> (r matches Err(e) && e.kind
            == HydeError::FileNotUtf8(path.text)),
        content matches FileContent::Utf8(split) ==> (stem_of(path@) is Some ==> (r matches Ok(l) && {
            &&& stem_of(path@) == Some(l.name@)
            &&& l.path == path
            &&& l.header == split.header
            &&& l.body == split.body
        })),
{
    let name = match path.file_stem() {
        Some(n) => n,
        None => {
            let t = path.text.clone();
            return Err(Error::new(HydeError::LayoutUnnamed(t)));
        },
    };
    match content {
        FileContent::Utf8(split) => Ok(LayoutSource { name, path, header: split.header, body: split.body }),
        FileContent::Binary => {
            let t = path.text.clone();
            Err(Error::new(HydeError::FileNotUtf8(t)))
        },
    }
}

/// The layout that a name selects: the last one loaded under it.
pub open spec fn find_layout(l: Seq<Layout>, name: Seq<char>) -> Option<int>
    decreases l.len(),
{
    if l.len() == 0 {
        None
    } else if l.last().name@ == name {
        Some(l.len() - 1)
    } else {
        find_layout(l.drop_last(), name)
    }
}

proof fn lemma_find_layout_bound(l: Seq<Layout>, name: Seq<char>)
    ensures
        find_layout(l, name) matches Some(i) ==> 0 <= i < l.len() && l[i].name@ == name,
    decreases l.len(),
{
    if l.len() > 0 {
        lemma_find_layout_bound(l.drop_last(), name);
    }
}

/// A chain of distinct layout names, each of which selects a loaded layout,
/// is no longer than the layout table. Each step of the render loop adds a
/// name that selects a layout and is not yet in the chain, so a file goes
/// through at most as many layouts as are loaded, and resolution ends.
pub proof fn layout_chain_is_bounded(chain: Seq<Seq<char>>, layouts: Seq<Layout>)
    requires
        chain.no_duplicates(),
        forall|i: int| 0 <= i < chain.len() ==> #[trigger] find_layout(layouts, chain[i]) is Some,
    ensures
        chain.len() <= layouts.len(),
{
    broadcast use vstd::seq_lib::seq_to_set_is_finite;
    let names = layouts.map_values(|l: Layout| l.name@);
    chain.unique_seq_to_set();
    names.lemma_cardinality_of_set();
    assert forall|x: Seq<char>| chain.to_set().contains(x) implies names.to_set().contains(x) by {
        let i = choose|i: int| 0 <= i < chain.len() && chain[i] == x;
        assert(find_layout(layouts, chain[i]) is Some);
        lemma_find_layout_bound(layouts, x);
        let j = find_layout(layouts, x)->0;
        assert(names[j] == x);
    }
    vstd::set_lib::lemma_len_subset(chain.to_set(), names.to_set());
}

/// The loaded layouts.
#[derive(Debug)]
pub struct Layouts {
    pub list: Vec<Layout>,
}

impl Layouts {
    /// The position of the layout a name selects.
    pub fn find(&self, name: &str) -> (r: Option<usize>)
        ensures
            r matches Some(i) ==> find_layout(self.list@, name@) == Some(i as int) && i
                < self.list@.len() && self.list@[i as int].name@ == name@,
            r is None ==> find_layout(self.list@, name@) is None,
    {
        let mut i: usize = self.list.len();
        assert(self.list@.subrange(0, i as int) =~= self.list@);
        proof {
            lemma_find_layout_bound(self.list@, name@);
        }
        while i > 0
            invariant
                i <= self.list@.len(),
                find_layout(self.list@, name@) == find_layout(self.list@.subrange(0, i as int), name@),
            decreases i,
        {
            let ghost prefix = self.list@.subrange(0, i as int);
            assert(prefix.drop_last() =~= self.list@.subrange(0, i - 1));
            if str_eq(self.list[i - 1].name.as_str(), name) {
                return Some(i - 1);
            }
            i = i - 1;
        }
        None
    }
}

/// The value of a key in a stack of layers: the topmost layer that holds it
/// wins.
pub open spec fn scope_lookup(layers: Seq<Map<Seq<char>, Value>>, k: Seq<char>) -> Option<Value>
    decreases layers.len(),
{
    if layers.len() == 0 {
        None
    } else if layers.last().contains_key(k) {
        Some(layers.last()[k])
    } else {
        scope_lookup(layers.drop_last(), k)
    }
}

/// A stack of layers merged from the bottom up into one map.
pub open spec fn flattened(layers: Seq<Map<Seq<char>, Value>>) -> Map<Seq<char>, Value>
    decreases layers.len(),
{
    if layers.len() == 0 {
        Map::empty()
    } else {
        merged(flattened(layers.drop_last()), layers.last())
    }
}

/// Whether a layer stack says to wrap the output in a layout: its `layout`
/// value is there and is not nil.
pub open spec fn wants_layout(layers: Seq<Map<Seq<char>, Value>>) -> bool {
    scope_lookup(layers, "layout"@) matches Some(v) && !(v is Nil)
}

/// The layers of the scope a layout is rendered in: the layout's own
/// metadata at the bottom, then the layers that led to it with their
/// `layout` key cleared, then the rendered content under `content`.
pub open spec fn layout_layers(
    below: Seq<Map<Seq<char>, Value>>,
    layout_metadata: Map<Seq<char>, Value>,
    content: String,
) -> Seq<Map<Seq<char>, Value>> {
    seq![layout_metadata] + below.map_values(|m: Map<Seq<char>, Value>| m.remove("layout"@)) + seq![
        Map::empty().insert("content"@, Value::Str(content)),
    ]
}

/// A template scope: metadata layers, bottom first.
#[derive(Debug)]
pub struct Scope {
    pub layers: Vec<Metadata>,
}

impl Scope {
    /// The layers as maps, bottom first.
    pub open spec fn maps(&self) -> Seq<Map<Seq<char>, Value>> {
        self.layers@.map_values(|m: Metadata| m@)
    }

    /// The value of a key: from the topmost layer that holds it.
    pub fn get(&self, key: &str) -> (r: Option<&Value>)
        ensures
            r matches Some(v) ==> scope_lookup(self.maps(), key@) == Some(*v),
            r is None ==> scope_lookup(self.maps(), key@) is None,
    {
        let mut i: usize = self.layers.len();
        assert(self.maps().subrange(0, i as int) =~= self.maps());
        while i > 0
            invariant
                i <= self.layers@.len(),
                scope_lookup(self.maps(), key@) == scope_lookup(self.maps().subrange(0, i as int), key@),
            decreases i,
        {
            let ghost prefix = self.maps().subrange(0, i as int);
            assert(prefix.drop_last() =~= self.maps().subrange(0, i - 1));
            match self.layers[i - 1].get(key) {
                Some(v) => {
                    return Some(v);
                },
                None => {},
            }
            i = i - 1;
        }
        None
    }

    /// The layers merged into one map, which is what the template engine
    /// renders against.
    pub fn flatten(&self) -> (r: Metadata)
        ensures
            r@ == flattened(self.maps()),
    {
        let mut m = Metadata::new();
        let mut i: usize = 0;
        while i < self.layers.len()
            invariant
                i <= self.layers@.len(),
                m@ == flattened(self.maps().subrange(0, i as int)),
            decreases self.layers@.len() - i,
        {
            let ghost prefix = self.maps().subrange(0, i + 1);
            assert(prefix.drop_last() =~= self.maps().subrange(0, i as int));
            m.extend(self.layers[i].copy());
            i = i + 1;
        }
        assert(self.maps().subrange(0, i as int) =~= self.maps());
        m
    }
}

/// Merges metadata maps in order, later ones winning.
pub fn combine_frontmatters(objs: Vec<Metadata>) -> (r: Metadata)
    ensures
        r@ == flattened(objs@.map_values(|m: Metadata| m@)),
{
    let scope = Scope { layers: objs };
    scope.flatten()
}

/// The flattened scope holds, for each key, the value that a lookup in the
/// layer stack finds.
pub proof fn flatten_agrees_with_lookup(layers: Seq<Map<Seq<char>, Value>>, k: Seq<char>)
    ensures
        flattened(layers).contains_key(k) == (scope_lookup(layers, k) is Some),
        scope_lookup(layers, k) matches Some(v) ==> flattened(layers)[k] == v,
    decreases layers.len(),
{
    if layers.len() > 0 {
        flatten_agrees_with_lookup(layers.drop_last(), k);
    }
}

proof fn lemma_lookup_absent(layers: Seq<Map<Seq<char>, Value>>, k: Seq<char>)
    requires
        forall|i: int| 0 <= i < layers.len() ==> !(#[trigger] layers[i]).contains_key(k),
    ensures
        scope_lookup(layers, k) is None,
    decreases layers.len(),
{
    if layers.len() > 0 {
        lemma_lookup_absent(layers.drop_last(), k);
    }
}

/// A layout whose own metadata names no layout ends the chain: in the scope
/// it is rendered in, whatever content it receives and whatever led to it,
/// no layout is asked for, so its rendering is the final output.
pub proof fn layout_without_layout_key_is_final(
    below: Seq<Map<Seq<char>, Value>>,
    layout_metadata: Map<Seq<char>, Value>,
    content: String,
)
    requires
        !layout_metadata.contains_key("layout"@),
    ensures
        !wants_layout(layout_layers(below, layout_metadata, content)),
{
    let l = layout_layers(below, layout_metadata, content);
    reveal_strlit("layout");
    reveal_strlit("content");
    assert("content"@ != "layout"@) by {
        assert("content"@[0] != "layout"@[0]);
    }
    assert forall|i: int| 0 <= i < l.len() implies !(#[trigger] l[i]).contains_key("layout"@) by {
        if 0 < i < l.len() - 1 {
            assert(l[i] == below[i - 1].remove("layout"@));
        }
    }
    lemma_lookup_absent(l, "layout"@);
}

/// Merging any number of maps in order: the result holds exactly the keys
/// of the maps, and each key takes its value from the last map that holds it.
pub proof fn combine_later_wins(ms: Seq<Map<Seq<char>, Value>>, k: Seq<char>)
    ensures
        flattened(ms).contains_key(k) == (exists|i: int| 0 <= i < ms.len() && #[trigger] ms[i].contains_key(k)),
        forall|j: int|
            0 <= j < ms.len() && (#[trigger] ms[j]).contains_key(k) && (forall|i: int|
                j < i < ms.len() ==> !(#[trigger] ms[i]).contains_key(k)) ==> flattened(ms)[k] == ms[j][k],
    decreases ms.len(),
{
    if ms.len() > 0 {
        let d = ms.drop_last();
        combine_later_wins(d, k);
        assert forall|i: int| 0 <= i < d.len() implies d[i] == ms[i] by {}
        if !ms.last().contains_key(k) {
            assert(exists|i: int| 0 <= i < ms.len() && #[trigger] ms[i].contains_key(k) ==> exists|i: int|
                0 <= i < d.len() && #[trigger] d[i].contains_key(k));
            assert forall|j: int|
                0 <= j < ms.len() && (#[trigger] ms[j]).contains_key(k) && (forall|i: int|
                    j < i < ms.len() ==> !(#[trigger] ms[i]).contains_key(k)) implies flattened(ms)[k]
                == ms[j][k] by {
                assert(j < ms.len() - 1);
                assert(d[j] == ms[j]);
                assert forall|i: int| j < i < d.len() implies !(#[trigger] d[i]).contains_key(k) by {
                    assert(d[i] == ms[i]);
                }
            }
        } else {
            assert(ms[ms.len() - 1].contains_key(k));
        }
    }
}

/// Merging is associative through `flattened`: merging `a` and `b` first,
/// or `b` and `c` first, gives the merge of all three in order.
pub proof fn combine_associative(
    a: Map<Seq<char>, Value>,
    b: Map<Seq<char>, Value>,
    c: Map<Seq<char>, Value>,
)
    ensures
        flattened(seq![flattened(seq![a, b]), c]) == flattened(seq![a, b, c]),
        flattened(seq![a, flattened(seq![b, c])]) == flattened(seq![a, b, c]),
{
    assert(seq![a, b].drop_last() =~= seq![a]);
    assert(seq![a].drop_last() =~= Seq::<Map<Seq<char>, Value>>::empty());
    assert(seq![b, c].drop_last() =~= seq![b]);
    assert(seq![b].drop_last() =~= Seq::<Map<Seq<char>, Value>>::empty());
    assert(seq![a, b, c].drop_last() =~= seq![a, b]);
    let e = Seq::<Map<Seq<char>, Value>>::empty();
    assert(flattened(e) == Map::<Seq<char>, Value>::empty());
    assert(flattened(seq![a]) =~= a);
    assert(flattened(seq![b]) =~= b);
    let ab = flattened(seq![a, b]);
    let bc = flattened(seq![b, c]);
    assert(ab =~= merged(a, b));
    assert(bc =~= merged(b, c));
    assert(flattened(seq![a, b, c]) == merged(ab, c));
    assert(seq![ab, c].drop_last() =~= seq![ab]);
    assert(seq![ab].drop_last() =~= e);
    assert(flattened(seq![ab]) =~= ab);
    assert(seq![a, bc].drop_last() =~= seq![a]);
    assert(flattened(seq![ab, c]) =~= flattened(seq![a, b, c]));
    assert(flattened(seq![a, bc]) == merged(a, bc));
    assert(merged(a, bc) =~= merged(ab, c));
}

proof fn lemma_lookup_concat(p: Seq<Map<Seq<char>, Value>>, q: Seq<Map<Seq<char>, Value>>, k: Seq<char>)
    ensures
        scope_lookup(p + q, k) == (if scope_lookup(q, k) is Some {
            scope_lookup(q, k)
        } else {
            scope_lookup(p, k)
        }),
    decreases q.len(),
{
    if q.len() == 0 {
        assert(p + q =~= p);
    } else {
        assert((p + q).drop_last() =~= p + q.drop_last());
        lemma_lookup_concat(p, q.drop_last(), k);
    }
}

proof fn lemma_lookup_without_layout(below: Seq<Map<Seq<char>, Value>>, k: Seq<char>)
    requires
        k != "layout"@,
    ensures
        scope_lookup(below.map_values(|m: Map<Seq<char>, Value>| m.remove("layout"@)), k)
            == scope_lookup(below, k),
    decreases below.len(),
{
    if below.len() > 0 {
        lemma_lookup_without_layout(below.drop_last(), k);
        assert(below.map_values(|m: Map<Seq<char>, Value>| m.remove("layout"@)).drop_last()
            =~= below.drop_last().map_values(|m: Map<Seq<char>, Value>| m.remove("layout"@)));
    }
}

/// In the scope a layout is rendered in, every key other than `layout` and
/// `content` keeps the value that the scope which asked for the layout gave
/// it; the layout's own metadata only fills in keys that scope lacks.
pub proof fn triggering_scope_wins(
    below: Seq<Map<Seq<char>, Value>>,
    layout_metadata: Map<Seq<char>, Value>,
    content: String,
    k: Seq<char>,
)
    requires
        k != "layout"@,
        k != "content"@,
    ensures
        scope_lookup(below, k) is Some ==> scope_lookup(layout_layers(below, layout_metadata, content), k)
            == scope_lookup(below, k),
        scope_lookup(below, k) is None ==> scope_lookup(layout_layers(below, layout_metadata, content), k)
            == (if layout_metadata.contains_key(k) {
            Some(layout_metadata[k])
        } else {
            None
        }),
{
    let mid = below.map_values(|m: Map<Seq<char>, Value>| m.remove("layout"@));
    let top = seq![Map::empty().insert("content"@, Value::Str(content))];
    let l = layout_layers(below, layout_metadata, content);
    assert(l == (seq![layout_metadata] + mid) + top);
    lemma_lookup_concat(seq![layout_metadata] + mid, top, k);
    assert(top.drop_last() =~= Seq::<Map<Seq<char>, Value>>::empty());
    assert(!top.last().contains_key(k));
    assert(scope_lookup(Seq::<Map<Seq<char>, Value>>::empty(), k) is None);
    assert(scope_lookup(top, k) is None);
    lemma_lookup_concat(seq![layout_metadata], mid, k);
    lemma_lookup_without_layout(below, k);
    assert(seq![layout_metadata].drop_last() =~= Seq::<Map<Seq<char>, Value>>::empty());
}

/// One pass of the render loop: the scope to render in, what is being
/// rendered (the file's own body, or a layout), and the layouts gone through.
#[derive(Debug)]
pub struct RenderFrame {
    pub scope: Scope,
    /// The file's source path; `None` for a file that script code made.
    pub source: Option<RelPath>,
    /// The layout being rendered; `None` while the file's own body is.
    pub layout: Option<usize>,
    /// The path of the layout being rendered.
    pub layout_path: Option<RelPath>,
    /// The names of the layouts gone through so far, in order.
    pub chain: Vec<String>,
}

/// What the render loop does next.
#[derive(Debug)]
pub enum Step {
    /// The output is final.
    Done(String),
    /// Render the layout of the new frame.
    Next(RenderFrame),
}

impl RenderFrame {
    /// The first pass over a file: project scope below, the file's metadata on
    /// top.
    pub fn start(global: Metadata, front_matter: Metadata, source: Option<RelPath>) -> (r: RenderFrame)
        ensures
            r.scope.maps() == seq![global@, front_matter@],
            r.source == source,
            r.layout is None,
            r.layout_path is None,
            r.chain@.len() == 0,
    {
        let ghost g = global@;
        let ghost f = front_matter@;
        let mut layers: Vec<Metadata> = Vec::new();
        layers.push(global);
        layers.push(front_matter);
        let r = RenderFrame {
            scope: Scope { layers },
            source,
            layout: None,
            layout_path: None,
            chain: Vec::new(),
        };
        assert(r.scope.maps() =~= seq![g, f]);
        r
    }

    /// Whether this pass renders the file's own body rather than a layout.
    pub fn is_top_level(&self) -> (r: bool)
        ensures
            r == (self.layout is None),
    {
        self.layout.is_none()
    }

    /// What names the pass in error messages: the file's path (or a fixed
    /// label for a file that script code made), followed by the path of the
    /// layout being rendered, if any.
    pub fn label(&self) -> (r: String)
        ensures
            r@ == frame_label(self.source, self.layout_path),
    {
        let mut r = match &self.source {
            Some(p) => p.text.clone(),
            None => String::from_str(SCRIPT_FILE_LABEL),
        };
        match &self.layout_path {
            Some(l) => {
                r.append(" + ");
                r.append(l.text.as_str());
            },
            None => {},
        }
        r
    }

    /// Whether this pass's output goes through Markdown conversion: the
    /// file's own body, when its source is a Markdown file.
    pub open spec fn converts_markdown(&self) -> bool {
        &&& self.layout is None
        &&& self.source is Some
        &&& extension_of(self.source->0@) == Some("md"@)
    }

    /// The output of a pass, once the template engine has rendered it:
    /// converted from Markdown where the pass calls for it, else unchanged.
    pub fn after_render(&self, rendered: String) -> (r: String)
        ensures
            self.converts_markdown() ==> r@ == markdown_html(rendered@),
            !self.converts_markdown() ==> r == rendered,
    {
        let md = match &self.source {
            Some(p) => self.layout.is_none() && p.is_markdown(),
            None => false,
        };
        if md {
            render_markdown(rendered.as_str())
        } else {
            rendered
        }
    }

    /// Decides what follows a pass whose final output is `output`. Without a
    /// non-nil `layout` in scope the output is final. Otherwise the layout
    /// its text names is rendered next, around the output; it must be loaded
    /// and must not have been gone through already. Errors carry the pass's
    /// label as context.
    pub fn next_step(self, output: String, layouts: &Layouts) -> (r: Result<Step, Error>)
        ensures
            !wants_layout(self.scope.maps()) ==> r == Ok::<Step, Error>(Step::Done(output)),
            wants_layout(self.scope.maps()) ==> match layout_name_of(
                scope_lookup(self.scope.maps(), "layout"@)->0,
            ) {
                None => r matches Err(e) && names_missing_layout(e.kind, Seq::empty()) && labelled(e, frame_label(self.source, self.layout_path)),
                Some(name) => match find_layout(layouts.list@, name) {
                    None => r matches Err(e) && names_missing_layout(e.kind, name) && labelled(e, frame_label(self.source, self.layout_path)),
                    Some(i) => if names_of(self.chain@).contains(name) {
                        r matches Err(e) && names_cycle(e.kind, name) && labelled(e, frame_label(self.source, self.layout_path))
                    } else {
                        r matches Ok(Step::Next(f)) && {
                            let l = layouts.list@[i];
                            &&& f.scope.maps() == layout_layers(
                                self.scope.maps(),
                                match l.metadata {
                                    Some(m) => m@,
                                    None => Map::empty(),
                                },
                                output,
                            )
                            &&& f.source == self.source
                            &&& f.layout == Some(i as usize)
                            &&& f.layout_path == Some(l.path)
                            &&& names_of(f.chain@) == names_of(self.chain@).push(name)
                        }
                    },
                },
            },
    {
        let label = self.label();
        let value = match self.scope.get("layout") {
            None => {
                return Ok(Step::Done(output));
            },
            Some(v) => v,
        };
        if matches!(value, Value::Nil) {
            return Ok(Step::Done(output));
        }
        let name = match layout_name(value) {
            Some(n) => n,
            None => {
                let e = Error::new(HydeError::LayoutNotFound(String::new())).with_context(label);
                assert(e.context@ =~= seq![e.context@[0]]);
                return Err(e);
            },
        };
        let i = match layouts.find(name.as_str()) {
            Some(i) => i,
            None => {
                let e = Error::new(HydeError::LayoutNotFound(name)).with_context(label);
                assert(e.context@ =~= seq![e.context@[0]]);
                return Err(e);
            },
        };
        if contains_name(&self.chain, name.as_str()) {
            let e = Error::new(HydeError::LayoutCycle(name)).with_context(label);
            assert(e.context@ =~= seq![e.context@[0]]);
            return Err(e);
        }
        let layout = &layouts.list[i];
        let base = match &layout.metadata {
            Some(m) => m.copy(),
            None => Metadata::new(),
        };
        let ghost below = self.scope.maps();
        let ghost base_map = base@;
        let mut layers: Vec<Metadata> = Vec::new();
        layers.push(base);
        let mut rest = self.scope.layers;
        let ghost all = rest@;
        let ghost mut t: int = 0;
        while rest.len() > 0
            invariant
                0 <= t <= all.len(),
                below == all.map_values(|m: Metadata| m@),
                rest@ == all.subrange(t, all.len() as int),
                layers@.len() == t + 1,
                layers@[0]@ == base_map,
                forall|j: int| 0 <= j < t ==> (#[trigger] layers@[j + 1])@ == all[j]@.remove("layout"@),
            decreases rest@.len(),
        {
            let mut m = rest.remove(0);
            proof {
                assert(m == all[t]);
            }
            m.remove("layout");
            proof {
                reveal_strlit("layout");
            }
            layers.push(m);
            proof {
                t = t + 1;
                assert(rest@ =~= all.subrange(t, all.len() as int));
            }
        }
        assert(t == all.len());
        let ghost middle = layers@;
        let mut top = Metadata::new();
        proof {
            reveal_strlit("content");
        }
        top.insert(String::from_str("content"), Value::Str(output));
        let ghost top_map = top@;
        assert(top_map =~= Map::empty().insert("content"@, Value::Str(output)));
        layers.push(top);
        let mut chain = self.chain;
        let ghost old_chain = chain@;
        chain.push(name);
        assert(names_of(chain@) =~= names_of(old_chain).push(name@));
        let f = RenderFrame {
            scope: Scope { layers },
            source: self.source,
            layout: Some(i),
            layout_path: Some(layout.path.copy()),
            chain,
        };
        proof {
            let want = layout_layers(below, base_map, output);
            let got = f.scope.maps();
            assert(got.len() == want.len());
            assert forall|j: int| 0 <= j < got.len() implies got[j] == want[j] by {
                if j == 0 {
                } else if j < got.len() - 1 {
                    assert(got[j] == middle[j]@);
                    assert(middle[(j - 1) + 1]@ == all[j - 1]@.remove("layout"@));
                    assert(want[j] == below[j - 1].remove("layout"@));
                } else {
                    assert(got[j] == top_map);
                }
            }
            assert(got =~= want);
        }
        Ok(Step::Next(f))
    }
}

/// The text a `layout` value names a layout by: a string is itself, an
/// integer its decimal text, a boolean `true` or `false`. Other values name
/// no layout.
pub open spec fn layout_name_of(v: Value) -> Option<Seq<char>> {
    match v {
        Value::Str(s) => Some(s@),
        Value::Int(i) => Some(decimal(i as int)),
        Value::Bool(b) => Some(
            if b {
                "true"@
            } else {
                "false"@
            },
        ),
        _ => None,
    }
}

/// The text of a `layout` value.
pub fn layout_name(v: &Value) -> (r: Option<String>)
    ensures
        r matches Some(n) ==> layout_name_of(*v) == Some(n@),
        r is None ==> layout_name_of(*v) is None,
{
    match v {
        Value::Str(s) => Some(s.clone()),
        Value::Int(i) => Some(int_text(*i)),
        Value::Bool(b) => Some(String::from_str(if *b { "true" } else { "false" })),
        _ => None,
    }
}

/// The error kind says that no layout is named `name`.
pub open spec fn names_missing_layout(k: HydeError, name: Seq<char>) -> bool {
    match k {
        HydeError::LayoutNotFound(n) => n@ == name,
        _ => false,
    }
}

/// The error kind says that the layout chain came back to `name`.
pub open spec fn names_cycle(k: HydeError, name: Seq<char>) -> bool {
    match k {
        HydeError::LayoutCycle(n) => n@ == name,
        _ => false,
    }
}

/// The error carries exactly one context, `label`.
pub open spec fn labelled(e: Error, label: Seq<char>) -> bool {
    e.context@.len() == 1 && e.context@[0]@ == label
}

/// What names a pass in error messages.
pub open spec fn frame_label(source: Option<RelPath>, layout_path: Option<RelPath>) -> Seq<char> {
    let base = match source {
        Some(p) => p@,
        None => SCRIPT_FILE_LABEL@,
    };
    match layout_path {
        Some(l) => base + " + "@ + l@,
        None => base,
    }
}

/// The texts of a list of names.
pub open spec fn names_of(names: Seq<String>) -> Seq<Seq<char>> {
    names.map_values(|n: String| n@)
}

/// Whether a list of names holds `name`.
fn contains_name(names: &Vec<String>, name: &str) -> (r: bool)
    ensures
        r == names_of(names@).contains(name@),
{
    let mut i: usize = 0;
    while i < names.len()
        invariant
            i <= names@.len(),
            forall|j: int| 0 <= j < i ==> names@[j]@ != name@,
        decreases names@.len() - i,
    {
        if str_eq(names[i].as_str(), name) {
            assert(names_of(names@)[i as int] == name@);
            return true;
        }
        i = i + 1;
    }
    assert forall|j: int| 0 <= j < names@.len() implies #[trigger] names_of(names@)[j] != name@ by {}
    false
}

} // verus!
