use vstd::prelude::*;
use crate::error::{Error, HydeError};
use crate::files::{FileSource, FileUserData, JakeFileT2, JakeFileT1, converts_back, table_metadata, to_mutable};

verus! {

/// The global table scripts register tag handlers in.
pub const TAGS_TABLE: &'static str = "TAGS";

/// The global table scripts register filter handlers in.
pub const FILTERS_TABLE: &'static str = "FILTERS";

/// The global table scripts register converters in.
pub const CONVERTERS_TABLE: &'static str = "CONVERTERS";

/// The global table that describes the project to scripts.
pub const SITE_TABLE: &'static str = "SITE";

/// The global that holds the post-build hook, if a script sets one.
pub const POST_PROCESS_HOOK: &'static str = "POST_PROCESS";

/// The candidate places of the init script under the plugins directory, in
/// the order they are tried.
pub fn init_script_candidates() -> (r: Vec<&'static str>)
    ensures
        r@.len() == 2,
        r@[0]@ == "init.lua"@,
        r@[1]@ == "init/init.lua"@,
{
    let mut r: Vec<&'static str> = Vec::new();
    r.push("init.lua");
    r.push("init/init.lua");
    r
}

/// The first candidate that exists, given whether each one does.
pub fn first_existing(exists: &Vec<bool>) -> (r: Option<usize>)
    ensures
        r matches Some(i) ==> i < exists@.len() && exists@[i as int] && forall|j: int|
            0 <= j < i ==> !exists@[j],
        r is None ==> forall|j: int| 0 <= j < exists@.len() ==> !exists@[j],
{
    let mut i: usize = 0;
    while i < exists.len()
        invariant
            i <= exists@.len(),
            forall|j: int| 0 <= j < i ==> !exists@[j],
        decreases exists@.len() - i,
    {
        if exists[i] {
            return Some(i);
        }
        i = i + 1;
    }
    None
}

/// The module search path that makes `require` look under the plugins
/// directory.
pub open spec fn package_path_for(dir: Seq<char>) -> Seq<char> {
    dir + "/share/lua/5.1/?.lua;"@ + dir + "/share/lua/5.1/?/init.lua;"@ + dir + "/?.lua;"@ + dir
        + "/?/init.lua"@
}

/// The native module search path under the plugins directory.
pub open spec fn package_cpath_for(dir: Seq<char>) -> Seq<char> {
    dir + "/lib/lua/5.1/?.so;"@ + dir + "/?.so"@
}

/// Builds the module search path for a plugins directory.
pub fn package_path(dir: &str) -> (r: String)
    ensures
        r@ == package_path_for(dir@),
{
    let mut r = String::from_str(dir);
    r.append("/share/lua/5.1/?.lua;");
    r.append(dir);
    r.append("/share/lua/5.1/?/init.lua;");
    r.append(dir);
    r.append("/?.lua;");
    r.append(dir);
    r.append("/?/init.lua");
    r
}

/// Builds the native module search path for a plugins directory.
pub fn package_cpath(dir: &str) -> (r: String)
    ensures
        r@ == package_cpath_for(dir@),
{
    let mut r = String::from_str(dir);
    r.append("/lib/lua/5.1/?.so;");
    r.append(dir);
    r.append("/?.so");
    r
}

/// Without an init script the collected files go on unchanged.
pub fn pass_through(files: Vec<JakeFileT1>) -> (r: Vec<JakeFileT2>)
    ensures
        r@.len() == files@.len(),
        forall|i: int|
            0 <= i < r@.len() ==> {
                &&& (#[trigger] r@[i]).source == FileSource::Src(files@[i].source)
                &&& r@[i].output == files@[i].source
                &&& r@[i].front_matter == files@[i].front_matter
                &&& r@[i].content == files@[i].content
                &&& r@[i].to_write
                &&& r@[i].post_processor@.len() == 0
            },
{
    let ghost all = files@;
    let mut rest = files;
    let mut out: Vec<JakeFileT2> = Vec::new();
    let ghost mut t: int = 0;
    while rest.len() > 0
        invariant
            0 <= t <= all.len(),
            rest@ == all.subrange(t, all.len() as int),
            out@.len() == t,
            forall|i: int|
                0 <= i < t ==> {
                    &&& (#[trigger] out@[i]).source == FileSource::Src(all[i].source)
                    &&& out@[i].output == all[i].source
                    &&& out@[i].front_matter == all[i].front_matter
                    &&& out@[i].content == all[i].content
                    &&& out@[i].to_write
                    &&& out@[i].post_processor@.len() == 0
                },
        decreases rest@.len(),
    {
        let f = rest.remove(0);
        proof {
            assert(f == all[t]);
        }
        out.push(to_mutable(f));
        proof {
            t = t + 1;
            assert(rest@ =~= all.subrange(t, all.len() as int));
        }
    }
    out
}

/// Reads back the file sequence after the init script ran: each host object
/// converts back into a file, in order. The first that cannot fails the
/// whole, with its output path as context.
pub fn returned_files(hosts: Vec<FileUserData>) -> (r: Result<Vec<JakeFileT2>, Error>)
    ensures
        r matches Ok(v) ==> v@.len() == hosts@.len() && forall|i: int|
            0 <= i < v@.len() ==> converts_back(hosts@[i], Ok(#[trigger] v@[i])),
        r matches Err(e) ==> exists|i: int|
            0 <= i < hosts@.len() && table_metadata((#[trigger] hosts@[i]).data) is None && (forall|j: int|
                0 <= j < i ==> (#[trigger] table_metadata(hosts@[j].data)) is Some) && e.kind
                == HydeError::NotConvertible && e.context@ == seq![hosts@[i].output.text],
{
    let ghost all = hosts@;
    let mut rest = hosts;
    let mut out: Vec<JakeFileT2> = Vec::new();
    let ghost mut t: int = 0;
    while rest.len() > 0
        invariant
            all == hosts@,
            0 <= t <= all.len(),
            rest@ == all.subrange(t, all.len() as int),
            out@.len() == t,
            forall|i: int| 0 <= i < t ==> converts_back(all[i], Ok(#[trigger] out@[i])),
            forall|i: int| 0 <= i < t ==> (#[trigger] table_metadata(all[i].data)) is Some,
        decreases rest@.len(),
    {
        let h = rest.remove(0);
        proof {
            assert(h == all[t]);
        }
        let label = h.output.text.clone();
        match h.into_file() {
            Ok(f) => {
                out.push(f);
            },
            Err(e) => {
                let ghost k = e.kind;
                let e2 = e.with_context(label);
                assert(e2.context@ =~= seq![label]);
                assert(table_metadata(all[t].data) is None);
                assert(e2.kind == HydeError::NotConvertible);
                assert(e2.context@ == seq![all[t].output.text]);
                return Err(e2);
            },
        }
        proof {
            t = t + 1;
            assert(rest@ =~= all.subrange(t, all.len() as int));
        }
    }
    Ok(out)
}

} // verus!
