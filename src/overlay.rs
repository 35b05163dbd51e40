use vstd::prelude::*;
use crate::error::{Error, HydeError};
use crate::files::{FileContent, JakeFileT1};
use crate::metadata::{Metadata, merged};
use crate::path::RelPath;
use crate::value::Value;

verus! {

/// Whether globset compiles a pattern into a matcher, with backslash escapes
/// and empty alternatives enabled.
pub uninterp spec fn glob_accepts(pattern: Seq<char>) -> bool;

/// Whether a pattern that globset compiles matches a path.
pub uninterp spec fn glob_matches(pattern: Seq<char>, path: Seq<char>) -> bool;

/// The length, in characters, from which patterns are refused. Below it the
/// literal parts of a pattern stay far inside the state limits of the
/// substring matchers that globset builds with `unwrap`, so compiling it
/// either succeeds or reports an error.
pub const GLOB_LIMIT: usize = 1_000_000;

/// Whether a pattern can be used: short enough, and compiled by globset.
pub open spec fn glob_usable(pattern: Seq<char>) -> bool {
    pattern.len() < GLOB_LIMIT && glob_accepts(pattern)
}

/// Relies on globset's `GlobBuilder::build` (backslash escapes and empty
/// alternatives on) and `GlobSet::new`, which compiles the matcher and
/// returns an error where the regex engine refuses it.
#[verifier::external_body]
fn check_glob(pattern: &str) -> (r: Result<(), String>)
    requires
        pattern@.len() < GLOB_LIMIT,
    ensures
        r is Ok <==> glob_accepts(pattern@),
{
    match globset::GlobBuilder::new(pattern).backslash_escape(true).empty_alternates(true).build() {
        Ok(g) => globset::GlobSet::new([g]).map(|_| ()).map_err(|e| e.to_string()),
        Err(e) => Err(e.to_string()),
    }
}

/// Relies on globset's `GlobBuilder::build`, `GlobSet::new` and
/// `GlobSet::is_match`: the compiled pattern tested against the path; a
/// pattern that does not compile matches nothing.
#[verifier::external_body]
fn glob_is_match(pattern: &str, path: &str) -> (r: bool)
    requires
        pattern@.len() < GLOB_LIMIT,
    ensures
        r == (glob_accepts(pattern@) && glob_matches(pattern@, path@)),
{
    match globset::GlobBuilder::new(pattern).backslash_escape(true).empty_alternates(true).build() {
        Ok(g) => match globset::GlobSet::new([g]) {
            Ok(set) => set.is_match(path),
            Err(_) => false,
        },
        Err(_) => false,
    }
}

/// The name of the per-directory overlay configuration file.
pub const OVERLAY_FILE: &'static str = ".hyde.yml";

/// Default metadata for the files under a directory that match a pattern.
/// The pattern is anchored to the directory's absolute path.
#[derive(Debug)]
pub struct Overlay {
    pub pattern: String,
    pub metadata: Metadata,
}

/// Whether an overlay applies to a file.
pub open spec fn applies(o: Overlay, path: Seq<char>) -> bool {
    glob_usable(o.pattern@) && glob_matches(o.pattern@, path)
}

/// The metadata that a list of overlays gives a file: those that apply,
/// merged in order, later ones winning.
pub open spec fn overlay_metadata(o: Seq<Overlay>, path: Seq<char>) -> Map<Seq<char>, Value>
    decreases o.len(),
{
    if o.len() == 0 {
        Map::empty()
    } else if applies(o.last(), path) {
        merged(overlay_metadata(o.drop_last(), path), o.last().metadata@)
    } else {
        overlay_metadata(o.drop_last(), path)
    }
}

/// The pattern that a glob from a directory's configuration becomes.
pub open spec fn anchored(dir: Seq<char>, glob: Seq<char>) -> Seq<char> {
    dir + seq!['/'] + glob
}

/// Whether a name marks a hidden entry, one that collection skips.
pub fn is_hidden(name: &str) -> (r: bool)
    ensures
        r == (name@.len() > 0 && name@[0] == '.'),
{
    !name.is_empty() && name.get_char(0) == '.'
}

/// Anchors a glob to a directory.
pub fn anchor_glob(dir: &str, glob: &str) -> (r: String)
    ensures
        r@ == anchored(dir@, glob@),
{
    let mut r = String::from_str(dir);
    r.append("/");
    proof {
        reveal_strlit("/");
    }
    r.append(glob);
    r
}

/// The overlays registered so far, in discovery order.
#[derive(Debug)]
pub struct Overlays {
    pub list: Vec<Overlay>,
}

impl Overlays {
    /// No overlay.
    pub fn new() -> (r: Overlays)
        ensures
            r.list@.len() == 0,
    {
        Overlays { list: Vec::new() }
    }

    /// Registers the overlays that the configuration file of directory `dir`
    /// declares, in order. Where globset refuses a pattern nothing is
    /// registered, and the error names the configuration file.
    pub fn register(&mut self, dir: &str, config: Vec<(String, Metadata)>, config_path: String) -> (r:
        Result<(), Error>)
        ensures
            r is Ok <==> (forall|i: int|
                0 <= i < config@.len() ==> glob_usable(anchored(dir@, #[trigger] config@[i].0@))),
            r is Ok ==> final(self).list@.len() == old(self).list@.len() + config@.len() && (forall|
                i: int,
            |
                0 <= i < old(self).list@.len() ==> #[trigger] final(self).list@[i] == old(
                    self,
                ).list@[i]) && (forall|i: int|
                0 <= i < config@.len() ==> (#[trigger] final(self).list@[old(self).list@.len() + i]).pattern@
                    == anchored(dir@, config@[i].0@) && final(self).list@[old(self).list@.len()
                    + i].metadata == config@[i].1),
            r matches Err(e) ==> (e.kind is Glob && e.context@ == seq![config_path]
                && final(self).list@ == old(self).list@),
    {
        let mut i: usize = 0;
        while i < config.len()
            invariant
                i <= config@.len(),
                forall|j: int| 0 <= j < i ==> glob_usable(anchored(dir@, #[trigger] config@[j].0@)),
            decreases config@.len() - i,
        {
            let pattern = anchor_glob(dir, config[i].0.as_str());
            if pattern.as_str().unicode_len() >= GLOB_LIMIT {
                let e = Error::new(HydeError::Glob(String::from_str("pattern too long"))).with_context(
                    config_path,
                );
                assert(e.context@ =~= seq![config_path]);
                return Err(e);
            }
            match check_glob(pattern.as_str()) {
                Ok(()) => {},
                Err(msg) => {
                    let e = Error::new(HydeError::Glob(msg)).with_context(config_path);
                    assert(e.context@ =~= seq![config_path]);
                    return Err(e);
                },
            }
            i = i + 1;
        }
        let ghost before = self.list@;
        let ghost all = config@;
        let mut rest = config;
        let ghost mut t: int = 0;
        while rest.len() > 0
            invariant
                0 <= t <= all.len(),
                rest@ == all.subrange(t, all.len() as int),
                self.list@.len() == before.len() + t,
                forall|i: int| 0 <= i < before.len() ==> #[trigger] self.list@[i] == before[i],
                forall|i: int|
                    0 <= i < t ==> (#[trigger] self.list@[before.len() + i]).pattern@ == anchored(
                        dir@,
                        all[i].0@,
                    ) && self.list@[before.len() + i].metadata == all[i].1,
            decreases rest@.len(),
        {
            let (glob, metadata) = rest.remove(0);
            proof {
                assert((glob, metadata) == all[t]);
            }
            let pattern = anchor_glob(dir, glob.as_str());
            self.list.push(Overlay { pattern, metadata });
            proof {
                t = t + 1;
                assert(rest@ =~= all.subrange(t, all.len() as int));
            }
        }
        Ok(())
    }

    /// The metadata that the registered overlays give the file at absolute
    /// path `path`.
    pub fn metadata_for(&self, path: &str) -> (r: Metadata)
        ensures
            r@ == overlay_metadata(self.list@, path@),
    {
        let mut m = Metadata::new();
        let mut i: usize = 0;
        while i < self.list.len()
            invariant
                i <= self.list@.len(),
                m@ == overlay_metadata(self.list@.subrange(0, i as int), path@),
            decreases self.list@.len() - i,
        {
            let ghost prefix = self.list@.subrange(0, i + 1);
            assert(prefix.drop_last() =~= self.list@.subrange(0, i as int));
            let p = self.list[i].pattern.as_str();
            if p.unicode_len() < GLOB_LIMIT && glob_is_match(p, path) {
                m.extend(self.list[i].metadata.copy());
            }
            i = i + 1;
        }
        assert(self.list@.subrange(0, i as int) =~= self.list@);
        m
    }
}

/// Assembles a collected file: the overlays' metadata, with the file's own
/// header merged on top, and the body (or the binary marker).
pub fn assemble_source(
    overlays: &Overlays,
    abs_path: &str,
    source: RelPath,
    content: FileContent<String>,
    header: Option<Metadata>,
) -> (r: JakeFileT1)
    ensures
        r.source == source,
        r.content == content,
        r.front_matter@ == (match header {
            Some(h) => merged(overlay_metadata(overlays.list@, abs_path@), h@),
            None => overlay_metadata(overlays.list@, abs_path@),
        }),
{
    let mut front_matter = overlays.metadata_for(abs_path);
    match header {
        Some(h) => front_matter.extend(h),
        None => {},
    }
    JakeFileT1 { source, front_matter, content }
}

} // verus!
