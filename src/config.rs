use vstd::prelude::*;

verus! {

/// The directories of a project, as paths.
#[derive(Debug, Clone, PartialEq, Eq, Hash)]
pub struct HydeConfig {
    pub project_dir: String,
    pub output_dir: String,
    pub source_dir: String,
    pub plugins_dir: String,
    pub layout_dir: String,
}

/// The same directories under the name the scripting layer uses.
pub type JakeConfig = HydeConfig;

/// What the command line asks for: a project directory and an output
/// directory, each optional.
#[derive(Debug, Clone, PartialEq)]
pub struct CliArgs {
    pub dir: Option<String>,
    pub out: Option<String>,
}

/// `base/name`.
pub open spec fn joined(base: Seq<char>, name: Seq<char>) -> Seq<char> {
    base + seq!['/'] + name
}

/// Joins a directory and a name with a separator.
pub fn join_dir(base: &str, name: &str) -> (r: String)
    ensures
        r@ == joined(base@, name@),
{
    let mut r = String::from_str(base);
    r.append("/");
    proof {
        reveal_strlit("/");
    }
    r.append(name);
    r
}

impl HydeConfig {
    /// The layout of a project rooted at `project_dir`: sources under `src`,
    /// plugins under `plugins`, layouts under `layouts`, output under `site`
    /// unless another output directory is given.
    pub fn for_project(project_dir: &str, out: Option<&str>) -> (r: HydeConfig)
        ensures
            r.project_dir@ == project_dir@,
            r.source_dir@ == joined(project_dir@, "src"@),
            r.plugins_dir@ == joined(project_dir@, "plugins"@),
            r.layout_dir@ == joined(project_dir@, "layouts"@),
            out matches Some(o) ==> r.output_dir@ == o@,
            out is None ==> r.output_dir@ == joined(project_dir@, "site"@),
    {
        let output_dir = match out {
            Some(o) => String::from_str(o),
            None => join_dir(project_dir, "site"),
        };
        HydeConfig {
            project_dir: String::from_str(project_dir),
            output_dir,
            source_dir: join_dir(project_dir, "src"),
            plugins_dir: join_dir(project_dir, "plugins"),
            layout_dir: join_dir(project_dir, "layouts"),
        }
    }
}

} // verus!
