use vstd::prelude::*;
use crate::remote::{join, join_path};

verus! {

/// Settings of a new test-plan working directory.
#[derive(Clone, Debug)]
pub struct ScriptArgs {
    pub template_dir: Option<String>,
    pub force: Option<bool>,
    pub properties: Option<bool>,
    pub name: String,
}

/// Why a working directory cannot be laid out.
#[derive(Clone, Debug, PartialEq, Eq)]
pub enum ScriptError {
    /// No template directory was given.
    NoTemplateDir,
}

/// The directories to create, in order, and the template files to copy.
#[derive(Clone, Debug)]
pub struct ScaffoldPlan {
    pub dirs: Vec<String>,
    pub copies: Vec<(String, String)>,
}

/// The directories of the working directory `w`.
pub open spec fn plan_dirs(w: Seq<char>) -> Seq<Seq<char>> {
    let script = join_path(w, "script"@);
    seq![w, script, join_path(script, "data"@), join_path(w, "参考资料"@)]
}

/// The template files copied from `t` into the working directory `w`; the
/// properties template only when asked for.
pub open spec fn plan_copies(t: Seq<char>, w: Seq<char>, properties: bool) -> Seq<(Seq<char>, Seq<char>)> {
    let script = join_path(w, "script"@);
    let jm = join_path(t, "jmeter"@);
    seq![(join_path(jm, "test.jmx"@), join_path(script, "test.jmx"@))]
        + (if properties { seq![(join_path(jm, "test.properties"@), join_path(script, "test.properties"@))] } else { Seq::empty() })
        + seq![
            (join_path(join_path(t, "ssh"@), "server.json"@), join_path(script, "server.json"@)),
            (join_path(jm, "readme.txt"@), join_path(w, "readme.txt"@)),
        ]
}

impl ScaffoldPlan {
    pub open spec fn dirs_view(&self) -> Seq<Seq<char>> {
        self.dirs@.map_values(|d: String| d@)
    }

    pub open spec fn copies_view(&self) -> Seq<(Seq<char>, Seq<char>)> {
        self.copies@.map_values(|c: (String, String)| (c.0@, c.1@))
    }
}

impl ScriptArgs {
    /// The layout of the working directory; fails without a template directory.
    pub fn plan(&self) -> (r: Result<ScaffoldPlan, ScriptError>)
        ensures
            self.template_dir is None ==> r == Err::<ScaffoldPlan, ScriptError>(ScriptError::NoTemplateDir),
            self.template_dir matches Some(t) ==> (r matches Ok(p)
                && p.dirs_view() == plan_dirs(self.name@)
                && p.copies_view() == plan_copies(t@, self.name@, self.properties == Some(true))),
    {
        let t = match &self.template_dir {
            Some(t) => t,
            None => return Err(ScriptError::NoTemplateDir),
        };
        let w = self.name.as_str();
        let script = join(w, "script");
        let data = join(script.as_str(), "data");
        let reference = join(w, "参考资料");
        let mut dirs: Vec<String> = Vec::new();
        dirs.push(w.to_owned());
        dirs.push(script.clone());
        dirs.push(data);
        dirs.push(reference);
        let jm = join(t.as_str(), "jmeter");
        let ssh = join(t.as_str(), "ssh");
        let mut copies: Vec<(String, String)> = Vec::new();
        copies.push((join(jm.as_str(), "test.jmx"), join(script.as_str(), "test.jmx")));
        let with_props = match self.properties {
            Some(b) => b,
            None => false,
        };
        if with_props {
            copies.push((join(jm.as_str(), "test.properties"), join(script.as_str(), "test.properties")));
        }
        copies.push((join(ssh.as_str(), "server.json"), join(script.as_str(), "server.json")));
        copies.push((join(jm.as_str(), "readme.txt"), join(w, "readme.txt")));
        let p = ScaffoldPlan { dirs, copies };
        assert(p.dirs_view() =~= plan_dirs(self.name@));
        assert(p.copies_view() =~= plan_copies(t@, self.name@, self.properties == Some(true)));
        Ok(p)
    }
}

} // verus!
