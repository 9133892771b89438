//! A project's default session, used where its config directory holds no
//! `.conf` file.
use vstd::prelude::*;

use crate::paths::{conf_dir, path_join, spec_conf_dir, spec_path_join};
use crate::session::Session;

verus! {

broadcast use vstd::string::group_string_axioms;

/// The default session of a project, named `default`, whose file is
/// `default.conf` in the project's config directory; nothing set.
pub open spec fn is_blank(s: Session, project: Seq<char>, home: Option<Seq<char>>) -> bool {
    &&& s.name@ == "default"@
    &&& s.project@ == project
    &&& s.file_path@ == spec_path_join(spec_conf_dir(home, project), "default.conf"@)
    &&& s.working_dir is None
    &&& s.shell is None
    &&& s.init_script is None
    &&& s.script_body is None
    &&& s.env_vars@.len() == 0
}

/// The default session of a project.
pub fn blank(project: &str) -> (s: Session)
    ensures
        exists|home: Option<Seq<char>>| is_blank(s, project@, home),
{
    let dir = conf_dir(project);
    let file_path = path_join(dir.as_str(), "default.conf");
    let s = Session {
        name: String::from_str("default"),
        project: String::from_str(project),
        file_path,
        working_dir: None,
        shell: None,
        init_script: None,
        script_body: None,
        env_vars: Vec::new(),
    };
    let ghost h = choose|h: Option<Seq<char>>| dir@ == spec_conf_dir(h, project@);
    assert(is_blank(s, project@, h));
    s
}

} // verus!
