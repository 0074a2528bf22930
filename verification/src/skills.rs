//! The agent skills that ship with the program: the text of each, and
//! where they are installed.
use vstd::prelude::*;

use crate::text::{chars_of, push_str, str_eq, string_from};

verus! {

/// The `SKILL.md` of the skill that fetches a GitHub issue as markdown.
pub const ISSUE_TO_MD_SKILL: &'static str = "---\nname: issue-to-md\ndescription: Fetch a GitHub issue as markdown with `repo-to-md issue format <number>` to work on it.\n---\n\nRun `repo-to-md issue format <number>` (add `--repo owner/repo` outside a clone) and read the markdown it prints.\n";

/// The `SKILL.md` of the skill that reads the comments of a local review session.
pub const LOCAL_REVIEW_SKILL: &'static str = "---\nname: local-review\ndescription: Read the comments of a local review session with `repo-to-md review format review-comments.json`.\n---\n\nRun `repo-to-md review format review-comments.json` and address each comment in the file and line it names.\n";

/// The `SKILL.md` of the skill that fetches the comments of a pull request review.
pub const REVIEW_TO_MD_SKILL: &'static str = "---\nname: review-to-md\ndescription: Fetch the comments of a pull request review as markdown with `repo-to-md review format` to address review feedback.\n---\n\nRun `repo-to-md review format` (or `--pr <number>`, `--review <id or index>`, `--author @me`) and address each comment in the file and line it names.\n";

/// The directory, under a base, that skills are installed in.
pub const SKILLS_DIR: &'static str = ".agents/skills";

/// The file each skill is written to, in its own directory.
pub const SKILL_FILE: &'static str = "SKILL.md";

/// The names of the skills, in the order they are installed and listed.
pub open spec fn skill_names_spec() -> Seq<Seq<char>> {
    seq!["issue-to-md"@, "local-review"@, "review-to-md"@]
}

/// The text of the skill named `name`, if there is one.
pub open spec fn skill_text_spec(name: Seq<char>) -> Option<Seq<char>> {
    if name == "issue-to-md"@ {
        Some(ISSUE_TO_MD_SKILL@)
    } else if name == "local-review"@ {
        Some(LOCAL_REVIEW_SKILL@)
    } else if name == "review-to-md"@ {
        Some(REVIEW_TO_MD_SKILL@)
    } else {
        None
    }
}

/// The names of the skills, in the order they are installed and listed.
pub fn skill_names() -> (r: Vec<&'static str>)
    ensures
        r@.len() == skill_names_spec().len(),
        forall|i: int| 0 <= i < r@.len() ==> #[trigger] r@[i]@ == skill_names_spec()[i],
{
    let mut r: Vec<&'static str> = Vec::new();
    r.push("issue-to-md");
    r.push("local-review");
    r.push("review-to-md");
    r
}

/// The text of the skill named `name`; none where there is no such skill.
pub fn skill_text(name: &str) -> (r: Option<&'static str>)
    ensures
        match skill_text_spec(name@) {
            Some(t) => r matches Some(x) && x@ == t,
            None => r is None,
        },
{
    if str_eq(name, "issue-to-md") {
        Some(ISSUE_TO_MD_SKILL)
    } else if str_eq(name, "local-review") {
        Some(LOCAL_REVIEW_SKILL)
    } else if str_eq(name, "review-to-md") {
        Some(REVIEW_TO_MD_SKILL)
    } else {
        None
    }
}

/// The path `rel` (a relative path) under `base`, as a path join writes it:
/// `rel` alone under an empty base, no separator added after a base that
/// ends with one.
pub open spec fn joined_path(base: Seq<char>, rel: Seq<char>) -> Seq<char> {
    if base.len() == 0 {
        rel
    } else if base.last() == '/' {
        base + rel
    } else {
        base + seq!['/'] + rel
    }
}

/// Joins the relative path `rel` under `base`, see [`joined_path`].
pub fn join_path(base: &str, rel: &str) -> (r: String)
    ensures
        r@ == joined_path(base@, rel@),
{
    let cs = chars_of(base);
    let mut out: Vec<char> = Vec::new();
    push_str(&mut out, base);
    if cs.len() > 0 && cs[cs.len() - 1] != '/' {
        out.push('/');
    }
    push_str(&mut out, rel);
    proof {
        if base@.len() == 0 {
            assert(out@ =~= rel@);
        }
    }
    string_from(&out)
}

/// The message when no directory up from the current one is a project root.
pub open spec fn project_root_not_found() -> Seq<char> {
    "Could not find project root. No .git or .agents directory found in any parent directory."@
}

/// The message when the home directory is unknown.
pub open spec fn home_not_found() -> Seq<char> {
    "Could not determine home directory"@
}

/// The directory the skills are installed under: the custom path when one
/// is given; else, when installing locally, `.agents/skills` under the
/// project root (an error where there is none); else `.agents/skills` under
/// the home directory (an error where it is unknown).
pub open spec fn install_base_spec(
    path: Option<Seq<char>>,
    local: bool,
    project_root: Option<Seq<char>>,
    home: Option<Seq<char>>,
) -> Result<Seq<char>, Seq<char>> {
    match path {
        Some(p) => Ok(p),
        None => if local {
            match project_root {
                Some(d) => Ok(joined_path(d, SKILLS_DIR@)),
                None => Err(project_root_not_found()),
            }
        } else {
            match home {
                Some(h) => Ok(joined_path(h, SKILLS_DIR@)),
                None => Err(home_not_found()),
            }
        },
    }
}

/// The text of an optional string.
pub open spec fn opt_text(s: Option<String>) -> Option<Seq<char>> {
    match s {
        Some(x) => Some(x@),
        None => None,
    }
}

/// The directory the skills are installed under, see [`install_base_spec`].
/// `project_root` is the project root found up from the current directory
/// and `home` the home directory (`HOME`, else `USERPROFILE`); each is only
/// looked at where it decides.
pub fn install_base(path: Option<String>, local: bool, project_root: Option<String>, home: Option<String>) -> (r: Result<
    String,
    String,
>)
    ensures
        match install_base_spec(opt_text(path), local, opt_text(project_root), opt_text(home)) {
            Ok(b) => r matches Ok(x) && x@ == b,
            Err(e) => r matches Err(x) && x@ == e,
        },
{
    match path {
        Some(p) => Ok(p),
        None => if local {
            match project_root {
                Some(d) => Ok(join_path(d.as_str(), SKILLS_DIR)),
                None => Err(
                    "Could not find project root. No .git or .agents directory found in any parent directory.".to_owned(),
                ),
            }
        } else {
            match home {
                Some(h) => Ok(join_path(h.as_str(), SKILLS_DIR)),
                None => Err("Could not determine home directory".to_owned()),
            }
        },
    }
}

/// One step of the search for the project root, from the directory `dir`.
#[derive(Debug, PartialEq, Eq)]
pub enum RootStep {
    /// `dir` is the project root.
    Found(String),
    /// Look in the parent directory next.
    Up(String),
    /// There is no project root; why.
    NotFound(String),
}

/// One step of the search for the project root: `dir` is the root where it
/// holds `.git` or `.agents`; else the search goes on in its parent, and
/// fails where there is none.
pub fn project_root_step(dir: String, has_git: bool, has_agents: bool, parent: Option<String>) -> (r: RootStep)
    ensures
        has_git || has_agents ==> r == RootStep::Found(dir),
        !(has_git || has_agents) ==> match parent {
            Some(p) => r == RootStep::Up(p),
            None => r matches RootStep::NotFound(m) && m@ == project_root_not_found(),
        },
{
    if has_git || has_agents {
        RootStep::Found(dir)
    } else {
        match parent {
            Some(p) => RootStep::Up(p),
            None => RootStep::NotFound(
                "Could not find project root. No .git or .agents directory found in any parent directory.".to_owned(),
            ),
        }
    }
}

/// Where a skill is installed: its directory and its file, and its text.
pub struct SkillFile {
    pub dir: String,
    pub file: String,
    pub content: &'static str,
}

/// The files that installing the skills under `base` writes, one per
/// skill in order: the skill's directory under `base`, `SKILL.md` in it,
/// and the skill's text.
pub fn install_plan(base: &str) -> (r: Vec<SkillFile>)
    ensures
        r@.len() == skill_names_spec().len(),
        forall|i: int|
            0 <= i < r@.len() ==> {
                let d = joined_path(base@, skill_names_spec()[i]);
                &&& (#[trigger] r@[i]).dir@ == d
                &&& r@[i].file@ == joined_path(d, SKILL_FILE@)
                &&& skill_text_spec(skill_names_spec()[i]) == Some(r@[i].content@)
            },
{
    let names = skill_names();
    let mut r: Vec<SkillFile> = Vec::new();
    let mut i: usize = 0;
    while i < names.len()
        invariant
            i <= names@.len() == skill_names_spec().len(),
            forall|k: int| 0 <= k < names@.len() ==> #[trigger] names@[k]@ == skill_names_spec()[k],
            r@.len() == i,
            forall|k: int|
                0 <= k < i ==> {
                    let d = joined_path(base@, skill_names_spec()[k]);
                    &&& (#[trigger] r@[k]).dir@ == d
                    &&& r@[k].file@ == joined_path(d, SKILL_FILE@)
                    &&& skill_text_spec(skill_names_spec()[k]) == Some(r@[k].content@)
                },
        decreases names@.len() - i,
    {
        let name = names[i];
        let content = match skill_text(name) {
            Some(t) => t,
            None => {
                proof {
                    reveal_strlit("issue-to-md");
                    reveal_strlit("local-review");
                    reveal_strlit("review-to-md");
                }
                assert(false);
                ""
            },
        };
        let dir = join_path(base, name);
        let file = join_path(dir.as_str(), SKILL_FILE);
        r.push(SkillFile { dir, file, content });
        i += 1;
    }
    r
}

} // verus!
