use vstd::prelude::*;

use crate::text::{chars_of, has_str_prefix_at, starts_with, string_of, trim, trim_str};

verus! {

/// The two refs of a review and, once resolved, their commits.
#[derive(Debug, Clone)]
pub struct RefSpec {
    /// Start ref (`main`, `HEAD~5`).
    pub start_ref: String,
    /// End ref (`feature`, `HEAD`).
    pub end_ref: String,
    /// Resolved commit of the start ref.
    pub start_sha: String,
    /// Resolved commit of the end ref.
    pub end_sha: String,
}

impl RefSpec {
    /// The refs `start` and `end`, not yet resolved.
    pub fn parse(start: &str, end: &str) -> (r: Result<Self, String>)
        ensures
            r matches Ok(x) && x.start_ref@ == start@ && x.end_ref@ == end@ && x.start_sha@.len() == 0
                && x.end_sha@.len() == 0,
    {
        Ok(RefSpec {
            start_ref: start.to_owned(),
            end_ref: end.to_owned(),
            start_sha: String::new(),
            end_sha: String::new(),
        })
    }

    /// The same refs with their resolved commits.
    pub fn with_shas(self, start_sha: String, end_sha: String) -> (r: Self)
        ensures
            r.start_ref == self.start_ref,
            r.end_ref == self.end_ref,
            r.start_sha == start_sha,
            r.end_sha == end_sha,
    {
        RefSpec { start_ref: self.start_ref, end_ref: self.end_ref, start_sha, end_sha }
    }

    /// The arguments of `git diff` for the refs: the start ref, then the end ref.
    pub fn diff_args(&self) -> (r: Vec<String>)
        ensures
            r@.len() == 2,
            r@[0] == self.start_ref,
            r@[1] == self.end_ref,
    {
        let mut v = Vec::new();
        v.push(self.start_ref.clone());
        v.push(self.end_ref.clone());
        v
    }
}

/// Where `git symbolic-ref refs/remotes/origin/HEAD` points to the default
/// branch of the remote.
pub const ORIGIN_HEAD_PREFIX: &'static str = "refs/remotes/origin/";

/// The default branch named by the output of
/// `git symbolic-ref refs/remotes/origin/HEAD`: the trimmed output without
/// `refs/remotes/origin/`; `None` where it does not start with that.
pub fn branch_of_origin_head(output: &str) -> (r: Option<String>)
    ensures
        match r {
            Some(b) => starts_with(trim(output@), ORIGIN_HEAD_PREFIX@) && b@ == trim(output@).skip(
                ORIGIN_HEAD_PREFIX@.len() as int,
            ),
            None => !starts_with(trim(output@), ORIGIN_HEAD_PREFIX@),
        },
{
    let t = chars_of(trim_str(output).as_str());
    if !has_str_prefix_at(&t, 0, ORIGIN_HEAD_PREFIX) {
        proof {
            assert(t@.skip(0) =~= t@);
        }
        return None;
    }
    proof {
        assert(t@.skip(0) =~= t@);
    }
    let p = chars_of(ORIGIN_HEAD_PREFIX);
    let b = string_of(&t, p.len(), t.len());
    proof {
        assert(t@.subrange(p@.len() as int, t@.len() as int) =~= t@.skip(p@.len() as int));
    }
    Some(b)
}

/// The commit that `git rev-parse --verify` printed: its output, trimmed.
pub fn sha_of_rev_parse(output: &str) -> (r: String)
    ensures
        r@ == trim(output@),
{
    trim_str(output)
}

/// The message when no base branch can be told.
pub open spec fn base_branch_not_found() -> Seq<char> {
    "Could not detect base branch. Please specify a base ref explicitly.\nTried: origin/HEAD, main, master"@
}

/// The base branch to review from: the default branch `origin/HEAD`
/// names (`origin_head`, see [`branch_of_origin_head`]), else `main` where
/// it exists, else `master` where it exists; an error otherwise.
pub fn choose_base_branch(origin_head: Option<String>, main_exists: bool, master_exists: bool) -> (r: Result<
    String,
    String,
>)
    ensures
        origin_head matches Some(b) ==> r == Ok::<String, String>(b),
        origin_head is None && main_exists ==> (r matches Ok(b) && b@ == "main"@),
        origin_head is None && !main_exists && master_exists ==> (r matches Ok(b) && b@ == "master"@),
        origin_head is None && !main_exists && !master_exists ==> (r matches Err(e) && e@ == base_branch_not_found()),
{
    match origin_head {
        Some(b) => Ok(b),
        None => if main_exists {
            Ok("main".to_owned())
        } else if master_exists {
            Ok("master".to_owned())
        } else {
            Err("Could not detect base branch. Please specify a base ref explicitly.\nTried: origin/HEAD, main, master".to_owned())
        },
    }
}

} // verus!
