//! `review local`: the address and port of the review page, the refs to
//! compare, and whether a saved session can be reused.
use vstd::prelude::*;

use crate::local::refspec::RefSpec;
use crate::local::state::CommentsFile;
use crate::number::{parse_unsigned, parse_unsigned_str, unsigned_error};
use crate::review::{push_quoted, quoted};
use crate::text::{decimal, push_decimal, push_str, str_eq, string_from};

verus! {

/// The address the review page listens on, unless another is given.
pub const DEFAULT_BIND: &'static str = "127.0.0.1";

/// The port the review page listens on, unless another is given.
pub const DEFAULT_PORT: u16 = 8080;

/// The environment variable that can give the address.
pub const BIND_ENV: &'static str = "REPO_TO_MD_BIND";

/// The environment variable that can give the port.
pub const PORT_ENV: &'static str = "REPO_TO_MD_PORT";

/// Whether a review with these refs ends at the working copy's `HEAD`
/// without `--force`: the end ref is missing or is `HEAD` itself.
pub open spec fn reviews_head_unforced(refs: Seq<String>, force: bool) -> bool {
    !force && (refs.len() < 2 || refs[1]@ == "HEAD"@)
}

/// The options of `review local`.
pub struct ReviewLocalCommand {
    /// The base ref to compare against, and the end ref (auto-detected base
    /// and `HEAD` when missing).
    pub refs: Vec<String>,
    /// The port of the review page.
    pub port: Option<u16>,
    /// The address the review page listens on.
    pub bind: Option<String>,
    /// The file the session is saved in.
    pub output: String,
    /// Do not open the browser.
    pub no_open: bool,
    /// Regenerate the session where the refs changed or the working copy is dirty.
    pub force: bool,
}

/// The message when the port variable does not read as a port.
pub open spec fn bad_port_env(value: Seq<char>) -> Seq<char> {
    "Failed to parse "@ + PORT_ENV@ + "="@ + quoted(value) + " as a valid TCP port number"@
}

/// The message when more than two refs are given.
pub open spec fn too_many_refs(n: nat) -> Seq<char> {
    "Invalid call cannot pass more than two refs, got "@ + decimal(n)
}

/// The message when the working copy has changes and the session would
/// compare against it.
pub open spec fn uncommitted_changes_error() -> Seq<char> {
    "Working directory has uncommitted changes. Commit or stash changes before reviewing, or use --force to proceed anyway."@
}

/// The message when a saved session does not match the refs and `--force`
/// was not given.
pub open spec fn session_changed_error() -> Seq<char> {
    "Session has changed. Use --force to regenerate the session and discard existing comments."@
}

/// What to do with the saved session before serving the review page.
pub enum SessionPlan {
    /// Take the diff from git.
    Generate,
    /// Reuse the diff of the saved session.
    UseStored(String),
    /// Delete the saved session, then take the diff from git.
    Regenerate,
}

/// What to do with the saved session `existing` (none where no file exists)
/// for `refspec`: reuse its diff where its commits are those of the refs and
/// it holds a diff; take a new diff where there is no session, where it
/// holds no diff, or where `force` is given; else refuse.
pub fn validate_and_prepare_session(existing: Option<&CommentsFile>, refspec: &RefSpec, force: bool) -> (r: Result<
    SessionPlan,
    String,
>)
    ensures
        match existing {
            None => r matches Ok(SessionPlan::Generate),
            Some(file) => {
                let matching = file.start_sha@ == refspec.start_sha@ && file.end_sha@ == refspec.end_sha@;
                &&& matching && file.raw_diff@.len() > 0 ==> (r matches Ok(SessionPlan::UseStored(d)) && d@
                    == file.raw_diff@)
                &&& matching && file.raw_diff@.len() == 0 ==> (r matches Ok(SessionPlan::Generate))
                &&& !matching && force ==> (r matches Ok(SessionPlan::Regenerate))
                &&& !matching && !force ==> (r matches Err(e) && e@ == session_changed_error())
            },
        },
{
    match existing {
        None => Ok(SessionPlan::Generate),
        Some(file) => {
            let matching = str_eq(file.start_sha.as_str(), refspec.start_sha.as_str()) && str_eq(
                file.end_sha.as_str(),
                refspec.end_sha.as_str(),
            );
            if matching {
                if crate::text::chars_of(file.raw_diff.as_str()).len() > 0 {
                    return Ok(SessionPlan::UseStored(file.raw_diff.clone()));
                }
                return Ok(SessionPlan::Generate);
            }
            if force {
                return Ok(SessionPlan::Regenerate);
            }
            Err(
                "Session has changed. Use --force to regenerate the session and discard existing comments.".to_owned(),
            )
        },
    }
}

impl ReviewLocalCommand {
    /// The address to listen on: `--bind`, else the value of `REPO_TO_MD_BIND`
    /// (`env_bind`), else 127.0.0.1.
    pub fn bind_address(&self, env_bind: Option<String>) -> (r: Result<String, String>)
        ensures
            match self.bind {
                Some(b) => r == Ok::<String, String>(b),
                None => match env_bind {
                    Some(e) => r == Ok::<String, String>(e),
                    None => r matches Ok(x) && x@ == DEFAULT_BIND@,
                },
            },
    {
        match &self.bind {
            Some(b) => Ok(b.clone()),
            None => match env_bind {
                Some(e) => Ok(e),
                None => Ok(DEFAULT_BIND.to_owned()),
            },
        }
    }

    /// The port to listen on: `--port`, else the value of `REPO_TO_MD_PORT`
    /// (`env_port`) read as a port, else 8080.
    pub fn port(&self, env_port: Option<String>) -> (r: Result<u16, String>)
        ensures
            match self.port {
                Some(p) => r == Ok::<u16, String>(p),
                None => match env_port {
                    None => r == Ok::<u16, String>(DEFAULT_PORT),
                    Some(v) => match parse_unsigned(v@, 0xffff) {
                        Some(p) => r == Ok::<u16, String>(p as u16),
                        None => r matches Err(e) && e@ == bad_port_env(v@) + ": "@ + unsigned_error(v@, 0xffff),
                    },
                },
            },
    {
        if let Some(p) = self.port {
            return Ok(p);
        }
        let v = match env_port {
            None => return Ok(DEFAULT_PORT),
            Some(v) => v,
        };
        match parse_unsigned_str(v.as_str(), 0xffff) {
            Ok(p) => Ok(p as u16),
            Err(cause) => {
                let mut out: Vec<char> = Vec::new();
                push_str(&mut out, "Failed to parse ");
                push_str(&mut out, PORT_ENV);
                push_str(&mut out, "=");
                push_quoted(&mut out, v.as_str());
                push_str(&mut out, " as a valid TCP port number");
                push_str(&mut out, ": ");
                push_str(&mut out, cause.as_str());
                assert(out@ =~= bad_port_env(v@) + ": "@ + unsigned_error(v@, 0xffff));
                Err(string_from(&out))
            },
        }
    }

    /// The refs to compare: the base (`None` where it is to be detected) and
    /// the end ref (`HEAD` unless given); an error for more than two refs.
    pub fn ref_range(&self) -> (r: Result<(Option<String>, String), String>)
        ensures
            self.refs@.len() == 0 ==> (r matches Ok((None, e)) && e@ == "HEAD"@),
            self.refs@.len() == 1 ==> (r matches Ok((Some(b), e)) && b == self.refs@[0] && e@ == "HEAD"@),
            self.refs@.len() == 2 ==> (r matches Ok((Some(b), e)) && b == self.refs@[0] && e == self.refs@[1]),
            self.refs@.len() > 2 ==> (r matches Err(m) && m@ == too_many_refs(self.refs@.len())),
    {
        let n = self.refs.len();
        if n == 0 {
            Ok((None, "HEAD".to_owned()))
        } else if n == 1 {
            Ok((Some(self.refs[0].clone()), "HEAD".to_owned()))
        } else if n == 2 {
            Ok((Some(self.refs[0].clone()), self.refs[1].clone()))
        } else {
            let mut out: Vec<char> = Vec::new();
            push_str(&mut out, "Invalid call cannot pass more than two refs, got ");
            push_decimal(&mut out, n as u64);
            assert(out@ =~= too_many_refs(n as nat));
            Err(string_from(&out))
        }
    }

    /// Whether the working copy must have no uncommitted changes: the end
    /// ref is the working copy's `HEAD` (missing, or given as `HEAD`) and
    /// `--force` was not given.
    pub fn requires_clean_working_directory(&self) -> (r: bool)
        ensures
            r == reviews_head_unforced(self.refs@, self.force),
    {
        if self.force {
            return false;
        }
        if self.refs.len() < 2 {
            return true;
        }
        str_eq(self.refs[1].as_str(), "HEAD")
    }

    /// Refuses to go on with uncommitted changes where a clean working copy is
    /// required, see [`Self::requires_clean_working_directory`].
    pub fn check_working_directory(&self, has_uncommitted_changes: bool) -> (r: Result<(), String>)
        ensures
            (reviews_head_unforced(self.refs@, self.force) && has_uncommitted_changes) ==> (r matches Err(e)
                && e@ == uncommitted_changes_error()),
            !(reviews_head_unforced(self.refs@, self.force) && has_uncommitted_changes) ==> r is Ok,
    {
        if self.requires_clean_working_directory() && has_uncommitted_changes {
            return Err(
                "Working directory has uncommitted changes. Commit or stash changes before reviewing, or use --force to proceed anyway.".to_owned(),
            );
        }
        Ok(())
    }
}

} // verus!
