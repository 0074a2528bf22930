//! `issue`: a GitHub issue formatted as markdown.
use vstd::prelude::*;

use crate::cli::review::ArgsRoute;
use crate::client::{FetchIssueClient, Issue};
use crate::formatting::{author_login, issue_text, label_names, write_issue_as_markdown};
use crate::repository::GetRepoistoryInfo;
use crate::review::{owner_and_repo_spec, quoted, split_owner_repo, text_of};
use vstd::pervasive::arbitrary;
use crate::text::{str_eq, string_from};

verus! {

/// Whether `word` names a subcommand of `issue`, or asks for help.
pub open spec fn is_issue_word(word: Seq<char>) -> bool {
    word == "format"@ || word == "help"@ || word == "--help"@
}

/// The options of `issue format`.
pub struct IssueFormatCommand {
    /// The number of the issue.
    pub issue_number: u32,
    /// The repository as `owner/repo` (found from the git remotes when missing).
    pub repo: Option<String>,
}

/// The subcommands of `issue`.
pub enum IssueSubcommand {
    Format(IssueFormatCommand),
}

/// The `issue` command.
pub struct IssueCommand {
    pub command: IssueSubcommand,
}

/// The markdown of an issue, see [`issue_text`].
pub open spec fn issue_markdown(issue: Issue) -> Seq<char> {
    issue_text(
        issue.number,
        issue.title@,
        issue.state@,
        author_login(issue.author),
        label_names(issue.labels@),
        match issue.body {
            Some(b) => Some(b@),
            None => None,
        },
    )
}

/// Formats an issue as markdown, see [`issue_markdown`].
pub fn issue_to_markdown(issue: &Issue) -> (r: String)
    ensures
        r@ == issue_markdown(*issue),
{
    let mut out: Vec<char> = Vec::new();
    write_issue_as_markdown(&mut out, issue);
    assert(out@ =~= issue_markdown(*issue));
    string_from(&out)
}

impl IssueFormatCommand {
    /// Whether the repository is to be found from the git remotes.
    pub fn requires_git(&self) -> (r: bool)
        ensures
            r == self.repo is None,
    {
        self.repo.is_none()
    }

    /// The markdown of the issue: fetched from `--repo`, or from the
    /// repository the remotes name, see [`issue_outcome_is`].
    pub fn run<C: FetchIssueClient, R: GetRepoistoryInfo>(self, client: &C, repository: &R) -> (r: Result<
        String,
        String,
    >)
        ensures
            self.repo matches Some(repo) ==> (crate::review::owner_and_repo_spec(repo@) is None ==> r is Err),
            issue_outcome_is(self, *client, *repository, text_of(r)),
    {
        let ghost me = self;
        let o = match &self.repo {
            Some(repo) => split_owner_repo(repo.as_str()),
            None => repository.get_github_owner_and_repo(),
        };
        let ghost go = o;
        let ghost anyi: Result<Issue, String> = arbitrary();
        let (owner, repo) = match o {
            Ok(x) => x,
            Err(e) => {
                assert(issue_step(me, *client, *repository, go, anyi, Err(e@)));
                return Err(e);
            },
        };
        let i = client.fetch_issue(owner.as_str(), repo.as_str(), self.issue_number);
        let ghost gi = i;
        match i {
            Ok(issue) => {
                let text = issue_to_markdown(&issue);
                assert(issue_step(me, *client, *repository, go, gi, Ok(text@)));
                Ok(text)
            },
            Err(e) => {
                assert(issue_step(me, *client, *repository, go, gi, Err(e@)));
                Err(e)
            },
        }
    }
}

/// Whether `x` is what formatting an issue gives, where `o` is the owner
/// and repository found (from `--repo`, or as the repository answers from
/// its remotes) and `i` the client's answer fetching the issue: its
/// markdown, see [`issue_markdown`].
pub open spec fn issue_step<C: FetchIssueClient, R: GetRepoistoryInfo>(
    cmd: IssueFormatCommand,
    client: C,
    repository: R,
    o: Result<(String, String), String>,
    i: Result<Issue, String>,
    x: Result<Seq<char>, Seq<char>>,
) -> bool {
    &&& match cmd.repo {
        Some(rp) => match owner_and_repo_spec(rp@) {
            Some((a, b)) => o matches Ok((p, q)) && p@ == a && q@ == b,
            None => o matches Err(e) && e@ == "Cannot interpret "@ + quoted(rp@) + " as 'owner/repo'"@,
        },
        None => repository.owner_and_repo_answer(o),
    }
    &&& match o {
        Err(e) => x == Err::<Seq<char>, Seq<char>>(e@),
        Ok((owner, repo)) => {
            &&& client.issue_answer(owner@, repo@, cmd.issue_number, i)
            &&& match i {
                Err(e) => x == Err::<Seq<char>, Seq<char>>(e@),
                Ok(issue) => x == Ok::<Seq<char>, Seq<char>>(issue_markdown(issue)),
            }
        },
    }
}

/// Whether `x` is what formatting an issue may give, see [`issue_step`].
pub open spec fn issue_outcome_is<C: FetchIssueClient, R: GetRepoistoryInfo>(
    cmd: IssueFormatCommand,
    client: C,
    repository: R,
    x: Result<Seq<char>, Seq<char>>,
) -> bool {
    exists|o: Result<(String, String), String>, i: Result<Issue, String>|
        #[trigger] issue_step(cmd, client, repository, o, i, x)
}

impl IssueCommand {
    /// How the arguments after `issue` are read: as a subcommand where the
    /// first names one (or asks for help) or there is none, else as the
    /// arguments of `issue format`.
    pub fn route(args: &[&str]) -> (r: ArgsRoute)
        ensures
            r == (if args@.len() == 0 || is_issue_word(args@[0]@) {
                ArgsRoute::Subcommand
            } else {
                ArgsRoute::Format
            }),
    {
        if args.len() == 0 {
            return ArgsRoute::Subcommand;
        }
        let first = args[0];
        if str_eq(first, "format") || str_eq(first, "help") || str_eq(first, "--help") {
            ArgsRoute::Subcommand
        } else {
            ArgsRoute::Format
        }
    }

    /// The programs the command needs: `gh`, and `git` where the repository
    /// is to be found from the remotes.
    pub fn required_executables(&self) -> (r: Vec<&'static str>)
        ensures
            match self.command {
                IssueSubcommand::Format(cmd) => r@.len() == (if cmd.repo is None { 2int } else { 1int })
                    && r@[0]@ == "gh"@ && (cmd.repo is None ==> r@[1]@ == "git"@),
            },
    {
        let mut r: Vec<&'static str> = Vec::new();
        r.push("gh");
        match &self.command {
            IssueSubcommand::Format(cmd) => {
                if cmd.requires_git() {
                    r.push("git");
                }
            },
        }
        r
    }

    /// The markdown of the issue, see [`IssueFormatCommand::run`].
    pub fn run<C: FetchIssueClient, R: GetRepoistoryInfo>(self, client: &C, repository: &R) -> (r: Result<
        String,
        String,
    >)
        ensures
            match self.command {
                IssueSubcommand::Format(cmd) => issue_outcome_is(cmd, *client, *repository, text_of(r)),
            },
    {
        match self.command {
            IssueSubcommand::Format(cmd) => cmd.run(client, repository),
        }
    }
}

} // verus!
