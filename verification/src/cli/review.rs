//! `review`: a pull request review formatted as markdown, or a local review.
use vstd::prelude::*;

use crate::cli::review_format::ReviewFormatCommand;
use crate::cli::review_local::ReviewLocalCommand;
use crate::review::parse_i32_spec;
use crate::text::str_eq;

verus! {

/// How the arguments of a command with subcommands are read.
#[derive(Debug, Clone, Copy, PartialEq, Eq, Structural)]
pub enum ArgsRoute {
    /// As a subcommand and its arguments.
    Subcommand,
    /// As the arguments of the `format` subcommand, which may be left out.
    Format,
}

/// Whether `word` names a subcommand of `review`, or asks for help.
pub open spec fn is_review_word(word: Seq<char>) -> bool {
    word == "format"@ || word == "local"@ || word == "help"@ || word == "--help"@
}

/// The subcommands of `review`.
pub enum ReviewSubcommand {
    Format(ReviewFormatCommand),
    Local(ReviewLocalCommand),
}

/// The `review` command.
pub struct ReviewCommand {
    pub command: ReviewSubcommand,
}

impl ReviewCommand {
    /// How the arguments after `review` are read: as a subcommand where the
    /// first names one (or asks for help) or there is none, else as the
    /// arguments of `review format`.
    pub fn route(args: &[&str]) -> (r: ArgsRoute)
        ensures
            r == (if args@.len() == 0 || is_review_word(args@[0]@) {
                ArgsRoute::Subcommand
            } else {
                ArgsRoute::Format
            }),
    {
        if args.len() == 0 {
            return ArgsRoute::Subcommand;
        }
        let first = args[0];
        if str_eq(first, "format") || str_eq(first, "local") || str_eq(first, "help") || str_eq(
            first,
            "--help",
        ) {
            ArgsRoute::Subcommand
        } else {
            ArgsRoute::Format
        }
    }

    /// The programs the command needs, see
    /// [`ReviewFormatCommand::required_executables`]; `git` for a local review.
    pub fn required_executables(&self, file_exists: bool) -> (r: Vec<&'static str>)
        ensures
            match self.command {
                ReviewSubcommand::Format(cmd) => {
                    let local = !cmd.remote && cmd.pr_or_file is Some && file_exists;
                    let needs_git = cmd.repo is None && !(cmd.review matches Some(v) && parse_i32_spec(
                        v@,
                    ) is None);
                    &&& local ==> r@.len() == 0
                    &&& !local ==> r@.len() == (if needs_git { 2int } else { 1int }) && r@[0]@ == "gh"@
                        && (needs_git ==> r@[1]@ == "git"@)
                },
                ReviewSubcommand::Local(_) => r@.len() == 1 && r@[0]@ == "git"@,
            },
    {
        match &self.command {
            ReviewSubcommand::Format(cmd) => cmd.required_executables(file_exists),
            ReviewSubcommand::Local(_) => {
                let mut r: Vec<&'static str> = Vec::new();
                r.push("git");
                r
            },
        }
    }
}

} // verus!
