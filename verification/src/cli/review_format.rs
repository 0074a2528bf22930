//! `review format`: the comments of a pull request review, or of a local
//! review session, as markdown.
use vstd::prelude::*;

use crate::client::{
    Comment, CommentView, FetchReviewCommentsClient, GetCurrentUserClient, ListPullRequestsClient,
    ListReviewsClient, PullRequest, Review,
};
use crate::diff::error::ParseError;
use crate::diff::parser::views_of;
use crate::formatting::{format_comments_as_markdown, global_key, group_by, group_comments_by_file, markdown, path_key};
use crate::local::state::CommentsFile;
use crate::number::{parse_unsigned, parse_unsigned_str, unsigned_error};
use crate::repository::{GetCurrentBranch, GetRepoistoryInfo};
use crate::review::{
    derefs, ensure_no_remote_options_for_local_format, filter_reviews_by_author, parse_i32_spec,
    owner_and_repo_spec, parse_review_id_or_index, quoted, push_quoted, remote_options_error, resolve_author_filter, reviews_by,
    select_error_text, select_pull_request, select_review_by_index, split_owner_repo, text_of, author_is, pr_error_text, prs_for, branch_name, candidates_of, ReviewIdOrIndex,
    SelectReviewError,
};
use crate::side_by_side_diff::{diff_of, find_hunk_of, unified_chunk, SideBySideDiff, SideBySideDiffView};
use crate::diff::diff::spec_parse_diff;
use vstd::pervasive::arbitrary;
use crate::text::{decimal, lines_of, push_decimal, push_str, str_eq, string_from};

verus! {

/// The file a local review session is saved in, unless another is named.
pub const DEFAULT_COMMENTS_FILE: &'static str = "review-comments.json";

/// The options of `review format`.
pub struct ReviewFormatCommand {
    /// A pull request number, or a local comments file.
    pub pr_or_file: Option<String>,
    /// The repository as `owner/repo` (found from the git remotes when missing).
    pub repo: Option<String>,
    /// A review ID, or its index in the list of reviews (the last by default).
    pub review: Option<String>,
    /// Only the reviews of this author (`@me` for the signed-in user).
    pub author: Option<String>,
    /// Treat the argument as a pull request even where a file of that name exists.
    pub remote: bool,
}

/// `what: cause`, as a message that gives the context of an error.
pub open spec fn in_context(what: Seq<char>, cause: Seq<char>) -> Seq<char> {
    what + ": "@ + cause
}

fn with_context(what: &str, cause: String) -> (r: String)
    ensures
        r@ == in_context(what@, cause@),
{
    let mut out: Vec<char> = Vec::new();
    push_str(&mut out, what);
    push_str(&mut out, ": ");
    push_str(&mut out, cause.as_str());
    assert(out@ =~= in_context(what@, cause@));
    string_from(&out)
}

/// The ID of the review at `index` of `rs` (from 1, or `-1` for the last),
/// or why there is none.
pub open spec fn review_at(rs: Seq<Review>, index: i32) -> Result<Seq<char>, Seq<char>> {
    if rs.len() == 0 {
        Err(select_error_text(SelectReviewError::NoReviews))
    } else if index == -1 {
        Ok(rs.last().id@)
    } else if 1 <= index <= rs.len() {
        Ok(rs[index - 1].id@)
    } else {
        Err(select_error_text(SelectReviewError::IndexOutOfBounds { index, len: rs.len() as usize }))
    }
}

/// The message when an author wrote none of the reviews of a pull request.
pub open spec fn no_reviews_by_author(author: Seq<char>, pr_number: u32) -> Seq<char> {
    "No reviews found by author '"@ + author + "' for PR #"@ + decimal(pr_number as nat)
}

/// The review to format among the reviews of pull request `pr_number`: those
/// of `author` when one is given, then the one at `index`.
pub open spec fn chosen_review(all: Seq<Review>, author: Option<Seq<char>>, index: i32, pr_number: u32) -> Result<
    Seq<char>,
    Seq<char>,
> {
    match author {
        Some(a) => if reviews_by(all, a).len() == 0 {
            Err(no_reviews_by_author(a, pr_number))
        } else {
            review_at(reviews_by(all, a), index)
        },
        None => review_at(all, index),
    }
}

/// The ID of the review to format, see [`chosen_review`].
pub fn select_review_id(all: &[Review], author: Option<&str>, index: i32, pr_number: u32) -> (r: Result<
    String,
    String,
>)
    ensures
        text_of(r) == chosen_review(
            all@,
            match author {
                Some(a) => Some(a@),
                None => None,
            },
            index,
            pr_number,
        ),
{
    let candidates: Vec<&Review> = match author {
        Some(a) => {
            let f = filter_reviews_by_author(all, a);
            if f.len() == 0 {
                let mut out: Vec<char> = Vec::new();
                push_str(&mut out, "No reviews found by author '");
                push_str(&mut out, a);
                push_str(&mut out, "' for PR #");
                push_decimal(&mut out, pr_number as u64);
                assert(out@ =~= no_reviews_by_author(a@, pr_number));
                assert(derefs(f@).len() == f@.len());
                return Err(string_from(&out));
            }
            f
        },
        None => {
            let mut v: Vec<&Review> = Vec::new();
            let mut i: usize = 0;
            while i < all.len()
                invariant
                    i <= all@.len(),
                    v@.len() == i,
                    forall|j: int| 0 <= j < i ==> *#[trigger] v@[j] == all@[j],
                decreases all@.len() - i,
            {
                v.push(&all[i]);
                i += 1;
            }
            assert(derefs(v@) =~= all@);
            v
        },
    };
    let ghost rs = derefs(candidates@);
    assert(rs.len() == candidates@.len());
    match select_review_by_index(candidates.as_slice(), index) {
        Ok(rv) => {
            proof {
                if index == -1 {
                    assert(rs.last() == *candidates@.last());
                } else {
                    assert(rs[index - 1] == *candidates@[index - 1]);
                }
            }
            Ok(rv.id.clone())
        },
        Err(e) => Err(e.message()),
    }
}

/// A comment with the diff hunk it is on in `d`, for a comment on a line of
/// a file whose hunk is found; the comment unchanged otherwise.
pub open spec fn with_hunk(c: CommentView, d: SideBySideDiffView) -> CommentView {
    if c.path == global_key() {
        c
    } else {
        match c.line {
            None => c,
            Some(l) => match find_hunk_of(d, c.path, l as int) {
                Some((f, k)) => CommentView { diff_hunk: unified_chunk(d.files[f].chunks[k]), ..c },
                None => c,
            },
        }
    }
}

/// The diff that a unified diff text reads as.
pub open spec fn parsed_diff(raw_diff: Seq<char>) -> Result<SideBySideDiffView, ParseError> {
    match spec_parse_diff(lines_of(raw_diff)) {
        Ok(d) => Ok(diff_of(d)),
        Err(e) => Err(e),
    }
}

/// The comments that are not minimized, in their order.
pub open spec fn active_comments(cs: Seq<CommentView>) -> Seq<CommentView>
    decreases cs.len(),
{
    if cs.len() == 0 {
        seq![]
    } else if cs.last().is_minimized {
        active_comments(cs.drop_last())
    } else {
        active_comments(cs.drop_last()).push(cs.last())
    }
}

/// The comments of a local session that are exported: those not minimized,
/// each with the hunk it is on in the session's diff `d`.
pub open spec fn local_comments(cs: Seq<CommentView>, d: SideBySideDiffView) -> Seq<CommentView> {
    active_comments(cs.map_values(|c: CommentView| with_hunk(c, d)))
}

/// The comments of a local session that are not minimized, each with the
/// hunk it is on in the session's diff; none where there are none, without
/// reading the diff.
pub fn fetch_local_comments(file: CommentsFile) -> (r: Result<Vec<Comment>, ParseError>)
    ensures
        file.comments@.len() == 0 ==> (r matches Ok(v) && v@.len() == 0),
        file.comments@.len() > 0 ==> match parsed_diff(file.raw_diff@) {
            Ok(d) => r matches Ok(v) && views_of(v@) == local_comments(views_of(file.comments@), d),
            Err(e) => r == Err::<Vec<Comment>, ParseError>(e),
        },
{
    if file.comments.len() == 0 {
        return Ok(Vec::new());
    }
    let diff = match SideBySideDiff::parse(file.raw_diff.as_str()) {
        Ok(d) => d,
        Err(e) => return Err(e),
    };
    let ghost d = diff.deep_view();
    let mut comments = file.comments;
    let ghost orig = views_of(comments@);
    let n = comments.len();
    let mut i: usize = 0;
    while i < n
        invariant
            n == comments.len(),
            i <= n,
            d == diff.deep_view(),
            orig.len() == n,
            forall|j: int| 0 <= j < i ==> #[trigger] comments@[j].deep_view() == with_hunk(orig[j], d),
            forall|j: int| i <= j < n ==> #[trigger] comments@[j].deep_view() == orig[j],
        decreases n - i,
    {
        let ghost before = comments@;
        let ghost c = orig[i as int];
        assert(before[i as int].deep_view() == c);
        let is_global = str_eq(comments[i].path.as_str(), "__global__");
        if !is_global {
            match comments[i].line {
                None => {},
                Some(line) => {
                    let hunk = diff.find_hunk(comments[i].path.as_str(), line);
                    match hunk {
                        Some(h) => {
                            let ghost fk = find_hunk_of(d, c.path, line as int);
                            let text = h.to_unified();
                            proof {
                                let (f, k) = fk->Some_0;
                                assert(d.files[f] == diff.files@[f].deep_view());
                                assert(d.files[f].chunks[k] == diff.files@[f].chunks@[k].deep_view());
                            }
                            comments[i].diff_hunk = text;
                            assert(comments@[i as int].deep_view() == with_hunk(c, d));
                        },
                        None => {
                            assert(comments@[i as int].deep_view() == with_hunk(c, d));
                        },
                    }
                },
            }
        } else {
            assert(c.path == global_key());
        }
        assert(comments@[i as int].deep_view() == with_hunk(c, d));
        assert(forall|j: int| 0 <= j < n && j != i ==> comments@[j] == before[j]);
        i += 1;
    }
    assert(views_of(comments@) =~= orig.map_values(|c: CommentView| with_hunk(c, d)));
    Ok(without_minimized(comments))
}

/// The comments that are not minimized, in their order.
pub fn without_minimized(comments: Vec<Comment>) -> (r: Vec<Comment>)
    ensures
        views_of(r@) == active_comments(views_of(comments@)),
{
    let ghost all = views_of(comments@);
    let mut out: Vec<Comment> = Vec::new();
    let mut i: usize = 0;
    while i < comments.len()
        invariant
            i <= comments@.len(),
            all == views_of(comments@),
            views_of(out@) == active_comments(all.take(i as int)),
        decreases comments@.len() - i,
    {
        proof {
            let t = all.take(i + 1);
            assert(t.drop_last() =~= all.take(i as int));
            assert(t.last() == comments@[i as int].deep_view());
        }
        if !comments[i].is_minimized {
            let ghost before = out@;
            out.push(comments[i].clone());
            assert(views_of(out@) =~= views_of(before).push(comments@[i as int].deep_view()));
        }
        i += 1;
    }
    assert(all.take(i as int) =~= all);
    out
}

/// The markdown of comments: none for no comments, else the comments
/// grouped by file.
pub open spec fn comments_markdown(cs: Seq<CommentView>) -> Seq<char> {
    if cs.len() == 0 {
        seq![]
    } else {
        markdown(group_by(cs, |c: CommentView| path_key(c)))
    }
}

/// Formats comments, see [`comments_markdown`].
pub fn comments_to_markdown(comments: Vec<Comment>) -> (r: String)
    ensures
        r@ == comments_markdown(views_of(comments@)),
{
    if comments.len() == 0 {
        return String::new();
    }
    let grouped = group_comments_by_file(comments);
    format_comments_as_markdown(&grouped)
}

/// The message when a pull request number cannot be read.
pub open spec fn bad_pr_number(p: Seq<char>) -> Seq<char> {
    "Cannot interpret "@ + quoted(p) + " as a PR number"@
}

/// The message when the repository could not be found from the remotes.
pub open spec fn auto_detect_failed() -> Seq<char> {
    "Failed to auto-detect repository. Please provide --repo"@
}

/// The owner and repository that `--repo` names, or why it names none.
pub open spec fn repo_option_outcome(repo: Seq<char>) -> Result<(Seq<char>, Seq<char>), Seq<char>> {
    match owner_and_repo_spec(repo) {
        Some((o, n)) => Ok((o, n)),
        None => Err("Cannot interpret "@ + quoted(repo) + " as 'owner/repo'"@),
    }
}

/// The text of an owner and repository, or of why there are none.
pub open spec fn pair_text(r: Result<(String, String), String>) -> Result<(Seq<char>, Seq<char>), Seq<char>> {
    match r {
        Ok((o, n)) => Ok((o@, n@)),
        Err(e) => Err(e@),
    }
}

/// The text of a number, or of why there is none.
pub open spec fn number_text(r: Result<u32, String>) -> Result<u32, Seq<char>> {
    match r {
        Ok(n) => Ok(n),
        Err(e) => Err(e@),
    }
}

/// Whether `x` is what the owner and repository of a review may be:
/// those `--repo` names, or else those the repository answers from its
/// remotes (its error given the context of the search).
pub open spec fn owner_repo_is<R: GetRepoistoryInfo>(
    repo: Option<String>,
    repository: R,
    x: Result<(Seq<char>, Seq<char>), Seq<char>>,
) -> bool {
    match repo {
        Some(rp) => x == repo_option_outcome(rp@),
        None => exists|a: Result<(String, String), String>|
            #[trigger] repository.owner_and_repo_answer(a) && x == match a {
                Ok((o, n)) => Ok((o@, n@)),
                Err(e) => Err(in_context(auto_detect_failed(), e@)),
            },
    }
}

/// The pull request of the upstream branch `upstream` among `prs`: the
/// only one whose head is the branch, or why there is none.
pub open spec fn pr_choice(prs: Seq<PullRequest>, upstream: Seq<char>) -> Result<u32, Seq<char>> {
    let b = branch_name(upstream);
    let m = prs_for(prs, b);
    if m.len() == 1 {
        Ok(m[0].number)
    } else if m.len() == 0 {
        Err(pr_error_text(b, None))
    } else {
        Err(pr_error_text(b, Some(candidates_of(m))))
    }
}

/// The pull request number an argument gives, or why it gives none.
pub open spec fn pr_argument_outcome(p: Seq<char>) -> Result<u32, Seq<char>> {
    match parse_unsigned(p, u32::MAX as nat) {
        Some(n) => Ok(n as u32),
        None => Err(in_context(bad_pr_number(p), unsigned_error(p, u32::MAX as nat))),
    }
}

/// Whether `x` is what the pull request number may be: the argument
/// read as a number, or else the pull request of the upstream branch among
/// the open pull requests of `owner/repo`, as the working copy and the
/// client answer.
pub open spec fn pr_number_is<C: ListPullRequestsClient, R: GetCurrentBranch>(
    pr_or_file: Option<String>,
    client: C,
    repository: R,
    owner: Seq<char>,
    repo: Seq<char>,
    x: Result<u32, Seq<char>>,
) -> bool {
    match pr_or_file {
        Some(p) => x == pr_argument_outcome(p@),
        None => exists|u: Result<String, String>|
            #[trigger] repository.upstream_answer(u) && match u {
                Err(e) => x == Err::<u32, Seq<char>>(e@),
                Ok(b) => exists|ps: Result<Vec<PullRequest>, String>|
                    #[trigger] client.pull_requests_answer(owner, repo, ps) && match ps {
                        Err(e) => x == Err::<u32, Seq<char>>(e@),
                        Ok(prs) => x == pr_choice(prs@, b@),
                    },
            },
    }
}

/// The index `--review` gives (the last review, `-1`, where it gives none).
pub open spec fn review_index(review: Option<String>) -> i32 {
    match review {
        Some(v) => match parse_i32_spec(v@) {
            Some(i) => i,
            None => -1i32,
        },
        None => -1i32,
    }
}

/// Whether `x` is what choosing the review to format gives, where `o` is
/// the owner and repository found, `n` the pull request number found, `l`
/// the client's answer listing the reviews and `w` the author filter
/// resolved (each looked at only where the steps before it succeed).
pub open spec fn review_id_step<C: GetCurrentUserClient + ListReviewsClient + ListPullRequestsClient, R: GetRepoistoryInfo + GetCurrentBranch>(
    cmd: ReviewFormatCommand,
    client: C,
    repository: R,
    o: Result<(Seq<char>, Seq<char>), Seq<char>>,
    n: Result<u32, Seq<char>>,
    l: Result<Vec<Review>, String>,
    w: Result<Seq<char>, Seq<char>>,
    x: Result<Seq<char>, Seq<char>>,
) -> bool {
    &&& owner_repo_is(cmd.repo, repository, o)
    &&& match o {
        Err(e) => x == Err::<Seq<char>, Seq<char>>(e),
        Ok((owner, repo)) => {
            &&& pr_number_is(cmd.pr_or_file, client, repository, owner, repo, n)
            &&& match n {
                Err(e) => x == Err::<Seq<char>, Seq<char>>(e),
                Ok(pr) => {
                    &&& client.reviews_answer(owner, repo, pr, l)
                    &&& match l {
                        Err(e) => x == Err::<Seq<char>, Seq<char>>(e@),
                        Ok(all) => match cmd.author {
                            None => x == chosen_review(all@, None, review_index(cmd.review), pr),
                            Some(a) => {
                                &&& author_is(client, a@, w)
                                &&& match w {
                                    Err(e) => x == Err::<Seq<char>, Seq<char>>(e),
                                    Ok(login) => x == chosen_review(all@, Some(login), review_index(cmd.review), pr),
                                }
                            },
                        },
                    }
                },
            }
        },
    }
}

/// Whether `x` is what the ID of the review to format may be: the review
/// ID given, or else the review chosen (see [`chosen_review`]) among the
/// reviews the client lists for the pull request of the repository, with
/// the author filter resolved, see [`review_id_step`].
pub open spec fn review_id_is<C: GetCurrentUserClient + ListReviewsClient + ListPullRequestsClient, R: GetRepoistoryInfo + GetCurrentBranch>(
    cmd: ReviewFormatCommand,
    client: C,
    repository: R,
    x: Result<Seq<char>, Seq<char>>,
) -> bool {
    if cmd.review matches Some(v) && parse_i32_spec(v@) is None {
        x == Ok::<Seq<char>, Seq<char>>(cmd.review->0@)
    } else {
        exists|o: Result<(Seq<char>, Seq<char>), Seq<char>>, n: Result<u32, Seq<char>>, l: Result<Vec<Review>, String>, w: Result<Seq<char>, Seq<char>>|
            #[trigger] review_id_step(cmd, client, repository, o, n, l, w, x)
    }
}

/// Whether `x` is what formatting a review on GitHub gives, where `id` is
/// the review chosen (see [`review_id_is`]) and `c` the client's answer
/// with its comments: their markdown.
pub open spec fn remote_markdown_step<C: GetCurrentUserClient + ListReviewsClient + FetchReviewCommentsClient + ListPullRequestsClient, R: GetRepoistoryInfo + GetCurrentBranch>(
    cmd: ReviewFormatCommand,
    client: C,
    repository: R,
    id: Result<Seq<char>, Seq<char>>,
    c: Result<Vec<Comment>, String>,
    x: Result<Seq<char>, Seq<char>>,
) -> bool {
    &&& review_id_is(cmd, client, repository, id)
    &&& match id {
        Err(e) => x == Err::<Seq<char>, Seq<char>>(e),
        Ok(rid) => {
            &&& client.comments_answer(rid, c)
            &&& match c {
                Err(e) => x == Err::<Seq<char>, Seq<char>>(e@),
                Ok(cs) => x == Ok::<Seq<char>, Seq<char>>(comments_markdown(views_of(cs@))),
            }
        },
    }
}

/// Whether `x` is what formatting a review on GitHub may give, see
/// [`remote_markdown_step`].
pub open spec fn remote_markdown_is<C: GetCurrentUserClient + ListReviewsClient + FetchReviewCommentsClient + ListPullRequestsClient, R: GetRepoistoryInfo + GetCurrentBranch>(
    cmd: ReviewFormatCommand,
    client: C,
    repository: R,
    x: Result<Seq<char>, Seq<char>>,
) -> bool {
    exists|id: Result<Seq<char>, Seq<char>>, c: Result<Vec<Comment>, String>|
        #[trigger] remote_markdown_step(cmd, client, repository, id, c, x)
}

impl ReviewFormatCommand {
    /// No pull request or file, no option.
    pub fn new() -> (r: Self)
        ensures
            r.pr_or_file is None && r.repo is None && r.review is None && r.author is None && !r.remote,
    {
        ReviewFormatCommand { pr_or_file: None, repo: None, review: None, author: None, remote: false }
    }

    /// Whether the argument names a local comments file: it was given, the
    /// file exists (`file_exists`) and `--remote` was not given.
    pub fn should_format_local_review(&self, file_exists: bool) -> (r: bool)
        ensures
            r == (!self.remote && self.pr_or_file is Some && file_exists),
    {
        !self.remote && self.pr_or_file.is_some() && file_exists
    }

    /// The programs the command needs: none for a local file; `gh`, and `git`
    /// too where the repository is to be found from the remotes (no `--repo`
    /// and no review ID).
    pub fn required_executables(&self, file_exists: bool) -> (r: Vec<&'static str>)
        ensures
            (!self.remote && self.pr_or_file is Some && file_exists) ==> r@.len() == 0,
            !(!self.remote && self.pr_or_file is Some && file_exists) ==> {
                let needs_git = self.repo is None && !(self.review matches Some(v) && parse_i32_spec(v@) is None);
                &&& r@.len() == if needs_git { 2int } else { 1int }
                &&& r@[0]@ == "gh"@
                &&& needs_git ==> r@[1]@ == "git"@
            },
    {
        let mut r: Vec<&'static str> = Vec::new();
        if self.should_format_local_review(file_exists) {
            return r;
        }
        r.push("gh");
        let is_id = match &self.review {
            Some(v) => match parse_review_id_or_index(v.as_str()) {
                ReviewIdOrIndex::Id(_) => true,
                ReviewIdOrIndex::Index(_) => false,
            },
            None => false,
        };
        if self.repo.is_none() && !is_id {
            r.push("git");
        }
        r
    }

    /// Checks that no option for remote reviews is given with a local file.
    pub fn ensure_no_remote_options_for_local_format(&self) -> (r: Result<(), String>)
        ensures
            !(self.repo is Some || self.review is Some || self.author is Some || self.remote) ==> r is Ok,
            (self.repo is Some || self.review is Some || self.author is Some || self.remote) ==> (r matches Err(
                e,
            ) && e@ == remote_options_error()),
    {
        ensure_no_remote_options_for_local_format(
            self.repo.is_some(),
            self.review.is_some(),
            self.author.is_some(),
            self.remote,
        )
    }

    /// The owner and repository: from `--repo`, else as the repository
    /// finds them from its remotes.
    pub fn get_owner_and_repo<R: GetRepoistoryInfo>(&self, repository: &R) -> (r: Result<(String, String), String>)
        ensures
            owner_repo_is(self.repo, *repository, pair_text(r)),
    {
        match &self.repo {
            Some(repo) => {
                let r = split_owner_repo(repo.as_str());
                assert(pair_text(r) == repo_option_outcome(repo@));
                r
            },
            None => {
                let a = repository.get_github_owner_and_repo();
                let ghost ga = a;
                match a {
                    Ok(x) => {
                        assert(repository.owner_and_repo_answer(ga));
                        Ok(x)
                    },
                    Err(e) => {
                        let m = with_context("Failed to auto-detect repository. Please provide --repo", e);
                        assert(repository.owner_and_repo_answer(ga));
                        Err(m)
                    },
                }
            },
        }
    }

    /// The number of the pull request: the argument, or else the only open
    /// pull request whose head is the upstream branch.
    pub fn get_pr_number<C: ListPullRequestsClient, R: GetCurrentBranch>(
        &self,
        client: &C,
        repository: &R,
        owner: &str,
        repo: &str,
    ) -> (r: Result<u32, String>)
        ensures
            pr_number_is(self.pr_or_file, *client, *repository, owner@, repo@, number_text(r)),
    {
        match &self.pr_or_file {
            Some(p) => {
                match parse_unsigned_str(p.as_str(), u32::MAX) {
                    Ok(n) => Ok(n),
                    Err(cause) => {
                        let mut out: Vec<char> = Vec::new();
                        push_str(&mut out, "Cannot interpret ");
                        push_quoted(&mut out, p.as_str());
                        push_str(&mut out, " as a PR number");
                        assert(out@ =~= bad_pr_number(p@));
                        let what = string_from(&out);
                        Err(with_context(what.as_str(), cause))
                    },
                }
            },
            None => {
                let u = repository.get_upstream_branch();
                let ghost gu = u;
                assert(repository.upstream_answer(gu));
                let branch = match u {
                    Ok(b) => b,
                    Err(e) => return Err(e),
                };
                let ps = client.list_pull_requests(owner, repo);
                let ghost gps = ps;
                assert(client.pull_requests_answer(owner@, repo@, gps));
                let open_prs = match ps {
                    Ok(v) => v,
                    Err(e) => return Err(e),
                };
                let r = match select_pull_request(open_prs.as_slice(), branch.as_str()) {
                    Ok(n) => Ok(n),
                    Err(e) => Err(e.message()),
                };
                assert(number_text(r) == pr_choice(open_prs@, branch@));
                r
            },
        }
    }

    /// The ID of the review to format: the review ID given, or else the
    /// review chosen among those of the pull request, see [`review_id_is`].
    pub fn get_review_id<C: GetCurrentUserClient + ListReviewsClient + ListPullRequestsClient, R: GetRepoistoryInfo + GetCurrentBranch>(
        &self,
        client: &C,
        repository: &R,
    ) -> (r: Result<String, String>)
        ensures
            self.review matches Some(v) ==> (parse_i32_spec(v@) is None ==> (r matches Ok(x) && x@ == v@)),
            review_id_is(*self, *client, *repository, text_of(r)),
    {
        let review = match &self.review {
            Some(v) => Some(parse_review_id_or_index(v.as_str())),
            None => None,
        };
        let index: i32 = match review {
            Some(ReviewIdOrIndex::Id(id)) => return Ok(id.to_owned()),
            Some(ReviewIdOrIndex::Index(i)) => i,
            None => -1,
        };
        assert(index == review_index(self.review));
        assert(!(self.review matches Some(v) && parse_i32_spec(v@) is None));
        let o = self.get_owner_and_repo(repository);
        let ghost go = pair_text(o);
        let ghost anyl: Result<Vec<Review>, String> = arbitrary();
        let ghost anyw: Result<Seq<char>, Seq<char>> = arbitrary();
        let ghost anyn: Result<u32, Seq<char>> = arbitrary();
        let (owner, repo) = match o {
            Ok(x) => x,
            Err(e) => {
                assert(review_id_step(*self, *client, *repository, go, anyn, anyl, anyw, Err(e@)));
                return Err(e);
            },
        };
        let n = self.get_pr_number(client, repository, owner.as_str(), repo.as_str());
        let ghost gn = number_text(n);
        let pr_number = match n {
            Ok(x) => x,
            Err(e) => {
                assert(review_id_step(*self, *client, *repository, go, gn, anyl, anyw, Err(e@)));
                return Err(e);
            },
        };
        let l = client.list_reviews(owner.as_str(), repo.as_str(), pr_number);
        let ghost gl = l;
        let all_reviews = match l {
            Ok(v) => v,
            Err(e) => {
                assert(review_id_step(*self, *client, *repository, go, gn, gl, anyw, Err(e@)));
                return Err(e);
            },
        };
        match &self.author {
            Some(author) => {
                let w = resolve_author_filter(author.as_str(), client);
                let ghost gw = text_of(w);
                let resolved = match w {
                    Ok(x) => x,
                    Err(e) => {
                        assert(review_id_step(*self, *client, *repository, go, gn, gl, gw, Err(e@)));
                        return Err(e);
                    },
                };
                let r = select_review_id(all_reviews.as_slice(), Some(resolved.as_str()), index, pr_number);
                assert(review_id_step(*self, *client, *repository, go, gn, gl, gw, text_of(r)));
                r
            },
            None => {
                let r = select_review_id(all_reviews.as_slice(), None, index, pr_number);
                assert(review_id_step(*self, *client, *repository, go, gn, gl, anyw, text_of(r)));
                r
            },
        }
    }

    /// The markdown of the comments of the review: those of the local
    /// session `local` that are not minimized where one is given, else those
    /// the client fetches for the review chosen on GitHub; empty where there
    /// are no comments.
    pub fn run<C: GetCurrentUserClient + ListReviewsClient + FetchReviewCommentsClient + ListPullRequestsClient, R: GetRepoistoryInfo + GetCurrentBranch>(
        self,
        client: &C,
        repository: &R,
        local: Option<CommentsFile>,
    ) -> (r: Result<String, String>)
        ensures
            local is Some && (self.repo is Some || self.review is Some || self.author is Some || self.remote)
                ==> (r matches Err(e) && e@ == remote_options_error()),
            local matches Some(file) ==> (!(self.repo is Some || self.review is Some || self.author is Some
                || self.remote) ==> match parsed_diff(file.raw_diff@) {
                Ok(d) => r matches Ok(text) && text@ == comments_markdown(local_comments(views_of(file.comments@), d)),
                Err(e) => file.comments@.len() > 0 ==> (r matches Err(m) && m@ == crate::diff::error::error_text(e)),
            }),
            local matches Some(file) ==> (!(self.repo is Some || self.review is Some || self.author is Some
                || self.remote) && file.comments@.len() == 0 ==> (r matches Ok(text) && text@.len() == 0)),
            local is None ==> remote_markdown_is(self, *client, *repository, text_of(r)),
    {
        let ghost me = self;
        let comments = match local {
            Some(file) => {
                self.ensure_no_remote_options_for_local_format()?;
                match fetch_local_comments(file) {
                    Ok(v) => v,
                    Err(e) => return Err(e.message().to_owned()),
                }
            },
            None => {
                let id = self.get_review_id(client, repository);
                let ghost gid = text_of(id);
                let ghost anyc: Result<Vec<Comment>, String> = arbitrary();
                let review_id = match id {
                    Ok(x) => x,
                    Err(e) => {
                        assert(remote_markdown_step(me, *client, *repository, gid, anyc, Err(e@)));
                        return Err(e);
                    },
                };
                let c = client.fetch_review_comments(review_id.as_str());
                let ghost gc = c;
                match c {
                    Ok(v) => {
                        let text = comments_to_markdown(v);
                        assert(remote_markdown_step(me, *client, *repository, gid, gc, Ok(text@)));
                        return Ok(text);
                    },
                    Err(e) => {
                        assert(remote_markdown_step(me, *client, *repository, gid, gc, Err(e@)));
                        return Err(e);
                    },
                }
            },
        };
        Ok(comments_to_markdown(comments))
    }
}

/// Whether `r` is one of `rs` written by `a` (login compared without ASCII case).
pub open spec fn authored_in(rs: Seq<Review>, a: Seq<char>, r: Review) -> bool {
    exists|j: int| 0 <= j < rs.len() && #[trigger] rs[j] == r && crate::review::eq_ignore_ascii_case(rs[j].author.login@, a)
}

proof fn lemma_reviews_by(rs: Seq<Review>, a: Seq<char>)
    ensures
        forall|k: int| 0 <= k < reviews_by(rs, a).len() ==> authored_in(rs, a, #[trigger] reviews_by(rs, a)[k]),
    decreases rs.len(),
{
    if rs.len() > 0 {
        let t = rs.drop_last();
        lemma_reviews_by(t, a);
        let f = reviews_by(rs, a);
        let g = reviews_by(t, a);
        let m = crate::review::eq_ignore_ascii_case(rs.last().author.login@, a);
        assert(f == if m { g.push(rs.last()) } else { g });
        assert forall|k: int| 0 <= k < f.len() implies authored_in(rs, a, #[trigger] f[k]) by {
            if k < g.len() {
                assert(f[k] == g[k]);
                assert(authored_in(t, a, g[k]));
                let j = choose|j: int|
                    0 <= j < t.len() && #[trigger] t[j] == g[k] && crate::review::eq_ignore_ascii_case(
                        t[j].author.login@,
                        a,
                    );
                assert(rs[j] == t[j]);
            } else {
                let j = rs.len() - 1;
                assert(rs[j] == f[k] && crate::review::eq_ignore_ascii_case(rs[j].author.login@, a));
            }
        }
    }
}

/// Without an index or author, the review chosen is the last one of the
/// pull request.
pub proof fn law_default_review_is_the_last(all: Seq<Review>, pr_number: u32)
    requires
        all.len() > 0,
    ensures
        chosen_review(all, None, -1i32, pr_number) == Ok::<Seq<char>, Seq<char>>(all.last().id@),
{
}

/// With an author, the review chosen is one of the pull request's reviews
/// written by that author (login compared without ASCII case).
pub proof fn law_author_filter_chooses_their_review(all: Seq<Review>, author: Seq<char>, index: i32, pr_number: u32)
    ensures
        chosen_review(all, Some(author), index, pr_number) matches Ok(id) ==> exists|j: int|
            0 <= j < all.len() && #[trigger] all[j].id@ == id && crate::review::eq_ignore_ascii_case(
                all[j].author.login@,
                author,
            ),
{
    lemma_reviews_by(all, author);
    let f = reviews_by(all, author);
    if f.len() > 0 {
        if index == -1 {
            assert(authored_in(all, author, f[f.len() - 1]));
            let j = choose|j: int|
                0 <= j < all.len() && #[trigger] all[j] == f[f.len() - 1]
                    && crate::review::eq_ignore_ascii_case(all[j].author.login@, author);
            assert(all[j].id@ == f.last().id@);
        } else if 1 <= index <= f.len() {
            assert(authored_in(all, author, f[index - 1]));
            let j = choose|j: int|
                0 <= j < all.len() && #[trigger] all[j] == f[index - 1]
                    && crate::review::eq_ignore_ascii_case(all[j].author.login@, author);
            assert(all[j].id@ == f[index - 1].id@);
        }
    }
}

} // verus!
