//! The data that GitHub returns about pull requests, reviews, comments and
//! issues.
use vstd::prelude::*;

verus! {

/// A GitHub user.
#[derive(Debug, PartialEq)]
pub struct User {
    /// The user's login.
    pub login: String,
}

/// The author of a review, as the review listing names it.
#[derive(Debug, Clone, PartialEq)]
pub struct ReviewAuthor {
    /// The author's login.
    pub login: String,
}

/// The number of comments of a review.
#[derive(Debug, Clone, Copy, PartialEq)]
pub struct CommentCount {
    pub total_count: u32,
}

/// A pull request review.
#[derive(Debug, PartialEq)]
pub struct Review {
    /// The GitHub node ID of the review.
    pub id: String,
    /// The author of the review.
    pub author: User,
    /// The state of the review (APPROVED, CHANGES_REQUESTED, COMMENTED, ...).
    pub state: String,
    /// The body of the review.
    pub body: Option<String>,
    /// How many comments the review has.
    pub comments: CommentCount,
}

/// A review comment on a file of a pull request, or a general comment.
#[derive(Debug, PartialEq)]
pub struct Comment {
    /// The comment ID (GitHub node ID for PR comments, UUID for local comments).
    pub id: String,
    /// The file path relative to the repository root.
    pub path: String,
    /// The line number in the new version of the file (`None` for general comments).
    pub line: Option<u32>,
    /// The comment text.
    pub body: String,
    /// The unified diff hunk showing the code context.
    pub diff_hunk: String,
    /// The user who made the comment.
    pub user: User,
    /// Whether the comment was hidden (minimized); such comments are not exported.
    pub is_minimized: bool,
}

/// The text of a comment's fields.
pub struct CommentView {
    pub id: Seq<char>,
    pub path: Seq<char>,
    pub line: Option<u32>,
    pub body: Seq<char>,
    pub diff_hunk: Seq<char>,
    pub user: Seq<char>,
    pub is_minimized: bool,
}

impl DeepView for Comment {
    type V = CommentView;

    open spec fn deep_view(&self) -> CommentView {
        CommentView {
            id: self.id@,
            path: self.path@,
            line: self.line,
            body: self.body@,
            diff_hunk: self.diff_hunk@,
            user: self.user.login@,
            is_minimized: self.is_minimized,
        }
    }
}

/// An open pull request.
#[derive(Debug, PartialEq)]
pub struct PullRequest {
    pub id: String,
    pub number: u32,
    pub title: String,
    pub head_ref_name: String,
}

/// A label of an issue.
#[derive(Debug, Clone, PartialEq)]
pub struct Label {
    /// The label name.
    pub name: String,
}

/// A GitHub issue.
#[derive(Debug, Clone, PartialEq)]
pub struct Issue {
    /// The GitHub node ID of the issue.
    pub id: String,
    /// The issue number.
    pub number: u32,
    /// The issue title.
    pub title: String,
    /// The issue description, when there is one.
    pub body: Option<String>,
    /// The author of the issue (none when the user was deleted).
    pub author: Option<User>,
    /// The state of the issue (OPEN, CLOSED).
    pub state: String,
    /// The labels of the issue.
    pub labels: Vec<Label>,
}

/// A copy of an optional text.
fn clone_opt(s: &Option<String>) -> (r: Option<String>)
    ensures
        r == *s,
{
    match s {
        Some(x) => Some(x.clone()),
        None => None,
    }
}

impl Clone for User {
    fn clone(&self) -> (r: Self)
        ensures
            r == *self,
    {
        User { login: self.login.clone() }
    }
}

impl Clone for Review {
    fn clone(&self) -> (r: Self)
        ensures
            r == *self,
    {
        Review {
            id: self.id.clone(),
            author: self.author.clone(),
            state: self.state.clone(),
            body: clone_opt(&self.body),
            comments: self.comments,
        }
    }
}

impl Clone for Comment {
    fn clone(&self) -> (r: Self)
        ensures
            r == *self,
    {
        Comment {
            id: self.id.clone(),
            path: self.path.clone(),
            line: self.line,
            body: self.body.clone(),
            diff_hunk: self.diff_hunk.clone(),
            user: self.user.clone(),
            is_minimized: self.is_minimized,
        }
    }
}

impl Clone for PullRequest {
    fn clone(&self) -> (r: Self)
        ensures
            r == *self,
    {
        PullRequest {
            id: self.id.clone(),
            number: self.number,
            title: self.title.clone(),
            head_ref_name: self.head_ref_name.clone(),
        }
    }
}

/// A client that knows who is signed in.
///
/// Each method is paired with a relation that says which answers the
/// client may give to a request; the library's own clients define it, and
/// a client that does not define it promises nothing of its answers.
pub trait GetCurrentUserClient {
    /// Whether `r` is an answer the client may give when asked for the
    /// signed-in user.
    open spec fn current_user_answer(&self, r: Result<User, String>) -> bool {
        true
    }

    /// The signed-in user, or why it is unknown.
    fn get_current_user(&self) -> (r: Result<User, String>)
        ensures
            self.current_user_answer(r),
    ;
}

/// A GitHub client that tells the login of the signed-in user.
pub trait GitHubClient {
    /// The login of the signed-in user, or why it is unknown.
    fn get_current_user(&self) -> Result<String, String>;
}

/// A client that lists the reviews of a pull request.
pub trait ListReviewsClient {
    /// Whether `r` is an answer the client may give when asked for the
    /// reviews of pull request `pr_number` of `owner/repo`.
    open spec fn reviews_answer(&self, owner: Seq<char>, repo: Seq<char>, pr_number: u32, r: Result<Vec<Review>, String>) -> bool {
        true
    }

    /// The reviews of pull request `pr_number` of `owner/repo`.
    fn list_reviews(&self, owner: &str, repo: &str, pr_number: u32) -> (r: Result<Vec<Review>, String>)
        ensures
            self.reviews_answer(owner@, repo@, pr_number, r),
    ;
}

/// A client that fetches the comments of a review.
pub trait FetchReviewCommentsClient {
    /// Whether `r` is an answer the client may give when asked for the
    /// comments of the review `review_id`.
    open spec fn comments_answer(&self, review_id: Seq<char>, r: Result<Vec<Comment>, String>) -> bool {
        true
    }

    /// The comments of the review `review_id`.
    fn fetch_review_comments(&self, review_id: &str) -> (r: Result<Vec<Comment>, String>)
        ensures
            self.comments_answer(review_id@, r),
    ;
}

/// A client that lists open pull requests.
pub trait ListPullRequestsClient {
    /// Whether `r` is an answer the client may give when asked for the open
    /// pull requests of `owner/repo`.
    open spec fn pull_requests_answer(&self, owner: Seq<char>, repo: Seq<char>, r: Result<Vec<PullRequest>, String>) -> bool {
        true
    }

    /// The open pull requests of `owner/repo`.
    fn list_pull_requests(&self, owner: &str, repo: &str) -> (r: Result<Vec<PullRequest>, String>)
        ensures
            self.pull_requests_answer(owner@, repo@, r),
    ;
}

/// A client that fetches issues.
pub trait FetchIssueClient {
    /// Whether `r` is an answer the client may give when asked for the issue
    /// `issue_number` of `owner/repo`.
    open spec fn issue_answer(&self, owner: Seq<char>, repo: Seq<char>, issue_number: u32, r: Result<Issue, String>) -> bool {
        true
    }

    /// The issue `issue_number` of `owner/repo`.
    fn fetch_issue(&self, owner: &str, repo: &str, issue_number: u32) -> (r: Result<Issue, String>)
        ensures
            self.issue_answer(owner@, repo@, issue_number, r),
    ;
}

/// A client with a fixed user, reviews and comments, for tests.
pub struct MockGitHubClient {
    username: String,
    /// Reviews keyed by owner, repository and pull request number.
    reviews: Vec<(String, String, u32, Vec<Review>)>,
    /// Comments keyed by review.
    review_comments: Vec<(String, Vec<Comment>)>,
    /// Open pull requests keyed by owner and repository.
    pull_requests: Vec<(String, String, Vec<PullRequest>)>,
}

/// The key of a pull request's reviews.
pub open spec fn review_key(e: (String, String, u32, Vec<Review>)) -> (Seq<char>, Seq<char>, u32) {
    (e.0@, e.1@, e.2)
}

/// The reviews stored under each key.
pub open spec fn reviews_map(es: Seq<(String, String, u32, Vec<Review>)>) -> Map<(Seq<char>, Seq<char>, u32), Seq<Review>>
    decreases es.len(),
{
    if es.len() == 0 {
        Map::empty()
    } else {
        reviews_map(es.drop_last()).insert(review_key(es.last()), es.last().3@)
    }
}

/// The comments stored under each review.
pub open spec fn comments_map(es: Seq<(String, Vec<Comment>)>) -> Map<Seq<char>, Seq<Comment>>
    decreases es.len(),
{
    if es.len() == 0 {
        Map::empty()
    } else {
        comments_map(es.drop_last()).insert(es.last().0@, es.last().1@)
    }
}

/// The open pull requests stored under each repository.
pub open spec fn pull_requests_map(es: Seq<(String, String, Vec<PullRequest>)>) -> Map<(Seq<char>, Seq<char>), Seq<PullRequest>>
    decreases es.len(),
{
    if es.len() == 0 {
        Map::empty()
    } else {
        pull_requests_map(es.drop_last()).insert((es.last().0@, es.last().1@), es.last().2@)
    }
}

/// The message when no reviews are stored for a pull request.
pub open spec fn missing_reviews(owner: Seq<char>, repo: Seq<char>, pr_number: u32) -> Seq<char> {
    "Could not find reviews for ("@ + crate::review::quoted(owner) + ", "@ + crate::review::quoted(repo) + ", "@
        + crate::text::decimal(pr_number as nat) + ")"@
}

/// The message when no comments are stored for a review.
pub open spec fn missing_comments(review_id: Seq<char>) -> Seq<char> {
    "Could not find comments for review "@ + review_id
}

/// The message when no pull requests are stored for a repository.
pub open spec fn missing_pull_requests(owner: Seq<char>, repo: Seq<char>) -> Seq<char> {
    "Could not find pull requests for ("@ + crate::review::quoted(owner) + ", "@ + crate::review::quoted(repo) + ")"@
}

impl MockGitHubClient {
    /// A client whose signed-in user is `username`, with no reviews or comments.
    pub fn new(username: &str) -> (r: Self)
        ensures
            r.username()@ == username@,
            r.reviews() == Map::<(Seq<char>, Seq<char>, u32), Seq<Review>>::empty(),
            r.comments() == Map::<Seq<char>, Seq<Comment>>::empty(),
            r.pull_requests() == Map::<(Seq<char>, Seq<char>), Seq<PullRequest>>::empty(),
    {
        MockGitHubClient {
            username: username.to_owned(),
            reviews: Vec::new(),
            review_comments: Vec::new(),
            pull_requests: Vec::new(),
        }
    }

    /// The open pull requests of each repository.
    pub closed spec fn pull_requests(&self) -> Map<(Seq<char>, Seq<char>), Seq<PullRequest>> {
        pull_requests_map(self.pull_requests@)
    }

    /// The client with `pull_requests` as the open pull requests of `owner/repo`.
    pub fn with_pull_requests(self, owner: &str, repo: &str, pull_requests: Vec<PullRequest>) -> (r: Self)
        ensures
            r.username() == self.username(),
            r.reviews() == self.reviews(),
            r.comments() == self.comments(),
            r.pull_requests() == self.pull_requests().insert((owner@, repo@), pull_requests@),
    {
        let mut s = self;
        let ghost before = s.pull_requests@;
        let e = (owner.to_owned(), repo.to_owned(), pull_requests);
        s.pull_requests.push(e);
        assert(s.pull_requests@.drop_last() =~= before);
        s
    }

    /// The signed-in user.
    pub closed spec fn username(&self) -> String {
        self.username
    }

    /// The reviews of each pull request.
    pub closed spec fn reviews(&self) -> Map<(Seq<char>, Seq<char>, u32), Seq<Review>> {
        reviews_map(self.reviews@)
    }

    /// The comments of each review.
    pub closed spec fn comments(&self) -> Map<Seq<char>, Seq<Comment>> {
        comments_map(self.review_comments@)
    }

    /// The client with `reviews` as the reviews of pull request `pr_number` of `owner/repo`.
    pub fn with_reviews(self, owner: &str, repo: &str, pr_number: u32, reviews: Vec<Review>) -> (r: Self)
        ensures
            r.username() == self.username(),
            r.reviews() == self.reviews().insert((owner@, repo@, pr_number), reviews@),
            r.comments() == self.comments(),
            r.pull_requests() == self.pull_requests(),
    {
        let mut s = self;
        let ghost before = s.reviews@;
        let e = (owner.to_owned(), repo.to_owned(), pr_number, reviews);
        s.reviews.push(e);
        assert(s.reviews@.drop_last() =~= before);
        s
    }

    /// The client with `comments` as the comments of the review `review_id`.
    pub fn with_comments(self, review_id: &str, comments: Vec<Comment>) -> (r: Self)
        ensures
            r.username() == self.username(),
            r.reviews() == self.reviews(),
            r.comments() == self.comments().insert(review_id@, comments@),
            r.pull_requests() == self.pull_requests(),
    {
        let mut s = self;
        let ghost before = s.review_comments@;
        let e = (review_id.to_owned(), comments);
        s.review_comments.push(e);
        assert(s.review_comments@.drop_last() =~= before);
        s
    }
}

proof fn lemma_reviews_map_last(es: Seq<(String, String, u32, Vec<Review>)>, k: (Seq<char>, Seq<char>, u32), n: int)
    requires
        0 <= n <= es.len(),
        forall|j: int| n <= j < es.len() ==> review_key(#[trigger] es[j]) != k,
    ensures
        reviews_map(es).dom().contains(k) == reviews_map(es.take(n)).dom().contains(k),
        reviews_map(es).dom().contains(k) ==> reviews_map(es)[k] == reviews_map(es.take(n))[k],
    decreases es.len() - n,
{
    if n < es.len() {
        assert(es.take(n + 1).drop_last() =~= es.take(n));
        assert(es.take(n + 1).last() == es[n]);
        lemma_reviews_map_last(es, k, n + 1);
    } else {
        assert(es.take(n) =~= es);
    }
}

proof fn lemma_comments_map_last(es: Seq<(String, Vec<Comment>)>, k: Seq<char>, n: int)
    requires
        0 <= n <= es.len(),
        forall|j: int| n <= j < es.len() ==> (#[trigger] es[j]).0@ != k,
    ensures
        comments_map(es).dom().contains(k) == comments_map(es.take(n)).dom().contains(k),
        comments_map(es).dom().contains(k) ==> comments_map(es)[k] == comments_map(es.take(n))[k],
    decreases es.len() - n,
{
    if n < es.len() {
        assert(es.take(n + 1).drop_last() =~= es.take(n));
        assert(es.take(n + 1).last() == es[n]);
        lemma_comments_map_last(es, k, n + 1);
    } else {
        assert(es.take(n) =~= es);
    }
}

proof fn lemma_pull_requests_map_last(es: Seq<(String, String, Vec<PullRequest>)>, k: (Seq<char>, Seq<char>), n: int)
    requires
        0 <= n <= es.len(),
        forall|j: int| n <= j < es.len() ==> ((#[trigger] es[j]).0@, es[j].1@) != k,
    ensures
        pull_requests_map(es).dom().contains(k) == pull_requests_map(es.take(n)).dom().contains(k),
        pull_requests_map(es).dom().contains(k) ==> pull_requests_map(es)[k] == pull_requests_map(es.take(n))[k],
    decreases es.len() - n,
{
    if n < es.len() {
        assert(es.take(n + 1).drop_last() =~= es.take(n));
        assert(es.take(n + 1).last() == es[n]);
        lemma_pull_requests_map_last(es, k, n + 1);
    } else {
        assert(es.take(n) =~= es);
    }
}

impl GetCurrentUserClient for MockGitHubClient {
    open spec fn current_user_answer(&self, r: Result<User, String>) -> bool {
        r == Ok::<User, String>(User { login: self.username() })
    }

    fn get_current_user(&self) -> (r: Result<User, String>)
        ensures
            r == Ok::<User, String>(User { login: self.username() }),
    {
        Ok(User { login: self.username.clone() })
    }
}

impl ListReviewsClient for MockGitHubClient {
    open spec fn reviews_answer(&self, owner: Seq<char>, repo: Seq<char>, pr_number: u32, r: Result<Vec<Review>, String>) -> bool {
        if self.reviews().dom().contains((owner, repo, pr_number)) {
            r matches Ok(v) && v@ == self.reviews()[(owner, repo, pr_number)]
        } else {
            r matches Err(e) && e@ == missing_reviews(owner, repo, pr_number)
        }
    }

    fn list_reviews(&self, owner: &str, repo: &str, pr_number: u32) -> (r: Result<Vec<Review>, String>)
        ensures
            self.reviews().dom().contains((owner@, repo@, pr_number)) ==> (r matches Ok(v) && v@ == self.reviews()[(owner@, repo@, pr_number)]),
            !self.reviews().dom().contains((owner@, repo@, pr_number)) ==> (r matches Err(e) && e@
                == missing_reviews(owner@, repo@, pr_number)),
    {
        let ghost k = (owner@, repo@, pr_number);
        let mut i = self.reviews.len();
        while i > 0
            invariant
                i <= self.reviews@.len(),
                k == (owner@, repo@, pr_number),
                forall|j: int| i <= j < self.reviews@.len() ==> review_key(#[trigger] self.reviews@[j]) != k,
            decreases i,
        {
            let e = &self.reviews[i - 1];
            if crate::text::str_eq(e.0.as_str(), owner) && crate::text::str_eq(e.1.as_str(), repo) && e.2 == pr_number {
                proof {
                    lemma_reviews_map_last(self.reviews@, k, i as int);
                    let t = self.reviews@.take(i as int);
                    assert(t.last() == self.reviews@[i - 1]);
                    assert(review_key(t.last()) == k);
                    assert(reviews_map(t) == reviews_map(t.drop_last()).insert(review_key(t.last()), t.last().3@));
                }
                let v = e.3.clone();
                assert(v@ =~= e.3@);
                return Ok(v);
            }
            i -= 1;
        }
        proof {
            lemma_reviews_map_last(self.reviews@, k, 0);
            assert(self.reviews@.take(0) =~= seq![]);
        }
        let mut msg: Vec<char> = Vec::new();
        crate::text::push_str(&mut msg, "Could not find reviews for (");
        crate::review::push_quoted(&mut msg, owner);
        crate::text::push_str(&mut msg, ", ");
        crate::review::push_quoted(&mut msg, repo);
        crate::text::push_str(&mut msg, ", ");
        crate::text::push_decimal(&mut msg, pr_number as u64);
        crate::text::push_str(&mut msg, ")");
        assert(msg@ =~= missing_reviews(owner@, repo@, pr_number));
        Err(crate::text::string_from(&msg))
    }
}

impl FetchReviewCommentsClient for MockGitHubClient {
    open spec fn comments_answer(&self, review_id: Seq<char>, r: Result<Vec<Comment>, String>) -> bool {
        if self.comments().dom().contains(review_id) {
            r matches Ok(v) && v@ == self.comments()[review_id]
        } else {
            r matches Err(e) && e@ == missing_comments(review_id)
        }
    }

    fn fetch_review_comments(&self, review_id: &str) -> (r: Result<Vec<Comment>, String>)
        ensures
            self.comments().dom().contains(review_id@) ==> (r matches Ok(v) && v@ == self.comments()[review_id@]),
            !self.comments().dom().contains(review_id@) ==> (r matches Err(e) && e@ == missing_comments(
                review_id@,
            )),
    {
        let ghost k = review_id@;
        let mut i = self.review_comments.len();
        while i > 0
            invariant
                i <= self.review_comments@.len(),
                k == review_id@,
                forall|j: int| i <= j < self.review_comments@.len() ==> (#[trigger] self.review_comments@[j]).0@ != k,
            decreases i,
        {
            let e = &self.review_comments[i - 1];
            if crate::text::str_eq(e.0.as_str(), review_id) {
                proof {
                    lemma_comments_map_last(self.review_comments@, k, i as int);
                    let t = self.review_comments@.take(i as int);
                    assert(t.last() == self.review_comments@[i - 1]);
                    assert(t.last().0@ == k);
                    assert(comments_map(t) == comments_map(t.drop_last()).insert(t.last().0@, t.last().1@));
                }
                let v = e.1.clone();
                assert(v@ =~= e.1@);
                return Ok(v);
            }
            i -= 1;
        }
        proof {
            lemma_comments_map_last(self.review_comments@, k, 0);
            assert(self.review_comments@.take(0) =~= seq![]);
        }
        let mut msg: Vec<char> = Vec::new();
        crate::text::push_str(&mut msg, "Could not find comments for review ");
        crate::text::push_str(&mut msg, review_id);
        assert(msg@ =~= missing_comments(review_id@));
        Err(crate::text::string_from(&msg))
    }
}

impl ListPullRequestsClient for MockGitHubClient {
    open spec fn pull_requests_answer(&self, owner: Seq<char>, repo: Seq<char>, r: Result<Vec<PullRequest>, String>) -> bool {
        if self.pull_requests().dom().contains((owner, repo)) {
            r matches Ok(v) && v@ == self.pull_requests()[(owner, repo)]
        } else {
            r matches Err(e) && e@ == missing_pull_requests(owner, repo)
        }
    }

    fn list_pull_requests(&self, owner: &str, repo: &str) -> (r: Result<Vec<PullRequest>, String>)
        ensures
            self.pull_requests().dom().contains((owner@, repo@)) ==> (r matches Ok(v) && v@
                == self.pull_requests()[(owner@, repo@)]),
            !self.pull_requests().dom().contains((owner@, repo@)) ==> (r matches Err(e) && e@
                == missing_pull_requests(owner@, repo@)),
    {
        let ghost k = (owner@, repo@);
        let mut i = self.pull_requests.len();
        while i > 0
            invariant
                i <= self.pull_requests@.len(),
                k == (owner@, repo@),
                forall|j: int|
                    i <= j < self.pull_requests@.len() ==> ((#[trigger] self.pull_requests@[j]).0@,
                    self.pull_requests@[j].1@) != k,
            decreases i,
        {
            let e = &self.pull_requests[i - 1];
            if crate::text::str_eq(e.0.as_str(), owner) && crate::text::str_eq(e.1.as_str(), repo) {
                proof {
                    lemma_pull_requests_map_last(self.pull_requests@, k, i as int);
                    let t = self.pull_requests@.take(i as int);
                    assert(t.last() == self.pull_requests@[i - 1]);
                    assert(pull_requests_map(t) == pull_requests_map(t.drop_last()).insert(
                        (t.last().0@, t.last().1@),
                        t.last().2@,
                    ));
                }
                let v = e.2.clone();
                assert(v@ =~= e.2@);
                return Ok(v);
            }
            i -= 1;
        }
        proof {
            lemma_pull_requests_map_last(self.pull_requests@, k, 0);
            assert(self.pull_requests@.take(0) =~= seq![]);
        }
        let mut msg: Vec<char> = Vec::new();
        crate::text::push_str(&mut msg, "Could not find pull requests for (");
        crate::review::push_quoted(&mut msg, owner);
        crate::text::push_str(&mut msg, ", ");
        crate::review::push_quoted(&mut msg, repo);
        crate::text::push_str(&mut msg, ")");
        assert(msg@ =~= missing_pull_requests(owner@, repo@));
        Err(crate::text::string_from(&msg))
    }
}

} // verus!
