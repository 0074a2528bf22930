//! Choosing the review whose comments to format: by ID, by index, by
//! author, and the pull request of the current branch.
use vstd::prelude::*;

use crate::client::{GetCurrentUserClient, PullRequest, Review, User};
use crate::text::{
    chars_of, decimal, decimal_value, digits_value, find, find_from, lemma_find_from, push_decimal, push_str,
    span, span_len, string_from, string_of, CharClass,
};

verus! {

// ---------------------------------------------------------------------------
// Review ID or index
// ---------------------------------------------------------------------------

/// A review given by ID, or by its index in the list of reviews.
#[derive(Debug, Clone, Copy, PartialEq)]
pub enum ReviewIdOrIndex<'s> {
    Id(&'s str),
    Index(i32),
}

/// Whether `d` is a nonempty run of ASCII digits.
pub open spec fn all_digits(d: Seq<char>) -> bool {
    d.len() > 0 && span_len(d, CharClass::AsciiDigit) == d.len()
}

/// The value of `s` as `str::parse::<i32>` reads it: an optional sign and
/// decimal digits, within the range of `i32`.
pub open spec fn parse_i32_spec(s: Seq<char>) -> Option<i32> {
    if s.len() > 0 && s[0] == '-' {
        let d = s.skip(1);
        if all_digits(d) && digits_value(d) <= 0x8000_0000 {
            Some((0 - digits_value(d)) as i32)
        } else {
            None
        }
    } else {
        let d = if s.len() > 0 && s[0] == '+' {
            s.skip(1)
        } else {
            s
        };
        if all_digits(d) && digits_value(d) <= 0x7fff_ffff {
            Some(digits_value(d) as i32)
        } else {
            None
        }
    }
}

/// The value of the digits `cs[from..]`, if they are a nonempty run of
/// digits not above `limit`.
fn digits_at_most(cs: &Vec<char>, from: usize, limit: usize) -> (r: Option<usize>)
    requires
        from <= cs@.len(),
    ensures
        match r {
            Some(v) => all_digits(cs@.skip(from as int)) && v == digits_value(cs@.skip(from as int)) && v <= limit,
            None => !(all_digits(cs@.skip(from as int)) && digits_value(cs@.skip(from as int)) <= limit),
        },
{
    let len = cs.len();
    if from == len {
        return None;
    }
    let end = span(cs, from, CharClass::AsciiDigit);
    if end != len {
        return None;
    }
    proof {
        crate::text::lemma_span_len(cs@.skip(from as int), CharClass::AsciiDigit);
        assert forall|j: int| from <= j < len implies crate::text::is_ascii_digit(#[trigger] cs@[j]) by {
            assert(cs@[j] == cs@.skip(from as int)[j - from]);
        }
        assert(cs@.subrange(from as int, len as int) =~= cs@.skip(from as int));
    }
    match decimal_value(cs, from, len) {
        None => None,
        Some(v) => if v <= limit {
            Some(v)
        } else {
            None
        },
    }
}

/// Reads a review ID or index: what reads as an `i32` is an index.
pub fn parse_review_id_or_index(s: &str) -> (r: ReviewIdOrIndex<'_>)
    ensures
        match parse_i32_spec(s@) {
            Some(i) => r == ReviewIdOrIndex::Index(i),
            None => r matches ReviewIdOrIndex::Id(x) && x@ == s@,
        },
{
    let cs = chars_of(s);
    let len = cs.len();
    if len > 0 && cs[0] == '-' {
        assert(cs@.skip(1) =~= s@.skip(1));
        match digits_at_most(&cs, 1, 0x8000_0000) {
            Some(v) => {
                let x = (0i64 - v as i64) as i32;
                return ReviewIdOrIndex::Index(x);
            },
            None => return ReviewIdOrIndex::Id(s),
        }
    }
    let from: usize = if len > 0 && cs[0] == '+' {
        1
    } else {
        0
    };
    assert(cs@.skip(0) =~= cs@);
    match digits_at_most(&cs, from, 0x7fff_ffff) {
        Some(v) => ReviewIdOrIndex::Index(v as i32),
        None => ReviewIdOrIndex::Id(s),
    }
}

// ---------------------------------------------------------------------------
// Reviews by author
// ---------------------------------------------------------------------------

/// The code of `c` with ASCII upper case letters made lower case.
pub open spec fn ascii_lower(c: char) -> u32 {
    if 'A' <= c && c <= 'Z' {
        (c as u32 + 32) as u32
    } else {
        c as u32
    }
}

/// Whether `a` and `b` are equal when ASCII letters are compared without case.
pub open spec fn eq_ignore_ascii_case(a: Seq<char>, b: Seq<char>) -> bool {
    a.len() == b.len() && forall|i: int| 0 <= i < a.len() ==> #[trigger] ascii_lower(a[i]) == ascii_lower(b[i])
}

fn lower(c: char) -> (r: u32)
    ensures
        r == ascii_lower(c),
{
    if 'A' <= c && c <= 'Z' {
        c as u32 + 32
    } else {
        c as u32
    }
}

/// Whether `a` and `b` are equal when ASCII letters are compared without case.
pub fn str_eq_ignore_ascii_case(a: &str, b: &str) -> (r: bool)
    ensures
        r == eq_ignore_ascii_case(a@, b@),
{
    let x = chars_of(a);
    let y = chars_of(b);
    if x.len() != y.len() {
        return false;
    }
    let mut i: usize = 0;
    while i < x.len()
        invariant
            i <= x@.len(),
            x@.len() == y@.len(),
            x@ == a@,
            y@ == b@,
            forall|j: int| 0 <= j < i ==> #[trigger] ascii_lower(x@[j]) == ascii_lower(y@[j]),
        decreases x@.len() - i,
    {
        if lower(x[i]) != lower(y[i]) {
            return false;
        }
        i += 1;
    }
    true
}

/// The reviews by `author`, whose login is compared without ASCII case.
pub open spec fn reviews_by(rs: Seq<Review>, author: Seq<char>) -> Seq<Review>
    decreases rs.len(),
{
    if rs.len() == 0 {
        seq![]
    } else if eq_ignore_ascii_case(rs.last().author.login@, author) {
        reviews_by(rs.drop_last(), author).push(rs.last())
    } else {
        reviews_by(rs.drop_last(), author)
    }
}

/// The reviews themselves, from references to them.
pub open spec fn derefs(rs: Seq<&Review>) -> Seq<Review> {
    rs.map_values(|r: &Review| *r)
}

/// The reviews by `author`, in order, see [`reviews_by`].
pub fn filter_reviews_by_author<'a>(reviews: &'a [Review], author: &str) -> (r: Vec<&'a Review>)
    ensures
        derefs(r@) == reviews_by(reviews@, author@),
{
    let mut out: Vec<&Review> = Vec::new();
    let mut i: usize = 0;
    while i < reviews.len()
        invariant
            i <= reviews@.len(),
            derefs(out@) == reviews_by(reviews@.take(i as int), author@),
        decreases reviews@.len() - i,
    {
        let rv = &reviews[i];
        assert(reviews@.take(i + 1).drop_last() =~= reviews@.take(i as int));
        assert(reviews@.take(i + 1).last() == *rv);
        if str_eq_ignore_ascii_case(rv.author.login.as_str(), author) {
            let ghost before = derefs(out@);
            out.push(rv);
            assert(derefs(out@) =~= before.push(*rv));
        }
        i += 1;
    }
    assert(reviews@.take(i as int) =~= reviews@);
    out
}

/// The login that an author filter stands for, given the signed-in user:
/// `@me` (in any case) stands for the signed-in user.
pub open spec fn is_me(author: Seq<char>) -> bool {
    eq_ignore_ascii_case(author, "@me"@)
}

/// The error when the signed-in user cannot be told.
pub open spec fn current_user_error() -> Seq<char> {
    "Failed to get current user. Are you authenticated with gh CLI?"@
}

/// The login of the signed-in user, as `current` gives it.
pub fn login_of_current_user(current: Result<User, String>) -> (r: Result<String, String>)
    ensures
        match current {
            Ok(u) => r == Ok::<String, String>(u.login),
            Err(_) => r matches Err(e) && e@ == current_user_error(),
        },
{
    match current {
        Ok(u) => Ok(u.login),
        Err(_) => Err("Failed to get current user. Are you authenticated with gh CLI?".to_owned()),
    }
}

/// The login `author` resolves to, or why it cannot be told, as the
/// signed-in user's answer `u` would give it.
pub open spec fn login_of_answer(u: Result<User, String>) -> Result<Seq<char>, Seq<char>> {
    match u {
        Ok(v) => Ok(v.login@),
        Err(_) => Err(current_user_error()),
    }
}

/// Whether `x` is what the author filter `author` may resolve to with
/// `client`: for `@me` (any case), the login of the signed-in user as the
/// client answers, else the filter itself.
pub open spec fn author_is<C: GetCurrentUserClient>(client: C, author: Seq<char>, x: Result<Seq<char>, Seq<char>>) -> bool {
    if is_me(author) {
        exists|u: Result<User, String>| #[trigger] client.current_user_answer(u) && x == login_of_answer(u)
    } else {
        x == Ok::<Seq<char>, Seq<char>>(author)
    }
}

/// The text of a result whose value and error are strings.
pub open spec fn text_of(r: Result<String, String>) -> Result<Seq<char>, Seq<char>> {
    match r {
        Ok(x) => Ok(x@),
        Err(e) => Err(e@),
    }
}

/// The login an author filter stands for: `@me` is asked of the client,
/// anything else is kept.
pub fn resolve_author_filter<C: GetCurrentUserClient>(author: &str, client: &C) -> (r: Result<String, String>)
    ensures
        !is_me(author@) ==> (r matches Ok(x) && x@ == author@),
        author_is(*client, author@, text_of(r)),
{
    if str_eq_ignore_ascii_case(author, "@me") {
        let u = client.get_current_user();
        proof {
            assert(client.current_user_answer(u));
        }
        let ghost lu = login_of_answer(u);
        let r = login_of_current_user(u);
        assert(text_of(r) == lu);
        r
    } else {
        Ok(author.to_owned())
    }
}

// ---------------------------------------------------------------------------
// Review by index
// ---------------------------------------------------------------------------

/// Why no review could be selected.
#[derive(Debug, Clone, Copy, PartialEq, Eq, Structural)]
pub enum SelectReviewError {
    NoReviews,
    IndexOutOfBounds { index: i32, len: usize },
}

/// The decimal text of an integer, with `-` when negative.
pub open spec fn int_text(i: int) -> Seq<char> {
    if i < 0 {
        "-"@ + decimal((0 - i) as nat)
    } else {
        decimal(i as nat)
    }
}

/// The message of a selection error.
pub open spec fn select_error_text(e: SelectReviewError) -> Seq<char> {
    match e {
        SelectReviewError::NoReviews => "No reviews available to select from"@,
        SelectReviewError::IndexOutOfBounds { index, len } => "Review index "@ + int_text(index as int)
            + " is out of bounds. Valid range: 1-"@ + decimal(len as nat) + " or -1 for last review"@,
    }
}

impl SelectReviewError {
    /// A description of the error.
    pub fn message(&self) -> (r: String)
        ensures
            r@ == select_error_text(*self),
    {
        let mut out: Vec<char> = Vec::new();
        match self {
            SelectReviewError::NoReviews => push_str(&mut out, "No reviews available to select from"),
            SelectReviewError::IndexOutOfBounds { index, len } => {
                push_str(&mut out, "Review index ");
                if *index < 0 {
                    push_str(&mut out, "-");
                    push_decimal(&mut out, (0i64 - *index as i64) as u64);
                } else {
                    push_decimal(&mut out, *index as u64);
                }
                push_str(&mut out, " is out of bounds. Valid range: 1-");
                push_decimal(&mut out, *len as u64);
                push_str(&mut out, " or -1 for last review");
            },
        }
        assert(seq![] + select_error_text(*self) =~= out@);
        string_from(&out)
    }
}

/// Selects a review by its index from 1, or the last with `-1`.
pub fn select_review_by_index<'a>(reviews: &[&'a Review], index: i32) -> (r: Result<&'a Review, SelectReviewError>)
    ensures
        reviews@.len() == 0 ==> r == Err::<&'a Review, SelectReviewError>(SelectReviewError::NoReviews),
        reviews@.len() > 0 && index == -1 ==> r == Ok::<&'a Review, SelectReviewError>(reviews@.last()),
        reviews@.len() > 0 && 1 <= index <= reviews@.len() ==> r == Ok::<&'a Review, SelectReviewError>(reviews@[index - 1]),
        reviews@.len() > 0 && index != -1 && !(1 <= index <= reviews@.len()) ==> r == Err::<&'a Review, SelectReviewError>(
            SelectReviewError::IndexOutOfBounds { index, len: reviews@.len() as usize },
        ),
{
    let n = reviews.len();
    if n == 0 {
        return Err(SelectReviewError::NoReviews);
    }
    if index == -1 {
        return Ok(reviews[n - 1]);
    }
    if index >= 1 && (index as usize) <= n {
        return Ok(reviews[(index - 1) as usize]);
    }
    Err(SelectReviewError::IndexOutOfBounds { index, len: n })
}

// ---------------------------------------------------------------------------
// Repository and pull request
// ---------------------------------------------------------------------------

/// `s` written as a Rust string literal: in double quotes, with quotes,
/// backslashes, line breaks and tabs escaped.
pub open spec fn quoted(s: Seq<char>) -> Seq<char> {
    "\""@ + crate::formatting::concat_map(s, |c: char| escaped_char(c)) + "\""@
}

/// The lower-case hexadecimal digit of `d`.
pub open spec fn hex_digit(d: nat) -> char {
    if d < 10 {
        crate::text::digit_char(d)
    } else if d == 10 {
        'a'
    } else if d == 11 {
        'b'
    } else if d == 12 {
        'c'
    } else if d == 13 {
        'd'
    } else if d == 14 {
        'e'
    } else {
        'f'
    }
}

/// Whether `c` is an ASCII control character that a string literal writes
/// as a `\u{..}` escape.
pub open spec fn is_escaped_control(c: char) -> bool {
    (c as u32) < 0x20 && c != '\t' && c != '\n' && c != '\r' && c != '\0' || (c as u32) == 0x7f
}

/// The `\u{..}` escape of an ASCII control character: its code in
/// lower-case hexadecimal without leading zeros.
pub open spec fn unicode_escape(c: char) -> Seq<char> {
    let n = c as u32 as nat;
    if n < 16 {
        "\\u{"@ + seq![hex_digit(n)] + "}"@
    } else {
        "\\u{"@ + seq![hex_digit(n / 16), hex_digit(n % 16)] + "}"@
    }
}

/// A character as a Rust string literal writes it (as `{:?}` shows a
/// string): quotes, backslashes, line breaks, tabs, NUL and other ASCII
/// control characters are escaped; other characters stand as they are.
pub open spec fn escaped_char(c: char) -> Seq<char> {
    if c == '"' {
        "\\\""@
    } else if c == '\\' {
        "\\\\"@
    } else if c == '\n' {
        "\\n"@
    } else if c == '\r' {
        "\\r"@
    } else if c == '\t' {
        "\\t"@
    } else if c == '\0' {
        "\\0"@
    } else if is_escaped_control(c) {
        unicode_escape(c)
    } else {
        seq![c]
    }
}

fn push_hex_digit(out: &mut Vec<char>, d: u32)
    requires
        d < 16,
    ensures
        final(out)@ == old(out)@.push(hex_digit(d as nat)),
{
    let c = if d == 0 {
        '0'
    } else if d == 1 {
        '1'
    } else if d == 2 {
        '2'
    } else if d == 3 {
        '3'
    } else if d == 4 {
        '4'
    } else if d == 5 {
        '5'
    } else if d == 6 {
        '6'
    } else if d == 7 {
        '7'
    } else if d == 8 {
        '8'
    } else if d == 9 {
        '9'
    } else if d == 10 {
        'a'
    } else if d == 11 {
        'b'
    } else if d == 12 {
        'c'
    } else if d == 13 {
        'd'
    } else if d == 14 {
        'e'
    } else {
        'f'
    };
    out.push(c);
}

/// Appends `s` written as a string literal, see [`quoted`].
pub fn push_quoted(out: &mut Vec<char>, s: &str)
    ensures
        final(out)@ == old(out)@ + quoted(s@),
{
    let cs = chars_of(s);
    push_str(out, "\"");
    let ghost start = out@;
    let mut i: usize = 0;
    while i < cs.len()
        invariant
            i <= cs@.len(),
            cs@ == s@,
            out@ == start + crate::formatting::concat_map(cs@.take(i as int), |c: char| escaped_char(c)),
        decreases cs@.len() - i,
    {
        let c = cs[i];
        if c == '"' {
            push_str(out, "\\\"");
        } else if c == '\\' {
            push_str(out, "\\\\");
        } else if c == '\n' {
            push_str(out, "\\n");
        } else if c == '\r' {
            push_str(out, "\\r");
        } else if c == '\t' {
            push_str(out, "\\t");
        } else if c == '\0' {
            push_str(out, "\\0");
        } else if ((c as u32) < 0x20 && c != '\t' && c != '\n' && c != '\r' && c != '\0') || (c as u32)
            == 0x7f {
            let n = c as u32;
            let ghost before = out@;
            push_str(out, "\\u{");
            if n < 16 {
                push_hex_digit(out, n);
            } else {
                push_hex_digit(out, n / 16);
                push_hex_digit(out, n % 16);
            }
            push_str(out, "}");
            assert(out@ =~= before + unicode_escape(c));
        } else {
            out.push(c);
        }
        proof {
            crate::formatting::lemma_concat_map_step(cs@, |c: char| escaped_char(c), i as int);
        }
        i += 1;
    }
    assert(cs@.take(i as int) =~= cs@);
    push_str(out, "\"");
}

/// The owner and repository of `owner/repo`: the parts around its first `/`.
pub open spec fn owner_and_repo_spec(repo: Seq<char>) -> Option<(Seq<char>, Seq<char>)> {
    match find(repo, seq!['/']) {
        Some(i) => Some((repo.take(i), repo.skip(i + 1))),
        None => None,
    }
}

/// The owner and repository given as `owner/repo`.
pub fn split_owner_repo(repo: &str) -> (r: Result<(String, String), String>)
    ensures
        match owner_and_repo_spec(repo@) {
            Some((o, n)) => r matches Ok((x, y)) && x@ == o && y@ == n,
            None => r matches Err(e) && e@ == "Cannot interpret "@ + quoted(repo@) + " as 'owner/repo'"@,
        },
{
    let cs = chars_of(repo);
    let len = cs.len();
    let slash = vec!['/'];
    assert(slash@ == seq!['/']);
    proof {
        lemma_find_from(cs@, seq!['/'], 0);
    }
    match crate::text::find_at(&cs, 0, &slash) {
        Some(i) => {
            let a = string_of(&cs, 0, i);
            let b = string_of(&cs, i + 1, len);
            assert(cs@.subrange(0, i as int) =~= cs@.take(i as int));
            assert(cs@.subrange(i + 1, len as int) =~= cs@.skip(i + 1));
            Ok((a, b))
        },
        None => {
            let mut out: Vec<char> = Vec::new();
            push_str(&mut out, "Cannot interpret ");
            push_quoted(&mut out, repo);
            push_str(&mut out, " as 'owner/repo'");
            assert(out@ =~= "Cannot interpret "@ + quoted(repo@) + " as 'owner/repo'"@);
            Err(string_from(&out))
        },
    }
}

/// The branch name of an upstream branch: what follows its first `/`
/// (`main` of `origin/main`), or all of it.
pub open spec fn branch_name(upstream: Seq<char>) -> Seq<char> {
    match find(upstream, seq!['/']) {
        Some(i) => upstream.skip(i + 1),
        None => upstream,
    }
}

proof fn lemma_find_first_char(s: Seq<char>, c: char, from: int, i: int)
    requires
        0 <= from <= i < s.len(),
        s[i] == c,
        forall|j: int| from <= j < i ==> #[trigger] s[j] != c,
    ensures
        find_from(s, seq![c], from) == Some(i),
    decreases i - from,
{
    if from < i {
        assert(s.skip(from).take(1)[0] == s[from]);
        lemma_find_first_char(s, c, from + 1, i);
    } else {
        assert(s.skip(from).take(1) =~= seq![c]);
    }
}

/// The branch of an upstream `<remote>/<branch>` is the whole branch,
/// slashes and all: only the remote name, which holds no `/`, is dropped.
/// So the pull requests looked at for the upstream are exactly those whose
/// head is that branch.
pub proof fn law_branch_of_upstream(remote: Seq<char>, branch: Seq<char>, prs: Seq<PullRequest>)
    requires
        forall|j: int| 0 <= j < remote.len() ==> #[trigger] remote[j] != '/',
    ensures
        branch_name(remote + seq!['/'] + branch) == branch,
        prs_for(prs, branch_name(remote + seq!['/'] + branch)) == prs_for(prs, branch),
{
    let u = remote + seq!['/'] + branch;
    assert forall|j: int| 0 <= j < remote.len() implies #[trigger] u[j] != '/' by {
        assert(u[j] == remote[j]);
    }
    lemma_find_first_char(u, '/', 0, remote.len() as int);
    assert(u.skip(remote.len() as int + 1) =~= branch);
}

/// The pull requests whose head branch is `branch`.
pub open spec fn prs_for(prs: Seq<PullRequest>, branch: Seq<char>) -> Seq<PullRequest>
    decreases prs.len(),
{
    if prs.len() == 0 {
        seq![]
    } else if prs.last().head_ref_name@ == branch {
        prs_for(prs.drop_last(), branch).push(prs.last())
    } else {
        prs_for(prs.drop_last(), branch)
    }
}

/// Why the pull request of a branch could not be told.
#[derive(Debug, Clone, PartialEq)]
pub enum PrSelectionError {
    /// No open pull request has the branch as its head.
    NoPullRequest { branch: String },
    /// Several do: their numbers and titles.
    MultiplePullRequests { branch: String, candidates: Vec<(u32, String)> },
}

/// The numbers and titles of pull requests.
pub open spec fn candidates_of(prs: Seq<PullRequest>) -> Seq<(u32, Seq<char>)> {
    prs.map_values(|p: PullRequest| (p.number, p.title@))
}

/// The lines listing pull requests, each `  #<number>: <title>`, separated by line breaks.
pub open spec fn candidates_text(cs: Seq<(u32, Seq<char>)>) -> Seq<char>
    decreases cs.len(),
{
    if cs.len() == 0 {
        seq![]
    } else if cs.len() == 1 {
        "  #"@ + decimal(cs[0].0 as nat) + ": "@ + cs[0].1
    } else {
        candidates_text(cs.drop_last()) + "\n  #"@ + decimal(cs.last().0 as nat) + ": "@ + cs.last().1
    }
}

/// The message of a pull request selection error.
pub open spec fn pr_error_text(branch: Seq<char>, candidates: Option<Seq<(u32, Seq<char>)>>) -> Seq<char> {
    match candidates {
        None => "No open PR found for branch "@ + quoted(branch),
        Some(cs) => "Multiple PRs found for branch '"@ + branch + "'. Please select a review by ID:\n"@ + candidates_text(cs),
    }
}

impl PrSelectionError {
    /// A description of the error.
    pub fn message(&self) -> (r: String)
        ensures
            r@ == match self {
                PrSelectionError::NoPullRequest { branch } => pr_error_text(branch@, None),
                PrSelectionError::MultiplePullRequests { branch, candidates } => pr_error_text(
                    branch@,
                    Some(candidates@.map_values(|c: (u32, String)| (c.0, c.1@))),
                ),
            },
    {
        let mut out: Vec<char> = Vec::new();
        match self {
            PrSelectionError::NoPullRequest { branch } => {
                push_str(&mut out, "No open PR found for branch ");
                push_quoted(&mut out, branch.as_str());
            },
            PrSelectionError::MultiplePullRequests { branch, candidates } => {
                push_str(&mut out, "Multiple PRs found for branch '");
                push_str(&mut out, branch.as_str());
                push_str(&mut out, "'. Please select a review by ID:\n");
                let ghost cv = candidates@.map_values(|c: (u32, String)| (c.0, c.1@));
                let ghost start = out@;
                let mut i: usize = 0;
                while i < candidates.len()
                    invariant
                        i <= candidates@.len(),
                        cv == candidates@.map_values(|c: (u32, String)| (c.0, c.1@)),
                        out@ == start + candidates_text(cv.take(i as int)),
                    decreases candidates@.len() - i,
                {
                    if i > 0 {
                        push_str(&mut out, "\n  #");
                    } else {
                        push_str(&mut out, "  #");
                    }
                    push_decimal(&mut out, candidates[i].0 as u64);
                    push_str(&mut out, ": ");
                    push_str(&mut out, candidates[i].1.as_str());
                    proof {
                        let t = cv.take(i + 1);
                        assert(t.drop_last() =~= cv.take(i as int));
                        assert(t.last() == (candidates@[i as int].0, candidates@[i as int].1@));
                        if i == 0 {
                            assert(cv.take(0) =~= seq![]);
                        }
                    }
                    i += 1;
                }
                assert(cv.take(i as int) =~= cv);
            },
        }
        assert(seq![] + out@ =~= out@);
        string_from(&out)
    }
}

/// The number of the only open pull request whose head is the branch of
/// `upstream`.
pub fn select_pull_request(prs: &[PullRequest], upstream: &str) -> (r: Result<u32, PrSelectionError>)
    ensures
        ({
            let matching = prs_for(prs@, branch_name(upstream@));
            &&& matching.len() == 1 ==> r == Ok::<u32, PrSelectionError>(matching[0].number)
            &&& matching.len() == 0 ==> (r matches Err(PrSelectionError::NoPullRequest { branch }) && branch@ == branch_name(upstream@))
            &&& matching.len() > 1 ==> (r matches Err(PrSelectionError::MultiplePullRequests { branch, candidates })
                && branch@ == branch_name(upstream@)
                && candidates@.map_values(|c: (u32, String)| (c.0, c.1@)) == candidates_of(matching))
        }),
{
    let cs = chars_of(upstream);
    let len = cs.len();
    let slash = vec!['/'];
    assert(slash@ == seq!['/']);
    proof {
        lemma_find_from(cs@, seq!['/'], 0);
    }
    let branch = match crate::text::find_at(&cs, 0, &slash) {
        Some(i) => {
            assert(cs@.subrange(i + 1, len as int) =~= cs@.skip(i + 1));
            string_of(&cs, i + 1, len)
        },
        None => upstream.to_owned(),
    };
    assert(branch@ == branch_name(upstream@));
    let mut matching: Vec<(u32, String)> = Vec::new();
    let mut i: usize = 0;
    while i < prs.len()
        invariant
            i <= prs@.len(),
            matching@.map_values(|c: (u32, String)| (c.0, c.1@)) == candidates_of(prs_for(prs@.take(i as int), branch@)),
        decreases prs@.len() - i,
    {
        let pr = &prs[i];
        assert(prs@.take(i + 1).drop_last() =~= prs@.take(i as int));
        assert(prs@.take(i + 1).last() == *pr);
        if crate::text::str_eq(pr.head_ref_name.as_str(), branch.as_str()) {
            let ghost before = matching@.map_values(|c: (u32, String)| (c.0, c.1@));
            let ghost pv = prs_for(prs@.take(i as int), branch@);
            matching.push((pr.number, pr.title.clone()));
            assert(matching@.map_values(|c: (u32, String)| (c.0, c.1@)) =~= before.push((pr.number, pr.title@)));
            assert(candidates_of(pv.push(*pr)) =~= candidates_of(pv).push((pr.number, pr.title@)));
        }
        i += 1;
    }
    assert(prs@.take(i as int) =~= prs@);
    let ghost m = prs_for(prs@, branch@);
    assert(candidates_of(m).len() == m.len());
    if matching.len() == 1 {
        assert(candidates_of(m)[0] == (m[0].number, m[0].title@));
        assert(matching@.map_values(|c: (u32, String)| (c.0, c.1@))[0] == (matching@[0].0, matching@[0].1@));
        return Ok(matching[0].0);
    }
    if matching.len() == 0 {
        return Err(PrSelectionError::NoPullRequest { branch });
    }
    Err(PrSelectionError::MultiplePullRequests { branch, candidates: matching })
}

/// The error when local formatting is combined with remote options.
pub open spec fn remote_options_error() -> Seq<char> {
    "Cannot combine local review formatting with remote review options such as --repo, --review, --author, or --remote"@
}

/// Checks that no option for remote reviews is given with a local review file.
pub fn ensure_no_remote_options_for_local_format(repo: bool, review: bool, author: bool, remote: bool) -> (r: Result<(), String>)
    ensures
        !(repo || review || author || remote) ==> r is Ok,
        (repo || review || author || remote) ==> (r matches Err(e) && e@ == remote_options_error()),
{
    if repo || review || author || remote {
        return Err(
            "Cannot combine local review formatting with remote review options such as --repo, --review, --author, or --remote".to_owned(),
        );
    }
    Ok(())
}

} // verus!
