//! The GitHub repository and branch of the working copy.
use vstd::prelude::*;
use vstd::string::*;

use crate::text::{
    chars_of, ends_with, find, find_at, find_from, has_str_prefix_at, lemma_find_from, lines_of,
    push_str, split_lines, starts_with, string_from, string_of, trim,
};

verus! {

/// What the working copy says of its GitHub repository.
///
/// Each method is paired with a relation that says which answers the
/// repository may give; the library's own repositories define it, and one
/// that does not define it promises nothing of its answers.
pub trait GetRepoistoryInfo {
    /// Whether `r` is an answer the repository may give when asked for the
    /// owner and name of its GitHub repository.
    open spec fn owner_and_repo_answer(&self, r: Result<(String, String), String>) -> bool {
        true
    }

    /// The owner and name of the GitHub repository, or why there is none.
    fn get_github_owner_and_repo(&self) -> (r: Result<(String, String), String>)
        ensures
            self.owner_and_repo_answer(r),
    ;
}

/// What the working copy says of its branch.
pub trait GetCurrentBranch {
    /// Whether `r` is an answer the working copy may give when asked for
    /// the upstream branch of the current branch.
    open spec fn upstream_answer(&self, r: Result<String, String>) -> bool {
        true
    }

    /// The upstream branch of the current branch (`origin/main`), or why there is none.
    fn get_upstream_branch(&self) -> (r: Result<String, String>)
        ensures
            self.upstream_answer(r),
    ;
}

/// A repository with a fixed owner, name and upstream branch, for tests.
pub struct MockRepository {
    owner: String,
    repo: String,
    upstream_branch: String,
}

impl MockRepository {
    /// The repository `owner/repo` whose upstream branch is `upstream_branch`.
    pub fn new(owner: &str, repo: &str, upstream_branch: &str) -> (r: Self)
        ensures
            r.owner()@ == owner@,
            r.repo()@ == repo@,
            r.upstream_branch()@ == upstream_branch@,
    {
        MockRepository { owner: owner.to_owned(), repo: repo.to_owned(), upstream_branch: upstream_branch.to_owned() }
    }

    /// The owner of the repository.
    pub closed spec fn owner(&self) -> String {
        self.owner
    }

    /// The name of the repository.
    pub closed spec fn repo(&self) -> String {
        self.repo
    }

    /// The upstream branch.
    pub closed spec fn upstream_branch(&self) -> String {
        self.upstream_branch
    }
}

impl GetRepoistoryInfo for MockRepository {
    open spec fn owner_and_repo_answer(&self, r: Result<(String, String), String>) -> bool {
        r == Ok::<(String, String), String>((self.owner(), self.repo()))
    }

    fn get_github_owner_and_repo(&self) -> (r: Result<(String, String), String>)
        ensures
            r == Ok::<(String, String), String>((self.owner(), self.repo())),
    {
        Ok((self.owner.clone(), self.repo.clone()))
    }
}

impl GetCurrentBranch for MockRepository {
    open spec fn upstream_answer(&self, r: Result<String, String>) -> bool {
        r == Ok::<String, String>(self.upstream_branch())
    }

    fn get_upstream_branch(&self) -> (r: Result<String, String>)
        ensures
            r == Ok::<String, String>(self.upstream_branch()),
    {
        Ok(self.upstream_branch.clone())
    }
}

/// The suffix of a repository URL that names a git repository.
pub open spec fn git_suffix() -> Seq<char> {
    seq!['.', 'g', 'i', 't']
}

/// `s` without any number of trailing `.git`.
pub open spec fn strip_git_suffixes(s: Seq<char>) -> Seq<char>
    decreases s.len(),
{
    if ends_with(s, git_suffix()) {
        strip_git_suffixes(s.take(s.len() - 4))
    } else {
        s
    }
}

/// The two parts of `s` around its only `/`, when it has exactly one.
pub open spec fn split_pair(s: Seq<char>) -> Option<(Seq<char>, Seq<char>)> {
    match find(s, seq!['/']) {
        None => None,
        Some(i) => if find_from(s, seq!['/'], i + 1) is None {
            Some((s.take(i), s.skip(i + 1)))
        } else {
            None
        },
    }
}

/// The owner and repository of `owner/repo[.git]`.
pub open spec fn owner_repo_of(rest: Seq<char>) -> Option<(Seq<char>, Seq<char>)> {
    split_pair(strip_git_suffixes(rest))
}

/// The owner and repository of a GitHub URL, SSH (`git@github.com:owner/repo.git`)
/// or HTTPS (`https://github.com/owner/repo.git`).
pub open spec fn github_url_spec(url: Seq<char>) -> Option<(Seq<char>, Seq<char>)> {
    let ssh = "git@github.com:"@;
    let https = "https://github.com/"@;
    if starts_with(url, ssh) && owner_repo_of(url.skip(ssh.len() as int)) is Some {
        owner_repo_of(url.skip(ssh.len() as int))
    } else if starts_with(url, https) {
        owner_repo_of(url.skip(https.len() as int))
    } else {
        None
    }
}

/// The error of a URL that is not a GitHub repository URL.
pub open spec fn url_error(url: Seq<char>) -> Seq<char> {
    "Could not parse GitHub URL: "@ + url
}

/// `cs` without any number of trailing `.git`.
fn strip_git(cs: &Vec<char>) -> (r: Vec<char>)
    ensures
        r@ == strip_git_suffixes(cs@),
{
    let mut end = cs.len();
    assert(cs@.take(end as int) =~= cs@);
    while end >= 4 && cs[end - 4] == '.' && cs[end - 3] == 'g' && cs[end - 2] == 'i' && cs[end - 1] == 't'
        invariant
            end <= cs@.len(),
            strip_git_suffixes(cs@) == strip_git_suffixes(cs@.take(end as int)),
        decreases end,
    {
        let ghost t = cs@.take(end as int);
        assert(t.skip(t.len() - 4) =~= git_suffix());
        assert(t.take(t.len() - 4) =~= cs@.take(end - 4));
        end = end - 4;
    }
    let ghost t = cs@.take(end as int);
    if end >= 4 {
        assert(!(t.skip(t.len() - 4) =~= git_suffix())) by {
            if t.skip(t.len() - 4) =~= git_suffix() {
                assert(t.skip(t.len() - 4)[0] == cs@[end - 4]);
                assert(t.skip(t.len() - 4)[1] == cs@[end - 3]);
                assert(t.skip(t.len() - 4)[2] == cs@[end - 2]);
                assert(t.skip(t.len() - 4)[3] == cs@[end - 1]);
            }
        }
    }
    let r = crate::text::sub_chars(cs, 0, end);
    assert(r@ =~= t);
    r
}

/// The two parts around the only `/` of `cs`, see [`split_pair`].
fn split_at_slash(cs: &Vec<char>) -> (r: Option<(String, String)>)
    ensures
        match split_pair(cs@) {
            Some((a, b)) => r matches Some((x, y)) && x@ == a && y@ == b,
            None => r is None,
        },
{
    let len = cs.len();
    let slash = vec!['/'];
    assert(slash@ == seq!['/']);
    proof {
        lemma_find_from(cs@, seq!['/'], 0);
    }
    match find_at(cs, 0, &slash) {
        None => None,
        Some(i) => {
            assert(i + 1 <= cs@.len());
            proof {
                lemma_find_from(cs@, seq!['/'], i + 1);
            }
            match find_at(cs, i + 1, &slash) {
                Some(_) => None,
                None => {
                    let a = string_of(cs, 0, i);
                    let b = string_of(cs, i + 1, cs.len());
                    assert(cs@.subrange(0, i as int) =~= cs@.take(i as int));
                    assert(cs@.subrange(i + 1, cs@.len() as int) =~= cs@.skip(i + 1));
                    Some((a, b))
                },
            }
        },
    }
}

/// The owner and repository of `rest`, see [`owner_repo_of`].
fn owner_repo(cs: &Vec<char>, from: usize) -> (r: Option<(String, String)>)
    requires
        from <= cs@.len(),
    ensures
        match owner_repo_of(cs@.skip(from as int)) {
            Some((a, b)) => r matches Some((x, y)) && x@ == a && y@ == b,
            None => r is None,
        },
{
    let rest = crate::text::sub_chars(cs, from, cs.len());
    assert(rest@ =~= cs@.skip(from as int));
    let stripped = strip_git(&rest);
    split_at_slash(&stripped)
}

/// The owner and repository of a GitHub URL, see [`github_url_spec`].
pub fn parse_github_url(url: &str) -> (r: Result<(String, String), String>)
    ensures
        match github_url_spec(url@) {
            Some((owner, repo)) => r matches Ok((x, y)) && x@ == owner && y@ == repo,
            None => r matches Err(e) && e@ == url_error(url@),
        },
{
    let cs = chars_of(url);
    assert(cs@.skip(0) =~= cs@);
    let ssh = "git@github.com:";
    let https = "https://github.com/";
    if has_str_prefix_at(&cs, 0, ssh) {
        let n = ssh.unicode_len();
        match owner_repo(&cs, n) {
            Some(p) => return Ok(p),
            None => {},
        }
    }
    if has_str_prefix_at(&cs, 0, https) {
        let n = https.unicode_len();
        match owner_repo(&cs, n) {
            Some(p) => return Ok(p),
            None => {},
        }
    }
    let mut msg: Vec<char> = Vec::new();
    push_str(&mut msg, "Could not parse GitHub URL: ");
    push_str(&mut msg, url);
    Err(string_from(&msg))
}

/// The names of the remotes that `git remote` printed, one per line; an
/// error where there is none.
pub fn remote_names(output: &str) -> (r: Result<Vec<String>, String>)
    ensures
        lines_of(output@).len() == 0 ==> (r matches Err(e) && e@ == "No git remotes configured"@),
        lines_of(output@).len() > 0 ==> (r matches Ok(v) && crate::text::string_views(v@) == lines_of(output@)),
{
    let v = split_lines(output);
    if v.len() == 0 {
        return Err("No git remotes configured".to_owned());
    }
    Ok(v)
}

/// The GitHub remotes among `remotes` (name and URL): the name, owner and
/// repository of each whose trimmed URL is a GitHub URL, in order.
pub open spec fn github_remotes(remotes: Seq<(Seq<char>, Seq<char>)>) -> Seq<(Seq<char>, Seq<char>, Seq<char>)>
    decreases remotes.len(),
{
    if remotes.len() == 0 {
        seq![]
    } else {
        let rest = github_remotes(remotes.drop_last());
        match github_url_spec(trim(remotes.last().1)) {
            Some((owner, repo)) => rest.push((remotes.last().0, owner, repo)),
            None => rest,
        }
    }
}

/// The lines listing GitHub remotes, each `  <name> -> <owner>/<repo>`,
/// separated by line breaks.
pub open spec fn remotes_text(rs: Seq<(Seq<char>, Seq<char>, Seq<char>)>) -> Seq<char>
    decreases rs.len(),
{
    if rs.len() == 0 {
        seq![]
    } else {
        let line = "  "@ + rs.last().0 + " -> "@ + rs.last().1 + "/"@ + rs.last().2;
        if rs.len() == 1 {
            line
        } else {
            remotes_text(rs.drop_last()) + "\n"@ + line
        }
    }
}

/// The views of remotes given as name and URL.
pub open spec fn remote_views(rs: Seq<(String, String)>) -> Seq<(Seq<char>, Seq<char>)> {
    rs.map_values(|r: (String, String)| (r.0@, r.1@))
}

/// The owner and repository of the only GitHub remote among `remotes` (name
/// and URL as `git remote get-url` printed it); an error where there is
/// none, or more than one.
pub fn select_github_remote(remotes: &Vec<(String, String)>) -> (r: Result<(String, String), String>)
    ensures
        ({
            let g = github_remotes(remote_views(remotes@));
            &&& g.len() == 0 ==> (r matches Err(e) && e@ == "No GitHub remotes found"@)
            &&& g.len() == 1 ==> (r matches Ok((o, n)) && o@ == g[0].1 && n@ == g[0].2)
            &&& g.len() > 1 ==> (r matches Err(e) && e@ == "Multiple GitHub remotes found. Please specify --repo:\n"@
                + remotes_text(g))
        }),
{
    let ghost rv = remote_views(remotes@);
    let mut found: Vec<(String, String, String)> = Vec::new();
    let mut i: usize = 0;
    while i < remotes.len()
        invariant
            i <= remotes@.len(),
            rv == remote_views(remotes@),
            found@.map_values(|f: (String, String, String)| (f.0@, f.1@, f.2@)) == github_remotes(rv.take(i as int)),
        decreases remotes@.len() - i,
    {
        let ghost before = found@.map_values(|f: (String, String, String)| (f.0@, f.1@, f.2@));
        assert(rv.take(i + 1).drop_last() =~= rv.take(i as int));
        assert(rv.take(i + 1).last() == (remotes@[i as int].0@, remotes@[i as int].1@));
        let url = crate::text::trim_str(remotes[i].1.as_str());
        match parse_github_url(url.as_str()) {
            Ok((owner, repo)) => {
                found.push((remotes[i].0.clone(), owner, repo));
                assert(found@.map_values(|f: (String, String, String)| (f.0@, f.1@, f.2@)) =~= before.push(
                    (remotes@[i as int].0@, found@.last().1@, found@.last().2@),
                ));
            },
            Err(_) => {},
        }
        i += 1;
    }
    assert(rv.take(i as int) =~= rv);
    let ghost g = github_remotes(rv);
    let ghost fv = found@.map_values(|f: (String, String, String)| (f.0@, f.1@, f.2@));
    assert(fv.len() == found@.len());
    if found.len() == 0 {
        return Err("No GitHub remotes found".to_owned());
    }
    if found.len() == 1 {
        assert(fv[0] == (found@[0].0@, found@[0].1@, found@[0].2@));
        let (_, owner, repo) = found.remove(0);
        return Ok((owner, repo));
    }
    let mut out: Vec<char> = Vec::new();
    push_str(&mut out, "Multiple GitHub remotes found. Please specify --repo:\n");
    let ghost start = out@;
    let mut j: usize = 0;
    while j < found.len()
        invariant
            j <= found@.len(),
            fv == found@.map_values(|f: (String, String, String)| (f.0@, f.1@, f.2@)),
            out@ == start + remotes_text(fv.take(j as int)),
        decreases found@.len() - j,
    {
        if j > 0 {
            push_str(&mut out, "\n");
        }
        push_str(&mut out, "  ");
        push_str(&mut out, found[j].0.as_str());
        push_str(&mut out, " -> ");
        push_str(&mut out, found[j].1.as_str());
        push_str(&mut out, "/");
        push_str(&mut out, found[j].2.as_str());
        proof {
            let t = fv.take(j + 1);
            assert(t.drop_last() =~= fv.take(j as int));
            assert(t.last() == (found@[j as int].0@, found@[j as int].1@, found@[j as int].2@));
            if j == 0 {
                assert(fv.take(0) =~= seq![]);
            }
        }
        j += 1;
    }
    assert(fv.take(j as int) =~= fv);
    assert(out@ =~= "Multiple GitHub remotes found. Please specify --repo:\n"@ + remotes_text(g));
    Err(string_from(&out))
}

/// The upstream branch that `git rev-parse --abbrev-ref @{upstream}` printed:
/// the trimmed output; an error where it is empty.
pub fn upstream_branch_of(output: &str) -> (r: Result<String, String>)
    ensures
        trim(output@).len() == 0 ==> (r matches Err(e) && e@ == "Could not determine upstream branch: empty result"@),
        trim(output@).len() > 0 ==> (r matches Ok(b) && b@ == trim(output@)),
{
    let t = crate::text::trim_str(output);
    if crate::text::chars_of(t.as_str()).len() == 0 {
        return Err("Could not determine upstream branch: empty result".to_owned());
    }
    Ok(t)
}

/// The URL of the GitHub repository `owner/repo`: SSH or HTTPS, with or
/// without `.git`.
pub open spec fn github_url(owner: Seq<char>, repo: Seq<char>, ssh: bool, dot_git: bool) -> Seq<char> {
    (if ssh {
        "git@github.com:"@
    } else {
        "https://github.com/"@
    }) + owner + "/"@ + repo + (if dot_git {
        git_suffix()
    } else {
        seq![]
    })
}

proof fn lemma_starts_with_char(s: Seq<char>, j: int, c: char)
    requires
        0 <= j < s.len(),
    ensures
        starts_with(s.skip(j), seq![c]) <==> s[j] == c,
{
    if s[j] == c {
        assert(s.skip(j).take(1) =~= seq![c]);
    } else if starts_with(s.skip(j), seq![c]) {
        assert(s.skip(j).take(1)[0] == s[j]);
    }
}

proof fn lemma_find_char(s: Seq<char>, c: char, n: int)
    requires
        0 <= n < s.len(),
        s[n] == c,
        forall|j: int| 0 <= j < n ==> s[j] != c,
        forall|j: int| n < j < s.len() ==> s[j] != c,
    ensures
        find(s, seq![c]) == Some(n),
        find_from(s, seq![c], n + 1) is None,
{
    lemma_find_from(s, seq![c], 0);
    lemma_find_from(s, seq![c], n + 1);
    lemma_starts_with_char(s, n, c);
    match find(s, seq![c]) {
        Some(i) => {
            lemma_starts_with_char(s, i, c);
            if i < n {
                assert(!starts_with(s.skip(n), seq![c]) || i >= n);
            }
        },
        None => {},
    }
    match find_from(s, seq![c], n + 1) {
        Some(k) => {
            lemma_starts_with_char(s, k, c);
        },
        None => {},
    }
}

/// The URL of a GitHub repository reads back as its owner and name, where
/// neither holds a `/` and the name does not end with `.git` (which the
/// URL may add, and reading removes).
#[verifier::spinoff_prover]
#[verifier::rlimit(40)]
pub proof fn law_github_url_round_trip(owner: Seq<char>, repo: Seq<char>, ssh: bool, dot_git: bool)
    requires
        forall|j: int| 0 <= j < owner.len() ==> owner[j] != '/',
        forall|j: int| 0 <= j < repo.len() ==> repo[j] != '/',
        !ends_with(repo, git_suffix()),
    ensures
        github_url_spec(github_url(owner, repo, ssh, dot_git)) == Some((owner, repo)),
{
    reveal_strlit("git@github.com:");
    reveal_strlit("https://github.com/");
    reveal_strlit("/");
    let ssh_p = "git@github.com:"@;
    let https_p = "https://github.com/"@;
    let prefix = if ssh { ssh_p } else { https_p };
    let pair = owner + "/"@ + repo;
    let rest = pair + (if dot_git { git_suffix() } else { seq![] });
    let url = github_url(owner, repo, ssh, dot_git);
    assert(url =~= prefix + rest);
    assert(url.take(prefix.len() as int) =~= prefix);
    assert(url.skip(prefix.len() as int) =~= rest);
    // The pair does not end with `.git`, so stripping stops there.
    assert(!ends_with(pair, git_suffix())) by {
        if ends_with(pair, git_suffix()) {
            let sfx = pair.skip(pair.len() - 4);
            if repo.len() >= 4 {
                assert(sfx =~= repo.skip(repo.len() - 4));
            } else {
                let k = 3 - repo.len();
                assert(sfx[k] == pair[owner.len() as int]);
                assert(pair[owner.len() as int] == '/');
                assert(git_suffix()[k] != '/');
            }
        }
    }
    if dot_git {
        assert(ends_with(rest, git_suffix())) by {
            assert(rest.skip(rest.len() - 4) =~= git_suffix());
        }
        assert(rest.take(rest.len() - 4) =~= pair);
    } else {
        assert(rest =~= pair);
    }
    assert(strip_git_suffixes(pair) == pair);
    if dot_git {
        assert(strip_git_suffixes(rest) == strip_git_suffixes(rest.take(rest.len() - 4)));
    }
    assert(strip_git_suffixes(rest) == pair);
    // The pair has its only `/` after the owner.
    assert forall|j: int| 0 <= j < owner.len() implies pair[j] != '/' by {
        assert(pair[j] == owner[j]);
    }
    assert forall|j: int| owner.len() < j < pair.len() implies pair[j] != '/' by {
        assert(pair[j] == repo[j - owner.len() - 1]);
    }
    lemma_find_char(pair, '/', owner.len() as int);
    assert(pair.take(owner.len() as int) =~= owner);
    assert(pair.skip(owner.len() as int + 1) =~= repo);
    assert(owner_repo_of(url.skip(prefix.len() as int)) == Some((owner, repo)));
    if !ssh {
        assert(url[0] == 'h');
        assert(!starts_with(url, ssh_p)) by {
            if starts_with(url, ssh_p) {
                assert(url.take(ssh_p.len() as int)[0] == url[0]);
            }
        }
    }
}

} // verus!
