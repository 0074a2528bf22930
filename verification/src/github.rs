//! The rules GitHub has for owner and repository names.
use vstd::prelude::*;

use crate::apply::{byte_len, char_width};
use crate::text::{chars_of, is_alnum, is_ascii_alnum, push_str, string_from};

verus! {

/// Why an owner or repository name is refused.
#[derive(Debug, Clone, Copy, PartialEq, Eq, Structural)]
pub enum NameError {
    OwnerLength,
    OwnerHyphenAtEnd,
    OwnerDoubleHyphen,
    OwnerCharacters,
    RepoLength,
    RepoLeadingDot,
    RepoCharacters,
}

/// The description of a refused name.
pub open spec fn name_error_text(e: NameError) -> Seq<char> {
    match e {
        NameError::OwnerLength => "GitHub owner must be 1-39 characters"@,
        NameError::OwnerHyphenAtEnd => "GitHub owner cannot start or end with a hyphen"@,
        NameError::OwnerDoubleHyphen => "GitHub owner cannot contain consecutive hyphens"@,
        NameError::OwnerCharacters => "GitHub owner can only contain alphanumeric characters and hyphens"@,
        NameError::RepoLength => "GitHub repository name must be 1-100 characters"@,
        NameError::RepoLeadingDot => "GitHub repository name cannot start with a dot"@,
        NameError::RepoCharacters => "GitHub repository name can only contain alphanumeric characters, hyphens, underscores, and dots"@,
    }
}

impl NameError {
    /// A description of the error.
    pub fn message(&self) -> (r: &'static str)
        ensures
            r@ == name_error_text(*self),
    {
        match self {
            NameError::OwnerLength => "GitHub owner must be 1-39 characters",
            NameError::OwnerHyphenAtEnd => "GitHub owner cannot start or end with a hyphen",
            NameError::OwnerDoubleHyphen => "GitHub owner cannot contain consecutive hyphens",
            NameError::OwnerCharacters => "GitHub owner can only contain alphanumeric characters and hyphens",
            NameError::RepoLength => "GitHub repository name must be 1-100 characters",
            NameError::RepoLeadingDot => "GitHub repository name cannot start with a dot",
            NameError::RepoCharacters => "GitHub repository name can only contain alphanumeric characters, hyphens, underscores, and dots",
        }
    }
}

/// Whether `s` holds two hyphens in a row.
pub open spec fn has_double_hyphen(s: Seq<char>) -> bool {
    exists|i: int| 0 <= i < s.len() - 1 && s[i] == '-' && #[trigger] s[i + 1] == '-'
}

/// The first rule that the owner name `s` breaks: 1 to 39 bytes, no hyphen
/// at either end, no two hyphens in a row, only ASCII letters, digits and hyphens.
pub open spec fn owner_error(s: Seq<char>) -> Option<NameError> {
    if s.len() == 0 || byte_len(s) > 39 {
        Some(NameError::OwnerLength)
    } else if s[0] == '-' || s.last() == '-' {
        Some(NameError::OwnerHyphenAtEnd)
    } else if has_double_hyphen(s) {
        Some(NameError::OwnerDoubleHyphen)
    } else if !(forall|i: int| 0 <= i < s.len() ==> is_ascii_alnum(#[trigger] s[i]) || s[i] == '-') {
        Some(NameError::OwnerCharacters)
    } else {
        None
    }
}

/// The first rule that the repository name `s` breaks: 1 to 100 bytes, no
/// leading dot, only ASCII letters, digits, `-`, `_` and `.`.
pub open spec fn repo_error(s: Seq<char>) -> Option<NameError> {
    if s.len() == 0 || byte_len(s) > 100 {
        Some(NameError::RepoLength)
    } else if s[0] == '.' {
        Some(NameError::RepoLeadingDot)
    } else if !(forall|i: int| 0 <= i < s.len() ==> is_ascii_alnum(#[trigger] s[i]) || s[i] == '-' || s[i] == '_' || s[i] == '.') {
        Some(NameError::RepoCharacters)
    } else {
        None
    }
}

/// Whether the UTF-8 encoding of `cs` is longer than `limit` bytes.
fn longer_than(cs: &Vec<char>, limit: usize) -> (r: bool)
    requires
        limit < 1000,
    ensures
        r == (byte_len(cs@) > limit),
{
    let mut used: usize = 0;
    let mut i: usize = 0;
    while i < cs.len()
        invariant
            i <= cs@.len(),
            limit < 1000,
            used == byte_len(cs@.take(i as int)),
            used <= limit,
        decreases cs@.len() - i,
    {
        assert(cs@.take(i + 1).drop_last() =~= cs@.take(i as int));
        let w: usize = if (cs[i] as u32) < 0x80 {
            1
        } else if (cs[i] as u32) < 0x800 {
            2
        } else if (cs[i] as u32) < 0x10000 {
            3
        } else {
            4
        };
        assert(w == char_width(cs@[i as int]));
        used = used + w;
        i += 1;
        if used > limit {
            proof {
                crate::apply::lemma_byte_len_prefix(cs@, i as nat);
            }
            return true;
        }
    }
    assert(cs@.take(i as int) =~= cs@);
    false
}

/// Checks an owner name against GitHub's rules, see [`owner_error`].
pub fn validate_github_owner(owner: &str) -> (r: Result<(), NameError>)
    ensures
        match owner_error(owner@) {
            Some(e) => r == Err::<(), NameError>(e),
            None => r is Ok,
        },
{
    let cs = chars_of(owner);
    let n = cs.len();
    if n == 0 || longer_than(&cs, 39) {
        return Err(NameError::OwnerLength);
    }
    if cs[0] == '-' || cs[n - 1] == '-' {
        return Err(NameError::OwnerHyphenAtEnd);
    }
    let mut i: usize = 0;
    while i + 1 < n
        invariant
            n == cs@.len(),
            i < n,
            cs@ == owner@,
            n > 0,
            byte_len(cs@) <= 39,
            cs@[0] != '-' && cs@[n - 1] != '-',
            forall|j: int| 0 <= j < i && j < n - 1 ==> !(cs@[j] == '-' && #[trigger] cs@[j + 1] == '-'),
        decreases n - i,
    {
        if cs[i] == '-' && cs[i + 1] == '-' {
            assert(cs@[i as int] == '-' && cs@[i + 1] == '-');
            return Err(NameError::OwnerDoubleHyphen);
        }
        i += 1;
    }
    let mut k: usize = 0;
    while k < n
        invariant
            n == cs@.len(),
            cs@ == owner@,
            n > 0,
            byte_len(cs@) <= 39,
            cs@[0] != '-' && cs@[n - 1] != '-',
            !has_double_hyphen(cs@),
            forall|j: int| 0 <= j < k ==> is_ascii_alnum(#[trigger] cs@[j]) || cs@[j] == '-',
        decreases n - k,
    {
        if !(is_alnum(cs[k]) || cs[k] == '-') {
            assert(!(is_ascii_alnum(cs@[k as int]) || cs@[k as int] == '-'));
            return Err(NameError::OwnerCharacters);
        }
        k += 1;
    }
    Ok(())
}

/// Checks a repository name against GitHub's rules, see [`repo_error`].
pub fn validate_github_repo(repo: &str) -> (r: Result<(), NameError>)
    ensures
        match repo_error(repo@) {
            Some(e) => r == Err::<(), NameError>(e),
            None => r is Ok,
        },
{
    let cs = chars_of(repo);
    let n = cs.len();
    if n == 0 || longer_than(&cs, 100) {
        return Err(NameError::RepoLength);
    }
    if cs[0] == '.' {
        return Err(NameError::RepoLeadingDot);
    }
    let mut k: usize = 0;
    while k < n
        invariant
            n == cs@.len(),
            cs@ == repo@,
            n > 0,
            byte_len(cs@) <= 100,
            cs@[0] != '.',
            forall|j: int| 0 <= j < k ==> is_ascii_alnum(#[trigger] cs@[j]) || cs@[j] == '-' || cs@[j] == '_' || cs@[j] == '.',
        decreases n - k,
    {
        let c = cs[k];
        if !(is_alnum(c) || c == '-' || c == '_' || c == '.') {
            assert(!(is_ascii_alnum(cs@[k as int]) || cs@[k as int] == '-' || cs@[k as int] == '_' || cs@[k as int] == '.'));
            return Err(NameError::RepoCharacters);
        }
        k += 1;
    }
    Ok(())
}

/// The arguments of `gh` that run a GraphQL query: `api graphql -f
/// query=<query>`, then `-F <name>=<value>` for each variable.
pub open spec fn graphql_args_spec(query: Seq<char>, variables: Seq<(Seq<char>, Seq<char>)>) -> Seq<Seq<char>>
    decreases variables.len(),
{
    if variables.len() == 0 {
        seq!["api"@, "graphql"@, "-f"@, "query="@ + query]
    } else {
        let v = variables.last();
        graphql_args_spec(query, variables.drop_last()).push("-F"@).push(v.0 + "="@ + v.1)
    }
}

/// The text of pairs of strings.
pub open spec fn pair_views(vs: Seq<(&str, &str)>) -> Seq<(Seq<char>, Seq<char>)> {
    vs.map_values(|p: (&str, &str)| (p.0@, p.1@))
}

fn joined(a: &str, sep: &str, b: &str) -> (r: String)
    ensures
        r@ == a@ + sep@ + b@,
{
    let mut out: Vec<char> = Vec::new();
    push_str(&mut out, a);
    push_str(&mut out, sep);
    push_str(&mut out, b);
    assert(out@ =~= a@ + sep@ + b@);
    string_from(&out)
}

/// The arguments of `gh` that run the GraphQL `query` with `variables`, see
/// [`graphql_args_spec`].
pub fn graphql_args(query: &str, variables: &[(&str, &str)]) -> (r: Vec<String>)
    ensures
        crate::text::string_views(r@) == graphql_args_spec(query@, pair_views(variables@)),
{
    let ghost pv = pair_views(variables@);
    let mut args: Vec<String> = Vec::new();
    args.push("api".to_owned());
    args.push("graphql".to_owned());
    args.push("-f".to_owned());
    args.push(joined("query=", "", query));
    assert(pv.take(0) =~= seq![]);
    assert(""@.len() == 0) by {
        reveal_strlit("");
    }
    assert(crate::text::string_views(args@) =~= graphql_args_spec(query@, pv.take(0)));
    let mut i: usize = 0;
    while i < variables.len()
        invariant
            i <= variables@.len(),
            pv == pair_views(variables@),
            crate::text::string_views(args@) == graphql_args_spec(query@, pv.take(i as int)),
        decreases variables@.len() - i,
    {
        let (name, value) = variables[i];
        let ghost before = crate::text::string_views(args@);
        args.push("-F".to_owned());
        args.push(joined(name, "=", value));
        assert(pv.take(i + 1).drop_last() =~= pv.take(i as int));
        assert(pv.take(i + 1).last() == (name@, value@));
        assert(crate::text::string_views(args@) =~= before.push("-F"@).push(name@ + "="@ + value@));
        i += 1;
    }
    assert(pv.take(i as int) =~= pv);
    args
}

} // verus!
