//! Which file of the review page a request asks for, and its media type.
use vstd::prelude::*;

use crate::language::{detect_language, language_of};
use crate::text::{chars_of, str_eq, string_of};

verus! {

/// The number of `/` that `s` starts with.
pub open spec fn leading_slashes(s: Seq<char>) -> nat
    decreases s.len(),
{
    if s.len() > 0 && s[0] == '/' {
        1 + leading_slashes(s.drop_first())
    } else {
        0
    }
}

proof fn lemma_leading_slashes(s: Seq<char>, n: int)
    requires
        0 <= n <= s.len(),
        forall|j: int| 0 <= j < n ==> s[j] == '/',
        n < s.len() ==> s[n] != '/',
    ensures
        leading_slashes(s) == n,
    decreases n,
{
    if n > 0 {
        assert forall|j: int| 0 <= j < n - 1 implies s.drop_first()[j] == '/' by {
            assert(s.drop_first()[j] == s[j + 1]);
        }
        lemma_leading_slashes(s.drop_first(), n - 1);
    }
}

/// The file that a request path names: the path without its leading `/`,
/// and `index.html` for the root.
pub open spec fn asset_path_of(uri_path: Seq<char>) -> Seq<char> {
    let p = uri_path.skip(leading_slashes(uri_path) as int);
    if p.len() == 0 {
        "index.html"@
    } else {
        p
    }
}

/// The file that the request path `uri_path` names, see [`asset_path_of`].
pub fn asset_path(uri_path: &str) -> (r: String)
    ensures
        r@ == asset_path_of(uri_path@),
{
    let cs = chars_of(uri_path);
    let n = cs.len();
    let mut i: usize = 0;
    while i < n && cs[i] == '/'
        invariant
            n == cs@.len(),
            i <= n,
            forall|j: int| 0 <= j < i ==> cs@[j] == '/',
        decreases n - i,
    {
        i += 1;
    }
    proof {
        lemma_leading_slashes(cs@, i as int);
        assert(cs@.subrange(i as int, n as int) =~= cs@.skip(i as int));
    }
    if i == n {
        return "index.html".to_owned();
    }
    string_of(&cs, i, n)
}

/// The media type of a file of the review page, from the language of its name.
pub open spec fn mime_type_of(path: Seq<char>) -> Seq<char> {
    let lang = language_of(path);
    if lang == "javascript"@ {
        "application/javascript"@
    } else if lang == "html"@ {
        "text/html"@
    } else if lang == "css"@ {
        "text/css"@
    } else {
        "application/octet-stream"@
    }
}

/// The media type of the file at `path`, see [`mime_type_of`].
pub fn mime_type(path: &str) -> (r: &'static str)
    ensures
        r@ == mime_type_of(path@),
{
    let lang = detect_language(path);
    if str_eq(lang, "javascript") {
        "application/javascript"
    } else if str_eq(lang, "html") {
        "text/html"
    } else if str_eq(lang, "css") {
        "text/css"
    } else {
        "application/octet-stream"
    }
}

} // verus!
