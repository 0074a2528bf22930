//! Language detection and comment syntax.
use vstd::prelude::*;

use crate::text::{chars_eq, chars_of, rfind_char, rfind_char_in, sub_chars};

verus! {

/// The extension of `path`: what follows its last `.`, or the whole path
/// when it has none.
pub open spec fn extension_of(path: Seq<char>) -> Seq<char> {
    match rfind_char(path, '.') {
        Some(i) => path.skip(i + 1),
        None => path,
    }
}

/// The markdown language identifier for a file extension, empty when unknown.
pub open spec fn language_of_extension(ext: Seq<char>) -> Seq<char> {
    if ext == "rs"@ {
        "rust"@
    } else if ext == "py"@ {
        "python"@
    } else if ext == "md"@ {
        "markdown"@
    } else if ext == "toml"@ {
        "toml"@
    } else if ext == "js"@ || ext == "jsx"@ {
        "javascript"@
    } else if ext == "ts"@ || ext == "tsx"@ {
        "typescript"@
    } else if ext == "c"@ || ext == "h"@ {
        "c"@
    } else if ext == "cpp"@ || ext == "cc"@ || ext == "hpp"@ {
        "cpp"@
    } else if ext == "java"@ {
        "java"@
    } else if ext == "go"@ {
        "go"@
    } else if ext == "rb"@ {
        "ruby"@
    } else if ext == "sh"@ || ext == "bash"@ {
        "bash"@
    } else if ext == "yaml"@ || ext == "yml"@ {
        "yaml"@
    } else if ext == "json"@ {
        "json"@
    } else if ext == "html"@ {
        "html"@
    } else if ext == "css"@ {
        "css"@
    } else {
        ""@
    }
}

/// The language of the file at `path`, from its extension.
pub open spec fn language_of(path: Seq<char>) -> Seq<char> {
    language_of_extension(extension_of(path))
}

/// Whether the characters `cs` spell `s`.
fn is(cs: &Vec<char>, s: &str) -> (b: bool)
    ensures
        b == (cs@ == s@),
{
    let sc = chars_of(s);
    chars_eq(cs, &sc)
}

/// Detects the language of a file from its extension, as a markdown
/// language identifier (`rust`, `python`, ...); empty when unknown.
pub fn detect_language(path: &str) -> (r: &'static str)
    ensures
        r@ == language_of(path@),
{
    let cs = chars_of(path);
    let len = cs.len();
    assert(cs@.take(len as int) =~= cs@);
    let ext = match rfind_char_in(&cs, len, '.') {
        Some(i) => {
            proof {
                crate::text::lemma_rfind_char(cs@, '.');
            }
            sub_chars(&cs, i + 1, len)
        },
        None => cs,
    };
    assert(ext@ == extension_of(path@));
    if is(&ext, "rs") {
        "rust"
    } else if is(&ext, "py") {
        "python"
    } else if is(&ext, "md") {
        "markdown"
    } else if is(&ext, "toml") {
        "toml"
    } else if is(&ext, "js") || is(&ext, "jsx") {
        "javascript"
    } else if is(&ext, "ts") || is(&ext, "tsx") {
        "typescript"
    } else if is(&ext, "c") || is(&ext, "h") {
        "c"
    } else if is(&ext, "cpp") || is(&ext, "cc") || is(&ext, "hpp") {
        "cpp"
    } else if is(&ext, "java") {
        "java"
    } else if is(&ext, "go") {
        "go"
    } else if is(&ext, "rb") {
        "ruby"
    } else if is(&ext, "sh") || is(&ext, "bash") {
        "bash"
    } else if is(&ext, "yaml") || is(&ext, "yml") {
        "yaml"
    } else if is(&ext, "json") {
        "json"
    } else if is(&ext, "html") {
        "html"
    } else if is(&ext, "css") {
        "css"
    } else {
        ""
    }
}

/// The line comment prefix of a language.
pub open spec fn comment_prefix_of(language: Seq<char>) -> Seq<char> {
    if language == "python"@ || language == "bash"@ || language == "ruby"@ || language == "yaml"@
        || language == "toml"@ {
        "#"@
    } else if language == "html"@ || language == "markdown"@ {
        "<!--"@
    } else {
        "//"@
    }
}

/// The comment suffix of a language: ` -->` for HTML and markdown, else nothing.
pub open spec fn comment_suffix_of(language: Seq<char>) -> Seq<char> {
    if language == "html"@ || language == "markdown"@ {
        " -->"@
    } else {
        ""@
    }
}

/// The comment prefix for a language, see [`comment_prefix_of`].
pub fn get_comment_prefix(language: &str) -> (r: &'static str)
    ensures
        r@ == comment_prefix_of(language@),
{
    let cs = chars_of(language);
    if is(&cs, "python") || is(&cs, "bash") || is(&cs, "ruby") || is(&cs, "yaml") || is(&cs, "toml") {
        "#"
    } else if is(&cs, "html") || is(&cs, "markdown") {
        "<!--"
    } else {
        "//"
    }
}

/// The comment suffix for a language, see [`comment_suffix_of`].
pub fn get_comment_suffix(language: &str) -> (r: &'static str)
    ensures
        r@ == comment_suffix_of(language@),
{
    let cs = chars_of(language);
    if is(&cs, "html") || is(&cs, "markdown") {
        " -->"
    } else {
        ""
    }
}



proof fn lemma_literals()
    ensures
        "bash"@ =~= seq!['b', 'a', 's', 'h'],
        "c"@ =~= seq!['c'],
        "cc"@ =~= seq!['c', 'c'],
        "cpp"@ =~= seq!['c', 'p', 'p'],
        "css"@ =~= seq!['c', 's', 's'],
        "go"@ =~= seq!['g', 'o'],
        "h"@ =~= seq!['h'],
        "hpp"@ =~= seq!['h', 'p', 'p'],
        "html"@ =~= seq!['h', 't', 'm', 'l'],
        "java"@ =~= seq!['j', 'a', 'v', 'a'],
        "javascript"@ =~= seq!['j', 'a', 'v', 'a', 's', 'c', 'r', 'i', 'p', 't'],
        "js"@ =~= seq!['j', 's'],
        "json"@ =~= seq!['j', 's', 'o', 'n'],
        "jsx"@ =~= seq!['j', 's', 'x'],
        "markdown"@ =~= seq!['m', 'a', 'r', 'k', 'd', 'o', 'w', 'n'],
        "md"@ =~= seq!['m', 'd'],
        "py"@ =~= seq!['p', 'y'],
        "python"@ =~= seq!['p', 'y', 't', 'h', 'o', 'n'],
        "rb"@ =~= seq!['r', 'b'],
        "rs"@ =~= seq!['r', 's'],
        "ruby"@ =~= seq!['r', 'u', 'b', 'y'],
        "rust"@ =~= seq!['r', 'u', 's', 't'],
        "sh"@ =~= seq!['s', 'h'],
        "toml"@ =~= seq!['t', 'o', 'm', 'l'],
        "ts"@ =~= seq!['t', 's'],
        "tsx"@ =~= seq!['t', 's', 'x'],
        "typescript"@ =~= seq!['t', 'y', 'p', 'e', 's', 'c', 'r', 'i', 'p', 't'],
        "yaml"@ =~= seq!['y', 'a', 'm', 'l'],
        "yml"@ =~= seq!['y', 'm', 'l'],
{
    reveal_strlit("");
    reveal_strlit(" -->");
    reveal_strlit("#");
    reveal_strlit("//");
    reveal_strlit("<!--");
    reveal_strlit("bash");
    reveal_strlit("c");
    reveal_strlit("cc");
    reveal_strlit("cpp");
    reveal_strlit("css");
    reveal_strlit("go");
    reveal_strlit("h");
    reveal_strlit("hpp");
    reveal_strlit("html");
    reveal_strlit("java");
    reveal_strlit("javascript");
    reveal_strlit("js");
    reveal_strlit("json");
    reveal_strlit("jsx");
    reveal_strlit("markdown");
    reveal_strlit("md");
    reveal_strlit("py");
    reveal_strlit("python");
    reveal_strlit("rb");
    reveal_strlit("rs");
    reveal_strlit("ruby");
    reveal_strlit("rust");
    reveal_strlit("sh");
    reveal_strlit("toml");
    reveal_strlit("ts");
    reveal_strlit("tsx");
    reveal_strlit("typescript");
    reveal_strlit("yaml");
    reveal_strlit("yml");
}

/// The language a known extension names: each row of the table.
proof fn lemma_language_table(ext: Seq<char>)
    ensures
        ext == "rs"@ ==> language_of_extension(ext) == "rust"@,
        ext == "py"@ ==> language_of_extension(ext) == "python"@,
        ext == "md"@ ==> language_of_extension(ext) == "markdown"@,
        ext == "toml"@ ==> language_of_extension(ext) == "toml"@,
        ext == "js"@ ==> language_of_extension(ext) == "javascript"@,
        ext == "jsx"@ ==> language_of_extension(ext) == "javascript"@,
        ext == "ts"@ ==> language_of_extension(ext) == "typescript"@,
        ext == "tsx"@ ==> language_of_extension(ext) == "typescript"@,
        ext == "c"@ ==> language_of_extension(ext) == "c"@,
        ext == "h"@ ==> language_of_extension(ext) == "c"@,
        ext == "cpp"@ ==> language_of_extension(ext) == "cpp"@,
        ext == "cc"@ ==> language_of_extension(ext) == "cpp"@,
        ext == "hpp"@ ==> language_of_extension(ext) == "cpp"@,
        ext == "java"@ ==> language_of_extension(ext) == "java"@,
        ext == "go"@ ==> language_of_extension(ext) == "go"@,
        ext == "rb"@ ==> language_of_extension(ext) == "ruby"@,
        ext == "sh"@ ==> language_of_extension(ext) == "bash"@,
        ext == "bash"@ ==> language_of_extension(ext) == "bash"@,
        ext == "yaml"@ ==> language_of_extension(ext) == "yaml"@,
        ext == "yml"@ ==> language_of_extension(ext) == "yaml"@,
        ext == "json"@ ==> language_of_extension(ext) == "json"@,
        ext == "html"@ ==> language_of_extension(ext) == "html"@,
        ext == "css"@ ==> language_of_extension(ext) == "css"@,
{
    lemma_literals();
    assert("rs"@.len() == 2);
    assert("py"@.len() == 2);
    assert("md"@.len() == 2);
    assert("toml"@.len() == 4);
    assert("js"@.len() == 2);
    assert("jsx"@.len() == 3);
    assert("ts"@.len() == 2);
    assert("tsx"@.len() == 3);
    assert("c"@.len() == 1);
    assert("h"@.len() == 1);
    assert("cpp"@.len() == 3);
    assert("cc"@.len() == 2);
    assert("hpp"@.len() == 3);
    assert("java"@.len() == 4);
    assert("go"@.len() == 2);
    assert("rb"@.len() == 2);
    assert("sh"@.len() == 2);
    assert("bash"@.len() == 4);
    assert("yaml"@.len() == 4);
    assert("yml"@.len() == 3);
    assert("json"@.len() == 4);
    assert("html"@.len() == 4);
    assert("css"@.len() == 3);
    assert("rs"@[0] != "ts"@[0]);
    assert("rs"@[0] != "sh"@[0]);
    assert("py"@[0] != "rs"@[0]);
    assert("py"@[0] != "ts"@[0]);
    assert("py"@[0] != "rb"@[0]);
    assert("py"@[0] != "sh"@[0]);
    assert("md"@[0] != "rs"@[0]);
    assert("md"@[0] != "py"@[0]);
    assert("md"@[0] != "ts"@[0]);
    assert("md"@[0] != "rb"@[0]);
    assert("md"@[0] != "sh"@[0]);
    assert("toml"@[0] != "yaml"@[0]);
    assert("js"@[0] != "rs"@[0]);
    assert("js"@[0] != "py"@[0]);
    assert("js"@[0] != "md"@[0]);
    assert("js"@[0] != "ts"@[0]);
    assert("js"@[0] != "rb"@[0]);
    assert("js"@[0] != "sh"@[0]);
    assert("jsx"@[0] != "tsx"@[0]);
    assert("jsx"@[0] != "yml"@[0]);
    assert("tsx"@[0] != "yml"@[0]);
    assert("c"@[0] != "h"@[0]);
    assert("cpp"@[0] != "jsx"@[0]);
    assert("cpp"@[0] != "tsx"@[0]);
    assert("cpp"@[0] != "hpp"@[0]);
    assert("cpp"@[0] != "yml"@[0]);
    assert("cpp"@[1] != "css"@[1]);
    assert("cc"@[0] != "rs"@[0]);
    assert("cc"@[0] != "py"@[0]);
    assert("cc"@[0] != "md"@[0]);
    assert("cc"@[0] != "js"@[0]);
    assert("cc"@[0] != "ts"@[0]);
    assert("cc"@[0] != "go"@[0]);
    assert("cc"@[0] != "rb"@[0]);
    assert("cc"@[0] != "sh"@[0]);
    assert("hpp"@[0] != "jsx"@[0]);
    assert("hpp"@[0] != "tsx"@[0]);
    assert("hpp"@[0] != "yml"@[0]);
    assert("java"@[0] != "toml"@[0]);
    assert("java"@[0] != "yaml"@[0]);
    assert("java"@[1] != "json"@[1]);
    assert("go"@[0] != "rs"@[0]);
    assert("go"@[0] != "py"@[0]);
    assert("go"@[0] != "md"@[0]);
    assert("go"@[0] != "js"@[0]);
    assert("go"@[0] != "ts"@[0]);
    assert("go"@[0] != "rb"@[0]);
    assert("go"@[0] != "sh"@[0]);
    assert("rb"@[1] != "rs"@[1]);
    assert("rb"@[0] != "ts"@[0]);
    assert("rb"@[0] != "sh"@[0]);
    assert("sh"@[0] != "ts"@[0]);
    assert("bash"@[0] != "toml"@[0]);
    assert("bash"@[0] != "java"@[0]);
    assert("bash"@[0] != "yaml"@[0]);
    assert("bash"@[0] != "json"@[0]);
    assert("bash"@[0] != "html"@[0]);
    assert("json"@[0] != "toml"@[0]);
    assert("json"@[0] != "yaml"@[0]);
    assert("html"@[0] != "toml"@[0]);
    assert("html"@[0] != "java"@[0]);
    assert("html"@[0] != "yaml"@[0]);
    assert("html"@[0] != "json"@[0]);
    assert("css"@[0] != "jsx"@[0]);
    assert("css"@[0] != "tsx"@[0]);
    assert("css"@[0] != "hpp"@[0]);
    assert("css"@[0] != "yml"@[0]);
}

/// Whether `ext` names a language whose line comments start with `#`:
/// Python, shell, Ruby, YAML and TOML files.
pub open spec fn is_hash_comment_extension(ext: Seq<char>) -> bool {
    ext == "py"@ || ext == "sh"@ || ext == "bash"@ || ext == "rb"@ || ext == "yaml"@ || ext == "yml"@
        || ext == "toml"@
}

/// Comments inserted into a Python, shell, Ruby, YAML or TOML file are
/// comments of that file's own language: they start with `#` and end with
/// nothing.
pub proof fn law_hash_comment_languages(path: Seq<char>)
    requires
        is_hash_comment_extension(extension_of(path)),
    ensures
        comment_prefix_of(language_of(path)) == "#"@,
        comment_suffix_of(language_of(path)) == ""@,
{
    lemma_literals();
    lemma_language_table(extension_of(path));
}

/// Comments inserted into an HTML or markdown file are HTML comments,
/// between `<!--` and ` -->`; those inserted into a Rust, C, C++, Java, Go,
/// JavaScript, TypeScript, JSON or CSS file start with `//`.
pub proof fn law_other_comment_languages(path: Seq<char>)
    ensures
        (extension_of(path) == "html"@ || extension_of(path) == "md"@) ==> comment_prefix_of(language_of(path))
            == "<!--"@ && comment_suffix_of(language_of(path)) == " -->"@,
        (extension_of(path) == "rs"@ || extension_of(path) == "c"@ || extension_of(path) == "h"@
            || extension_of(path) == "cpp"@ || extension_of(path) == "cc"@ || extension_of(path) == "hpp"@
            || extension_of(path) == "java"@ || extension_of(path) == "go"@ || extension_of(path) == "js"@
            || extension_of(path) == "jsx"@ || extension_of(path) == "ts"@ || extension_of(path) == "tsx"@
            || extension_of(path) == "json"@ || extension_of(path) == "css"@) ==> comment_prefix_of(
            language_of(path),
        ) == "//"@ && comment_suffix_of(language_of(path)) == ""@,
{
    lemma_literals();
    lemma_language_table(extension_of(path));
}

} // verus!
