//! Language tags for code blocks: a fixed table of extensions, then the
//! interpreter named on a `#!` line, then markers in the content of files
//! without an extension.

use vstd::prelude::*;
use crate::text::{chars_of, has_at, occurs, occurs_at, occurs_in, same_text};

verus! {

/// The tag that the fixed table gives an extension (lower case, no dot).
pub open spec fn table_tag(ext: Seq<char>) -> Option<Seq<char>> {
    if ext.len() == 0 {
        None
    } else if ext == "rs"@ {
        Some("rust"@)
    } else if ext == "go"@ {
        Some("go"@)
    } else if ext == "c"@ {
        Some("c"@)
    } else if ext == "cpp"@ {
        Some("cpp"@)
    } else if ext == "cc"@ {
        Some("cpp"@)
    } else if ext == "cxx"@ {
        Some("cpp"@)
    } else if ext == "h"@ {
        Some("c"@)
    } else if ext == "hpp"@ {
        Some("cpp"@)
    } else if ext == "hxx"@ {
        Some("cpp"@)
    } else if ext == "js"@ {
        Some("javascript"@)
    } else if ext == "ts"@ {
        Some("typescript"@)
    } else if ext == "jsx"@ {
        Some("jsx"@)
    } else if ext == "tsx"@ {
        Some("tsx"@)
    } else if ext == "html"@ {
        Some("html"@)
    } else if ext == "css"@ {
        Some("css"@)
    } else if ext == "scss"@ {
        Some("scss"@)
    } else if ext == "sass"@ {
        Some("scss"@)
    } else if ext == "less"@ {
        Some("less"@)
    } else if ext == "java"@ {
        Some("java"@)
    } else if ext == "kt"@ {
        Some("kotlin"@)
    } else if ext == "kts"@ {
        Some("kotlin"@)
    } else if ext == "scala"@ {
        Some("scala"@)
    } else if ext == "groovy"@ {
        Some("groovy"@)
    } else if ext == "py"@ {
        Some("python"@)
    } else if ext == "rb"@ {
        Some("ruby"@)
    } else if ext == "php"@ {
        Some("php"@)
    } else if ext == "cs"@ {
        Some("csharp"@)
    } else if ext == "swift"@ {
        Some("swift"@)
    } else if ext == "pl"@ {
        Some("perl"@)
    } else if ext == "pm"@ {
        Some("perl"@)
    } else if ext == "lua"@ {
        Some("lua"@)
    } else if ext == "ex"@ {
        Some("elixir"@)
    } else if ext == "exs"@ {
        Some("elixir"@)
    } else if ext == "elm"@ {
        Some("elm"@)
    } else if ext == "hs"@ {
        Some("haskell"@)
    } else if ext == "erl"@ {
        Some("erlang"@)
    } else if ext == "fs"@ {
        Some("fsharp"@)
    } else if ext == "sh"@ {
        Some("bash"@)
    } else if ext == "bash"@ {
        Some("bash"@)
    } else if ext == "zsh"@ {
        Some("bash"@)
    } else if ext == "fish"@ {
        Some("fish"@)
    } else if ext == "ps1"@ {
        Some("powershell"@)
    } else if ext == "json"@ {
        Some("json"@)
    } else if ext == "toml"@ {
        Some("toml"@)
    } else if ext == "yaml"@ {
        Some("yaml"@)
    } else if ext == "yml"@ {
        Some("yaml"@)
    } else if ext == "xml"@ {
        Some("xml"@)
    } else if ext == "ini"@ {
        Some("ini"@)
    } else if ext == "conf"@ {
        Some("conf"@)
    } else if ext == "properties"@ {
        Some("properties"@)
    } else if ext == "sql"@ {
        Some("sql"@)
    } else if ext == "graphql"@ {
        Some("graphql"@)
    } else if ext == "gql"@ {
        Some("graphql"@)
    } else if ext == "prisma"@ {
        Some("prisma"@)
    } else if ext == "md"@ {
        Some("markdown"@)
    } else if ext == "markdown"@ {
        Some("markdown"@)
    } else if ext == "rst"@ {
        Some("rst"@)
    } else if ext == "txt"@ {
        Some("text"@)
    } else if ext == "csv"@ {
        Some("csv"@)
    } else if ext == "org"@ {
        Some("org"@)
    } else {
        None
    }
}

/// The tag for an interpreter named on a `#!` line.
pub open spec fn interpreter_tag(name: Seq<char>) -> Seq<char> {
    if name == "python3"@ {
        "python"@
    } else if name == "python"@ {
        "python"@
    } else if name == "ruby"@ {
        "ruby"@
    } else if name == "node"@ {
        "javascript"@
    } else if name == "nodejs"@ {
        "javascript"@
    } else if name == "bash"@ {
        "bash"@
    } else if name == "sh"@ {
        "bash"@
    } else if name == "perl"@ {
        "perl"@
    } else if name == "php"@ {
        "php"@
    } else if name == "lua"@ {
        "lua"@
    } else if name == "Rscript"@ {
        "r"@
    } else {
        ""@
    }
}

/// White space as the shebang grammar reads it: the Unicode `White_Space` characters.
pub open spec fn is_space(c: char) -> bool {
    let u = c as u32;
    (0x09 <= u <= 0x0d) || u == 0x20 || u == 0x85 || u == 0xa0 || u == 0x1680 || (0x2000 <= u
        <= 0x200a) || u == 0x2028 || u == 0x2029 || u == 0x202f || u == 0x205f || u == 0x3000
}

/// The ASCII word characters: letters, digits and `_`.
pub open spec fn is_word(c: char) -> bool {
    let u = c as u32;
    (0x30 <= u <= 0x39) || (0x41 <= u <= 0x5a) || (0x61 <= u <= 0x7a) || u == 0x5f
}

/// Whether `c` is a word character of the regex class `\w`, as
/// `regex_syntax::is_word_character` answers: a Unicode letter, mark,
/// decimal digit, connector punctuation or join control.
pub uninterp spec fn word_char_of(c: char) -> bool;

/// Relies on `regex_syntax::is_word_character` (the `unicode-perl` feature
/// is on, so it does not panic): among ASCII characters it accepts exactly
/// letters, digits and `_`.
#[verifier::external_body]
fn word_char(c: char) -> (r: bool)
    ensures
        r == word_char_of(c),
        (c as u32) < 0x80 ==> r == is_word(c),
{
    regex_syntax::is_word_character(c)
}

/// The first index at or after `i` that does not hold white space.
pub open spec fn skip_spaces(l: Seq<char>, i: int) -> int
    decreases l.len() - i,
{
    if 0 <= i < l.len() && is_space(l[i]) {
        skip_spaces(l, i + 1)
    } else {
        i
    }
}

/// The first index at or after `i` that does not hold a word character.
pub open spec fn skip_word(l: Seq<char>, i: int) -> int
    decreases l.len() - i,
{
    if 0 <= i < l.len() && word_char_of(l[i]) {
        skip_word(l, i + 1)
    } else {
        i
    }
}

/// The index of the first line break at or after `i`, or the length.
pub open spec fn line_end(c: Seq<char>, i: int) -> int
    decreases c.len() - i,
{
    if 0 <= i < c.len() && c[i] != '\n' {
        line_end(c, i + 1)
    } else {
        i
    }
}

/// The first line of `c`, without its line break.
pub open spec fn first_line(c: Seq<char>) -> Seq<char> {
    c.take(line_end(c, 0))
}

/// `c` begins with `#!`.
pub open spec fn starts_shebang(c: Seq<char>) -> bool {
    c.len() >= 2 && c[0] == '#' && c[1] == '!'
}

/// The name in `#! /usr/bin/env NAME`: white space may follow `#!`, and at
/// least one white space character must stand before the name.
pub open spec fn env_word(l: Seq<char>) -> Option<Seq<char>> {
    let a = skip_spaces(l, 2);
    let b = a + "/usr/bin/env"@.len();
    let w = skip_spaces(l, b);
    let e = skip_word(l, w);
    if occurs_at(l, a, "/usr/bin/env"@) && w > b && e > w {
        Some(l.subrange(w, e))
    } else {
        None
    }
}

/// The greatest `q` in `lo..hi` at which a `/` stands right before a word
/// character, or -1.
pub open spec fn last_slash(l: Seq<char>, lo: int, hi: int) -> int
    decreases hi - lo,
{
    if hi <= lo {
        -1
    } else if l[hi - 1] == '/' && hi < l.len() && word_char_of(l[hi]) {
        hi - 1
    } else {
        last_slash(l, lo, hi - 1)
    }
}

/// The name in `#! /.../NAME`: the word after the last `/` that a word
/// follows, where that `/` is not the first one.
pub open spec fn path_word(l: Seq<char>) -> Option<Seq<char>> {
    let a = skip_spaces(l, 2);
    if a < l.len() && l[a] == '/' {
        let q = last_slash(l, a + 1, l.len() as int);
        if q >= 0 {
            Some(l.subrange(q + 1, skip_word(l, q + 1)))
        } else {
            None
        }
    } else {
        None
    }
}

/// The interpreter that a line names, where it is a `#!` line: the
/// `/usr/bin/env` form first, then the path form.
pub open spec fn shebang_word(l: Seq<char>) -> Option<Seq<char>> {
    if starts_shebang(l) {
        match env_word(l) {
            Some(w) => Some(w),
            None => path_word(l),
        }
    } else {
        None
    }
}

/// The tag for the interpreter on the first line of `content`.
pub open spec fn shebang_tag(content: Seq<char>) -> Seq<char> {
    match shebang_word(first_line(content)) {
        Some(w) => interpreter_tag(w),
        None => ""@,
    }
}

/// The tag that markers in the content give a file without an extension.
pub open spec fn special_tag(content: Seq<char>) -> Seq<char> {
    if occurs_in(content, "FROM "@) {
        "dockerfile"@
    } else if occurs_in(content, "JAVA_HOME"@) {
        "properties"@
    } else {
        ""@
    }
}

/// The tag of a file with extension `ext` (lower case, no dot) and text
/// `content`: the table first, then a `#!` line, then, for a file without
/// an extension, the content markers; else no tag.
pub open spec fn classify(ext: Seq<char>, content: Seq<char>) -> Seq<char> {
    match table_tag(ext) {
        Some(t) => t,
        None => if starts_shebang(content) {
            shebang_tag(content)
        } else if ext.len() == 0 {
            special_tag(content)
        } else {
            ""@
        },
    }
}

/// Looks `ext` up in the fixed table.
#[verifier::rlimit(50)]
pub fn table_lookup(ext: &Vec<char>) -> (r: Option<&'static str>)
    ensures
        r is Some == table_tag(ext@) is Some,
        r is Some ==> r->0@ == table_tag(ext@)->0,
{
    if ext.len() == 0 {
        None
    } else if same_text(ext, "rs") {
        Some("rust")
    } else if same_text(ext, "go") {
        Some("go")
    } else if same_text(ext, "c") {
        Some("c")
    } else if same_text(ext, "cpp") {
        Some("cpp")
    } else if same_text(ext, "cc") {
        Some("cpp")
    } else if same_text(ext, "cxx") {
        Some("cpp")
    } else if same_text(ext, "h") {
        Some("c")
    } else if same_text(ext, "hpp") {
        Some("cpp")
    } else if same_text(ext, "hxx") {
        Some("cpp")
    } else if same_text(ext, "js") {
        Some("javascript")
    } else if same_text(ext, "ts") {
        Some("typescript")
    } else if same_text(ext, "jsx") {
        Some("jsx")
    } else if same_text(ext, "tsx") {
        Some("tsx")
    } else if same_text(ext, "html") {
        Some("html")
    } else if same_text(ext, "css") {
        Some("css")
    } else if same_text(ext, "scss") {
        Some("scss")
    } else if same_text(ext, "sass") {
        Some("scss")
    } else if same_text(ext, "less") {
        Some("less")
    } else if same_text(ext, "java") {
        Some("java")
    } else if same_text(ext, "kt") {
        Some("kotlin")
    } else if same_text(ext, "kts") {
        Some("kotlin")
    } else if same_text(ext, "scala") {
        Some("scala")
    } else if same_text(ext, "groovy") {
        Some("groovy")
    } else if same_text(ext, "py") {
        Some("python")
    } else if same_text(ext, "rb") {
        Some("ruby")
    } else if same_text(ext, "php") {
        Some("php")
    } else if same_text(ext, "cs") {
        Some("csharp")
    } else if same_text(ext, "swift") {
        Some("swift")
    } else if same_text(ext, "pl") {
        Some("perl")
    } else if same_text(ext, "pm") {
        Some("perl")
    } else if same_text(ext, "lua") {
        Some("lua")
    } else if same_text(ext, "ex") {
        Some("elixir")
    } else if same_text(ext, "exs") {
        Some("elixir")
    } else if same_text(ext, "elm") {
        Some("elm")
    } else if same_text(ext, "hs") {
        Some("haskell")
    } else if same_text(ext, "erl") {
        Some("erlang")
    } else if same_text(ext, "fs") {
        Some("fsharp")
    } else if same_text(ext, "sh") {
        Some("bash")
    } else if same_text(ext, "bash") {
        Some("bash")
    } else if same_text(ext, "zsh") {
        Some("bash")
    } else if same_text(ext, "fish") {
        Some("fish")
    } else if same_text(ext, "ps1") {
        Some("powershell")
    } else if same_text(ext, "json") {
        Some("json")
    } else if same_text(ext, "toml") {
        Some("toml")
    } else if same_text(ext, "yaml") {
        Some("yaml")
    } else if same_text(ext, "yml") {
        Some("yaml")
    } else if same_text(ext, "xml") {
        Some("xml")
    } else if same_text(ext, "ini") {
        Some("ini")
    } else if same_text(ext, "conf") {
        Some("conf")
    } else if same_text(ext, "properties") {
        Some("properties")
    } else if same_text(ext, "sql") {
        Some("sql")
    } else if same_text(ext, "graphql") {
        Some("graphql")
    } else if same_text(ext, "gql") {
        Some("graphql")
    } else if same_text(ext, "prisma") {
        Some("prisma")
    } else if same_text(ext, "md") {
        Some("markdown")
    } else if same_text(ext, "markdown") {
        Some("markdown")
    } else if same_text(ext, "rst") {
        Some("rst")
    } else if same_text(ext, "txt") {
        Some("text")
    } else if same_text(ext, "csv") {
        Some("csv")
    } else if same_text(ext, "org") {
        Some("org")
    } else {
        None
    }
}

/// The tag for an interpreter name.
pub fn interpreter_lookup(name: &Vec<char>) -> (r: &'static str)
    ensures
        r@ == interpreter_tag(name@),
{
    if same_text(name, "python3") {
        "python"
    } else if same_text(name, "python") {
        "python"
    } else if same_text(name, "ruby") {
        "ruby"
    } else if same_text(name, "node") {
        "javascript"
    } else if same_text(name, "nodejs") {
        "javascript"
    } else if same_text(name, "bash") {
        "bash"
    } else if same_text(name, "sh") {
        "bash"
    } else if same_text(name, "perl") {
        "perl"
    } else if same_text(name, "php") {
        "php"
    } else if same_text(name, "lua") {
        "lua"
    } else if same_text(name, "Rscript") {
        "r"
    } else {
        ""
    }
}

fn space_char(c: char) -> (r: bool)
    ensures
        r == is_space(c),
{
    let u = c as u32;
    (0x09 <= u && u <= 0x0d) || u == 0x20 || u == 0x85 || u == 0xa0 || u == 0x1680 || (0x2000
        <= u && u <= 0x200a) || u == 0x2028 || u == 0x2029 || u == 0x202f || u == 0x205f || u
        == 0x3000
}

fn skip_spaces_from(l: &Vec<char>, i: usize) -> (r: usize)
    requires
        i <= l@.len(),
    ensures
        r as int == skip_spaces(l@, i as int),
        i <= r <= l@.len(),
    decreases l@.len() - i,
{
    if i < l.len() && space_char(l[i]) {
        skip_spaces_from(l, i + 1)
    } else {
        i
    }
}

fn skip_word_from(l: &Vec<char>, i: usize) -> (r: usize)
    requires
        i <= l@.len(),
    ensures
        r as int == skip_word(l@, i as int),
        i <= r <= l@.len(),
    decreases l@.len() - i,
{
    if i < l.len() && word_char(l[i]) {
        skip_word_from(l, i + 1)
    } else {
        i
    }
}

fn line_end_from(c: &Vec<char>, i: usize) -> (r: usize)
    requires
        i <= c@.len(),
    ensures
        r as int == line_end(c@, i as int),
        i <= r <= c@.len(),
    decreases c@.len() - i,
{
    if i < c.len() && c[i] != '\n' {
        line_end_from(c, i + 1)
    } else {
        i
    }
}

fn last_slash_in(l: &Vec<char>, lo: usize, hi: usize) -> (r: Option<usize>)
    requires
        hi <= l@.len(),
    ensures
        match r {
            Some(q) => q as int == last_slash(l@, lo as int, hi as int) && q + 1 < l@.len(),
            None => last_slash(l@, lo as int, hi as int) == -1,
        },
    decreases hi,
{
    if hi <= lo {
        None
    } else if l[hi - 1] == '/' && hi < l.len() && word_char(l[hi]) {
        Some(hi - 1)
    } else {
        last_slash_in(l, lo, hi - 1)
    }
}

fn subvec(l: &Vec<char>, from: usize, to: usize) -> (r: Vec<char>)
    requires
        from <= to <= l@.len(),
    ensures
        r@ == l@.subrange(from as int, to as int),
{
    let mut r: Vec<char> = Vec::new();
    let mut i: usize = from;
    while i < to
        invariant
            from <= i <= to <= l@.len(),
            r@ == l@.subrange(from as int, i as int),
        decreases to - i,
    {
        r.push(l[i]);
        i = i + 1;
        assert(r@ =~= l@.subrange(from as int, i as int));
    }
    r
}

fn env_word_of(l: &Vec<char>) -> (r: Option<Vec<char>>)
    requires
        starts_shebang(l@),
    ensures
        r matches Some(w) ==> env_word(l@) == Some(w@),
        r is None ==> env_word(l@) is None,
{
    let env = chars_of("/usr/bin/env");
    let a = skip_spaces_from(l, 2);
    if !has_at(l, a, &env) {
        return None;
    }
    assert(a + env@.len() <= l@.len() == l.len());
    let b = a + env.len();
    let w = skip_spaces_from(l, b);
    let e = skip_word_from(l, w);
    if w > b && e > w {
        Some(subvec(l, w, e))
    } else {
        None
    }
}

fn path_word_of(l: &Vec<char>) -> (r: Option<Vec<char>>)
    requires
        starts_shebang(l@),
    ensures
        r matches Some(w) ==> path_word(l@) == Some(w@),
        r is None ==> path_word(l@) is None,
{
    let a = skip_spaces_from(l, 2);
    if a < l.len() && l[a] == '/' {
        match last_slash_in(l, a + 1, l.len()) {
            Some(q) => {
                let e = skip_word_from(l, q + 1);
                Some(subvec(l, q + 1, e))
            },
            None => None,
        }
    } else {
        None
    }
}

/// The tag for the interpreter on the first line of `content`.
pub fn shebang_tag_of(content: &Vec<char>) -> (r: &'static str)
    ensures
        r@ == shebang_tag(content@),
{
    let end = line_end_from(content, 0);
    let line = subvec(content, 0, end);
    assert(line@ =~= first_line(content@));
    if line.len() < 2 || line[0] != '#' || line[1] != '!' {
        return "";
    }
    match env_word_of(&line) {
        Some(w) => interpreter_lookup(&w),
        None => match path_word_of(&line) {
            Some(w) => interpreter_lookup(&w),
            None => "",
        },
    }
}

/// The tag that markers in the content give a file without an extension.
pub fn special_tag_of(content: &Vec<char>) -> (r: &'static str)
    ensures
        r@ == special_tag(content@),
{
    if occurs(content, &chars_of("FROM ")) {
        "dockerfile"
    } else if occurs(content, &chars_of("JAVA_HOME")) {
        "properties"
    } else {
        ""
    }
}

/// The tag of a file with extension `ext` and text `content`.
pub fn classify_chars(ext: &Vec<char>, content: &Vec<char>) -> (r: &'static str)
    ensures
        r@ == classify(ext@, content@),
{
    match table_lookup(ext) {
        Some(t) => t,
        None => if content.len() >= 2 && content[0] == '#' && content[1] == '!' {
            shebang_tag_of(content)
        } else if ext.len() == 0 {
            special_tag_of(content)
        } else {
            ""
        },
    }
}

/// The language tag for a file with extension `ext` (lower case, no dot)
/// and text `content`.
pub fn language_for_extension(ext: &str, content: &str) -> (r: &'static str)
    ensures
        r@ == classify(ext@, content@),
{
    classify_chars(&chars_of(ext), &chars_of(content))
}

/// The tag for the interpreter named on the first line of `content`.
pub fn detect_shebang(content: &str) -> (r: &'static str)
    ensures
        r@ == shebang_tag(content@),
{
    shebang_tag_of(&chars_of(content))
}

/// The tag that markers give the content of a file without an extension.
pub fn detect_special_file(content: &str) -> (r: &'static str)
    ensures
        r@ == special_tag(content@),
{
    special_tag_of(&chars_of(content))
}

} // verus!
