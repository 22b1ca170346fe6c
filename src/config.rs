//! The scan options as given on a command line: comma-separated lists.

use vstd::prelude::*;
use crate::classify::{is_space, skip_spaces};
use crate::text::{chars_of, lower_of, lowercase, string_of, texts};
use crate::walk::ScanConfig;

verus! {

/// The extensions accepted when none are given.
pub const DEFAULT_EXTENSIONS: &'static str = "rs,py,js,ts,jsx,tsx,go,java,c,cpp,cc,cxx,h,hpp,hxx,cs,rb,php,scala,kt,kts,groovy,pl,pm,swift,lua,ex,exs,elm,hs,erl,fs,sh,bash,zsh,fish,ps1,json,toml,yaml,yml,xml,ini,conf,properties,sql,graphql,gql,prisma,md,markdown,rst,txt,csv,org,html,css,scss,sass,less,tex,rmd,bat";

/// The names excluded when none are given.
pub const DEFAULT_EXCLUDES: &'static str = ".git,node_modules,target,dist,build,venv,.venv,__pycache__,.idea,.vscode,bin,obj,.mypy_cache,debug,.fingerprint,.cache,bower_components,coverage,tmp,temp,.next,out,logs,release,.gradle,gradle,vendor,packages,artifacts,generated,pods,.eggs,.pytest_cache,cmake-build-debug,cmake-build-release,CMakeFiles,.vs,out,.ipynb_checkpoints";

/// The largest file size in kilobytes when none is given.
pub const DEFAULT_MAX_SIZE_KB: usize = 100;

/// The most files when no number is given.
pub const DEFAULT_MAX_FILES: usize = 1000;

/// The end of `s` up to `j` once the white space before `j`, down to
/// `lo`, is taken off.
pub open spec fn trim_end(s: Seq<char>, lo: int, j: int) -> int
    decreases j - lo,
{
    if j > lo && is_space(s[j - 1]) {
        trim_end(s, lo, j - 1)
    } else {
        j
    }
}

/// `s` without the white space at its start and at its end.
pub open spec fn trim_of(s: Seq<char>) -> Seq<char> {
    let a = skip_spaces(s, 0);
    s.subrange(a, trim_end(s, a, s.len() as int))
}

/// Relies on `str::trim`: it takes off the leading and trailing characters
/// of the Unicode `White_Space` property.
#[verifier::external_body]
fn trimmed(s: &str) -> (r: String)
    ensures
        r@ == trim_of(s@),
{
    s.trim().to_string()
}

/// The pieces of `s` between commas, as `str::split(',')` gives them: one
/// more than there are commas, empty ones kept.
pub open spec fn pieces(s: Seq<char>) -> Seq<Seq<char>>
    decreases s.len(),
{
    if s.len() == 0 {
        seq![Seq::empty()]
    } else {
        let p = pieces(s.drop_last());
        if s.last() == ',' {
            p.push(Seq::empty())
        } else {
            p.update(p.len() - 1, p.last().push(s.last()))
        }
    }
}

proof fn lemma_pieces_nonempty(s: Seq<char>)
    ensures
        pieces(s).len() >= 1,
    decreases s.len(),
{
    if s.len() > 0 {
        lemma_pieces_nonempty(s.drop_last());
    }
}

/// The pieces of `s` between commas.
fn split_commas(s: &str) -> (r: Vec<Vec<char>>)
    ensures
        r@.len() == pieces(s@).len(),
        forall|i: int| 0 <= i < r@.len() ==> #[trigger] r@[i]@ == pieces(s@)[i],
{
    let cs = chars_of(s);
    let mut done: Vec<Vec<char>> = Vec::new();
    let mut cur: Vec<char> = Vec::new();
    let mut i: usize = 0;
    while i < cs.len()
        invariant
            cs@ == s@,
            i <= cs@.len(),
            pieces(cs@.take(i as int)).len() == done@.len() + 1,
            forall|k: int| 0 <= k < done@.len() ==> #[trigger] done@[k]@ == pieces(cs@.take(i as int))[k],
            cur@ == pieces(cs@.take(i as int)).last(),
        decreases cs@.len() - i,
    {
        let ghost before = cs@.take(i as int);
        assert(cs@.take(i + 1).drop_last() =~= before);
        if cs[i] == ',' {
            done.push(cur);
            cur = Vec::new();
        } else {
            cur.push(cs[i]);
        }
        i = i + 1;
        proof {
            lemma_pieces_nonempty(before);
        }
    }
    assert(cs@.take(cs@.len() as int) =~= cs@);
    done.push(cur);
    done
}

/// The names of a comma-separated list, each trimmed of white space.
pub fn parse_names(list: &str) -> (r: Vec<String>)
    ensures
        texts(r@) == pieces(list@).map_values(|p: Seq<char>| trim_of(p)),
{
    let ps = split_commas(list);
    let mut r: Vec<String> = Vec::new();
    let mut i: usize = 0;
    while i < ps.len()
        invariant
            i <= ps@.len(),
            ps@.len() == pieces(list@).len(),
            forall|k: int| 0 <= k < ps@.len() ==> #[trigger] ps@[k]@ == pieces(list@)[k],
            texts(r@) == pieces(list@).take(i as int).map_values(|p: Seq<char>| trim_of(p)),
        decreases ps@.len() - i,
    {
        assert(ps@[i as int]@ == pieces(list@)[i as int]);
        let t = trimmed(string_of(&ps[i]).as_str());
        let ghost before = r@;
        r.push(t);
        assert(texts(r@) =~= texts(before).push(trim_of(pieces(list@)[i as int])));
        assert(pieces(list@).take(i + 1).map_values(|p: Seq<char>| trim_of(p)) =~= pieces(
            list@,
        ).take(i as int).map_values(|p: Seq<char>| trim_of(p)).push(
            trim_of(pieces(list@)[i as int]),
        ));
        i = i + 1;
        assert(texts(r@) =~= pieces(list@).take(i as int).map_values(|p: Seq<char>| trim_of(p)));
    }
    assert(pieces(list@).take(ps@.len() as int) =~= pieces(list@));
    r
}

/// The extensions of a comma-separated list, each trimmed and lower-cased.
pub fn parse_extensions(list: &str) -> (r: Vec<String>)
    ensures
        texts(r@) == pieces(list@).map_values(|p: Seq<char>| lower_of(trim_of(p))),
{
    let names = parse_names(list);
    assert(texts(names@).len() == names@.len());
    let mut r: Vec<String> = Vec::new();
    let mut i: usize = 0;
    while i < names.len()
        invariant
            i <= names@.len(),
            names@.len() == pieces(list@).len(),
            texts(names@) == pieces(list@).map_values(|p: Seq<char>| trim_of(p)),
            texts(r@) == pieces(list@).take(i as int).map_values(
                |p: Seq<char>| lower_of(trim_of(p)),
            ),
        decreases names@.len() - i,
    {
        let l = lowercase(names[i].as_str());
        assert(texts(names@)[i as int] == names@[i as int]@);
        assert(texts(names@)[i as int] == trim_of(pieces(list@)[i as int]));
        let ghost before = r@;
        r.push(l);
        assert(texts(r@) =~= texts(before).push(lower_of(trim_of(pieces(list@)[i as int]))));
        assert(pieces(list@).take(i + 1).map_values(|p: Seq<char>| lower_of(trim_of(p)))
            =~= pieces(list@).take(i as int).map_values(|p: Seq<char>| lower_of(trim_of(p))).push(
            lower_of(trim_of(pieces(list@)[i as int])),
        ));
        i = i + 1;
        assert(texts(r@) =~= pieces(list@).take(i as int).map_values(
            |p: Seq<char>| lower_of(trim_of(p)),
        ));
    }
    assert(pieces(list@).take(names@.len() as int) =~= pieces(list@));
    r
}

impl ScanConfig {
    /// A configuration from comma-separated lists of extensions and of
    /// excluded names.
    pub fn from_lists(extensions: &str, excludes: &str, max_size_kb: usize, max_files: usize) -> (r:
        ScanConfig)
        ensures
            r@.extensions == pieces(extensions@).map_values(|p: Seq<char>| lower_of(trim_of(p))),
            r@.exclude_dirs == pieces(excludes@).map_values(|p: Seq<char>| trim_of(p)),
            r@.max_size_kb == max_size_kb,
            r@.max_files == max_files,
    {
        ScanConfig {
            extensions: parse_extensions(extensions),
            exclude_dirs: parse_names(excludes),
            max_size_kb,
            max_files,
        }
    }

    /// The configuration used when no option is given.
    pub fn with_defaults() -> (r: ScanConfig)
        ensures
            r@.extensions == pieces(DEFAULT_EXTENSIONS@).map_values(
                |p: Seq<char>| lower_of(trim_of(p)),
            ),
            r@.exclude_dirs == pieces(DEFAULT_EXCLUDES@).map_values(|p: Seq<char>| trim_of(p)),
            r@.max_size_kb == DEFAULT_MAX_SIZE_KB,
            r@.max_files == DEFAULT_MAX_FILES,
    {
        ScanConfig::from_lists(DEFAULT_EXTENSIONS, DEFAULT_EXCLUDES, DEFAULT_MAX_SIZE_KB, DEFAULT_MAX_FILES)
    }
}

} // verus!
