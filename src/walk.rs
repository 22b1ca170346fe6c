//! The walk: which entries of a directory tree are shown in the tree
//! listing, and which files are selected for the dump.
//!
//! The caller walks the tree depth-first and hands each entry, with its
//! depth below the root, to a [`TreeBuilder`]; the builder decides.

use vstd::prelude::*;
use vstd::utf8::{decode_utf8, valid_utf8};
use crate::classify::{shebang_tag, shebang_tag_of, special_tag, special_tag_of, starts_shebang};
use crate::text::{chars_of, contains_text, lower_of, lowercase, push_str, string_of, texts};

verus! {

/// What one scan accepts.
pub struct ScanConfig {
    /// Accepted extensions: lower case, without the dot.
    pub extensions: Vec<String>,
    /// Names that, wherever they stand, are left out with all they hold.
    pub exclude_dirs: Vec<String>,
    /// The largest size of a selected file, in whole kilobytes.
    pub max_size_kb: usize,
    /// The most files that one scan selects.
    pub max_files: usize,
}

/// A scan configuration as values.
pub struct ConfigModel {
    pub extensions: Seq<Seq<char>>,
    pub exclude_dirs: Seq<Seq<char>>,
    pub max_size_kb: nat,
    pub max_files: nat,
}

impl View for ScanConfig {
    type V = ConfigModel;

    open spec fn view(&self) -> ConfigModel {
        ConfigModel {
            extensions: texts(self.extensions@),
            exclude_dirs: texts(self.exclude_dirs@),
            max_size_kb: self.max_size_kb as nat,
            max_files: self.max_files as nat,
        }
    }
}

/// The kind of a directory entry, as the walk saw it (links not followed).
#[derive(Clone, Copy, Debug, PartialEq, Eq, Structural)]
pub enum EntryKind {
    File,
    Dir,
    Symlink,
    Other,
}

/// One entry of the walk.
pub struct WalkEntry {
    /// The entry's own name.
    pub name: String,
    /// 1 for an entry of the root directory, one more for each level below.
    pub depth: usize,
    pub kind: EntryKind,
    /// Size in bytes.
    pub size: u64,
    /// For a file without an extension, its bytes, where they could be read.
    pub content: Option<Vec<u8>>,
}

/// The text that `b` encodes, where it is valid UTF-8.
pub open spec fn text_of(b: Seq<u8>) -> Option<Seq<char>> {
    if valid_utf8(b) {
        Some(decode_utf8(b))
    } else {
        None
    }
}

/// A walk entry as values.
pub struct EntryModel {
    pub name: Seq<char>,
    pub depth: nat,
    pub kind: EntryKind,
    pub size: nat,
    pub text: Option<Seq<char>>,
}

impl View for WalkEntry {
    type V = EntryModel;

    open spec fn view(&self) -> EntryModel {
        EntryModel {
            name: self.name@,
            depth: self.depth as nat,
            kind: self.kind,
            size: self.size as nat,
            text: match self.content {
                Some(b) => text_of(b@),
                None => None,
            },
        }
    }
}

/// A line of the tree listing.
pub enum Shown {
    Dir { depth: nat, name: Seq<char> },
    File { depth: nat, path: Seq<Seq<char>>, size: nat },
}

/// Where a walk stands: the lines shown so far, the directories that hold
/// the next entry, and whether the walk has stopped at the cap.
pub struct WalkModel {
    pub shown: Seq<Shown>,
    pub dirs: Seq<Seq<char>>,
    pub stopped: bool,
}

/// A selected file: the names from the root down to it, and its size.
pub struct FileModel {
    pub path: Seq<Seq<char>>,
    pub size: nat,
}

/// The files among the shown lines, in order.
pub open spec fn selected(shown: Seq<Shown>) -> Seq<FileModel>
    decreases shown.len(),
{
    if shown.len() == 0 {
        Seq::empty()
    } else {
        let rest = selected(shown.drop_last());
        match shown.last() {
            Shown::File { depth, path, size } => rest.push(FileModel { path, size }),
            Shown::Dir { .. } => rest,
        }
    }
}

/// The index of the last `.` before index `i`, or -1.
pub open spec fn last_dot(n: Seq<char>, i: int) -> int
    decreases i,
{
    if i <= 0 {
        -1
    } else if n[i - 1] == '.' {
        i - 1
    } else {
        last_dot(n, i - 1)
    }
}

/// The extension of a file name: what follows its last `.`, where that
/// `.` is not the first character; else empty.
pub open spec fn extension(n: Seq<char>) -> Seq<char> {
    let k = last_dot(n, n.len() as int);
    if k <= 0 {
        Seq::empty()
    } else {
        n.subrange(k + 1, n.len() as int)
    }
}

/// The tag that a file without an extension gets from its content.
pub open spec fn fallback_tag(t: Seq<char>) -> Seq<char> {
    if starts_shebang(t) {
        shebang_tag(t)
    } else {
        special_tag(t)
    }
}

/// The size in whole kilobytes.
pub open spec fn kb(size: nat) -> nat {
    size / 1024
}

/// A file entry is selected: its lower-cased extension is accepted, or it
/// has none and its text gets a tag; and it is not over the size limit.
pub open spec fn selects(c: ConfigModel, e: EntryModel) -> bool {
    let ext = extension(e.name);
    &&& (c.extensions.contains(lower_of(ext)) || (ext.len() == 0 && match e.text {
        Some(t) => fallback_tag(t) != Seq::<char>::empty(),
        None => false,
    }))
    &&& kb(e.size) <= c.max_size_kb
}

/// The entry stands where a depth-first walk can put it: below the root,
/// and at most one level below the directories that hold it.
pub open spec fn in_place(s: WalkModel, e: EntryModel) -> bool {
    1 <= e.depth <= s.dirs.len() + 1
}

/// One step of the walk. An entry out of place, or after the stop, changes
/// nothing. An excluded name or a link is left out, and so, being out of
/// place, is all below it. At the cap the walk stops. A directory is always
/// shown; a file where it is selected.
pub open spec fn step(c: ConfigModel, s: WalkModel, e: EntryModel) -> WalkModel {
    if s.stopped || !in_place(s, e) {
        s
    } else {
        let up = s.dirs.take(e.depth - 1);
        if c.exclude_dirs.contains(e.name) || e.kind == EntryKind::Symlink {
            WalkModel { dirs: up, ..s }
        } else if selected(s.shown).len() >= c.max_files {
            WalkModel { dirs: up, stopped: true, ..s }
        } else if e.kind == EntryKind::Dir {
            WalkModel {
                shown: s.shown.push(Shown::Dir { depth: e.depth, name: e.name }),
                dirs: up.push(e.name),
                stopped: false,
            }
        } else if e.kind == EntryKind::File && selects(c, e) {
            WalkModel {
                shown: s.shown.push(
                    Shown::File { depth: e.depth, path: up.push(e.name), size: e.size },
                ),
                dirs: up,
                stopped: false,
            }
        } else {
            WalkModel { dirs: up, ..s }
        }
    }
}

/// The walk before any entry.
pub open spec fn start() -> WalkModel {
    WalkModel { shown: Seq::empty(), dirs: Seq::empty(), stopped: false }
}

/// The walk after the entries `es`, in order.
pub open spec fn walk(c: ConfigModel, es: Seq<EntryModel>) -> WalkModel
    decreases es.len(),
{
    if es.len() == 0 {
        start()
    } else {
        step(c, walk(c, es.drop_last()), es.last())
    }
}

/// What the builder tells the caller to do after an entry.
#[derive(Clone, Copy, Debug, PartialEq, Eq, Structural)]
pub enum WalkAction {
    /// Go on with the next entry.
    Continue,
    /// Do not descend into this entry.
    SkipChildren,
    /// End the walk.
    Stop,
}

/// The action after entry `e` in state `s`.
pub open spec fn action(c: ConfigModel, s: WalkModel, e: EntryModel) -> WalkAction {
    if step(c, s, e).stopped {
        WalkAction::Stop
    } else if in_place(s, e) && c.exclude_dirs.contains(e.name) {
        WalkAction::SkipChildren
    } else {
        WalkAction::Continue
    }
}

/// Two spaces for each level below the first.
pub open spec fn indent(n: nat) -> Seq<char>
    decreases n,
{
    if n == 0 {
        Seq::empty()
    } else {
        indent((n - 1) as nat) + "  "@
    }
}

/// The connector before an entry: a branch at the first level, a corner below.
pub open spec fn connector(depth: nat) -> Seq<char> {
    if depth == 1 {
        "\u{251c}\u{2500}\u{2500} "@
    } else {
        "\u{2514}\u{2500}\u{2500} "@
    }
}

/// Names joined by `/`.
pub open spec fn join_path(cs: Seq<Seq<char>>) -> Seq<char>
    decreases cs.len(),
{
    if cs.len() == 0 {
        Seq::empty()
    } else if cs.len() == 1 {
        cs[0]
    } else {
        join_path(cs.drop_last()) + "/"@ + cs.last()
    }
}

/// A decimal digit.
pub open spec fn digit_text(d: nat) -> Seq<char> {
    if d == 0 {
        "0"@
    } else if d == 1 {
        "1"@
    } else if d == 2 {
        "2"@
    } else if d == 3 {
        "3"@
    } else if d == 4 {
        "4"@
    } else if d == 5 {
        "5"@
    } else if d == 6 {
        "6"@
    } else if d == 7 {
        "7"@
    } else if d == 8 {
        "8"@
    } else {
        "9"@
    }
}

/// `n` in decimal, without leading zeros.
pub open spec fn decimal(n: nat) -> Seq<char>
    decreases n,
{
    if n < 10 {
        digit_text(n)
    } else {
        decimal(n / 10) + digit_text(n % 10)
    }
}

/// The line of the tree listing for one shown entry: a directory by its
/// name, a file by its path from the root with its size in kilobytes.
pub open spec fn render(s: Shown) -> Seq<char> {
    match s {
        Shown::Dir { depth, name } => indent((depth - 1) as nat) + connector(depth) + name
            + "/\n"@,
        Shown::File { depth, path, size } => indent((depth - 1) as nat) + connector(depth)
            + join_path(path) + " ["@ + decimal(kb(size)) + "kb]\n"@,
    }
}

/// The lines of the tree listing, in order.
pub open spec fn render_all(shown: Seq<Shown>) -> Seq<char>
    decreases shown.len(),
{
    if shown.len() == 0 {
        Seq::empty()
    } else {
        render_all(shown.drop_last()) + render(shown.last())
    }
}

/// The tree listing: the root's name, then a line for each shown entry.
pub open spec fn tree_text(root: Seq<char>, shown: Seq<Shown>) -> Seq<char> {
    root + "/\n"@ + render_all(shown)
}

/// A file selected for the dump.
pub struct SelectedFile {
    /// Its path from the root, names joined by `/`.
    pub path: String,
    /// Its own name.
    pub name: String,
    /// Its size in bytes.
    pub size: u64,
}

/// `f` is the selected file that `m` describes.
pub open spec fn describes(f: SelectedFile, m: FileModel) -> bool {
    &&& f.path@ == join_path(m.path)
    &&& m.path.len() >= 1
    &&& f.name@ == m.path.last()
    &&& f.size as nat == m.size
}

/// Each of `fs` is described by the model at its index.
pub open spec fn all_describe(fs: Seq<SelectedFile>, ms: Seq<FileModel>) -> bool {
    &&& fs.len() == ms.len()
    &&& forall|i: int| 0 <= i < fs.len() ==> #[trigger] describes(fs[i], ms[i])
}

fn digit_str(d: u64) -> (r: &'static str)
    requires
        d < 10,
    ensures
        r@ == digit_text(d as nat),
{
    if d == 0 {
        "0"
    } else if d == 1 {
        "1"
    } else if d == 2 {
        "2"
    } else if d == 3 {
        "3"
    } else if d == 4 {
        "4"
    } else if d == 5 {
        "5"
    } else if d == 6 {
        "6"
    } else if d == 7 {
        "7"
    } else if d == 8 {
        "8"
    } else {
        "9"
    }
}

fn push_decimal(s: &mut String, n: u64)
    ensures
        final(s)@ == old(s)@ + decimal(n as nat),
    decreases n,
{
    if n >= 10 {
        push_decimal(s, n / 10);
    }
    push_str(s, digit_str(n % 10));
    assert(final(s)@ =~= old(s)@ + decimal(n as nat));
}

fn push_lead(s: &mut String, depth: usize)
    requires
        depth >= 1,
    ensures
        final(s)@ == old(s)@ + indent((depth - 1) as nat) + connector(depth as nat),
{
    let mut i: usize = 0;
    while i < depth - 1
        invariant
            depth >= 1,
            i <= depth - 1,
            s@ == old(s)@ + indent(i as nat),
        decreases depth - 1 - i,
    {
        push_str(s, "  ");
        i = i + 1;
        assert(s@ =~= old(s)@ + indent(i as nat));
    }
    if depth == 1 {
        push_str(s, "\u{251c}\u{2500}\u{2500} ");
    } else {
        push_str(s, "\u{2514}\u{2500}\u{2500} ");
    }
}

fn join_names(dirs: &Vec<String>, name: &String) -> (r: String)
    ensures
        r@ == join_path(texts(dirs@).push(name@)),
{
    let ghost t = texts(dirs@);
    let mut r = String::new();
    let mut i: usize = 0;
    while i < dirs.len()
        invariant
            t == texts(dirs@),
            i <= dirs@.len(),
            r@ == join_path(t.take(i as int)),
        decreases dirs@.len() - i,
    {
        if i > 0 {
            push_str(&mut r, "/");
        }
        push_str(&mut r, dirs[i].as_str());
        i = i + 1;
        assert(t.take(i as int).drop_last() =~= t.take(i - 1));
        assert(r@ =~= join_path(t.take(i as int)));
    }
    assert(t.take(dirs@.len() as int) =~= t);
    assert(t.push(name@).drop_last() =~= t);
    if dirs.len() > 0 {
        push_str(&mut r, "/");
    }
    push_str(&mut r, name.as_str());
    assert(r@ =~= join_path(t.push(name@)));
    r
}

fn last_dot_in(n: &Vec<char>, i: usize) -> (r: Option<usize>)
    requires
        i <= n@.len(),
    ensures
        match r {
            Some(k) => k as int == last_dot(n@, i as int) && k < i,
            None => last_dot(n@, i as int) == -1,
        },
    decreases i,
{
    if i == 0 {
        None
    } else if n[i - 1] == '.' {
        Some(i - 1)
    } else {
        last_dot_in(n, i - 1)
    }
}

pub(crate) fn extension_chars(n: &Vec<char>) -> (r: Vec<char>)
    ensures
        r@ == extension(n@),
{
    match last_dot_in(n, n.len()) {
        Some(k) => if k == 0 {
            Vec::new()
        } else {
            let mut r: Vec<char> = Vec::new();
            let mut i: usize = k + 1;
            while i < n.len()
                invariant
                    k + 1 <= i <= n@.len(),
                    r@ == n@.subrange(k + 1, i as int),
                decreases n@.len() - i,
            {
                r.push(n[i]);
                i = i + 1;
                assert(r@ =~= n@.subrange(k + 1, i as int));
            }
            r
        },
        None => Vec::new(),
    }
}

/// The tag that a file without an extension gets from its content.
fn fallback_tag_of(t: &Vec<char>) -> (r: &'static str)
    ensures
        r@ == fallback_tag(t@),
{
    if t.len() >= 2 && t[0] == '#' && t[1] == '!' {
        shebang_tag_of(t)
    } else {
        special_tag_of(t)
    }
}

/// Relies on `String::from_utf8`: it succeeds exactly on valid UTF-8, and
/// then holds the characters that the bytes encode.
#[verifier::external_body]
pub(crate) fn decode_text(b: &Vec<u8>) -> (r: Option<String>)
    ensures
        r is Some <==> valid_utf8(b@),
        r matches Some(s) ==> s@ == decode_utf8(b@),
{
    String::from_utf8(b.clone()).ok()
}

/// Whether a file entry is selected.
fn file_selected(c: &ScanConfig, e: &WalkEntry) -> (r: bool)
    ensures
        r == selects(c@, e@),
{
    let name = chars_of(e.name.as_str());
    let ext = extension_chars(&name);
    let lower = lowercase(string_of(&ext).as_str());
    assert(c.max_size_kb as u64 as int == c.max_size_kb as int);
    if e.size / 1024 > c.max_size_kb as u64 {
        return false;
    }
    if contains_text(&c.extensions, &lower) {
        return true;
    }
    if ext.len() != 0 {
        return false;
    }
    match &e.content {
        Some(b) => match decode_text(b) {
            Some(t) => {
                let tag = fallback_tag_of(&chars_of(t.as_str()));
                proof {
                    if tag@.len() == 0 {
                        assert(tag@ =~= Seq::<char>::empty());
                    }
                }
                !tag.is_empty()
            },
            None => false,
        },
        None => false,
    }
}

/// What `camino::Utf8Path::file_name` gives for a path.
pub uninterp spec fn path_file_name(p: Seq<char>) -> Option<Seq<char>>;

/// Relies on `camino::Utf8Path::file_name`: the final component of the
/// path, if there is one.
#[verifier::external_body]
fn final_component(path: &str) -> (r: Option<String>)
    ensures
        r matches Some(n) ==> path_file_name(path@) == Some(n@),
        r is None ==> path_file_name(path@) is None,
{
    camino::Utf8Path::new(path).file_name().map(|n| n.to_string())
}

/// The name of the root in the tree listing: the final component of its
/// path, or the path itself where it has none.
pub open spec fn root_label(path: Seq<char>) -> Seq<char> {
    match path_file_name(path) {
        Some(n) => n,
        None => path,
    }
}

/// The name of the root in the tree listing.
pub fn root_name(path: &str) -> (r: String)
    ensures
        r@ == root_label(path@),
{
    match final_component(path) {
        Some(n) => n,
        None => path.to_owned(),
    }
}

/// Decides, entry by entry, what a walk shows and selects.
pub struct TreeBuilder {
    config: ScanConfig,
    tree: String,
    files: Vec<SelectedFile>,
    dirs: Vec<String>,
    stopped: bool,
    shown: Ghost<Seq<Shown>>,
    root: Ghost<Seq<char>>,
}

impl TreeBuilder {
    /// Where the walk stands.
    pub closed spec fn model(&self) -> WalkModel {
        WalkModel { shown: self.shown@, dirs: texts(self.dirs@), stopped: self.stopped }
    }

    /// The configuration of the scan.
    pub closed spec fn config(&self) -> ConfigModel {
        self.config@
    }

    /// The name of the root.
    pub closed spec fn root(&self) -> Seq<char> {
        self.root@
    }

    /// The listing and the selected files agree with the lines shown.
    pub closed spec fn wf(&self) -> bool {
        &&& self.tree@ == tree_text(self.root@, self.shown@)
        &&& all_describe(self.files@, selected(self.shown@))
    }

    /// The tree listing so far.
    pub closed spec fn tree(&self) -> Seq<char> {
        self.tree@
    }

    /// The files selected so far.
    pub closed spec fn files(&self) -> Seq<SelectedFile> {
        self.files@
    }

    /// A walk of the tree rooted at `root` (a path) that has seen no entry.
    pub fn new(config: ScanConfig, root: &str) -> (r: TreeBuilder)
        ensures
            r.wf(),
            r.model() == start(),
            r.config() == config@,
            r.root() == root_label(root@),
    {
        let label = root_name(root);
        let mut tree = label.clone();
        push_str(&mut tree, "/\n");
        let r = TreeBuilder {
            config,
            tree,
            files: Vec::new(),
            dirs: Vec::new(),
            stopped: false,
            shown: Ghost(Seq::empty()),
            root: Ghost(label@),
        };
        assert(texts(r.dirs@) =~= Seq::<Seq<char>>::empty());
        assert(r.tree@ =~= tree_text(label@, Seq::empty()));
        r
    }

    /// Whether the walk has stopped at the cap.
    pub fn is_stopped(&self) -> (r: bool)
        ensures
            r == self.model().stopped,
    {
        self.stopped
    }

    /// Whether the walk needs the bytes of a file of this name and size to
    /// decide on it: it has no extension and is not over the size limit.
    pub fn needs_content(&self, name: &str, size: u64) -> (r: bool)
        ensures
            r == (extension(name@).len() == 0 && kb(size as nat) <= self.config().max_size_kb),
    {
        let ext = extension_chars(&chars_of(name));
        assert(self.config.max_size_kb as u64 as int == self.config.max_size_kb as int);
        ext.len() == 0 && size / 1024 <= self.config.max_size_kb as u64
    }

    /// Takes the next entry of the walk and says how to go on.
    pub fn visit(&mut self, entry: &WalkEntry) -> (r: WalkAction)
        requires
            old(self).wf(),
        ensures
            final(self).wf(),
            final(self).model() == step(old(self).config(), old(self).model(), entry@),
            final(self).config() == old(self).config(),
            final(self).root() == old(self).root(),
            r == action(old(self).config(), old(self).model(), entry@),
    {
        let ghost s = self.model();
        let ghost c = self.config@;
        let ghost e = entry@;
        if self.stopped {
            return WalkAction::Stop;
        }
        if entry.depth < 1 || entry.depth - 1 > self.dirs.len() {
            return WalkAction::Continue;
        }
        let d = entry.depth;
        self.dirs.truncate(d - 1);
        assert(texts(self.dirs@) =~= s.dirs.take(e.depth - 1));
        let excluded = contains_text(&self.config.exclude_dirs, &entry.name);
        if excluded {
            return WalkAction::SkipChildren;
        }
        if entry.kind == EntryKind::Symlink {
            return WalkAction::Continue;
        }
        if self.files.len() >= self.config.max_files {
            self.stopped = true;
            return WalkAction::Stop;
        }
        if entry.kind == EntryKind::Dir {
            push_lead(&mut self.tree, d);
            push_str(&mut self.tree, entry.name.as_str());
            push_str(&mut self.tree, "/\n");
            let ghost line = Shown::Dir { depth: e.depth, name: e.name };
            proof {
                assert(self.shown@.push(line).drop_last() =~= self.shown@);
                assert(self.tree@ =~= tree_text(self.root@, self.shown@.push(line)));
                self.shown@ = self.shown@.push(line);
            }
            self.dirs.push(entry.name.clone());
            assert(texts(self.dirs@) =~= s.dirs.take(e.depth - 1).push(e.name));
            return WalkAction::Continue;
        }
        if entry.kind == EntryKind::File && file_selected(&self.config, entry) {
            let path = join_names(&self.dirs, &entry.name);
            push_lead(&mut self.tree, d);
            push_str(&mut self.tree, path.as_str());
            push_str(&mut self.tree, " [");
            push_decimal(&mut self.tree, entry.size / 1024);
            push_str(&mut self.tree, "kb]\n");
            let ghost parts = s.dirs.take(e.depth - 1).push(e.name);
            let ghost line = Shown::File { depth: e.depth, path: parts, size: e.size };
            let ghost m = FileModel { path: parts, size: e.size };
            let f = SelectedFile { path, name: entry.name.clone(), size: entry.size };
            assert(describes(f, m));
            proof {
                assert(self.shown@.push(line).drop_last() =~= self.shown@);
                assert(self.tree@ =~= tree_text(self.root@, self.shown@.push(line)));
            }
            self.files.push(f);
            proof {
                let old_shown = self.shown@;
                self.shown@ = self.shown@.push(line);
                assert(selected(self.shown@) == selected(old_shown).push(m));
                assert forall|i: int| 0 <= i < self.files@.len() implies #[trigger] describes(
                    self.files@[i],
                    selected(self.shown@)[i],
                ) by {
                    if i < self.files@.len() - 1 {
                        assert(describes(self.files@[i], selected(old_shown)[i]));
                    }
                }
            }
        }
        WalkAction::Continue
    }

    /// Ends the walk: the tree listing and the selected files, in the order seen.
    pub fn finish(self) -> (r: (String, Vec<SelectedFile>))
        requires
            self.wf(),
        ensures
            r.0@ == tree_text(self.root(), self.model().shown),
            all_describe(r.1@, selected(self.model().shown)),
    {
        (self.tree, self.files)
    }
}

/// The entries of a walk as values.
pub open spec fn entry_views(es: Seq<WalkEntry>) -> Seq<EntryModel> {
    es.map_values(|e: WalkEntry| e@)
}

/// The tree listing and the selected files of a walk of the tree rooted at
/// `root` (a path) that met `entries`, depth-first.
pub fn generate_tree_view(config: ScanConfig, root: &str, entries: &Vec<WalkEntry>) -> (r: (
    String,
    Vec<SelectedFile>,
))
    ensures
        r.0@ == tree_text(root_label(root@), walk(config@, entry_views(entries@)).shown),
        all_describe(r.1@, selected(walk(config@, entry_views(entries@)).shown)),
{
    let ghost c = config@;
    let ghost es = entry_views(entries@);
    let mut b = TreeBuilder::new(config, root);
    let mut i: usize = 0;
    while i < entries.len()
        invariant
            i <= entries@.len(),
            es == entry_views(entries@),
            b.wf(),
            b.config() == c,
            b.root() == root_label(root@),
            b.model() == walk(c, es.take(i as int)),
        decreases entries@.len() - i,
    {
        b.visit(&entries[i]);
        i = i + 1;
        assert(es.take(i as int).drop_last() =~= es.take(i - 1));
    }
    assert(es.take(entries@.len() as int) =~= es);
    b.finish()
}

} // verus!
