//! What holds of every scan, proved from the walk's step and the document's
//! definition.

use vstd::prelude::*;
use vstd::utf8::valid_utf8;
use crate::classify::{classify, starts_shebang, table_tag};
use crate::dump::{block, blocks, content_at, document};
use crate::text::lower_of;
use crate::walk::{
    text_of, all_describe, describes, extension, in_place, kb, selected, selects, step, tree_text, walk,
    ConfigModel, EntryKind, EntryModel, SelectedFile, Shown, WalkModel,
};

verus! {

/// The name of a shown directory.
pub open spec fn dir_name(s: Shown) -> Option<Seq<char>> {
    match s {
        Shown::Dir { name, .. } => Some(name),
        Shown::File { .. } => None,
    }
}

/// The path of a shown file.
pub open spec fn file_path(s: Shown) -> Option<Seq<Seq<char>>> {
    match s {
        Shown::File { path, .. } => Some(path),
        Shown::Dir { .. } => None,
    }
}

/// No line shown names an excluded directory, no shown file has an
/// excluded name on its path, and no excluded name holds the next entry.
pub open spec fn free_of_excluded(c: ConfigModel, m: WalkModel) -> bool {
    &&& forall|j: int| 0 <= j < m.dirs.len() ==> !c.exclude_dirs.contains(#[trigger] m.dirs[j])
    &&& forall|i: int|
        0 <= i < m.shown.len() ==> match #[trigger] m.shown[i] {
            Shown::Dir { depth, name } => !c.exclude_dirs.contains(name),
            Shown::File { depth, path, size } => forall|j: int|
                0 <= j < path.len() ==> !c.exclude_dirs.contains(#[trigger] path[j]),
        }
}

proof fn lemma_step_free(c: ConfigModel, s: WalkModel, e: EntryModel)
    requires
        free_of_excluded(c, s),
    ensures
        free_of_excluded(c, step(c, s, e)),
{
    let t = step(c, s, e);
    if !s.stopped && in_place(s, e) {
        let up = s.dirs.take(e.depth - 1);
        assert(forall|j: int| 0 <= j < up.len() ==> up[j] == s.dirs[j]);
        if !c.exclude_dirs.contains(e.name) {
            let ext = up.push(e.name);
            assert(forall|j: int| 0 <= j < ext.len() ==> #[trigger] ext[j] == if j < up.len() {
                s.dirs[j]
            } else {
                e.name
            });
        }
        assert forall|i: int| 0 <= i < t.shown.len() implies match #[trigger] t.shown[i] {
            Shown::Dir { depth, name } => !c.exclude_dirs.contains(name),
            Shown::File { depth, path, size } => forall|j: int|
                0 <= j < path.len() ==> !c.exclude_dirs.contains(#[trigger] path[j]),
        } by {
            if i < s.shown.len() {
                assert(t.shown[i] == s.shown[i]);
            }
        }
    }
}

proof fn lemma_walk_free(c: ConfigModel, es: Seq<EntryModel>)
    ensures
        free_of_excluded(c, walk(c, es)),
    decreases es.len(),
{
    if es.len() > 0 {
        lemma_walk_free(c, es.drop_last());
        lemma_step_free(c, walk(c, es.drop_last()), es.last());
    }
}

/// Every selected file stands as a file line among the shown lines.
proof fn lemma_selected_shown(shown: Seq<Shown>, k: int)
    requires
        0 <= k < selected(shown).len(),
    ensures
        exists|i: int|
            0 <= i < shown.len() && file_path(#[trigger] shown[i]) == Some(selected(shown)[k].path),
    decreases shown.len(),
{
    let rest = selected(shown.drop_last());
    if k < rest.len() {
        lemma_selected_shown(shown.drop_last(), k);
        let i = choose|i: int|
            0 <= i < shown.drop_last().len() && file_path(#[trigger] shown.drop_last()[i]) == Some(
                rest[k].path,
            );
        assert(shown[i] == shown.drop_last()[i]);
    } else {
        assert(shown[shown.len() - 1] == shown.last());
    }
}

/// Whatever the walk met, no directory with an excluded name is
/// shown, and no selected file has an excluded name anywhere on its path,
/// however deep below it stood.
pub proof fn lemma_excluded_never_shown(c: ConfigModel, es: Seq<EntryModel>)
    ensures
        forall|i: int|
            0 <= i < walk(c, es).shown.len() && dir_name(#[trigger] walk(c, es).shown[i]) is Some
                ==> !c.exclude_dirs.contains(dir_name(walk(c, es).shown[i])->0),
        forall|k: int, j: int|
            0 <= k < selected(walk(c, es).shown).len() && 0 <= j < selected(
                walk(c, es).shown,
            )[k].path.len() ==> !c.exclude_dirs.contains(
                #[trigger] selected(walk(c, es).shown)[k].path[j],
            ),
{
    let m = walk(c, es);
    lemma_walk_free(c, es);
    assert forall|k: int, j: int|
        0 <= k < selected(m.shown).len() && 0 <= j < selected(m.shown)[k].path.len() implies !c.exclude_dirs.contains(
        #[trigger] selected(m.shown)[k].path[j],
    ) by {
        lemma_selected_shown(m.shown, k);
        let i = choose|i: int|
            0 <= i < m.shown.len() && file_path(#[trigger] m.shown[i]) == Some(
                selected(m.shown)[k].path,
            );
        assert(match m.shown[i] {
            Shown::Dir { depth, name } => !c.exclude_dirs.contains(name),
            Shown::File { depth, path, size } => forall|j: int|
                0 <= j < path.len() ==> !c.exclude_dirs.contains(#[trigger] path[j]),
        });
    }
}

/// With an accepted extension, a file of exactly the
/// largest size in whole kilobytes is selected, and one byte more, which
/// reaches the next kilobyte, is not.
pub proof fn lemma_size_boundary(c: ConfigModel, e: EntryModel)
    requires
        c.extensions.contains(lower_of(extension(e.name))),
        e.size == (c.max_size_kb + 1) * 1024 - 1,
    ensures
        selects(c, e),
        !selects(c, EntryModel { size: e.size + 1, ..e }),
{
    assert(kb(e.size) == c.max_size_kb);
    assert(kb(e.size + 1) == c.max_size_kb + 1);
}

proof fn lemma_walk_cap(c: ConfigModel, es: Seq<EntryModel>)
    ensures
        selected(walk(c, es).shown).len() <= c.max_files,
    decreases es.len(),
{
    if es.len() > 0 {
        let s = walk(c, es.drop_last());
        lemma_walk_cap(c, es.drop_last());
        let t = step(c, s, es.last());
        if t.shown != s.shown {
            assert(t.shown.drop_last() =~= s.shown);
        }
    }
}

/// A walk never selects more than the most files allowed, and once it
/// has selected that many, no later entry is shown.
pub proof fn lemma_cap(c: ConfigModel, es: Seq<EntryModel>, k: int)
    requires
        0 <= k <= es.len(),
        selected(walk(c, es.take(k)).shown).len() == c.max_files,
    ensures
        selected(walk(c, es).shown).len() <= c.max_files,
        walk(c, es).shown == walk(c, es.take(k)).shown,
    decreases es.len() - k,
{
    lemma_walk_cap(c, es);
    if k < es.len() {
        let s = walk(c, es.take(k));
        assert(es.take(k + 1).drop_last() =~= es.take(k));
        assert(es.take(k + 1).last() == es[k]);
        assert(walk(c, es.take(k + 1)).shown == s.shown);
        lemma_cap(c, es, k + 1);
    } else {
        assert(es.take(k) =~= es);
    }
}

/// A symbolic link is never shown, and nothing met below it until
/// the walk climbs back is in place.
pub proof fn lemma_link_not_followed(c: ConfigModel, s: WalkModel, e: EntryModel)
    requires
        e.kind == EntryKind::Symlink,
    ensures
        step(c, s, e).shown == s.shown,
        !s.stopped && in_place(s, e) ==> step(c, s, e).dirs.len() < e.depth,
{
}

/// A file whose bytes are not valid UTF-8 has no block at all.
pub proof fn lemma_non_text_has_no_block(path: Seq<char>, name: Seq<char>, b: Seq<u8>)
    requires
        !valid_utf8(b),
    ensures
        block(path, name, Some(b)) == Seq::<char>::empty(),
{
}

proof fn lemma_blocks_agree(
    f1: Seq<SelectedFile>,
    f2: Seq<SelectedFile>,
    cs1: Seq<Option<Vec<u8>>>,
    cs2: Seq<Option<Vec<u8>>>,
    ms: Seq<crate::walk::FileModel>,
    n: int,
)
    requires
        all_describe(f1, ms),
        all_describe(f2, ms),
        n <= f1.len(),
        forall|i: int| 0 <= i < f1.len() ==> content_at(cs1, i) == content_at(cs2, i),
    ensures
        blocks(f1, cs1, n) == blocks(f2, cs2, n),
    decreases n,
{
    if n > 0 {
        lemma_blocks_agree(f1, f2, cs1, cs2, ms, n - 1);
        assert(describes(f1[n - 1], ms[n - 1]));
        assert(describes(f2[n - 1], ms[n - 1]));
    }
}

/// Two scans of the same root with the same configuration,
/// which met the same entries and read the same contents, give the same
/// document, character for character.
pub proof fn lemma_deterministic(
    c: ConfigModel,
    root: Seq<char>,
    es: Seq<EntryModel>,
    f1: Seq<SelectedFile>,
    f2: Seq<SelectedFile>,
    cs1: Seq<Option<Vec<u8>>>,
    cs2: Seq<Option<Vec<u8>>>,
)
    requires
        all_describe(f1, selected(walk(c, es).shown)),
        all_describe(f2, selected(walk(c, es).shown)),
        forall|i: int| 0 <= i < f1.len() ==> content_at(cs1, i) == content_at(cs2, i),
    ensures
        document(tree_text(root, walk(c, es).shown), f1, cs1) == document(
            tree_text(root, walk(c, es).shown),
            f2,
            cs2,
        ),
{
    lemma_blocks_agree(f1, f2, cs1, cs2, selected(walk(c, es).shown), f1.len() as int);
}

proof fn lemma_walk_next(c: ConfigModel, es: Seq<EntryModel>, i: int)
    requires
        0 <= i < es.len(),
    ensures
        walk(c, es.take(i + 1)) == step(c, walk(c, es.take(i)), es[i]),
{
    assert(es.take(i + 1).drop_last() =~= es.take(i));
    assert(es.take(i + 1).last() == es[i]);
}

proof fn lemma_subtree_hidden_inv(c: ConfigModel, es: Seq<EntryModel>, k: int, m: int)
    requires
        0 <= k < m <= es.len(),
        es[k].depth >= 1,
        c.exclude_dirs.contains(es[k].name) || es[k].kind == EntryKind::Symlink,
        forall|j: int| k < j < m ==> (#[trigger] es[j]).depth > es[k].depth,
    ensures
        walk(c, es.take(m)).shown == walk(c, es.take(k)).shown,
        walk(c, es.take(m)).stopped || walk(c, es.take(m)).dirs.len() < es[k].depth,
    decreases m - k,
{
    lemma_walk_next(c, es, m - 1);
    if m > k + 1 {
        lemma_subtree_hidden_inv(c, es, k, m - 1);
        assert(es[m - 1].depth > es[k].depth);
    }
}

/// An entry left out for its excluded name, or for being a symbolic link,
/// takes everything below it with it: from that entry up to the walk's
/// return to its depth, nothing more is shown, so no directory or file
/// below an excluded directory or reached through a link is listed or
/// selected, however deep it stands.
pub proof fn lemma_left_out_subtree_not_shown(c: ConfigModel, es: Seq<EntryModel>, k: int, m: int)
    requires
        0 <= k < m <= es.len(),
        es[k].depth >= 1,
        c.exclude_dirs.contains(es[k].name) || es[k].kind == EntryKind::Symlink,
        forall|j: int| k < j < m ==> (#[trigger] es[j]).depth > es[k].depth,
    ensures
        walk(c, es.take(m)).shown == walk(c, es.take(k)).shown,
        selected(walk(c, es.take(m)).shown) == selected(walk(c, es.take(k)).shown),
{
    lemma_subtree_hidden_inv(c, es, k, m);
}

/// In the walk, a file with an accepted extension, met in place before the
/// cap, gets its line (ending in its size in kilobytes) and is selected
/// exactly when its size in whole kilobytes is at most the limit.
pub proof fn lemma_size_limit_in_walk(c: ConfigModel, s: WalkModel, e: EntryModel)
    requires
        !s.stopped,
        in_place(s, e),
        !c.exclude_dirs.contains(e.name),
        e.kind == EntryKind::File,
        selected(s.shown).len() < c.max_files,
        c.extensions.contains(lower_of(extension(e.name))),
    ensures
        kb(e.size) <= c.max_size_kb ==> step(c, s, e).shown == s.shown.push(
            Shown::File { depth: e.depth, path: s.dirs.take(e.depth - 1).push(e.name), size: e.size },
        ),
        kb(e.size) > c.max_size_kb ==> step(c, s, e).shown == s.shown,
{
}

/// A file with an extension is selected exactly when its lower-cased
/// extension is in the accepted list and its size is within the limit,
/// whether or not the extension has a tag.
pub proof fn lemma_extension_decides(c: ConfigModel, e: EntryModel)
    requires
        extension(e.name).len() > 0,
    ensures
        selects(c, e) == (c.extensions.contains(lower_of(extension(e.name))) && kb(e.size)
            <= c.max_size_kb),
{
}

/// A text file whose extension has no tag and whose text has no `#!` line
/// still has its block, opened by a bare fence.
pub proof fn lemma_untagged_block(path: Seq<char>, name: Seq<char>, b: Seq<u8>, t: Seq<char>)
    requires
        text_of(b) == Some(t),
        lower_of(extension(name)).len() > 0,
        table_tag(lower_of(extension(name))) is None,
        !starts_shebang(t),
    ensures
        block(path, name, Some(b)) == "# file: "@ + path + "\n\n```"@ + ""@ + "\n"@ + t
            + "\n```\n\n"@,
{
}

proof fn lemma_blocks_without(
    files: Seq<SelectedFile>,
    cs: Seq<Option<Vec<u8>>>,
    i: int,
    n: int,
)
    requires
        0 <= i < cs.len(),
        cs[i] matches Some(b) && !valid_utf8(b@),
    ensures
        blocks(files, cs, n) == blocks(files, cs.update(i, None), n),
    decreases n,
{
    if n > 0 {
        lemma_blocks_without(files, cs, i, n - 1);
        if n - 1 == i {
            assert(content_at(cs.update(i, None), i) is None);
        } else {
            assert(content_at(cs.update(i, None), n - 1) == content_at(cs, n - 1));
        }
    }
}

/// A file whose bytes are not valid UTF-8 leaves the whole document as if
/// it had not been read at all: nothing of it, and no replacement
/// character, is in the document.
pub proof fn lemma_non_text_leaves_document(
    tree: Seq<char>,
    files: Seq<SelectedFile>,
    cs: Seq<Option<Vec<u8>>>,
    i: int,
)
    requires
        0 <= i < cs.len(),
        cs[i] matches Some(b) && !valid_utf8(b@),
    ensures
        document(tree, files, cs) == document(tree, files, cs.update(i, None)),
{
    lemma_blocks_without(files, cs, i, files.len() as int);
}

/// The configuration `c` with a cap of `n` files.
pub open spec fn with_cap(c: ConfigModel, n: nat) -> ConfigModel {
    ConfigModel { max_files: n, ..c }
}

proof fn lemma_selected_step(c: ConfigModel, s: WalkModel, e: EntryModel)
    ensures
        selected(step(c, s, e).shown) == selected(s.shown) || exists|f: crate::walk::FileModel|
            selected(step(c, s, e).shown) == #[trigger] selected(s.shown).push(f),
{
    let t = step(c, s, e);
    if t.shown != s.shown {
        assert(t.shown.drop_last() =~= s.shown);
        match t.shown.last() {
            Shown::File { depth, path, size } => {
                let f = crate::walk::FileModel { path, size };
                assert(selected(t.shown) == selected(s.shown).push(f));
            },
            Shown::Dir { .. } => {},
        }
    }
}

proof fn lemma_walk_count(c: ConfigModel, es: Seq<EntryModel>)
    ensures
        selected(walk(c, es).shown).len() <= es.len(),
    decreases es.len(),
{
    if es.len() > 0 {
        lemma_walk_count(c, es.drop_last());
        lemma_selected_step(c, walk(c, es.drop_last()), es.last());
    }
}

/// With a cap of no files, the walk shows no line at all: the tree listing
/// is the root's line alone.
pub proof fn lemma_zero_cap_shows_nothing(c: ConfigModel, es: Seq<EntryModel>)
    requires
        c.max_files == 0,
    ensures
        walk(c, es).shown == Seq::<Shown>::empty(),
    decreases es.len(),
{
    if es.len() > 0 {
        lemma_zero_cap_shows_nothing(c, es.drop_last());
    }
}

/// How a capped walk stands beside the same walk with room for all files.
spec fn cap_relation(c: ConfigModel, es: Seq<EntryModel>, i: int) -> bool {
    let w = walk(c, es.take(i));
    let u = walk(with_cap(c, es.len() as nat), es.take(i));
    &&& !u.stopped
    &&& selected(u.shown).len() <= i
    &&& ((!w.stopped && w.shown == u.shown && w.dirs == u.dirs && selected(w.shown).len()
        <= c.max_files) || (w.stopped && selected(w.shown).len() == c.max_files
        && selected(u.shown).len() >= c.max_files && selected(w.shown) == selected(
        u.shown,
    ).take(c.max_files as int)))
}

#[verifier::rlimit(40)]
proof fn lemma_cap_relation(c: ConfigModel, es: Seq<EntryModel>, i: int)
    requires
        0 <= i <= es.len(),
    ensures
        cap_relation(c, es, i),
    decreases i,
{
    let cu = with_cap(c, es.len() as nat);
    if i == 0 {
        assert(es.take(0) =~= Seq::<EntryModel>::empty());
    } else {
        lemma_cap_relation(c, es, i - 1);
        lemma_walk_next(c, es, i - 1);
        lemma_walk_next(cu, es, i - 1);
        let w = walk(c, es.take(i - 1));
        let u = walk(cu, es.take(i - 1));
        let e = es[i - 1];
        lemma_selected_step(cu, u, e);
        lemma_selected_step(c, w, e);
        let u2 = step(cu, u, e);
        let w2 = step(c, w, e);
        if !w.stopped && w.shown == u.shown && w.dirs == u.dirs {
            assert(w == u);
            assert(selects(c, e) == selects(cu, e));
            if selected(w.shown).len() < c.max_files {
                assert(w2 == u2);
            } else if w2.stopped {
                assert(w2.shown == w.shown);
                assert(selected(u2.shown).take(c.max_files as int) =~= selected(u.shown));
            } else {
                assert(w2 == u2);
            }
        } else {
            assert(w2 == w);
            assert(selected(u2.shown).take(c.max_files as int) =~= selected(u.shown).take(
                c.max_files as int,
            ));
        }
    }
}

/// With a cap of N files, the walk selects exactly the first N of the
/// files that it would select with room for all of them, in the same
/// order: all of them where there are at most N, else exactly N.
pub proof fn lemma_cap_keeps_first(c: ConfigModel, es: Seq<EntryModel>)
    ensures
        selected(walk(with_cap(c, es.len() as nat), es).shown).len() <= c.max_files ==> selected(
            walk(c, es).shown,
        ) == selected(walk(with_cap(c, es.len() as nat), es).shown),
        selected(walk(with_cap(c, es.len() as nat), es).shown).len() >= c.max_files ==> selected(
            walk(c, es).shown,
        ) == selected(walk(with_cap(c, es.len() as nat), es).shown).take(c.max_files as int),
{
    lemma_cap_relation(c, es, es.len() as int);
    assert(es.take(es.len() as int) =~= es);
    let u = selected(walk(with_cap(c, es.len() as nat), es).shown);
    if u.len() == c.max_files {
        assert(u.take(c.max_files as int) =~= u);
    }
}

} // verus!
