//! The document: the tree listing, then a fenced block for each selected
//! file whose content is text.

use vstd::prelude::*;
use crate::classify::{classify, classify_chars};
use crate::text::{chars_of, lower_of, lowercase, push_str, string_of};
use crate::walk::{decode_text, extension, extension_chars, text_of, SelectedFile};

verus! {

/// The bytes read for the file at index `i`, where there are any.
pub open spec fn content_at(cs: Seq<Option<Vec<u8>>>, i: int) -> Option<Seq<u8>> {
    if 0 <= i < cs.len() {
        match cs[i] {
            Some(b) => Some(b@),
            None => None,
        }
    } else {
        None
    }
}

/// The block of one file: its path, then its text fenced and tagged by
/// its extension and content. A file that could not be read, or whose
/// bytes are not valid UTF-8, has no block.
pub open spec fn block(path: Seq<char>, name: Seq<char>, content: Option<Seq<u8>>) -> Seq<char> {
    match content {
        Some(b) => match text_of(b) {
            Some(t) => "# file: "@ + path + "\n\n```"@ + classify(lower_of(extension(name)), t)
                + "\n"@ + t + "\n```\n\n"@,
            None => Seq::empty(),
        },
        None => Seq::empty(),
    }
}

/// The blocks of the first `n` files, in order.
pub open spec fn blocks(files: Seq<SelectedFile>, cs: Seq<Option<Vec<u8>>>, n: int) -> Seq<char>
    decreases n,
{
    if n <= 0 {
        Seq::empty()
    } else {
        blocks(files, cs, n - 1) + block(files[n - 1].path@, files[n - 1].name@, content_at(cs, n - 1))
    }
}

/// The whole document.
pub open spec fn document(tree: Seq<char>, files: Seq<SelectedFile>, cs: Seq<Option<Vec<u8>>>) -> Seq<char> {
    "# project structure\n\n"@ + tree + "\n\n"@ + blocks(files, cs, files.len() as int)
}

/// Appends the block of one file.
fn push_block(out: &mut String, f: &SelectedFile, content: &Option<Vec<u8>>)
    ensures
        final(out)@ == old(out)@ + block(
            f.path@,
            f.name@,
            match content {
                Some(b) => Some(b@),
                None => None,
            },
        ),
{
    let bytes = match content {
        Some(b) => b,
        None => {
            assert(old(out)@ =~= old(out)@ + Seq::<char>::empty());
            return;
        },
    };
    let text = match decode_text(bytes) {
        Some(t) => t,
        None => {
            assert(old(out)@ =~= old(out)@ + Seq::<char>::empty());
            return;
        },
    };
    let ext = extension_chars(&chars_of(f.name.as_str()));
    let lower = lowercase(string_of(&ext).as_str());
    let tag = classify_chars(&chars_of(lower.as_str()), &chars_of(text.as_str()));
    push_str(out, "# file: ");
    push_str(out, f.path.as_str());
    push_str(out, "\n\n```");
    push_str(out, tag);
    push_str(out, "\n");
    push_str(out, text.as_str());
    push_str(out, "\n```\n\n");
    assert(final(out)@ =~= old(out)@ + block(f.path@, f.name@, Some(bytes@)));
}

/// The document for a tree listing and its selected files; `contents[i]`
/// holds the bytes read for `files[i]`, where they could be read.
pub fn generate_dump(tree: &str, files: &Vec<SelectedFile>, contents: &Vec<Option<Vec<u8>>>) -> (r:
    String)
    ensures
        r@ == document(tree@, files@, contents@),
{
    let mut out = String::new();
    push_str(&mut out, "# project structure\n\n");
    push_str(&mut out, tree);
    push_str(&mut out, "\n\n");
    let ghost head = out@;
    let mut i: usize = 0;
    while i < files.len()
        invariant
            i <= files@.len(),
            out@ == head + blocks(files@, contents@, i as int),
        decreases files@.len() - i,
    {
        if i < contents.len() {
            push_block(&mut out, &files[i], &contents[i]);
        } else {
            push_block(&mut out, &files[i], &None);
        }
        i = i + 1;
        assert(out@ =~= head + blocks(files@, contents@, i as int));
    }
    assert(out@ =~= document(tree@, files@, contents@));
    out
}

} // verus!
