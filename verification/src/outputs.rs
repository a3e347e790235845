//! The output folder as the control plane lists and opens it.

use vstd::prelude::*;
use crate::ipc::{OpenOutputsRequest, OutputEntry, OutputsList};
use crate::text::{chars_of, extend_str, has_prefix, lower, lowercase_chars, same_chars, starts_with_chars, string_from};

verus! {

/// A regular file of the output folder: its path, name and lower-cased
/// extension as text (empty when not valid Unicode), size and modification
/// time.
#[derive(Debug)]
pub struct OutputFile {
    pub path: String,
    pub name: String,
    pub extension: String,
    pub bytes: u64,
    pub modified_ms: u64,
}

/// The extensions of media files, listed even when not named by Capto.
pub open spec fn is_media_extension(ext: Seq<char>) -> bool {
    ext == "mp4"@ || ext == "gif"@ || ext == "m4a"@ || ext == "png"@ || ext == "jpg"@ || ext
        == "jpeg"@ || ext == "webp"@
}

/// A file is listed when Capto named it (`capto-` or `capto_`) or it is a
/// media file.
pub open spec fn is_listed(f: OutputFile) -> bool {
    has_prefix(f.name@, "capto-"@) || has_prefix(f.name@, "capto_"@) || is_media_extension(
        lower(f.extension@),
    )
}

/// An entry as plain values.
pub open spec fn entry_view(e: OutputEntry) -> (Seq<char>, Seq<char>, u64, u64) {
    (e.path@, e.name@, e.bytes, e.modified_ms)
}

pub open spec fn file_entry(f: OutputFile) -> (Seq<char>, Seq<char>, u64, u64) {
    (f.path@, f.name@, f.bytes, f.modified_ms)
}

/// The index at which an entry modified at `m` goes into a list kept
/// newest first: after every entry at least as new.
pub open spec fn insert_at(s: Seq<(Seq<char>, Seq<char>, u64, u64)>, m: u64) -> int
    decreases s.len(),
{
    if s.len() == 0 {
        0
    } else if s[0].3 < m {
        0
    } else {
        1 + insert_at(s.drop_first(), m)
    }
}

/// `e` put into `s` at its place.
pub open spec fn insert_entry(s: Seq<(Seq<char>, Seq<char>, u64, u64)>, e: (Seq<char>, Seq<char>, u64, u64)) -> Seq<(Seq<char>, Seq<char>, u64, u64)> {
    let k = insert_at(s, e.3);
    s.take(k) + seq![e] + s.skip(k)
}

/// The listed files, newest first; files modified at the same time keep
/// the folder's order.
pub open spec fn newest_first(files: Seq<OutputFile>) -> Seq<(Seq<char>, Seq<char>, u64, u64)>
    decreases files.len(),
{
    if files.len() == 0 {
        seq![]
    } else {
        let rest = newest_first(files.drop_last());
        if is_listed(files.last()) {
            insert_entry(rest, file_entry(files.last()))
        } else {
            rest
        }
    }
}

/// The most recent `limit` (at least one) listed files, newest first.
pub open spec fn recent_outputs(files: Seq<OutputFile>, limit: usize) -> Seq<(Seq<char>, Seq<char>, u64, u64)> {
    let all = newest_first(files);
    let n: int = if limit < 1 { 1 } else { limit as int };
    if all.len() <= n {
        all
    } else {
        all.take(n)
    }
}

proof fn lemma_insert_at_bounds(s: Seq<(Seq<char>, Seq<char>, u64, u64)>, m: u64)
    ensures
        0 <= insert_at(s, m) <= s.len(),
        forall|i: int| 0 <= i < insert_at(s, m) ==> #[trigger] s[i].3 >= m,
        insert_at(s, m) < s.len() ==> s[insert_at(s, m)].3 < m,
    decreases s.len(),
{
    if s.len() > 0 && s[0].3 >= m {
        lemma_insert_at_bounds(s.drop_first(), m);
        assert forall|i: int| 0 <= i < insert_at(s, m) implies #[trigger] s[i].3 >= m by {
            if i > 0 {
                assert(s[i] == s.drop_first()[i - 1]);
            }
        }
    }
}

fn media_ext(ext: &Vec<char>) -> (r: bool)
    ensures
        r == is_media_extension(ext@),
{
    let a = chars_of("mp4");
    let b = chars_of("gif");
    let c = chars_of("m4a");
    let d = chars_of("png");
    let e = chars_of("jpg");
    let f = chars_of("jpeg");
    let g = chars_of("webp");
    same_chars(ext.as_slice(), a.as_slice()) || same_chars(ext.as_slice(), b.as_slice())
        || same_chars(ext.as_slice(), c.as_slice()) || same_chars(ext.as_slice(), d.as_slice())
        || same_chars(ext.as_slice(), e.as_slice()) || same_chars(ext.as_slice(), f.as_slice())
        || same_chars(ext.as_slice(), g.as_slice())
}

/// Whether the listing shows `f`.
pub fn is_listed_output(f: &OutputFile) -> (r: bool)
    ensures
        r == is_listed(*f),
{
    let name = chars_of(f.name.as_str());
    let p1 = chars_of("capto-");
    let p2 = chars_of("capto_");
    if starts_with_chars(name.as_slice(), p1.as_slice()) || starts_with_chars(name.as_slice(), p2.as_slice()) {
        return true;
    }
    let raw = chars_of(f.extension.as_str());
    let ext = lowercase_chars(raw.as_slice());
    media_ext(&ext)
}

fn entry_of(f: &OutputFile) -> (r: OutputEntry)
    ensures
        entry_view(r) == file_entry(*f),
{
    OutputEntry { path: f.path.clone(), name: f.name.clone(), bytes: f.bytes, modified_ms: f.modified_ms }
}

pub open spec fn entry_views(v: Seq<OutputEntry>) -> Seq<(Seq<char>, Seq<char>, u64, u64)> {
    v.map_values(|e: OutputEntry| entry_view(e))
}

fn insert_sorted(items: &mut Vec<OutputEntry>, e: OutputEntry)
    ensures
        entry_views(final(items)@) == insert_entry(entry_views(old(items)@), entry_view(e)),
{
    let ghost s = entry_views(items@);
    let m = e.modified_ms;
    let mut k: usize = 0;
    proof {
        lemma_insert_at_bounds(s, m);
        assert(s.skip(0) == s);
    }
    while k < items.len() && items[k].modified_ms >= m
        invariant
            s == entry_views(items@),
            k <= items@.len(),
            insert_at(s, m) == k + insert_at(s.skip(k as int), m),
        decreases items@.len() - k,
    {
        proof {
            assert(s.skip(k as int)[0] == s[k as int]);
            assert(s.skip(k as int).drop_first() == s.skip(k + 1));
        }
        k = k + 1;
    }
    proof {
        if k < items@.len() {
            assert(s.skip(k as int)[0] == s[k as int]);
        }
        assert(insert_at(s, m) == k);
    }
    let ghost ev = entry_view(e);
    items.insert(k, e);
    proof {
        assert(entry_views(items@) =~= s.take(k as int) + seq![ev] + s.skip(k as int));
    }
}

/// The most recent `limit` (at least one) files of the output folder that
/// the listing shows, newest first.
pub fn recent_outputs_of(output_dir: String, files: &[OutputFile], limit: usize) -> (r: OutputsList)
    ensures
        r.output_dir == output_dir,
        entry_views(r.items@) == recent_outputs(files@, limit),
{
    let mut items: Vec<OutputEntry> = Vec::new();
    let mut i: usize = 0;
    proof {
        assert(files@.take(0) =~= Seq::<OutputFile>::empty());
        assert(entry_views(items@) =~= Seq::<(Seq<char>, Seq<char>, u64, u64)>::empty());
    }
    while i < files.len()
        invariant
            i <= files@.len(),
            entry_views(items@) == newest_first(files@.take(i as int)),
        decreases files@.len() - i,
    {
        proof {
            let t = files@.take(i + 1);
            assert(t.drop_last() == files@.take(i as int));
            assert(t.last() == files@[i as int]);
        }
        if is_listed_output(&files[i]) {
            let e = entry_of(&files[i]);
            insert_sorted(&mut items, e);
        }
        i = i + 1;
    }
    proof {
        assert(files@.take(files@.len() as int) == files@);
    }
    let n: usize = if limit < 1 { 1 } else { limit };
    if items.len() > n {
        items.truncate(n);
        proof {
            assert(entry_views(items@) =~= newest_first(files@).take(n as int));
        }
    }
    OutputsList { output_dir, items }
}

/// The listing is newest first.
pub proof fn lemma_newest_first_sorted(files: Seq<OutputFile>)
    ensures
        forall|i: int, j: int|
            0 <= i < j < newest_first(files).len() ==> #[trigger] newest_first(files)[i].3
                >= #[trigger] newest_first(files)[j].3,
    decreases files.len(),
{
    if files.len() > 0 {
        let rest = newest_first(files.drop_last());
        lemma_newest_first_sorted(files.drop_last());
        if is_listed(files.last()) {
            let e = file_entry(files.last());
            lemma_insert_at_bounds(rest, e.3);
            let k = insert_at(rest, e.3);
            let out = insert_entry(rest, e);
            assert forall|i: int, j: int| 0 <= i < j < out.len() implies #[trigger] out[i].3
                >= #[trigger] out[j].3 by {
                let ri: int = if i < k { i } else { i - 1 };
                let rj: int = if j <= k { j } else { j - 1 };
                if i < k && j == k {
                    assert(out[i] == rest[i]);
                } else if i == k {
                    assert(out[j] == rest[rj]);
                    if k < rest.len() {
                        assert(rest[k].3 < e.3);
                        if rj > k {
                            assert(rest[k].3 >= rest[rj].3);
                        }
                    }
                } else {
                    assert(out[i] == rest[ri]);
                    assert(out[j] == rest[rj]);
                }
            }
        }
    }
}

/// What a request to open an output names: the folder, a file, or the
/// newest output; none is an error.
#[derive(Debug)]
pub enum OpenChoice {
    Folder,
    File(String),
    Newest,
}

pub open spec fn open_choice_of(req: OpenOutputsRequest) -> Result<OpenChoice, Seq<char>> {
    if req.folder {
        Ok(OpenChoice::Folder)
    } else if req.path is Some {
        Ok(OpenChoice::File(req.path->0))
    } else if req.last {
        Ok(OpenChoice::Newest)
    } else {
        Err("path, last, or folder required"@)
    }
}

/// What to open for `req`: the folder when asked, else the given path,
/// else the newest output when asked.
pub fn open_choice(req: OpenOutputsRequest) -> (r: Result<OpenChoice, String>)
    ensures
        match (r, open_choice_of(req)) {
            (Ok(a), Ok(b)) => a == b,
            (Err(e), Err(m)) => e@ == m,
            _ => false,
        },
{
    if req.folder {
        Ok(OpenChoice::Folder)
    } else if let Some(p) = req.path {
        Ok(OpenChoice::File(p))
    } else if req.last {
        Ok(OpenChoice::Newest)
    } else {
        Err(crate::text::owned("path, last, or folder required"))
    }
}

/// The error when the newest output was asked for and there is none.
pub fn no_outputs_message() -> (r: String)
    ensures
        r@ == "no outputs found"@,
{
    crate::text::owned("no outputs found")
}

/// The error when the file to open does not exist: `path not found: <path>`.
pub fn path_not_found_message(path: &str) -> (r: String)
    ensures
        r@ == "path not found: "@ + path@,
{
    let mut out = chars_of("path not found: ");
    extend_str(&mut out, path);
    string_from(out.as_slice())
}

} // verus!
