//! The uniform listing/reading contract over archives.
//!
//! The operations here work on archive bytes; the thin shells that obtain
//! those bytes — from the filesystem or over HTTP range reads — live with
//! the program around the library and feed them in.

use vstd::prelude::*;
use vstd::string::*;

use crate::ViewerError;
use crate::zip::CentralDirectoryEntry;
use crate::zip::SpecEntry;
use crate::zip::entries_view;
use crate::zip::entry_rows;
use crate::zip::extract_entry;
use crate::zip::list_entries;
use crate::zip::spec_entry_row;
use crate::zip::spec_extract;
use crate::zip::spec_list_entries;

pub mod fs;

verus! {

/// One file produced by `get_file` or `get_file_from_zip`: the entry's
/// stored name (or the location, for direct reads) and its bytes.
#[derive(Debug)]
pub struct FileContent {
    /// The original entry name inside a ZIP, or the URL/path for direct
    /// reads.
    pub filename: String,
    /// The uncompressed bytes.
    pub content: Vec<u8>,
}

impl View for FileContent {
    type V = (Seq<char>, Seq<u8>);

    open spec fn view(&self) -> (Seq<char>, Seq<u8>) {
        (self.filename@, self.content@)
    }
}

/// The mathematical image of a sequence of files.
pub open spec fn files_view(fs: Seq<FileContent>) -> Seq<(Seq<char>, Seq<u8>)> {
    fs.map_values(|f: FileContent| f@)
}

// ---------------------------------------------------------------------------
// Prefix selection
// ---------------------------------------------------------------------------

/// Whether `p` is a literal byte prefix of `b`.
pub open spec fn is_byte_prefix(p: Seq<u8>, b: Seq<u8>) -> bool {
    p.len() <= b.len() && b.subrange(0, p.len() as int) == p
}

/// Whether the stored name of `e` begins with the bytes `p`.
pub open spec fn entry_matches_prefix(e: SpecEntry, p: Seq<u8>) -> bool {
    is_byte_prefix(p, e.name_bytes)
}

/// The entries whose stored names begin with `p`, keeping
/// central-directory order.
pub open spec fn spec_filter_entries(es: Seq<SpecEntry>, p: Seq<u8>) -> Seq<SpecEntry>
    decreases es.len(),
{
    if es.len() == 0 {
        Seq::empty()
    } else {
        let front = spec_filter_entries(es.drop_last(), p);
        if entry_matches_prefix(es.last(), p) {
            front.push(es.last())
        } else {
            front
        }
    }
}

fn name_starts_with(name: &Vec<u8>, prefix: &Vec<u8>) -> (r: bool)
    ensures
        r == is_byte_prefix(prefix@, name@),
{
    if prefix.len() > name.len() {
        return false;
    }
    let mut i: usize = 0;
    while i < prefix.len()
        invariant
            i <= prefix.len() <= name.len(),
            forall|j: int| 0 <= j < i ==> name@[j] == prefix@[j],
        decreases prefix.len() - i,
    {
        if name[i] != prefix[i] {
            proof {
                assert(name@.subrange(0, prefix@.len() as int)[i as int] == name@[i as int]);
            }
            return false;
        }
        i = i + 1;
    }
    proof {
        assert(name@.subrange(0, prefix@.len() as int) =~= prefix@);
    }
    true
}

/// Select the entries whose stored names begin with `prefix`, keeping
/// central-directory order.
pub fn entries_with_prefix(entries: &Vec<CentralDirectoryEntry>, prefix: &str) -> (r: Vec<
    CentralDirectoryEntry,
>)
    ensures
        entries_view(r@) == spec_filter_entries(entries_view(entries@), prefix.spec_bytes()),
{
    let prefix_bytes = prefix.as_bytes_vec();
    let ghost all = entries_view(entries@);
    let mut selected: Vec<CentralDirectoryEntry> = Vec::new();
    let mut i: usize = 0;
    while i < entries.len()
        invariant
            i <= entries.len(),
            all == entries_view(entries@),
            prefix_bytes@ == prefix.spec_bytes(),
            entries_view(selected@) == spec_filter_entries(all.take(i as int), prefix_bytes@),
        decreases entries.len() - i,
    {
        let ghost old_selected = entries_view(selected@);
        let e = &entries[i];
        if name_starts_with(&e.name_bytes, &prefix_bytes) {
            selected.push(e.clone());
        }
        proof {
            let ext = all.take(i as int + 1);
            assert(ext.drop_last() =~= all.take(i as int));
            assert(ext.last() == entries@[i as int]@);
            if entry_matches_prefix(entries@[i as int]@, prefix_bytes@) {
                assert(entries_view(selected@) =~= old_selected.push(entries@[i as int]@));
            }
        }
        i = i + 1;
    }
    proof {
        assert(all.take(entries@.len() as int) =~= all);
    }
    selected
}

// ---------------------------------------------------------------------------
// Archive-backed operations
// ---------------------------------------------------------------------------

/// The files extracted from archive `a` for the entries `es`, in order.
/// An entry whose extraction fails is dropped; the batch continues.
pub open spec fn spec_files_from_entries(a: Seq<u8>, es: Seq<SpecEntry>) -> Seq<
    (Seq<char>, Seq<u8>),
>
    decreases es.len(),
{
    if es.len() == 0 {
        Seq::empty()
    } else {
        let front = spec_files_from_entries(a, es.drop_last());
        let e = es.last();
        match spec_extract(a, e.local_header_offset, e.compressed_size) {
            Ok(content) => front.push((e.name, content)),
            Err(_) => front,
        }
    }
}

/// What `get_file_from_zip` returns: every entry whose stored name
/// begins with the prefix, extracted, in central-directory order.
pub open spec fn spec_get_file_from_zip(a: Seq<u8>, p: Seq<u8>) -> Result<
    Seq<(Seq<char>, Seq<u8>)>,
    ViewerError,
> {
    match spec_list_entries(a) {
        Err(e) => Err(e),
        Ok(es) => Ok(spec_files_from_entries(a, spec_filter_entries(es, p))),
    }
}

/// List an archive's entries and extract every one whose stored name
/// begins with `prefix`, in central-directory order.  An entry that fails
/// to extract is dropped; a failure to read the directory itself aborts.
pub fn get_file_from_zip(archive: &Vec<u8>, prefix: &str) -> (r: Result<
    Vec<FileContent>,
    ViewerError,
>)
    ensures
        match r {
            Ok(files) => spec_get_file_from_zip(archive@, prefix.spec_bytes()) matches Ok(fs)
                && files_view(files@) == fs,
            Err(e) => spec_get_file_from_zip(archive@, prefix.spec_bytes()) == Err::<
                Seq<(Seq<char>, Seq<u8>)>,
                ViewerError,
            >(e),
        },
{
    let entries = match list_entries(archive) {
        Ok(es) => es,
        Err(e) => {
            return Err(e);
        },
    };
    let selected = entries_with_prefix(&entries, prefix);
    let ghost sel = entries_view(selected@);
    let mut files: Vec<FileContent> = Vec::new();
    let mut i: usize = 0;
    while i < selected.len()
        invariant
            i <= selected.len(),
            sel == entries_view(selected@),
            files_view(files@) == spec_files_from_entries(archive@, sel.take(i as int)),
        decreases selected.len() - i,
    {
        let ghost old_files = files_view(files@);
        let e = &selected[i];
        match extract_entry(archive, e) {
            Ok(content) => {
                files.push(FileContent { filename: e.name.clone(), content });
            },
            Err(_) => {
                // This entry is unreadable; drop it and keep going.
            },
        }
        proof {
            let ext = sel.take(i as int + 1);
            assert(ext.drop_last() =~= sel.take(i as int));
            assert(ext.last() == selected@[i as int]@);
            if spec_extract(
                archive@,
                selected@[i as int]@.local_header_offset,
                selected@[i as int]@.compressed_size,
            ) is Ok {
                assert(files_view(files@) =~= old_files.push(
                    (
                        selected@[i as int]@.name,
                        spec_extract(
                            archive@,
                            selected@[i as int]@.local_header_offset,
                            selected@[i as int]@.compressed_size,
                        ).unwrap(),
                    ),
                ));
            }
        }
        i = i + 1;
    }
    proof {
        assert(sel.take(selected@.len() as int) =~= sel);
    }
    Ok(files)
}

/// List an archive as listing rows, one per entry, in central-directory
/// order.
pub fn list_zip(archive: &Vec<u8>) -> (r: Result<Vec<Vec<String>>, ViewerError>)
    ensures
        match r {
            Ok(rows) => spec_list_entries(archive@) matches Ok(es) && rows@.len() == es.len()
                && forall|i: int| 0 <= i < es.len() ==> rows.deep_view()[i] == spec_entry_row(
                es[i],
            ),
            Err(e) => spec_list_entries(archive@) == Err::<Seq<SpecEntry>, ViewerError>(e),
        },
{
    let entries = match list_entries(archive) {
        Ok(es) => es,
        Err(e) => {
            return Err(e);
        },
    };
    Ok(entry_rows(&entries))
}

// ---------------------------------------------------------------------------
// Laws
// ---------------------------------------------------------------------------

/// With the empty prefix every entry matches: the selection is the whole
/// listing, in central-directory order.
pub proof fn lemma_filter_empty_prefix(es: Seq<SpecEntry>)
    ensures
        spec_filter_entries(es, Seq::empty()) == es,
    decreases es.len(),
{
    if es.len() > 0 {
        lemma_filter_empty_prefix(es.drop_last());
        assert(es.last().name_bytes.subrange(0, 0) =~= Seq::<u8>::empty());
        assert(es.drop_last().push(es.last()) =~= es);
    }
}

/// The source position of each selected entry.
pub open spec fn spec_filter_indices(es: Seq<SpecEntry>, p: Seq<u8>) -> Seq<int>
    decreases es.len(),
{
    if es.len() == 0 {
        Seq::empty()
    } else {
        let front = spec_filter_indices(es.drop_last(), p);
        if entry_matches_prefix(es.last(), p) {
            front.push(es.len() - 1)
        } else {
            front
        }
    }
}

/// Filtering preserves central-directory order: the selected entries are
/// the matching ones, each drawn from its source position, and those
/// positions are strictly increasing.
pub proof fn lemma_filter_preserves_order(es: Seq<SpecEntry>, p: Seq<u8>)
    ensures
        ({
            let f = spec_filter_entries(es, p);
            let idx = spec_filter_indices(es, p);
            &&& idx.len() == f.len()
            &&& forall|k: int|
                0 <= k < idx.len() ==> 0 <= #[trigger] idx[k] < es.len() && es[idx[k]] == f[k]
                    && entry_matches_prefix(f[k], p)
            &&& forall|k: int| 0 < k < idx.len() ==> #[trigger] idx[k - 1] < idx[k]
        }),
    decreases es.len(),
{
    if es.len() > 0 {
        lemma_filter_preserves_order(es.drop_last(), p);
        assert(forall|j: int| 0 <= j < es.len() - 1 ==> es.drop_last()[j] == es[j]);
    }
}

} // verus!
