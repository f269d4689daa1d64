//! Ordering of directory listings: the runtime walks directories and hands
//! the entries here to be ordered newest first and capped, which is what the
//! listing commands return to the presentation layer.

use vstd::prelude::*;
use vstd::seq_lib::lemma_multiset_commutative;

verus! {

/// One listed file or directory.
#[derive(Debug)]
pub struct FileEntry {
    /// Display name (possibly a path relative to the walked root).
    pub name: String,
    /// Full path.
    pub path: String,
    /// Last modification, in milliseconds since the epoch.
    pub modified_ms: u64,
    /// Size in bytes.
    pub size_bytes: u64,
    /// Whether the entry is a directory.
    pub is_dir: bool,
}

impl Clone for FileEntry {
    /// Cloning an entry preserves its value.
    fn clone(&self) -> (r: Self)
        ensures
            r == *self,
    {
        FileEntry {
            name: self.name.clone(),
            path: self.path.clone(),
            modified_ms: self.modified_ms,
            size_bytes: self.size_bytes,
            is_dir: self.is_dir,
        }
    }
}

/// Whether `s` is ordered newest first.
pub open spec fn newest_first(s: Seq<FileEntry>) -> bool {
    forall|i: int, j: int|
        0 <= i < j < s.len() ==> #[trigger] s[i].modified_ms >= #[trigger] s[j].modified_ms
}

/// Orders the entries newest first. The result holds exactly the given
/// entries.
pub fn sort_files_newest_first(files: Vec<FileEntry>) -> (r: Vec<FileEntry>)
    ensures
        r@.len() == files@.len(),
        newest_first(r@),
        r@.to_multiset() == files@.to_multiset(),
{
    broadcast use vstd::seq_lib::group_to_multiset_ensures;

    let mut work = files;
    let mut out: Vec<FileEntry> = Vec::new();
    let ghost all = work@;
    while work.len() > 0
        invariant
            out@.to_multiset().add(work@.to_multiset()) == all.to_multiset(),
            out@.len() + work@.len() == all.len(),
            newest_first(out@),
            forall|i: int, j: int|
                0 <= i < out@.len() && 0 <= j < work@.len() ==> #[trigger] out@[i].modified_ms
                    >= #[trigger] work@[j].modified_ms,
        decreases work@.len(),
    {
        // The position of a newest remaining entry.
        let n = work.len();
        let mut best: usize = 0;
        let mut k: usize = 1;
        while k < n
            invariant
                0 <= best < k <= n,
                n == work@.len(),
                forall|j: int|
                    0 <= j < k ==> work@[best as int].modified_ms
                        >= #[trigger] work@[j].modified_ms,
            decreases n - k,
        {
            if work[k].modified_ms > work[best].modified_ms {
                best = k;
            }
            k = k + 1;
        }
        let ghost prev_work = work@;
        let ghost prev_out = out@;
        let picked = work.remove(best);
        out.push(picked);
        proof {
            broadcast use vstd::seq_lib::group_to_multiset_ensures;

            assert(prev_work.contains(picked)) by {
                assert(prev_work[best as int] == picked);
            }
            assert(prev_work.to_multiset().count(picked) > 0);
            assert(work@ == prev_work.remove(best as int));
            assert(prev_work.remove(best as int).to_multiset() =~= prev_work.to_multiset().remove(
                picked,
            ));
            assert(out@.to_multiset() =~= prev_out.to_multiset().insert(picked));
            assert(out@.to_multiset().add(work@.to_multiset()) =~= all.to_multiset());
        }
    }
    proof {
        assert(work@.to_multiset().len() == 0);
        assert(out@.to_multiset() =~= all.to_multiset());
    }
    out
}

/// Orders the entries newest first and keeps at most `cap` of them: what a
/// directory listing hands back to the presentation layer. The kept entries
/// come from the input, and nothing dropped is newer than anything kept, so
/// the result is the `cap` newest entries of the input.
pub fn cap_newest_first(files: Vec<FileEntry>, cap: usize) -> (r: Vec<FileEntry>)
    ensures
        r@.len() == (if files@.len() <= cap {
            files@.len() as int
        } else {
            cap as int
        }),
        newest_first(r@),
        forall|x: FileEntry| #[trigger]
            r@.to_multiset().count(x) <= files@.to_multiset().count(x),
        forall|x: FileEntry, i: int|
            #![trigger r@.to_multiset().count(x), r@[i]]
            files@.to_multiset().count(x) > r@.to_multiset().count(x) && 0 <= i < r@.len()
                ==> r@[i].modified_ms >= x.modified_ms,
{
    broadcast use vstd::seq_lib::group_to_multiset_ensures;

    let mut sorted = sort_files_newest_first(files);
    let ghost whole = sorted@;
    if sorted.len() > cap {
        sorted.truncate(cap);
        proof {
            let pre = whole.subrange(0, cap as int);
            let suf = whole.subrange(cap as int, whole.len() as int);
            assert(whole =~= pre + suf);
            lemma_multiset_commutative(pre, suf);
            assert forall|x: FileEntry, i: int|
                files@.to_multiset().count(x) > pre.to_multiset().count(x) && 0 <= i < pre.len()
                implies pre[i].modified_ms >= x.modified_ms by {
                assert(suf.to_multiset().count(x) > 0);
                assert(suf.contains(x));
                let j = choose|j: int| 0 <= j < suf.len() && suf[j] == x;
                assert(whole[cap + j] == x);
                assert(pre[i] == whole[i]);
                assert(whole[i].modified_ms >= whole[cap + j].modified_ms);
            }
        }
    }
    sorted
}

} // verus!
