use vstd::prelude::*;

use crate::entry::EntryModel;
use crate::entry::HASH_LEN;
use crate::entry::TreeEntry;
use crate::entry::parse_entry;
use crate::error::GitError;
use crate::scan::NUL;
use crate::scan::find;
use crate::scan::find_byte;
use crate::scan::lemma_find_from_bounds;
use crate::scan::lemma_find_from_unique;

verus! {

/// The length of the entry that `payload` starts with: up to its first NUL
/// byte, that byte, and the twenty bytes of the hash. Where `payload` is
/// shorter than this, it starts with no complete entry.
pub open spec fn first_entry_len(payload: Seq<u8>) -> int {
    find(payload, 0) + 21
}

/// The offsets at which the entries of `payload` end, in order. The scan
/// goes from left to right and passes over the twenty bytes of each hash, so
/// a zero byte inside a hash ends no name. It stops where no complete entry
/// is left.
pub open spec fn entry_ends(payload: Seq<u8>) -> Seq<int>
    decreases payload.len(),
    via entry_ends_decreases
{
    let n = first_entry_len(payload);
    if n > payload.len() {
        Seq::empty()
    } else {
        seq![n] + entry_ends(payload.skip(n)).map_values(|e: int| e + n)
    }
}

/// The offset at which the slice with index `i` starts.
pub open spec fn slice_start(pos: Seq<int>, i: int) -> int {
    if i == 0 {
        0
    } else {
        pos[i - 1]
    }
}

/// The pieces of `v` that the offsets `pos` cut off: the first from the
/// start of `v` to the first offset, each later one from the offset before.
pub open spec fn slices_at(v: Seq<u8>, pos: Seq<int>) -> Seq<Seq<u8>> {
    Seq::new(pos.len(), |i: int| v.subrange(slice_start(pos, i), pos[i]))
}

/// The offsets ascend and none lies beyond `len`.
pub open spec fn ascending_within(pos: Seq<int>, len: int) -> bool {
    &&& forall|i: int| 0 <= i < pos.len() ==> 0 <= #[trigger] pos[i] <= len
    &&& forall|i: int, j: int| 0 <= i <= j < pos.len() ==> pos[i] <= pos[j]
}

/// The entries of a directory listing, in the order of their bytes.
///
/// An empty payload holds no entry. Otherwise the payload starts with a
/// complete entry, which is decoded, and what follows it is a listing again.
/// A payload that ends inside an entry is malformed, and the first entry
/// that cannot be decoded decides the error.
pub open spec fn parse_entries(payload: Seq<u8>) -> Result<Seq<EntryModel>, GitError>
    decreases payload.len(),
    via parse_entries_decreases
{
    let n = first_entry_len(payload);
    if payload.len() == 0 {
        Ok(Seq::empty())
    } else if n > payload.len() {
        Err(GitError::MalformedObject)
    } else {
        match parse_entry(payload.take(n)) {
            Err(e) => Err(e),
            Ok(entry) => match parse_entries(payload.skip(n)) {
                Err(e) => Err(e),
                Ok(rest) => Ok(seq![entry] + rest),
            },
        }
    }
}

#[via_fn]
proof fn entry_ends_decreases(payload: Seq<u8>) {
    lemma_find_from_bounds(payload, 0, 0);
}

#[via_fn]
proof fn parse_entries_decreases(payload: Seq<u8>) {
    lemma_find_from_bounds(payload, 0, 0);
}

/// The offsets as mathematical integers.
pub open spec fn offsets(pos: Seq<usize>) -> Seq<int> {
    pos.map_values(|p: usize| p as int)
}

/// The models of the entries in `entries`.
pub open spec fn entry_models(entries: Seq<TreeEntry>) -> Seq<EntryModel> {
    entries.map_values(|e: TreeEntry| e@)
}

/// Each end of an entry lies at least twenty-one bytes after the end
/// before it, and none lies beyond the payload.
pub proof fn lemma_entry_ends_ascend(payload: Seq<u8>)
    ensures
        ascending_within(entry_ends(payload), payload.len() as int),
        forall|i: int|
            0 <= i < entry_ends(payload).len() ==> slice_start(entry_ends(payload), i) + 21
                <= #[trigger] entry_ends(payload)[i],
    decreases payload.len(),
{
    let n = first_entry_len(payload);
    lemma_find_from_bounds(payload, 0, 0);
    if n <= payload.len() {
        let rest = payload.skip(n);
        lemma_entry_ends_ascend(rest);
        let ends = entry_ends(payload);
        let tail = entry_ends(rest);
        assert forall|i: int| 0 <= i < ends.len() implies 0 <= #[trigger] ends[i]
            <= payload.len() && slice_start(ends, i) + 21 <= ends[i] by {
            if i > 0 {
                assert(ends[i] == tail[i - 1] + n);
                if i > 1 {
                    assert(ends[i - 1] == tail[i - 2] + n);
                    assert(slice_start(tail, i - 1) == tail[i - 2]);
                }
            }
        }
        assert forall|i: int, j: int| 0 <= i <= j < ends.len() implies ends[i] <= ends[j] by {
            if i > 0 {
                assert(ends[i] == tail[i - 1] + n);
                assert(ends[j] == tail[j - 1] + n);
            } else if j > 0 {
                assert(ends[j] == tail[j - 1] + n);
            }
        }
    }
}

/// The offset up to which `payload` is made of complete entries.
pub open spec fn consumed(payload: Seq<u8>) -> int {
    if entry_ends(payload).len() == 0 {
        0
    } else {
        entry_ends(payload).last()
    }
}

/// The slices of the entries of `payload`, in order.
pub open spec fn entry_slices(payload: Seq<u8>) -> Seq<Seq<u8>> {
    slices_at(payload, entry_ends(payload))
}

/// Where `payload` starts with a complete entry, that entry is its first
/// slice, and its other slices are those of what follows the entry.
pub proof fn lemma_entry_slices_step(payload: Seq<u8>)
    requires
        first_entry_len(payload) <= payload.len(),
    ensures
        entry_slices(payload).len() == entry_slices(payload.skip(first_entry_len(payload))).len()
            + 1,
        entry_slices(payload)[0] == payload.take(first_entry_len(payload)),
        forall|i: int|
            0 <= i < entry_slices(payload.skip(first_entry_len(payload))).len()
                ==> entry_slices(payload)[i + 1] == #[trigger] entry_slices(
                payload.skip(first_entry_len(payload)),
            )[i],
        consumed(payload) == first_entry_len(payload) + consumed(
            payload.skip(first_entry_len(payload)),
        ),
{
    let n = first_entry_len(payload);
    let rest = payload.skip(n);
    let ends = entry_ends(payload);
    let tail = entry_ends(rest);
    lemma_find_from_bounds(payload, 0, 0);
    lemma_entry_ends_ascend(rest);
    assert(ends.len() == tail.len() + 1);
    assert(ends[0] == n);
    assert(entry_slices(payload)[0] =~= payload.take(n));
    assert forall|i: int| 0 <= i < tail.len() implies entry_slices(payload)[i + 1]
        == #[trigger] entry_slices(rest)[i] by {
        assert(ends[i + 1] == tail[i] + n);
        if i > 0 {
            assert(ends[i] == tail[i - 1] + n);
        }
        assert(slice_start(ends, i + 1) == slice_start(tail, i) + n);
        assert(payload.subrange(slice_start(ends, i + 1), ends[i + 1]) =~= rest.subrange(
            slice_start(tail, i),
            tail[i],
        ));
    }
    if tail.len() > 0 {
        assert(ends.last() == tail.last() + n);
    }
}

/// The first slice that holds no entry decides the error of the listing.
pub proof fn lemma_first_bad_entry(payload: Seq<u8>, k: int)
    requires
        0 <= k < entry_slices(payload).len(),
        forall|i: int| 0 <= i < k ==> parse_entry(#[trigger] entry_slices(payload)[i]) is Ok,
        parse_entry(entry_slices(payload)[k]) is Err,
    ensures
        parse_entries(payload) == Err::<Seq<EntryModel>, GitError>(
            parse_entry(entry_slices(payload)[k])->Err_0,
        ),
    decreases payload.len(),
{
    let n = first_entry_len(payload);
    lemma_find_from_bounds(payload, 0, 0);
    lemma_entry_slices_step(payload);
    if k > 0 {
        let rest = payload.skip(n);
        assert(parse_entry(entry_slices(payload)[0]) is Ok);
        assert forall|i: int| 0 <= i < k - 1 implies parse_entry(
            #[trigger] entry_slices(rest)[i],
        ) is Ok by {
            assert(entry_slices(payload)[i + 1] == entry_slices(rest)[i]);
        }
        assert(entry_slices(payload)[k - 1 + 1] == entry_slices(rest)[k - 1]);
        lemma_first_bad_entry(rest, k - 1);
    }
}

/// Where every slice holds an entry, the listing holds these entries,
/// unless bytes are left over after the last of them.
pub proof fn lemma_all_entries_good(payload: Seq<u8>, models: Seq<EntryModel>)
    requires
        models.len() == entry_slices(payload).len(),
        forall|i: int|
            0 <= i < models.len() ==> parse_entry(#[trigger] entry_slices(payload)[i]) == Ok::<
                EntryModel,
                GitError,
            >(models[i]),
    ensures
        parse_entries(payload) == if consumed(payload) == payload.len() {
            Ok::<Seq<EntryModel>, GitError>(models)
        } else {
            Err::<Seq<EntryModel>, GitError>(GitError::MalformedObject)
        },
    decreases payload.len(),
{
    let n = first_entry_len(payload);
    lemma_find_from_bounds(payload, 0, 0);
    if n > payload.len() {
        assert(models =~= Seq::<EntryModel>::empty());
    } else {
        let rest = payload.skip(n);
        lemma_entry_slices_step(payload);
        let tail = models.drop_first();
        assert forall|i: int| 0 <= i < tail.len() implies parse_entry(
            #[trigger] entry_slices(rest)[i],
        ) == Ok::<EntryModel, GitError>(tail[i]) by {
            assert(entry_slices(payload)[i + 1] == entry_slices(rest)[i]);
            assert(tail[i] == models[i + 1]);
        }
        lemma_all_entries_good(rest, tail);
        assert(parse_entry(entry_slices(payload)[0]) == Ok::<EntryModel, GitError>(models[0]));
        assert(seq![models[0]] + tail =~= models);
    }
}

/// The ends of the entries of `v`: for each complete entry the offset just
/// after the twenty bytes that follow the NUL byte at the end of its name.
/// An entry that `v` ends in the middle of has no end.
pub fn tree_entry_end_pos(v: &[u8]) -> (res: Vec<usize>)
    ensures
        offsets(res@) == entry_ends(v@),
{
    let mut pos: Vec<usize> = Vec::new();
    let mut start: usize = 0;
    assert(v@.skip(0) =~= v@);
    loop
        invariant
            start <= v@.len(),
            entry_ends(v@) =~= offsets(pos@) + entry_ends(v@.skip(start as int)).map_values(
                |e: int| e + start,
            ),
        ensures
            offsets(pos@) == entry_ends(v@),
        decreases v@.len() - start,
    {
        let ghost rest = v@.skip(start as int);
        let nul = find_byte(v, NUL, start);
        proof {
            lemma_find_from_bounds(v@, 0, start as int);
            lemma_find_from_bounds(rest, 0, 0);
            let q = nul - start;
            assert forall|j: int| 0 <= j < q implies rest[j] != 0 by {
                assert(rest[j] == v@[start + j]);
            }
            if q < rest.len() {
                assert(rest[q] == v@[nul as int]);
            }
            lemma_find_from_unique(rest, 0, 0, q);
            assert(first_entry_len(rest) == nul - start + 21);
        }
        if v.len() - nul <= HASH_LEN {
            assert(entry_ends(rest) =~= Seq::<int>::empty());
            assert(entry_ends(v@) =~= offsets(pos@));
            break;
        }
        let end: usize = nul + 1 + HASH_LEN;
        proof {
            let n = first_entry_len(rest);
            assert(rest.skip(n) =~= v@.skip(end as int));
            let tail = entry_ends(v@.skip(end as int));
            assert(entry_ends(rest) == seq![n] + tail.map_values(|e: int| e + n));
            assert(offsets(pos@.push(end)) + tail.map_values(|e: int| e + end) =~= offsets(pos@)
                + entry_ends(rest).map_values(|e: int| e + start));
        }
        pos.push(end);
        start = end;
    }
    pos
}

/// Cuts `vec` at the offsets `pos`: the first piece runs from the start of
/// `vec` to the first offset, each later piece from the offset before it.
/// What follows the last offset is in no piece.
pub fn extract_from_vec_at<'a>(vec: &'a [u8], pos: &[usize]) -> (res: Vec<&'a [u8]>)
    requires
        ascending_within(offsets(pos@), vec@.len() as int),
    ensures
        res@.map_values(|s: &[u8]| s@) == slices_at(vec@, offsets(pos@)),
{
    let mut extract: Vec<&[u8]> = Vec::new();
    let mut prev_pos: usize = 0;
    let mut i: usize = 0;
    let ghost ints = offsets(pos@);
    while i < pos.len()
        invariant
            i <= pos@.len(),
            ints == offsets(pos@),
            ascending_within(ints, vec@.len() as int),
            prev_pos as int == slice_start(ints, i as int),
            extract@.len() == i,
            forall|k: int|
                0 <= k < i ==> (#[trigger] extract@[k])@ == vec@.subrange(
                    slice_start(ints, k),
                    ints[k],
                ),
        decreases pos@.len() - i,
    {
        let p = pos[i];
        assert(ints[i as int] == p);
        assert(prev_pos <= p) by {
            if i > 0 {
                assert(ints[i - 1] <= ints[i as int]);
            }
        }
        let tmp: &[u8] = &vec[prev_pos..p];
        extract.push(tmp);
        prev_pos = p;
        i = i + 1;
    }
    assert(extract@.map_values(|s: &[u8]| s@) =~= slices_at(vec@, offsets(pos@)));
    extract
}

/// Decodes the payload of a directory listing into its entries, in the
/// order of their bytes; nothing is sorted and nothing is dropped.
pub fn parse_str_tree_entry_vec(content: &[u8]) -> (res: Result<Vec<TreeEntry>, GitError>)
    ensures
        match parse_entries(content@) {
            Ok(entries) => res matches Ok(got) && entry_models(got@) == entries,
            Err(e) => res == Err::<Vec<TreeEntry>, GitError>(e),
        },
{
    let pos: Vec<usize> = tree_entry_end_pos(content);
    proof {
        lemma_entry_ends_ascend(content@);
    }
    let tree_entry_bytes: Vec<&[u8]> = extract_from_vec_at(content, pos.as_slice());
    let ghost slices = entry_slices(content@);
    assert(slices == tree_entry_bytes@.map_values(|s: &[u8]| s@));
    let mut tree_entry: Vec<TreeEntry> = Vec::new();
    let mut k: usize = 0;
    while k < tree_entry_bytes.len()
        invariant
            k <= tree_entry_bytes@.len(),
            slices == entry_slices(content@),
            slices == tree_entry_bytes@.map_values(|s: &[u8]| s@),
            tree_entry@.len() == k,
            forall|i: int|
                0 <= i < k ==> parse_entry(#[trigger] slices[i]) == Ok::<EntryModel, GitError>(
                    tree_entry@[i]@,
                ),
        decreases tree_entry_bytes@.len() - k,
    {
        let teb = tree_entry_bytes[k];
        assert(teb@ == slices[k as int]);
        match TreeEntry::from_bytes(teb) {
            Ok(entry) => tree_entry.push(entry),
            Err(err) => {
                proof {
                    lemma_first_bad_entry(content@, k as int);
                }
                return Err(err);
            },
        }
        k = k + 1;
    }
    let used: usize = if pos.len() == 0 {
        0
    } else {
        pos[pos.len() - 1]
    };
    proof {
        assert(used as int == consumed(content@)) by {
            if pos@.len() > 0 {
                assert(offsets(pos@).last() == pos@[pos@.len() - 1]);
            }
        }
        lemma_all_entries_good(content@, entry_models(tree_entry@));
    }
    if used != content.len() {
        return Err(GitError::MalformedObject);
    }
    Ok(tree_entry)
}

} // verus!
