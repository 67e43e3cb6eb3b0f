use vstd::prelude::*;

use crate::entry::{entry_of, FileEntry, PathProbe, RawEntry};
use crate::error::{FsError, PathRole};
use crate::order::{
    key_le, key_le_exec, lemma_key_total, lemma_key_trans, lex_le, lower_of, lowercase,
};
use crate::pattern::{effective_pattern, matches_pattern, pattern_matches, DEFAULT_PATTERN};
use crate::text::chars_of;

verus! {

broadcast use vstd::seq_lib::group_to_multiset_ensures, vstd::seq_lib::to_multiset_insert,
    vstd::seq_lib::to_multiset_remove;

/// Whether a listing keeps `e`: directories and other non-files always,
/// regular files when their name passes `pattern`.
pub open spec fn kept(e: RawEntry, pattern: Seq<char>) -> bool {
    !e.is_file || pattern_matches(e.name@, pattern)
}

/// The entries of `s` that a listing keeps, in their order.
pub open spec fn selected(s: Seq<RawEntry>, pattern: Seq<char>) -> Seq<FileEntry>
    decreases s.len(),
{
    if s.len() == 0 {
        Seq::empty()
    } else {
        let rest = selected(s.drop_last(), pattern);
        if kept(s.last(), pattern) {
            rest.push(entry_of(s.last()))
        } else {
            rest
        }
    }
}

/// Keeps the directories and the files whose name passes `pattern`, in their order.
pub fn filter_entries(entries: Vec<RawEntry>, pattern: &str) -> (r: Vec<FileEntry>)
    ensures
        r@ == selected(entries@, pattern@),
{
    let ghost orig = entries@;
    let mut input = entries;
    let mut r: Vec<FileEntry> = Vec::new();
    let ghost mut i: int = 0;
    while input.len() > 0
        invariant
            0 <= i <= orig.len(),
            input@ == orig.subrange(i, orig.len() as int),
            r@ == selected(orig.take(i), pattern@),
        decreases input@.len(),
    {
        let e = input.remove(0);
        proof {
            assert(e == orig[i]);
            assert(orig.take(i + 1).drop_last() =~= orig.take(i));
            assert(orig.take(i + 1).last() == orig[i]);
        }
        let RawEntry { path, name, is_file, is_dir } = e;
        let keep = !is_file || matches_pattern(name.as_str(), pattern);
        if keep {
            r.push(FileEntry { path, name, is_dir });
        }
        proof {
            i = i + 1;
            assert(input@ =~= orig.subrange(i, orig.len() as int));
        }
    }
    assert(orig.take(i) =~= orig);
    r
}

/// `a` may stand before `b` in a listing.
pub open spec fn entry_le(a: FileEntry, b: FileEntry) -> bool {
    key_le(a.is_dir, lower_of(a.name@), b.is_dir, lower_of(b.name@))
}

/// Every entry of `s` may stand before every later one.
pub open spec fn sorted_entries(s: Seq<FileEntry>) -> bool {
    forall|i: int, j: int| 0 <= i < j < s.len() ==> entry_le(#[trigger] s[i], #[trigger] s[j])
}

/// The order of a listing: directories before everything else, and within
/// each group names in case-insensitive order.
pub open spec fn listing_ordered(s: Seq<FileEntry>) -> bool {
    &&& forall|i: int, j: int|
        0 <= i < j < s.len() ==> (#[trigger] s[i]).is_dir || !(#[trigger] s[j]).is_dir
    &&& forall|i: int, j: int|
        0 <= i < j < s.len() && (#[trigger] s[i]).is_dir == (#[trigger] s[j]).is_dir ==> lex_le(
            lower_of(s[i].name@),
            lower_of(s[j].name@),
        )
}

/// `a` and `b` have the same place in a listing: same kind, and the same
/// name once lower-cased.
pub open spec fn same_key(a: FileEntry, b: FileEntry) -> bool {
    entry_le(a, b) && entry_le(b, a)
}

/// The entries of `s` that have the same place in a listing as `y`, in their order.
pub open spec fn ties(s: Seq<FileEntry>, y: FileEntry) -> Seq<FileEntry> {
    s.filter(|x: FileEntry| same_key(x, y))
}

/// Inserting `e` at `p` adds it to the ties of `y` at their end, when no
/// entry from `p` on is such a tie; inserting an entry that is not a tie
/// changes nothing.
proof fn lemma_filter_insert(s: Seq<FileEntry>, p: int, e: FileEntry, y: FileEntry)
    requires
        0 <= p <= s.len(),
        same_key(e, y) ==> forall|k: int| p <= k < s.len() ==> !same_key(#[trigger] s[k], y),
    ensures
        ties(s.insert(p, e), y) == if same_key(e, y) {
            ties(s, y).push(e)
        } else {
            ties(s, y)
        },
    decreases s.len(),
{
    let pred = |x: FileEntry| same_key(x, y);
    if p == s.len() {
        assert(s.insert(p, e) =~= s.push(e));
        s.lemma_filter_push(e, pred);
    } else {
        let init = s.drop_last();
        let last = s.last();
        assert(same_key(e, y) ==> forall|k: int|
            p <= k < init.len() ==> !same_key(#[trigger] init[k], y)) by {
            if same_key(e, y) {
                assert forall|k: int| p <= k < init.len() implies !same_key(
                    #[trigger] init[k],
                    y,
                ) by {
                    assert(init[k] == s[k]);
                }
            }
        }
        lemma_filter_insert(init, p, e, y);
        assert(s.insert(p, e) =~= init.insert(p, e).push(last));
        assert(s =~= init.push(last));
        init.insert(p, e).lemma_filter_push(last, pred);
        init.lemma_filter_push(last, pred);
        if same_key(e, y) {
            assert(s[s.len() - 1] == last);
        }
    }
}

/// Inserting `e` where `sort_entries` puts it adds `e` at the end of its ties.
proof fn lemma_insert_ties(s: Seq<FileEntry>, p: int, e: FileEntry, y: FileEntry)
    requires
        sorted_entries(s),
        0 <= p <= s.len(),
        p < s.len() ==> !entry_le(s[p], e),
    ensures
        ties(s.insert(p, e), y) == if same_key(e, y) {
            ties(s, y).push(e)
        } else {
            ties(s, y)
        },
{
    if same_key(e, y) {
        assert forall|k: int| p <= k < s.len() implies !same_key(#[trigger] s[k], y) by {
            if same_key(s[k], y) {
                lemma_key_trans(
                    s[k].is_dir,
                    lower_of(s[k].name@),
                    y.is_dir,
                    lower_of(y.name@),
                    e.is_dir,
                    lower_of(e.name@),
                );
                if k > p {
                    assert(entry_le(s[p], s[k]));
                    lemma_key_trans(
                        s[p].is_dir,
                        lower_of(s[p].name@),
                        s[k].is_dir,
                        lower_of(s[k].name@),
                        e.is_dir,
                        lower_of(e.name@),
                    );
                }
            }
        }
    }
    lemma_filter_insert(s, p, e, y);
}

/// Inserting `e` after every entry that may stand before it, and before the
/// first that may not, keeps a sorted sequence sorted.
proof fn lemma_insert_sorted(s: Seq<FileEntry>, p: int, e: FileEntry)
    requires
        sorted_entries(s),
        0 <= p <= s.len(),
        forall|k: int| 0 <= k < p ==> entry_le(#[trigger] s[k], e),
        p < s.len() ==> !entry_le(s[p], e),
    ensures
        sorted_entries(s.insert(p, e)),
{
    let t = s.insert(p, e);
    if p < s.len() {
        lemma_key_total(s[p].is_dir, lower_of(s[p].name@), e.is_dir, lower_of(e.name@));
    }
    assert forall|i: int, j: int| 0 <= i < j < t.len() implies entry_le(
        #[trigger] t[i],
        #[trigger] t[j],
    ) by {
        if i == p && j > p {
            let b = s[j - 1];
            if j - 1 > p {
                assert(entry_le(s[p], b));
                lemma_key_trans(
                    e.is_dir,
                    lower_of(e.name@),
                    s[p].is_dir,
                    lower_of(s[p].name@),
                    b.is_dir,
                    lower_of(b.name@),
                );
            }
        } else if i < p && j > p {
            assert(entry_le(s[i], s[j - 1]));
        } else if i > p {
            assert(entry_le(s[i - 1], s[j - 1]));
        }
    }
}

/// The first position in `out` whose entry may not stand before an entry
/// with the given kind and lower-cased name.
fn insert_position(out: &Vec<FileEntry>, keys: &Vec<Vec<char>>, is_dir: bool, key: &Vec<char>) -> (p:
    usize)
    requires
        keys@.len() == out@.len(),
        forall|k: int| 0 <= k < keys@.len() ==> (#[trigger] keys@[k])@ == lower_of(out@[k].name@),
    ensures
        p <= out@.len(),
        forall|k: int|
            0 <= k < p ==> key_le(
                (#[trigger] out@[k]).is_dir,
                lower_of(out@[k].name@),
                is_dir,
                key@,
            ),
        p < out@.len() ==> !key_le(out@[p as int].is_dir, lower_of(out@[p as int].name@), is_dir, key@),
{
    let mut p: usize = 0;
    while p < out.len()
        invariant
            p <= out@.len(),
            keys@.len() == out@.len(),
            forall|k: int|
                0 <= k < keys@.len() ==> (#[trigger] keys@[k])@ == lower_of(out@[k].name@),
            forall|k: int|
                0 <= k < p ==> key_le(
                    (#[trigger] out@[k]).is_dir,
                    lower_of(out@[k].name@),
                    is_dir,
                    key@,
                ),
        decreases out@.len() - p,
    {
        if !key_le_exec(out[p].is_dir, &keys[p], is_dir, key) {
            return p;
        }
        p = p + 1;
    }
    p
}

/// Sorts entries into the order of a listing: directories first, then by
/// lower-cased name. Entries with the same place keep their order.
pub fn sort_entries(entries: Vec<FileEntry>) -> (r: Vec<FileEntry>)
    ensures
        r@.to_multiset() == entries@.to_multiset(),
        sorted_entries(r@),
        forall|y: FileEntry| #[trigger] ties(r@, y) == ties(entries@, y),
{
    let ghost orig = entries@;
    let mut input = entries;
    let mut out: Vec<FileEntry> = Vec::new();
    let mut keys: Vec<Vec<char>> = Vec::new();
    let ghost mut i: int = 0;
    while input.len() > 0
        invariant
            0 <= i <= orig.len(),
            input@ == orig.subrange(i, orig.len() as int),
            forall|y: FileEntry| #[trigger] ties(out@, y) == ties(orig.take(i), y),
            out@.to_multiset().add(input@.to_multiset()) == orig.to_multiset(),
            keys@.len() == out@.len(),
            forall|k: int| 0 <= k < keys@.len() ==> (#[trigger] keys@[k])@ == lower_of(out@[k].name@),
            sorted_entries(out@),
        decreases input@.len(),
    {
        let ghost before = input@;
        let e = input.remove(0);
        let lower = lowercase(e.name.as_str());
        let key = chars_of(lower.as_str());
        let p = insert_position(&out, &keys, e.is_dir, &key);
        proof {
            lemma_insert_sorted(out@, p as int, e);
        }
        let ghost prev = out@;
        let ghost prev_keys = keys@;
        out.insert(p, e);
        keys.insert(p, key);
        proof {
            assert(before.remove(0).to_multiset() == before.to_multiset().remove(e));
            assert(out@.to_multiset() == prev.to_multiset().insert(e));
            assert(out@.to_multiset().add(input@.to_multiset()) =~= orig.to_multiset());
            assert(e == orig[i]);
            assert forall|y: FileEntry| #[trigger] ties(out@, y) == ties(orig.take(i + 1), y) by {
                lemma_insert_ties(prev, p as int, e, y);
                assert(orig.take(i + 1) =~= orig.take(i).push(e));
                orig.take(i).lemma_filter_push(e, |x: FileEntry| same_key(x, y));
            }
            i = i + 1;
            assert(input@ =~= orig.subrange(i, orig.len() as int));
            assert forall|k: int| 0 <= k < keys@.len() implies (#[trigger] keys@[k])@ == lower_of(
                out@[k].name@,
            ) by {
                if k > p {
                    assert(keys@[k] == prev_keys[k - 1]);
                    assert(out@[k] == prev[k - 1]);
                } else if k < p {
                    assert(keys@[k] == prev_keys[k]);
                    assert(out@[k] == prev[k]);
                }
            }
        }
    }
    assert(orig.take(i) =~= orig);
    out
}

/// Checks that the path to list exists and is a directory.
pub fn check_directory(directory: &String, probe: PathProbe) -> (r: Result<(), FsError>)
    ensures
        !probe.exists ==> r is Err && r->Err_0.is_not_found(PathRole::Directory, directory@),
        probe.exists && !probe.is_dir ==> r is Err && r->Err_0.is_not_a_directory(directory@),
        probe.exists && probe.is_dir ==> r is Ok,
{
    if !probe.exists {
        Err(FsError::NotFound { role: PathRole::Directory, path: directory.clone() })
    } else if !probe.is_dir {
        Err(FsError::NotADirectory { path: directory.clone() })
    } else {
        Ok(())
    }
}

/// The listing of a directory whose children are `entries`: the directories
/// and the files whose name passes the pattern (the default one when none is
/// given), directories first, then by case-insensitive name; entries with
/// the same place keep the order in which they were read.
pub fn list_entries(entries: Vec<RawEntry>, pattern: Option<String>) -> (r: Vec<FileEntry>)
    ensures
        r@.to_multiset() == selected(entries@, effective_pattern(pattern)).to_multiset(),
        sorted_entries(r@),
        listing_ordered(r@),
        forall|y: FileEntry|
            #[trigger] ties(r@, y) == ties(selected(entries@, effective_pattern(pattern)), y),
{
    let pat = match pattern {
        Some(p) => p,
        None => String::from_str(DEFAULT_PATTERN),
    };
    let kept = filter_entries(entries, pat.as_str());
    let r = sort_entries(kept);
    proof {
        assert forall|i: int, j: int| 0 <= i < j < r@.len() implies (#[trigger] r@[i]).is_dir
            || !(#[trigger] r@[j]).is_dir by {
            assert(entry_le(r@[i], r@[j]));
        }
        assert forall|i: int, j: int|
            0 <= i < j < r@.len() && (#[trigger] r@[i]).is_dir == (
            #[trigger] r@[j]).is_dir implies lex_le(lower_of(r@[i].name@), lower_of(r@[j].name@)) by {
            assert(entry_le(r@[i], r@[j]));
        }
    }
    r
}

/// Every read in `reads` succeeded.
pub open spec fn all_read(reads: Seq<Result<RawEntry, FsError>>) -> bool {
    forall|i: int| 0 <= i < reads.len() ==> (#[trigger] reads[i]) is Ok
}

/// The entries that the reads in `reads` gave, in their order.
pub open spec fn read_values(reads: Seq<Result<RawEntry, FsError>>) -> Seq<RawEntry> {
    reads.map_values(|x: Result<RawEntry, FsError>| x->Ok_0)
}

/// Read `k` of `reads` is the first that failed.
pub open spec fn first_failure(reads: Seq<Result<RawEntry, FsError>>, k: int) -> bool {
    &&& 0 <= k < reads.len()
    &&& reads[k] is Err
    &&& forall|j: int| 0 <= j < k ==> (#[trigger] reads[j]) is Ok
}

/// Gathers the children read from a directory. One failed read fails the
/// whole: the first failure is returned, and no entry.
pub fn collect_entries(reads: Vec<Result<RawEntry, FsError>>) -> (r: Result<
    Vec<RawEntry>,
    FsError,
>)
    ensures
        r is Ok <==> all_read(reads@),
        r is Ok ==> r->Ok_0@ == read_values(reads@),
        r is Err ==> exists|k: int|
            first_failure(reads@, k) && r->Err_0 == (#[trigger] reads@[k])->Err_0,
{
    let ghost orig = reads@;
    let mut input = reads;
    let mut out: Vec<RawEntry> = Vec::new();
    let ghost mut i: int = 0;
    while input.len() > 0
        invariant
            orig == reads@,
            0 <= i <= orig.len(),
            input@ == orig.subrange(i, orig.len() as int),
            all_read(orig.take(i)),
            out@ == read_values(orig.take(i)),
        decreases input@.len(),
    {
        let x = input.remove(0);
        proof {
            assert(x == orig[i]);
            assert forall|j: int| 0 <= j < i implies (#[trigger] orig[j]) is Ok by {
                assert(orig.take(i)[j] == orig[j]);
            }
        }
        match x {
            Ok(e) => {
                out.push(e);
            },
            Err(err) => {
                assert(first_failure(orig, i) && err == orig[i]->Err_0);
                assert(!all_read(orig));
                return Err(err);
            },
        }
        proof {
            i = i + 1;
            assert(input@ =~= orig.subrange(i, orig.len() as int));
            assert(out@ =~= read_values(orig.take(i)));
            assert forall|j: int| 0 <= j < i implies (#[trigger] orig.take(i)[j]) is Ok by {
                if j < i - 1 {
                    assert(orig.take(i - 1)[j] == orig[j]);
                }
            }
        }
    }
    assert(orig.take(i) =~= orig);
    Ok(out)
}

/// Finishes a listing from the reads of a directory's children: fails with
/// the first failed read, else gives the listing of the entries read.
pub fn finish_listing(reads: Vec<Result<RawEntry, FsError>>, pattern: Option<String>) -> (r: Result<
    Vec<FileEntry>,
    FsError,
>)
    ensures
        r is Ok <==> all_read(reads@),
        r is Ok ==> r->Ok_0@.to_multiset() == selected(
            read_values(reads@),
            effective_pattern(pattern),
        ).to_multiset(),
        r is Ok ==> sorted_entries(r->Ok_0@) && listing_ordered(r->Ok_0@),
        r is Ok ==> forall|y: FileEntry|
            #[trigger] ties(r->Ok_0@, y) == ties(
                selected(read_values(reads@), effective_pattern(pattern)),
                y,
            ),
        r is Err ==> exists|k: int|
            first_failure(reads@, k) && r->Err_0 == (#[trigger] reads@[k])->Err_0,
{
    match collect_entries(reads) {
        Ok(entries) => Ok(list_entries(entries, pattern)),
        Err(e) => Err(e),
    }
}

} // verus!
