use vstd::prelude::*;

verus! {

/// A byte count saturated at the largest `u64`.
pub open spec fn capped(n: int) -> u64 {
    if n > u64::MAX as int {
        u64::MAX
    } else {
        n as u64
    }
}

/// What one directory entry turned out to be when it was examined.
pub enum EntryReport {
    /// A regular file, with its byte length when its metadata could be read.
    File(Option<u64>),
    /// A subdirectory, with the total already computed for it.
    Dir(u64),
    /// A symbolic link, socket, device node, FIFO or any other non-regular entry.
    Other,
    /// An entry whose type could not be determined.
    Unknown,
}

/// The bytes an entry adds to its directory's total: a regular file its length,
/// a subdirectory its own total, and everything else (unreadable metadata, an
/// unknown type, a non-regular entry) nothing.
pub open spec fn contribution(e: EntryReport) -> nat {
    match e {
        EntryReport::File(Some(n)) => n as nat,
        EntryReport::Dir(t) => t as nat,
        _ => 0,
    }
}

/// The exact sum of the contributions of a listing's entries.
pub open spec fn raw_sum(es: Seq<EntryReport>) -> nat
    decreases es.len(),
{
    if es.len() == 0 {
        0
    } else {
        raw_sum(es.drop_last()) + contribution(es.last())
    }
}

/// The total of a listing: the sum of its contributions, saturated at `u64::MAX`.
pub open spec fn listing_total(es: Seq<EntryReport>) -> u64 {
    capped(raw_sum(es) as int)
}

/// The sum of the lengths of a listing's regular files.
pub open spec fn file_bytes(es: Seq<EntryReport>) -> nat
    decreases es.len(),
{
    if es.len() == 0 {
        0
    } else {
        file_bytes(es.drop_last()) + match es.last() {
            EntryReport::File(Some(n)) => n as nat,
            _ => 0,
        }
    }
}

/// The sum of the totals of a listing's subdirectories.
pub open spec fn subdir_bytes(es: Seq<EntryReport>) -> nat
    decreases es.len(),
{
    if es.len() == 0 {
        0
    } else {
        subdir_bytes(es.drop_last()) + match es.last() {
            EntryReport::Dir(t) => t as nat,
            _ => 0,
        }
    }
}

/// Whether `s` begins with `p`.
pub open spec fn has_prefix(s: Seq<char>, p: Seq<char>) -> bool {
    p.len() <= s.len() && s.subrange(0, p.len() as int) == p
}

/// Whether a path lies under one of the virtual trees `/proc`, `/sys` or `/dev`,
/// taken as a plain prefix of the path's text.
pub open spec fn is_pseudo_fs(path: Seq<char>) -> bool {
    has_prefix(path, seq!['/', 'p', 'r', 'o', 'c'])
        || has_prefix(path, seq!['/', 's', 'y', 's'])
        || has_prefix(path, seq!['/', 'd', 'e', 'v'])
}

/// The total of the directory at `path`, given the outcome of listing it:
/// nothing under a virtual tree or where the listing failed, else the
/// listing's total.
pub open spec fn dir_total_of(path: Seq<char>, listing: Option<Seq<EntryReport>>) -> u64 {
    if is_pseudo_fs(path) {
        0
    } else {
        match listing {
            Some(es) => listing_total(es),
            None => 0,
        }
    }
}

/// The bytes that one entry adds to its directory's total.
pub fn entry_size(e: &EntryReport) -> (r: u64)
    ensures
        r == contribution(*e),
        (*e is Other || *e is Unknown) ==> r == 0,
{
    match e {
        EntryReport::File(Some(n)) => *n,
        EntryReport::File(None) => 0,
        EntryReport::Dir(t) => *t,
        EntryReport::Other => 0,
        EntryReport::Unknown => 0,
    }
}

/// Whether `s` begins with `p`, compared character by character.
fn starts_with_chars(s: &str, p: &str) -> (r: bool)
    ensures
        r == has_prefix(s@, p@),
{
    let n = p.unicode_len();
    if n > s.unicode_len() {
        return false;
    }
    let mut i: usize = 0;
    while i < n
        invariant
            n == p@.len(),
            n <= s@.len(),
            i <= n,
            s@.subrange(0, i as int) == p@.subrange(0, i as int),
        decreases n - i,
    {
        if s.get_char(i) != p.get_char(i) {
            assert(s@.subrange(0, n as int)[i as int] != p@[i as int]);
            return false;
        }
        assert(s@.subrange(0, i + 1) =~= p@.subrange(0, i + 1));
        i = i + 1;
    }
    assert(p@.subrange(0, n as int) =~= p@);
    true
}

/// Whether a path lies under `/proc`, `/sys` or `/dev`, whose entries are
/// virtual and are never walked.
pub fn is_pseudo_fs_path(path: &str) -> (r: bool)
    ensures
        r == is_pseudo_fs(path@),
{
    let proc_root = "/proc";
    let sys_root = "/sys";
    let dev_root = "/dev";
    proof {
        reveal_strlit("/proc");
        reveal_strlit("/sys");
        reveal_strlit("/dev");
        assert(proc_root@ =~= seq!['/', 'p', 'r', 'o', 'c']);
        assert(sys_root@ =~= seq!['/', 's', 'y', 's']);
        assert(dev_root@ =~= seq!['/', 'd', 'e', 'v']);
    }
    starts_with_chars(path, proc_root) || starts_with_chars(path, sys_root)
        || starts_with_chars(path, dev_root)
}

/// Sums the contributions of a listing's entries, saturating at `u64::MAX`.
pub fn listing_size(entries: &Vec<EntryReport>) -> (r: u64)
    ensures
        r == listing_total(entries@),
{
    let mut acc: u64 = 0;
    let mut i: usize = 0;
    while i < entries.len()
        invariant
            i <= entries@.len(),
            acc == capped(raw_sum(entries@.subrange(0, i as int)) as int),
        decreases entries@.len() - i,
    {
        let c = entry_size(&entries[i]);
        proof {
            let next = entries@.subrange(0, i + 1);
            assert(next.drop_last() =~= entries@.subrange(0, i as int));
        }
        acc = acc.saturating_add(c);
        i = i + 1;
    }
    assert(entries@.subrange(0, entries@.len() as int) =~= entries@);
    acc
}

/// The total size of the directory at `path`, given the outcome of listing its
/// immediate entries (`None` where the listing failed). A path under a virtual
/// tree counts nothing whatever its listing holds, and a directory that could
/// not be listed counts nothing rather than failing. Otherwise the total is the
/// sum, saturated at `u64::MAX`, of the lengths of its regular files and the
/// totals of its subdirectories; other entries count nothing.
pub fn dir_total(path: &str, listing: Option<Vec<EntryReport>>) -> (r: u64)
    ensures
        r == dir_total_of(
            path@,
            match listing {
                Some(v) => Some(v@),
                None => None,
            },
        ),
        is_pseudo_fs(path@) ==> r == 0,
        listing is None ==> r == 0,
        !is_pseudo_fs(path@) && listing is Some ==> r == capped(
            (file_bytes(listing->Some_0@) + subdir_bytes(listing->Some_0@)) as int,
        ),
{
    if is_pseudo_fs_path(path) {
        return 0;
    }
    match listing {
        Some(v) => {
            proof {
                lemma_sum_by_kind(v@);
            }
            listing_size(&v)
        },
        None => 0,
    }
}

/// The total of a listing is the lengths of its regular files plus the totals
/// of its subdirectories: nothing else adds to it.
pub proof fn lemma_sum_by_kind(es: Seq<EntryReport>)
    ensures
        raw_sum(es) == file_bytes(es) + subdir_bytes(es),
    decreases es.len(),
{
    if es.len() > 0 {
        lemma_sum_by_kind(es.drop_last());
    }
}

/// The exact sum over two listings laid end to end is the sum of the two.
pub proof fn lemma_raw_sum_append(a: Seq<EntryReport>, b: Seq<EntryReport>)
    ensures
        raw_sum(a + b) == raw_sum(a) + raw_sum(b),
    decreases b.len(),
{
    if b.len() == 0 {
        assert(a + b =~= a);
    } else {
        lemma_raw_sum_append(a, b.drop_last());
        assert((a + b).drop_last() =~= a + b.drop_last());
    }
}

/// Totals worked out apart for two parts of a listing, as concurrent workers
/// do, and combined by saturating addition give the total of the whole
/// listing: no contribution is lost or counted twice, however the listing was
/// split.
pub proof fn lemma_partial_totals_combine(a: Seq<EntryReport>, b: Seq<EntryReport>)
    ensures
        listing_total(a + b) == capped(listing_total(a) + listing_total(b)),
{
    lemma_raw_sum_append(a, b);
}

/// Taking one entry out of a listing takes its contribution off the sum.
proof fn lemma_raw_sum_remove(s: Seq<EntryReport>, i: int)
    requires
        0 <= i < s.len(),
    ensures
        raw_sum(s) == raw_sum(s.remove(i)) + contribution(s[i]),
{
    let l = s.subrange(0, i);
    let m = seq![s[i]];
    let r = s.subrange(i + 1, s.len() as int);
    assert(s =~= l + m + r);
    assert(s.remove(i) =~= l + r);
    assert(m.drop_last() =~= Seq::<EntryReport>::empty());
    assert(raw_sum(Seq::<EntryReport>::empty()) == 0);
    assert(raw_sum(m) == contribution(s[i]));
    lemma_raw_sum_append(l + m, r);
    lemma_raw_sum_append(l, m);
    lemma_raw_sum_append(l, r);
}

/// Two listings that hold the same entries, in any order, have the same sum.
pub proof fn lemma_raw_sum_reorder(a: Seq<EntryReport>, b: Seq<EntryReport>)
    requires
        a.to_multiset() == b.to_multiset(),
    ensures
        raw_sum(a) == raw_sum(b),
    decreases a.len(),
{
    broadcast use vstd::seq_lib::group_to_multiset_ensures;

    if a.len() == 0 {
        assert(b.to_multiset().len() == 0);
    } else {
        let x = a.last();
        let a1 = a.drop_last();
        assert(a =~= a1.push(x));
        assert(a.to_multiset().count(x) > 0);
        assert(b.contains(x));
        let i = choose|i: int| 0 <= i < b.len() && b[i] == x;
        assert(a1.to_multiset() =~= a.to_multiset().remove(x));
        lemma_raw_sum_reorder(a1, b.remove(i));
        lemma_raw_sum_remove(b, i);
    }
}

/// Listing an unchanged directory again, in whatever order the entries come
/// this time, gives the same total.
pub proof fn lemma_rescan_same_total(
    path: Seq<char>,
    first: Seq<EntryReport>,
    second: Seq<EntryReport>,
)
    requires
        first.to_multiset() == second.to_multiset(),
    ensures
        dir_total_of(path, Some(first)) == dir_total_of(path, Some(second)),
{
    lemma_raw_sum_reorder(first, second);
}

/// A subdirectory that could not be listed adds nothing to its parent: the
/// parent's total is what it would be without that entry, and stays defined.
pub proof fn lemma_unlistable_subdir_adds_nothing(
    parent: Seq<char>,
    sub: Seq<char>,
    siblings: Seq<EntryReport>,
)
    ensures
        dir_total_of(parent, Some(siblings.push(EntryReport::Dir(dir_total_of(sub, None)))))
            == dir_total_of(parent, Some(siblings)),
{
    assert(siblings.push(EntryReport::Dir(dir_total_of(sub, None))).drop_last() =~= siblings);
}

} // verus!
