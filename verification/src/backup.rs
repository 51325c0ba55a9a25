//! Backup naming and the retention rule.
//!
//! After every flush the canonical artifact is copied into a retention
//! directory under `vault-backup-<stamp>.encrypted`; then all but the most
//! recent [`BACKUP_KEEP_COUNT`] such copies are pruned. Files that do not
//! follow the naming convention are never touched. Ties on the modification
//! stamp are broken towards the earlier directory entry, and pruning never
//! removes more than `count - keep` matching files.

use vstd::prelude::*;
use vstd::string::StringExecFns;

use crate::text::{chars_of, starts_with_chars, ends_with_chars, starts_with_spec, ends_with_spec};

verus! {

/// How many retention backups are kept.
pub const BACKUP_KEEP_COUNT: usize = 7;

/// One file in a retention directory: its name and its modification stamp.
pub struct BackupEntry {
    /// The file name.
    pub name: String,
    /// The modification time, as a monotone stamp.
    pub modified: u64,
}

/// A fresh copy of an entry.
pub fn copy_entry(e: &BackupEntry) -> (r: BackupEntry)
    ensures
        r == *e,
{
    let r = BackupEntry { name: e.name.clone(), modified: e.modified };
    proof {
        assert(r.name == e.name && r.modified == e.modified);
    }
    r
}

/// The name a backup of the artifact gets for a given timestamp.
pub open spec fn backup_file_name_spec(stamp: Seq<char>) -> Seq<char> {
    "vault-backup-"@ + stamp + ".encrypted"@
}

/// Builds the backup file name for a timestamp.
pub fn backup_file_name(stamp: &str) -> (r: String)
    ensures
        r@ == backup_file_name_spec(stamp@),
{
    let mut s = String::from_str("vault-backup-");
    s.append(stamp);
    s.append(".encrypted");
    proof {
        assert(s@ =~= backup_file_name_spec(stamp@));
    }
    s
}

/// Whether a file name follows the backup naming convention.
pub open spec fn is_backup_name_spec(name: Seq<char>) -> bool {
    starts_with_spec(name, "vault-backup-"@) && ends_with_spec(name, ".encrypted"@)
}

/// Executable form of [`is_backup_name_spec`].
pub fn is_backup_name(name: &String) -> (r: bool)
    ensures
        r == is_backup_name_spec(name@),
{
    let cs = chars_of(name.as_str());
    starts_with_chars(&cs, "vault-backup-") && ends_with_chars(&cs, ".encrypted")
}

/// A generated backup name always follows the naming convention.
pub proof fn lemma_backup_name_matches(stamp: Seq<char>)
    ensures
        is_backup_name_spec(backup_file_name_spec(stamp)),
{
    let p = "vault-backup-"@;
    let x = ".encrypted"@;
    let n = backup_file_name_spec(stamp);
    assert(n.subrange(0, p.len() as int) =~= p);
    assert(n.subrange(n.len() - x.len(), n.len() as int) =~= x);
}

/// Entry `j` is retained in preference to entry `i`: it is newer, or as new
/// and earlier in the directory listing.
pub open spec fn outranks(s: Seq<BackupEntry>, j: int, i: int) -> bool {
    s[j].modified > s[i].modified || (s[j].modified == s[i].modified && j < i)
}

/// How many matching entries among the first `upto` outrank entry `i`.
pub open spec fn rank_upto(s: Seq<BackupEntry>, i: int, upto: int) -> nat
    decreases upto,
{
    if upto <= 0 {
        0
    } else {
        rank_upto(s, i, upto - 1) + if is_backup_name_spec(s[upto - 1].name@) && upto - 1 != i
            && outranks(s, upto - 1, i) {
            1nat
        } else {
            0nat
        }
    }
}

/// How many matching entries outrank entry `i`: its age rank, newest first.
pub open spec fn rank(s: Seq<BackupEntry>, i: int) -> nat {
    rank_upto(s, i, s.len() as int)
}

/// Entry `i` survives pruning with the given retention count: either its
/// name does not follow the backup convention (pruning never touches it),
/// or it is among the `keep` most recent matching entries.
pub open spec fn survives(s: Seq<BackupEntry>, keep: int, i: int) -> bool {
    !is_backup_name_spec(s[i].name@) || rank(s, i) < keep
}

/// The entries left after pruning, in their original order.
pub open spec fn retained_upto(s: Seq<BackupEntry>, keep: int, upto: int) -> Seq<BackupEntry>
    decreases upto,
{
    if upto <= 0 {
        Seq::empty()
    } else {
        let pre = retained_upto(s, keep, upto - 1);
        if survives(s, keep, upto - 1) {
            pre.push(s[upto - 1])
        } else {
            pre
        }
    }
}

/// The entries left after pruning a whole directory listing.
pub open spec fn retained(s: Seq<BackupEntry>, keep: int) -> Seq<BackupEntry> {
    retained_upto(s, keep, s.len() as int)
}

/// The age rank of one entry, counting matching entries that are newer (or
/// as new and earlier in the listing).
#[verifier::loop_isolation(false)]
fn rank_of(entries: &Vec<BackupEntry>, i: usize) -> (r: usize)
    requires
        i < entries@.len(),
    ensures
        r == rank(entries@, i as int),
{
    let n = entries.len();
    let mut c: usize = 0;
    let mut j: usize = 0;
    while j < n
        invariant
            j <= n,
            c == rank_upto(entries@, i as int, j as int),
            c <= j,
        decreases n - j,
    {
        let e = &entries[j];
        if j != i && is_backup_name(&e.name) {
            let x = &entries[i];
            if e.modified > x.modified || (e.modified == x.modified && j < i) {
                c = c + 1;
            }
        }
        j = j + 1;
    }
    c
}

/// Prunes a retention directory listing: keeps every file that does not
/// follow the backup naming convention, and of the matching backups keeps
/// exactly the `keep` most recent (ties towards the earlier entry), in
/// their original order.
#[verifier::loop_isolation(false)]
pub fn prune_backups(entries: &Vec<BackupEntry>, keep: usize) -> (r: Vec<BackupEntry>)
    ensures
        r@ == retained(entries@, keep as int),
{
    let n = entries.len();
    let mut r: Vec<BackupEntry> = Vec::new();
    let mut i: usize = 0;
    while i < n
        invariant
            i <= n,
            r@ == retained_upto(entries@, keep as int, i as int),
        decreases n - i,
    {
        let e = &entries[i];
        if !is_backup_name(&e.name) {
            r.push(copy_entry(e));
            proof {
                assert(r@ =~= retained_upto(entries@, keep as int, i + 1 as int));
            }
        } else {
            let rk = rank_of(entries, i);
            if rk < keep {
                r.push(copy_entry(e));
                proof {
                    assert(r@ =~= retained_upto(entries@, keep as int, i + 1 as int));
                }
            }
        }
        i = i + 1;
    }
    r
}

} // verus!

verus! {

proof fn lemma_rank_dominates(s: Seq<BackupEntry>, j: int, i: int, upto: int)
    requires
        0 <= i < s.len(),
        0 <= j < s.len(),
        i != j,
        is_backup_name_spec(s[j].name@),
        outranks(s, j, i),
        0 <= upto <= s.len(),
    ensures
        rank_upto(s, i, upto) >= rank_upto(s, j, upto) + (if j < upto {
            1int
        } else {
            0int
        }),
    decreases upto,
{
    if upto > 0 {
        lemma_rank_dominates(s, j, i, upto - 1);
        let k = upto - 1;
        if is_backup_name_spec(s[k].name@) && k != j && outranks(s, k, j) {
            // Whatever outranks `j` also outranks `i`, and is not `i`.
            assert(outranks(s, k, i));
            assert(k != i);
        }
    }
}

/// The retention rule keeps the most recent backups: a matching entry that
/// survives pruning is newer than every matching entry that is pruned (or
/// as new and earlier in the listing).
pub proof fn lemma_retention_keeps_most_recent(s: Seq<BackupEntry>, keep: int, i: int, j: int)
    requires
        0 <= i < s.len(),
        0 <= j < s.len(),
        i != j,
        is_backup_name_spec(s[i].name@),
        is_backup_name_spec(s[j].name@),
        survives(s, keep, i),
        !survives(s, keep, j),
    ensures
        outranks(s, i, j),
{
    if !outranks(s, i, j) {
        // The preference order is total on distinct entries.
        assert(outranks(s, j, i));
        lemma_rank_dominates(s, j, i, s.len() as int);
        // So `i` is outranked by strictly more entries than `j`, yet `i`
        // survived and `j` did not: impossible.
        assert(rank(s, i) >= rank(s, j) + 1);
        assert(false);
    }
}

} // verus!

verus! {

/// The indices of the convention-matching entries of a listing.
pub open spec fn matching_set(s: Seq<BackupEntry>) -> Set<int> {
    Set::new(|i: int| 0 <= i < s.len() && is_backup_name_spec(s[i].name@))
}

/// The indices of the matching entries that survive pruning.
pub open spec fn surviving_set(s: Seq<BackupEntry>, keep: int) -> Set<int> {
    Set::new(|i: int| 0 <= i < s.len() && is_backup_name_spec(s[i].name@) && rank(s, i) < keep)
}

/// The matching indices below `upto`.
spec fn matching_below(s: Seq<BackupEntry>, upto: int) -> Set<int> {
    Set::new(|i: int| 0 <= i < upto && is_backup_name_spec(s[i].name@))
}

proof fn lemma_matching_below_finite(s: Seq<BackupEntry>, upto: int)
    requires
        0 <= upto <= s.len(),
    ensures
        matching_below(s, upto).finite(),
        matching_below(s, upto).len() <= upto,
    decreases upto,
{
    broadcast use vstd::set::group_set_axioms;

    if upto == 0 {
        assert(matching_below(s, 0) =~= Set::<int>::empty());
    } else {
        lemma_matching_below_finite(s, upto - 1);
        if is_backup_name_spec(s[upto - 1].name@) {
            assert(matching_below(s, upto) =~= matching_below(s, upto - 1).insert(upto - 1));
        } else {
            assert(matching_below(s, upto) =~= matching_below(s, upto - 1));
        }
    }
}

proof fn lemma_rank_below_matching(s: Seq<BackupEntry>, i: int, upto: int)
    requires
        0 <= i < s.len(),
        0 <= upto <= s.len(),
    ensures
        rank_upto(s, i, upto) + (if 0 <= i < upto && is_backup_name_spec(s[i].name@) {
            1int
        } else {
            0int
        }) <= matching_below(s, upto).len(),
    decreases upto,
{
    broadcast use vstd::set::group_set_axioms;

    if upto > 0 {
        lemma_rank_below_matching(s, i, upto - 1);
        lemma_matching_below_finite(s, upto - 1);
        let k = upto - 1;
        if is_backup_name_spec(s[k].name@) {
            assert(matching_below(s, upto) =~= matching_below(s, upto - 1).insert(k));
        } else {
            assert(matching_below(s, upto) =~= matching_below(s, upto - 1));
        }
    }
}

proof fn lemma_rank_injective(s: Seq<BackupEntry>, i: int, j: int)
    requires
        0 <= i < s.len(),
        0 <= j < s.len(),
        i != j,
        is_backup_name_spec(s[i].name@),
        is_backup_name_spec(s[j].name@),
    ensures
        rank(s, i) != rank(s, j),
{
    if outranks(s, j, i) {
        lemma_rank_dominates(s, j, i, s.len() as int);
    } else {
        assert(outranks(s, i, j));
        lemma_rank_dominates(s, i, j, s.len() as int);
    }
}

proof fn lemma_subset_same_len(a: Set<int>, b: Set<int>)
    requires
        b.finite(),
        a.subset_of(b),
        a.len() == b.len(),
    ensures
        a == b,
{
    broadcast use vstd::set::group_set_axioms;

    if exists|x: int| b.contains(x) && !a.contains(x) {
        let x = choose|x: int| b.contains(x) && !a.contains(x);
        assert(a.subset_of(b.remove(x)));
        vstd::set_lib::lemma_len_subset(a, b.remove(x));
        assert(false);
    }
    assert(a =~= b);
}

/// The retention rule keeps exactly `min(m, keep)` of the `m`
/// convention-matching backups: never more than `keep` remain, and never
/// more than `m - keep` are deleted, ties notwithstanding.
pub proof fn lemma_retention_count(s: Seq<BackupEntry>, keep: int)
    requires
        keep >= 0,
    ensures
        matching_set(s).finite(),
        surviving_set(s, keep).finite(),
        surviving_set(s, keep).len() == if matching_set(s).len() <= keep {
            matching_set(s).len() as int
        } else {
            keep
        },
{
    broadcast use vstd::set::group_set_axioms;

    let m_set = matching_set(s);
    assert(m_set =~= matching_below(s, s.len() as int));
    lemma_matching_below_finite(s, s.len() as int);
    let m = m_set.len() as int;
    let rankf = |i: int| rank(s, i) as int;

    assert forall|i: int, j: int|
        m_set.contains(i) && m_set.contains(j) && #[trigger] rankf(i) == #[trigger] rankf(
            j,
        ) implies i == j by {
        if i != j {
            lemma_rank_injective(s, i, j);
        }
    }
    assert(vstd::relations::injective_on(rankf, m_set));

    let r_img = m_set.map(rankf);
    vstd::set_lib::lemma_map_size(m_set, r_img, rankf);

    assert forall|y: int| r_img.contains(y) implies vstd::set_lib::set_int_range(
        0,
        m,
    ).contains(y) by {
        let i = choose|i: int| m_set.contains(i) && rankf(i) == y;
        lemma_rank_below_matching(s, i, s.len() as int);
    }
    vstd::set_lib::lemma_int_range(0, m);
    lemma_subset_same_len(r_img, vstd::set_lib::set_int_range(0, m));

    let s_set = surviving_set(s, keep);
    assert(s_set.subset_of(m_set));
    vstd::set_lib::lemma_len_subset(s_set, m_set);
    assert(vstd::relations::injective_on(rankf, s_set));
    let s_img = s_set.map(rankf);
    vstd::set_lib::lemma_map_size(s_set, s_img, rankf);

    let cut = if m <= keep {
        m
    } else {
        keep
    };
    assert forall|y: int| #[trigger] s_img.contains(y) implies vstd::set_lib::set_int_range(
        0,
        cut,
    ).contains(y) by {
        let i = choose|i: int| s_set.contains(i) && rankf(i) == y;
        lemma_rank_below_matching(s, i, s.len() as int);
    }
    assert forall|y: int| vstd::set_lib::set_int_range(0, cut).contains(
        y,
    ) implies #[trigger] s_img.contains(y) by {
        assert(r_img.contains(y));
        let i = choose|i: int| m_set.contains(i) && rankf(i) == y;
        assert(s_set.contains(i));
    }
    assert(s_img =~= vstd::set_lib::set_int_range(0, cut));
    vstd::set_lib::lemma_int_range(0, cut);
}

} // verus!
