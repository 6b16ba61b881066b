use crate::get_backup::{AllBackups, Backup};
use vstd::prelude::*;

verus! {

/// The instant that a text denotes when read as an RFC 3339 date and time, or
/// `None` where the text is no such date. An instant is the whole seconds
/// since 1970-01-01T00:00:00Z, leap seconds not counted, then the nanoseconds
/// past that second; within a leap second these run from 1,000,000,000 on.
pub uninterp spec fn rfc3339_instant(text: Seq<char>) -> Option<(i64, u32)>;

/// Reads an RFC 3339 date and time with `chrono::DateTime::parse_from_rfc3339`
/// and hands back its `timestamp` and `timestamp_subsec_nanos`, which together
/// order instants as `chrono` orders the dates themselves. Nothing is claimed
/// of which texts parse or to what: the result is only given its name.
#[verifier::external_body]
fn parse_rfc3339(text: &str) -> (instant: Option<(i64, u32)>)
    ensures
        instant == rfc3339_instant(text@),
{
    match chrono::DateTime::parse_from_rfc3339(text) {
        Ok(date) => Some((date.timestamp(), date.timestamp_subsec_nanos())),
        Err(_) => None,
    }
}

/// Whether `a` lies strictly before `b`. A date that could not be read lies
/// before every date that could, and is level with every other unreadable one.
pub open spec fn instant_before(a: Option<(i64, u32)>, b: Option<(i64, u32)>) -> bool {
    match (a, b) {
        (_, None) => false,
        (None, Some(_)) => true,
        (Some(x), Some(y)) => x.0 < y.0 || (x.0 == y.0 && x.1 < y.1),
    }
}

/// Whether position `i` holds the oldest of `instants`: nothing is older, and
/// everything in front of it is strictly younger, so that of several equally
/// old entries the first is the oldest.
pub open spec fn is_oldest(instants: Seq<Option<(i64, u32)>>, i: int) -> bool {
    &&& 0 <= i < instants.len()
    &&& forall|j: int| 0 <= j < i ==> instant_before(instants[i], #[trigger] instants[j])
    &&& forall|j: int| i < j < instants.len() ==> !instant_before(#[trigger] instants[j], instants[i])
}

/// The position of the oldest of `instants`, if there is any instant at all.
pub open spec fn oldest(instants: Seq<Option<(i64, u32)>>) -> Option<int> {
    if instants.len() == 0 {
        None
    } else {
        Some(choose|i: int| is_oldest(instants, i))
    }
}

/// Only one position holds the oldest instant.
pub proof fn lemma_oldest_unique(instants: Seq<Option<(i64, u32)>>, i: int, j: int)
    requires
        is_oldest(instants, i),
        is_oldest(instants, j),
    ensures
        i == j,
{
    if i < j {
        assert(instant_before(instants[j], instants[i]));
    } else if j < i {
        assert(instant_before(instants[i], instants[j]));
    }
}

/// How the oldest moves when a list grows by one entry at its end: the new
/// entry takes the place where it is strictly older than the oldest so far,
/// and the oldest so far keeps it otherwise.
pub proof fn lemma_oldest_of_longer(instants: Seq<Option<(i64, u32)>>, best: int)
    requires
        instants.len() > 0,
        is_oldest(instants.drop_last(), best),
    ensures
        instant_before(instants.last(), instants[best]) ==> is_oldest(
            instants,
            instants.len() - 1,
        ),
        !instant_before(instants.last(), instants[best]) ==> is_oldest(instants, best),
{
    let front = instants.drop_last();
    let last = instants.len() - 1;
    if instant_before(instants[last], instants[best]) {
        assert forall|j: int| 0 <= j < last implies instant_before(
            instants[last],
            #[trigger] instants[j],
        ) by {
            if j < best {
                assert(instant_before(front[best], front[j]));
            } else if j > best {
                assert(!instant_before(front[j], front[best]));
            }
        }
    } else {
        assert forall|j: int| best < j < instants.len() implies !instant_before(
            #[trigger] instants[j],
            instants[best],
        ) by {
            if j < last {
                assert(!instant_before(front[j], front[best]));
            }
        }
        assert forall|j: int| 0 <= j < best implies instant_before(
            instants[best],
            #[trigger] instants[j],
        ) by {
            assert(instant_before(front[best], front[j]));
        }
    }
}

fn before(a: &Option<(i64, u32)>, b: &Option<(i64, u32)>) -> (earlier: bool)
    ensures
        earlier == instant_before(*a, *b),
{
    match (a, b) {
        (_, None) => false,
        (None, Some(_)) => true,
        (Some(x), Some(y)) => x.0 < y.0 || (x.0 == y.0 && x.1 < y.1),
    }
}

/// Finds the oldest of `instants`: `None` for an empty list, else the one
/// position that `is_oldest` admits.
pub fn oldest_index(instants: &Vec<Option<(i64, u32)>>) -> (found: Option<usize>)
    ensures
        match found {
            Some(i) => is_oldest(instants@, i as int) && oldest(instants@) == Some(i as int),
            None => instants@.len() == 0 && oldest(instants@) is None,
        },
{
    if instants.len() == 0 {
        return None;
    }
    let mut best: usize = 0;
    let mut i: usize = 1;
    assert(is_oldest(instants@.subrange(0, 1), 0));
    while i < instants.len()
        invariant
            0 <= best < i <= instants.len(),
            is_oldest(instants@.subrange(0, i as int), best as int),
        decreases instants.len() - i,
    {
        proof {
            assert(instants@.subrange(0, i + 1).drop_last() =~= instants@.subrange(0, i as int));
            lemma_oldest_of_longer(instants@.subrange(0, i + 1), best as int);
        }
        if before(&instants[i], &instants[best]) {
            best = i;
        }
        i = i + 1;
    }
    proof {
        assert(instants@.subrange(0, i as int) =~= instants@);
        lemma_oldest_unique(instants@, best as int, choose|k: int| is_oldest(instants@, k));
    }
    Some(best)
}

/// The creation instants of `backups`, each read from its `date`.
pub open spec fn backup_instants(backups: Seq<Backup>) -> Seq<Option<(i64, u32)>> {
    backups.map_values(|backup: Backup| rfc3339_instant(backup.date@))
}

/// The position of the backup that the server should lose: the oldest one,
/// once the server holds at least `max_server_backups` of them, and none
/// before that.
pub open spec fn server_victim(backups: Seq<Backup>, max_server_backups: nat) -> Option<int> {
    if backups.len() >= max_server_backups {
        oldest(backup_instants(backups))
    } else {
        None
    }
}

/// Picks the backup to delete on the server, at most one: the oldest by
/// creation date where the catalog has reached the limit, with an unreadable
/// date counting as older than any readable one.
pub fn cleanup_old_backups(
    all_backups: &AllBackups,
    max_server_backups: usize,
) -> (victim: Option<&Backup>)
    ensures
        match victim {
            Some(backup) => {
                &&& server_victim(all_backups.backups@, max_server_backups as nat) matches Some(i)
                &&& is_oldest(backup_instants(all_backups.backups@), i)
                &&& *backup == all_backups.backups@[i]
            },
            None => server_victim(all_backups.backups@, max_server_backups as nat) is None,
        },
{
    let backups = &all_backups.backups;
    if backups.len() < max_server_backups {
        return None;
    }
    let mut instants: Vec<Option<(i64, u32)>> = Vec::new();
    let mut i: usize = 0;
    while i < backups.len()
        invariant
            0 <= i <= backups.len(),
            instants@ == backup_instants(backups@.subrange(0, i as int)),
        decreases backups.len() - i,
    {
        let instant = parse_rfc3339(backups[i].date.as_str());
        instants.push(instant);
        assert(instants@ =~= backup_instants(backups@.subrange(0, i + 1)));
        i = i + 1;
    }
    assert(backups@.subrange(0, i as int) =~= backups@);
    match oldest_index(&instants) {
        Some(at) => Some(&backups[at]),
        None => None,
    }
}

/// Server-side retention, as a law: below the limit nothing is deleted; from
/// the limit on, a catalog that holds anything loses exactly its oldest entry.
pub proof fn lemma_server_victim(backups: Seq<Backup>, max_server_backups: nat)
    ensures
        backups.len() < max_server_backups ==> server_victim(backups, max_server_backups) is None,
        backups.len() >= max_server_backups && backups.len() > 0 ==> {
            &&& server_victim(backups, max_server_backups) matches Some(i)
            &&& is_oldest(backup_instants(backups), i)
        },
{
    if backups.len() >= max_server_backups && backups.len() > 0 {
        lemma_oldest_exists(backup_instants(backups));
    }
}

/// A list that holds anything has an oldest entry.
pub proof fn lemma_oldest_exists(instants: Seq<Option<(i64, u32)>>)
    requires
        instants.len() > 0,
    ensures
        oldest(instants) matches Some(i) && is_oldest(instants, i),
    decreases instants.len(),
{
    if instants.len() == 1 {
        assert(is_oldest(instants, 0));
    } else {
        lemma_oldest_exists(instants.drop_last());
        lemma_oldest_of_longer(instants, oldest(instants.drop_last())->0);
    }
}

/// An entry of the local backup directory, as the file system reports it.
/// `created` is the creation time in nanoseconds since 1970-01-01T00:00:00Z,
/// or `None` where the file system would not give one.
#[derive(Debug, Clone, PartialEq, Eq)]
pub struct LocalBackupFile {
    pub path: String,
    pub is_file: bool,
    pub created: Option<i128>,
}

/// The time by which a local file is aged: its creation time, or the start
/// of 1970 where that is not known.
pub open spec fn creation_key(file: LocalBackupFile) -> int {
    match file.created {
        Some(nanos) => nanos as int,
        None => 0,
    }
}

/// Whether entry `i` of the listing is a regular file, and so subject to
/// retention.
pub open spec fn is_candidate(files: Seq<LocalBackupFile>, i: int) -> bool {
    0 <= i < files.len() && files[i].is_file
}

/// Whether entry `i` goes before entry `j` when files are deleted oldest
/// first: by creation time, and among equally old files by place in the
/// listing.
pub open spec fn deleted_before(files: Seq<LocalBackupFile>, i: int, j: int) -> bool {
    creation_key(files[i]) < creation_key(files[j]) || (creation_key(files[i]) == creation_key(
        files[j],
    ) && i < j)
}

/// How many entries of the listing are regular files.
pub open spec fn regular_count(files: Seq<LocalBackupFile>) -> nat
    decreases files.len(),
{
    if files.len() == 0 {
        0
    } else {
        regular_count(files.drop_last()) + if files.last().is_file {
            1nat
        } else {
            0nat
        }
    }
}

/// How many regular files the directory holds beyond `max_local_backups`.
pub open spec fn excess(files: Seq<LocalBackupFile>, max_local_backups: nat) -> nat {
    if regular_count(files) > max_local_backups {
        (regular_count(files) - max_local_backups) as nat
    } else {
        0
    }
}

/// Whether `doomed` lists, in the order of deletion, exactly the files that
/// retention removes: as many regular files as exceed the limit, oldest first,
/// each of them older than every regular file that stays.
pub open spec fn is_local_prune(
    files: Seq<LocalBackupFile>,
    max_local_backups: nat,
    doomed: Seq<usize>,
) -> bool {
    &&& doomed.len() == excess(files, max_local_backups)
    &&& forall|k: int| 0 <= k < doomed.len() ==> is_candidate(files, #[trigger] doomed[k] as int)
    &&& forall|k: int, l: int|
        0 <= k < l < doomed.len() ==> deleted_before(
            files,
            #[trigger] doomed[k] as int,
            #[trigger] doomed[l] as int,
        )
    &&& forall|c: int, k: int|
        is_candidate(files, c) && !doomed.contains(c as usize) && 0 <= k < doomed.len()
            ==> #[trigger] deleted_before(files, doomed[k] as int, c)
}

/// The deletion list of a listing under a limit.
pub open spec fn local_prune(files: Seq<LocalBackupFile>, max_local_backups: nat) -> Seq<usize> {
    choose|doomed: Seq<usize>| is_local_prune(files, max_local_backups, doomed)
}

/// Whether `order` holds every regular file among the first `upto` entries of
/// the listing, once each, oldest first.
pub open spec fn ordered_candidates(
    files: Seq<LocalBackupFile>,
    order: Seq<usize>,
    upto: int,
) -> bool {
    &&& order.len() == regular_count(files.subrange(0, upto))
    &&& forall|q: int|
        0 <= q < order.len() ==> is_candidate(files, #[trigger] order[q] as int) && order[q] < upto
    &&& forall|q: int, r: int|
        0 <= q < r < order.len() ==> deleted_before(
            files,
            #[trigger] order[q] as int,
            #[trigger] order[r] as int,
        )
    &&& forall|c: int| is_candidate(files, c) && c < upto ==> order.contains(c as usize)
}

fn created_at(file: &LocalBackupFile) -> (key: i128)
    ensures
        key == creation_key(*file),
{
    match file.created {
        Some(nanos) => nanos,
        None => 0,
    }
}

/// Puts entry `i`, a regular file, into its place among the older entries.
fn insert_by_age(files: &Vec<LocalBackupFile>, order: &mut Vec<usize>, i: usize)
    requires
        i < files.len(),
        files[i as int].is_file,
        ordered_candidates(files@, old(order)@, i as int),
    ensures
        ordered_candidates(files@, final(order)@, i + 1),
{
    let key = created_at(&files[i]);
    let mut at: usize = 0;
    while at < order.len() && created_at(&files[order[at]]) <= key
        invariant
            0 <= at <= order.len(),
            i < files.len(),
            key == creation_key(files@[i as int]),
            ordered_candidates(files@, order@, i as int),
            forall|q: int| 0 <= q < at ==> creation_key(files@[#[trigger] order@[q] as int]) <= key,
        decreases order.len() - at,
    {
        at = at + 1;
    }
    let ghost was = order@;
    order.insert(at, i);
    proof {
        let now = order@;
        assert(now.len() == was.len() + 1);
        assert(now[at as int] == i);
        assert(forall|q: int| 0 <= q < at ==> now[q] == was[q]);
        assert(forall|q: int| at < q < now.len() ==> now[q] == was[q - 1]);
        assert(files@.subrange(0, i + 1).drop_last() =~= files@.subrange(0, i as int));
        assert forall|q: int, r: int| 0 <= q < r < now.len() implies deleted_before(
            files@,
            #[trigger] now[q] as int,
            #[trigger] now[r] as int,
        ) by {
            if r < at {
                assert(deleted_before(files@, was[q] as int, was[r] as int));
            } else if r == at {
                assert(creation_key(files@[was[q] as int]) <= key);
                assert(is_candidate(files@, was[q] as int) && was[q] < i);
            } else if q == at {
                assert(creation_key(files@[was[at as int] as int]) > key);
                if r - 1 > at {
                    assert(deleted_before(files@, was[at as int] as int, was[r - 1] as int));
                }
            } else if q < at {
                assert(deleted_before(files@, was[q] as int, was[r - 1] as int));
            } else {
                assert(deleted_before(files@, was[q - 1] as int, was[r - 1] as int));
            }
        }
        assert forall|c: int| is_candidate(files@, c) && c < i + 1 implies now.contains(
            c as usize,
        ) by {
            if c == i {
                assert(now[at as int] == c as usize);
            } else {
                assert(was.contains(c as usize));
                let q = choose|q: int| 0 <= q < was.len() && was[q] == c as usize;
                if q < at {
                    assert(now[q] == c as usize);
                } else {
                    assert(now[q + 1] == c as usize);
                }
            }
        }
        assert forall|q: int| 0 <= q < now.len() implies is_candidate(
            files@,
            #[trigger] now[q] as int,
        ) && now[q] < i + 1 by {
            if q < at {
                assert(is_candidate(files@, was[q] as int));
            } else if q > at {
                assert(is_candidate(files@, was[q - 1] as int));
            }
        }
    }
}

/// Picks the local files to delete, in the order in which to delete them:
/// where the directory holds more regular files than `max_local_backups`, the
/// oldest of them by creation time, as many as exceed the limit; else none.
/// Each result is a position in `files`. Entries that are no regular files are
/// never picked and never counted.
pub fn cleanup_old_local_backups(
    files: &Vec<LocalBackupFile>,
    max_local_backups: usize,
) -> (doomed: Vec<usize>)
    ensures
        is_local_prune(files@, max_local_backups as nat, doomed@),
        doomed@ == local_prune(files@, max_local_backups as nat),
{
    let mut order: Vec<usize> = Vec::new();
    let mut i: usize = 0;
    while i < files.len()
        invariant
            0 <= i <= files.len(),
            ordered_candidates(files@, order@, i as int),
        decreases files.len() - i,
    {
        if files[i].is_file {
            insert_by_age(files, &mut order, i);
        } else {
            assert(files@.subrange(0, i + 1).drop_last() =~= files@.subrange(0, i as int));
        }
        i = i + 1;
    }
    assert(files@.subrange(0, i as int) =~= files@);
    let ghost all = order@;
    let keep: usize = if order.len() > max_local_backups {
        order.len() - max_local_backups
    } else {
        0
    };
    order.truncate(keep);
    proof {
        let doomed = order@;
        assert(doomed =~= all.subrange(0, keep as int));
        assert forall|c: int, k: int|
            is_candidate(files@, c) && !doomed.contains(c as usize) && 0 <= k
                < doomed.len() implies #[trigger] deleted_before(files@, doomed[k] as int, c) by {
            assert(all.contains(c as usize));
            let q = choose|q: int| 0 <= q < all.len() && all[q] == c as usize;
            if q < keep {
                assert(doomed[q] == c as usize);
            }
            assert(deleted_before(files@, all[k] as int, all[q] as int));
        }
        assert forall|k: int, l: int| 0 <= k < l < doomed.len() implies deleted_before(
            files@,
            #[trigger] doomed[k] as int,
            #[trigger] doomed[l] as int,
        ) by {
            assert(deleted_before(files@, all[k] as int, all[l] as int));
        }
        assert forall|k: int| 0 <= k < doomed.len() implies is_candidate(
            files@,
            #[trigger] doomed[k] as int,
        ) by {
            assert(is_candidate(files@, all[k] as int));
        }
        assert(is_local_prune(files@, max_local_backups as nat, doomed));
        lemma_local_prune_unique(
            files@,
            max_local_backups as nat,
            doomed,
            local_prune(files@, max_local_backups as nat),
        );
    }
    order
}

/// Two deletion lists for one listing and one limit agree on their first `k`
/// places.
proof fn lemma_local_prune_prefix(
    files: Seq<LocalBackupFile>,
    max_local_backups: nat,
    a: Seq<usize>,
    b: Seq<usize>,
    k: int,
)
    requires
        is_local_prune(files, max_local_backups, a),
        is_local_prune(files, max_local_backups, b),
        0 <= k <= a.len(),
    ensures
        forall|j: int| 0 <= j < k ==> a[j] == b[j],
    decreases k,
{
    if k > 0 {
        lemma_local_prune_prefix(files, max_local_backups, a, b, k - 1);
        let at = k - 1;
        let x = a[at] as int;
        let y = b[at] as int;
        assert(is_candidate(files, x) && is_candidate(files, y));
        if x != y {
            lemma_not_placed_later(files, max_local_backups, a, b, at);
            lemma_not_placed_later(files, max_local_backups, b, a, at);
            assert(deleted_before(files, y, x));
            assert(deleted_before(files, x, y));
        }
    }
}

/// Where two deletion lists agree in front of place `at`, what the second
/// holds at `at` goes before what the first holds there, unless they agree
/// there too.
proof fn lemma_not_placed_later(
    files: Seq<LocalBackupFile>,
    max_local_backups: nat,
    a: Seq<usize>,
    b: Seq<usize>,
    at: int,
)
    requires
        is_local_prune(files, max_local_backups, a),
        is_local_prune(files, max_local_backups, b),
        0 <= at < a.len(),
        forall|j: int| 0 <= j < at ==> a[j] == b[j],
        a[at] != b[at],
    ensures
        deleted_before(files, b[at] as int, a[at] as int),
{
    let x = a[at];
    assert(is_candidate(files, x as int));
    if b.contains(x) {
        let l = choose|l: int| 0 <= l < b.len() && b[l] == x;
        if l < at {
            assert(deleted_before(files, a[l] as int, a[at] as int));
        } else {
            assert(deleted_before(files, b[at] as int, b[l] as int));
        }
    } else {
        assert(deleted_before(files, b[at] as int, x as int));
    }
}

/// Local retention is decided by the listing and the limit alone: there is
/// one deletion list, and one order in it.
pub proof fn lemma_local_prune_unique(
    files: Seq<LocalBackupFile>,
    max_local_backups: nat,
    a: Seq<usize>,
    b: Seq<usize>,
)
    requires
        is_local_prune(files, max_local_backups, a),
        is_local_prune(files, max_local_backups, b),
    ensures
        a == b,
{
    lemma_local_prune_prefix(files, max_local_backups, a, b, a.len() as int);
    assert(a =~= b);
}

/// Local retention, as a law. A directory with no more regular files than
/// the limit loses none. One with more loses exactly the excess, and no file
/// that stays was created before a file that goes; where all creation times
/// differ, every file that goes is strictly older than every file that stays.
pub proof fn lemma_local_prune_takes_oldest(
    files: Seq<LocalBackupFile>,
    max_local_backups: nat,
    doomed: Seq<usize>,
)
    requires
        is_local_prune(files, max_local_backups, doomed),
    ensures
        regular_count(files) <= max_local_backups ==> doomed.len() == 0,
        regular_count(files) > max_local_backups ==> doomed.len() == regular_count(files)
            - max_local_backups,
        forall|k: int, l: int| 0 <= k < l < doomed.len() ==> doomed[k] != doomed[l],
        forall|c: int, k: int|
            is_candidate(files, c) && !doomed.contains(c as usize) && 0 <= k < doomed.len()
                ==> creation_key(files[#[trigger] doomed[k] as int]) <= #[trigger] creation_key(
                files[c],
            ),
        (forall|i: int, j: int|
            is_candidate(files, i) && is_candidate(files, j) && i != j ==> creation_key(files[i])
                != creation_key(files[j])) ==> forall|c: int, k: int|
            is_candidate(files, c) && !doomed.contains(c as usize) && 0 <= k < doomed.len()
                ==> creation_key(files[#[trigger] doomed[k] as int]) < #[trigger] creation_key(
                files[c],
            ),
{
    assert forall|k: int, l: int| 0 <= k < l < doomed.len() implies doomed[k] != doomed[l] by {
        assert(deleted_before(files, doomed[k] as int, doomed[l] as int));
    }
    assert forall|c: int, k: int|
        is_candidate(files, c) && !doomed.contains(c as usize) && 0 <= k
            < doomed.len() implies creation_key(files[#[trigger] doomed[k] as int])
        <= #[trigger] creation_key(files[c]) by {
        assert(deleted_before(files, doomed[k] as int, c));
    }
    if forall|i: int, j: int|
        is_candidate(files, i) && is_candidate(files, j) && i != j ==> creation_key(files[i])
            != creation_key(files[j]) {
        assert forall|c: int, k: int|
            is_candidate(files, c) && !doomed.contains(c as usize) && 0 <= k
                < doomed.len() implies creation_key(files[#[trigger] doomed[k] as int])
            < #[trigger] creation_key(files[c]) by {
            assert(deleted_before(files, doomed[k] as int, c));
            assert(is_candidate(files, doomed[k] as int));
            assert(doomed.contains(doomed[k]));
        }
    }
}

} // verus!
