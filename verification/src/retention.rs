//! The retention/rotation engine: given a listing of artifacts and a
//! retention policy, compute the subset to delete.
//!
//! Both algorithms work pointwise over the listing, scoped to one logical
//! object by `same_identity` — an artifact of another host, kind or object
//! name never crowds an artifact out.  `FlatCount(n)` keeps, per object, the
//! `n` newest artifacts (ties broken stably by listing order).  `Tiered`
//! classifies each artifact by its age from "now" into at most one bucket
//! and keeps, per object and bucket, the oldest `count(bucket)` artifacts;
//! an artifact older than every bucket is never deleted, and a policy whose
//! four counts are all zero short-circuits to a no-op.

use vstd::prelude::*;

use crate::config::string_eq;
use crate::storage::{BackupObject, BackupObjectView};
use crate::timestamp::Timestamp;

verus! {

/// The rule set deciding how many and which artifacts survive rotation.
#[derive(Debug, Clone, Copy, PartialEq, Eq, Structural)]
pub enum RetentionPolicy {
    /// Keep the `n` most recent artifacts per object; delete the rest.
    FlatCount(u32),
    /// Keep per age bucket the configured number of artifacts per object.
    Tiered { daily: u32, weekly: u32, monthly: u32, yearly: u32 },
}

/// Two artifacts stand for the same logical object.
pub open spec fn same_identity(a: BackupObjectView, b: BackupObjectView) -> bool {
    a.xen_host == b.xen_host && a.job_type == b.job_type && a.vm_name == b.vm_name
}

/// Whether the two artifacts stand for the same logical object.
pub fn same_identity_exec(a: &BackupObject, b: &BackupObject) -> (r: bool)
    ensures
        r == same_identity(a.deep_view(), b.deep_view()),
{
    string_eq(&a.xen_host, &b.xen_host) && a.job_type == b.job_type && string_eq(
        &a.vm_name,
        &b.vm_name,
    )
}

// --------------------------------------------------------------------------
// FlatCount
// --------------------------------------------------------------------------
/// `s[j]` precedes `s[i]` in the keep order of `i`'s object: same object
/// and newer, or equally old and earlier in the listing.
pub open spec fn newer_first(s: Seq<BackupObjectView>, j: int, i: int) -> bool {
    &&& 0 <= j < s.len()
    &&& same_identity(s[j], s[i])
    &&& (s[j].time_stamp > s[i].time_stamp || (s[j].time_stamp == s[i].time_stamp && j < i))
}

/// How many of the first `upto` artifacts precede `s[i]` in keep order.
pub open spec fn nbetter(s: Seq<BackupObjectView>, i: int, upto: int) -> nat
    decreases upto,
{
    if upto <= 0 {
        0
    } else {
        nbetter(s, i, upto - 1) + (if newer_first(s, upto - 1, i) {
            1nat
        } else {
            0nat
        })
    }
}

/// `FlatCount(n)` keeps `s[i]` iff fewer than `n` artifacts of its object
/// precede it in keep order.
pub open spec fn flat_keeps(s: Seq<BackupObjectView>, n: int, i: int) -> bool {
    nbetter(s, i, s.len() as int) < n
}

/// The artifacts among the first `k` that `FlatCount(n)` deletes, in
/// listing order.
pub open spec fn flat_victims_upto(s: Seq<BackupObjectView>, n: int, k: int) -> Seq<
    BackupObjectView,
>
    decreases k,
{
    if k <= 0 {
        Seq::empty()
    } else {
        flat_victims_upto(s, n, k - 1) + (if !flat_keeps(s, n, k - 1) {
            seq![s[k - 1]]
        } else {
            Seq::empty()
        })
    }
}

/// Everything `FlatCount(n)` deletes from the listing `s`.
pub open spec fn flat_victims(s: Seq<BackupObjectView>, n: int) -> Seq<BackupObjectView> {
    flat_victims_upto(s, n, s.len() as int)
}

/// The artifacts among the first `k` that `FlatCount(n)` keeps, in listing
/// order.
pub open spec fn flat_kept_upto(s: Seq<BackupObjectView>, n: int, k: int) -> Seq<
    BackupObjectView,
>
    decreases k,
{
    if k <= 0 {
        Seq::empty()
    } else {
        flat_kept_upto(s, n, k - 1) + (if flat_keeps(s, n, k - 1) {
            seq![s[k - 1]]
        } else {
            Seq::empty()
        })
    }
}

/// Everything `FlatCount(n)` keeps of the listing `s`.
pub open spec fn flat_kept(s: Seq<BackupObjectView>, n: int) -> Seq<BackupObjectView> {
    flat_kept_upto(s, n, s.len() as int)
}

/// Whether `objs[j]` precedes `objs[i]` in keep order.
fn newer_first_exec(objs: &Vec<BackupObject>, j: usize, i: usize) -> (r: bool)
    requires
        j < objs@.len(),
        i < objs@.len(),
    ensures
        r == newer_first(objs.deep_view(), j as int, i as int),
{
    let a = &objs[j];
    let b = &objs[i];
    same_identity_exec(a, b) && (a.time_stamp.secs > b.time_stamp.secs || (a.time_stamp.secs
        == b.time_stamp.secs && j < i))
}

/// The keep rank of `objs[i]`: how many artifacts of its object precede it.
fn rank_of(objs: &Vec<BackupObject>, i: usize) -> (r: usize)
    requires
        i < objs@.len(),
    ensures
        r as nat == nbetter(objs.deep_view(), i as int, objs@.len() as int),
{
    let mut count: usize = 0;
    let mut j: usize = 0;
    while j < objs.len()
        invariant
            j <= objs@.len(),
            i < objs@.len(),
            count <= j,
            count as nat == nbetter(objs.deep_view(), i as int, j as int),
        decreases objs@.len() - j,
    {
        if newer_first_exec(objs, j, i) {
            count = count + 1;
        }
        j = j + 1;
    }
    count
}

/// The artifacts that `FlatCount(n)` deletes, in listing order: exactly
/// those with keep rank at least `n`.  With distinct timestamps and more
/// than `n` artifacts of one object, these are the oldest beyond the `n`
/// newest; with at most `n` artifacts of an object, none of them.
pub fn select_flat_victims(objs: &Vec<BackupObject>, n: u32) -> (r: Vec<BackupObject>)
    ensures
        r.deep_view() == flat_victims(objs.deep_view(), n as int),
{
    let mut r: Vec<BackupObject> = Vec::new();
    let mut i: usize = 0;
    proof {
        assert(r.deep_view() =~= flat_victims_upto(objs.deep_view(), n as int, 0));
    }
    while i < objs.len()
        invariant
            i <= objs@.len(),
            r.deep_view() == flat_victims_upto(objs.deep_view(), n as int, i as int),
        decreases objs@.len() - i,
    {
        let ghost r_before = r.deep_view();
        let rank = rank_of(objs, i);
        if rank >= n as usize {
            let v = objs[i].clone();
            r.push(v);
            proof {
                assert(!flat_keeps(objs.deep_view(), n as int, i as int));
                assert(r.deep_view() =~= r_before + seq![objs.deep_view()[i as int]]);
            }
        } else {
            proof {
                assert(flat_keeps(objs.deep_view(), n as int, i as int));
                assert(r.deep_view() =~= r_before + Seq::<BackupObjectView>::empty());
            }
        }
        i = i + 1;
    }
    r
}

/// The artifacts that `FlatCount(n)` keeps, in listing order.
pub fn select_flat_kept(objs: &Vec<BackupObject>, n: u32) -> (r: Vec<BackupObject>)
    ensures
        r.deep_view() == flat_kept(objs.deep_view(), n as int),
{
    let mut r: Vec<BackupObject> = Vec::new();
    let mut i: usize = 0;
    proof {
        assert(r.deep_view() =~= flat_kept_upto(objs.deep_view(), n as int, 0));
    }
    while i < objs.len()
        invariant
            i <= objs@.len(),
            r.deep_view() == flat_kept_upto(objs.deep_view(), n as int, i as int),
        decreases objs@.len() - i,
    {
        let ghost r_before = r.deep_view();
        let rank = rank_of(objs, i);
        if rank < n as usize {
            let v = objs[i].clone();
            r.push(v);
            proof {
                assert(flat_keeps(objs.deep_view(), n as int, i as int));
                assert(r.deep_view() =~= r_before + seq![objs.deep_view()[i as int]]);
            }
        } else {
            proof {
                assert(!flat_keeps(objs.deep_view(), n as int, i as int));
                assert(r.deep_view() =~= r_before + Seq::<BackupObjectView>::empty());
            }
        }
        i = i + 1;
    }
    r
}

// --------------------------------------------------------------------------
// Tiered
// --------------------------------------------------------------------------
/// The age buckets, youngest first.
#[derive(Debug, Clone, Copy, PartialEq, Eq, Structural)]
pub enum AgeBucket {
    Daily,
    Weekly,
    Monthly,
    Yearly,
}

/// The bucket an artifact of instant `ts` falls into at call instant `now`,
/// by `<=` boundaries in order: one day, seven days, thirty days, one year.
/// Anything older falls into no bucket and is never deleted by the tiered
/// algorithm.
pub open spec fn age_bucket(ts: i64, now: i64) -> Option<AgeBucket> {
    let age = now - ts;
    if age <= 86400 {
        Some(AgeBucket::Daily)
    } else if age <= 604800 {
        Some(AgeBucket::Weekly)
    } else if age <= 2592000 {
        Some(AgeBucket::Monthly)
    } else if age <= 31536000 {
        Some(AgeBucket::Yearly)
    } else {
        None
    }
}

/// **Tiered boundary law**: classification uses `<=`, so an artifact
/// exactly one day old is daily, not weekly; exactly seven days old weekly,
/// not monthly; exactly thirty days old monthly; exactly a year old yearly;
/// and anything older than a year falls into no bucket.
pub proof fn lemma_tiered_boundaries(ts: i64, now: i64)
    ensures
        now - ts == 86400 ==> age_bucket(ts, now) == Some(AgeBucket::Daily),
        now - ts == 604800 ==> age_bucket(ts, now) == Some(AgeBucket::Weekly),
        now - ts == 2592000 ==> age_bucket(ts, now) == Some(AgeBucket::Monthly),
        now - ts == 31536000 ==> age_bucket(ts, now) == Some(AgeBucket::Yearly),
        now - ts > 31536000 ==> age_bucket(ts, now) is None,
{
}

/// Executable bucket classification; the age is computed in a wider
/// integer type, so any pair of instants is accepted.
pub fn age_bucket_exec(ts: Timestamp, now: Timestamp) -> (r: Option<AgeBucket>)
    ensures
        r == age_bucket(ts.secs, now.secs),
{
    let age: i128 = now.secs as i128 - ts.secs as i128;
    if age <= 86400 {
        Some(AgeBucket::Daily)
    } else if age <= 604800 {
        Some(AgeBucket::Weekly)
    } else if age <= 2592000 {
        Some(AgeBucket::Monthly)
    } else if age <= 31536000 {
        Some(AgeBucket::Yearly)
    } else {
        None
    }
}

/// How many artifacts the tiered policy grants to bucket `b`.
pub open spec fn bucket_allowance(
    daily: u32,
    weekly: u32,
    monthly: u32,
    yearly: u32,
    b: AgeBucket,
) -> int {
    match b {
        AgeBucket::Daily => daily as int,
        AgeBucket::Weekly => weekly as int,
        AgeBucket::Monthly => monthly as int,
        AgeBucket::Yearly => yearly as int,
    }
}

/// `s[j]` precedes `s[i]` in the tiered walk of `i`'s object and bucket:
/// same object, same bucket at `now`, and older — or equally old and
/// earlier in the listing.
pub open spec fn older_first(s: Seq<BackupObjectView>, now: i64, j: int, i: int) -> bool {
    &&& 0 <= j < s.len()
    &&& same_identity(s[j], s[i])
    &&& age_bucket(s[j].time_stamp, now) == age_bucket(s[i].time_stamp, now)
    &&& (s[j].time_stamp < s[i].time_stamp || (s[j].time_stamp == s[i].time_stamp && j < i))
}

/// How many of the first `upto` artifacts precede `s[i]` in its bucket walk.
pub open spec fn ncrowding(s: Seq<BackupObjectView>, now: i64, i: int, upto: int) -> nat
    decreases upto,
{
    if upto <= 0 {
        0
    } else {
        ncrowding(s, now, i, upto - 1) + (if older_first(s, now, upto - 1, i) {
            1nat
        } else {
            0nat
        })
    }
}

/// The tiered policy keeps `s[i]` iff it falls into no bucket, or its
/// bucket's running counter has not yet exceeded the bucket's allowance
/// when the walk reaches it.
pub open spec fn tiered_keeps(
    s: Seq<BackupObjectView>,
    daily: u32,
    weekly: u32,
    monthly: u32,
    yearly: u32,
    now: i64,
    i: int,
) -> bool {
    match age_bucket(s[i].time_stamp, now) {
        None => true,
        Some(b) => ncrowding(s, now, i, s.len() as int) < bucket_allowance(
            daily,
            weekly,
            monthly,
            yearly,
            b,
        ),
    }
}

/// The artifacts among the first `k` that the tiered policy deletes.
pub open spec fn tiered_victims_upto(
    s: Seq<BackupObjectView>,
    daily: u32,
    weekly: u32,
    monthly: u32,
    yearly: u32,
    now: i64,
    k: int,
) -> Seq<BackupObjectView>
    decreases k,
{
    if k <= 0 {
        Seq::empty()
    } else {
        tiered_victims_upto(s, daily, weekly, monthly, yearly, now, k - 1) + (if !tiered_keeps(
            s,
            daily,
            weekly,
            monthly,
            yearly,
            now,
            k - 1,
        ) {
            seq![s[k - 1]]
        } else {
            Seq::empty()
        })
    }
}

/// Everything the tiered policy deletes from the listing `s` at instant
/// `now`; a policy whose four counts are all zero is an explicit no-op.
pub open spec fn tiered_victims(
    s: Seq<BackupObjectView>,
    daily: u32,
    weekly: u32,
    monthly: u32,
    yearly: u32,
    now: i64,
) -> Seq<BackupObjectView> {
    if daily == 0 && weekly == 0 && monthly == 0 && yearly == 0 {
        Seq::empty()
    } else {
        tiered_victims_upto(s, daily, weekly, monthly, yearly, now, s.len() as int)
    }
}

/// Everything the policy `p` deletes from the listing `s` at instant `now`.
pub open spec fn victims_of(s: Seq<BackupObjectView>, p: RetentionPolicy, now: i64) -> Seq<
    BackupObjectView,
> {
    match p {
        RetentionPolicy::FlatCount(n) => flat_victims(s, n as int),
        RetentionPolicy::Tiered { daily, weekly, monthly, yearly } => tiered_victims(
            s,
            daily,
            weekly,
            monthly,
            yearly,
            now,
        ),
    }
}

/// Whether `objs[j]` precedes `objs[i]` in its bucket walk.
fn older_first_exec(objs: &Vec<BackupObject>, now: Timestamp, j: usize, i: usize) -> (r: bool)
    requires
        j < objs@.len(),
        i < objs@.len(),
    ensures
        r == older_first(objs.deep_view(), now.secs, j as int, i as int),
{
    let a = &objs[j];
    let b = &objs[i];
    proof {
        assert(objs.deep_view()[j as int].time_stamp == a.time_stamp.secs);
        assert(objs.deep_view()[i as int].time_stamp == b.time_stamp.secs);
    }
    let ba = age_bucket_exec(a.time_stamp, now);
    let bb = age_bucket_exec(b.time_stamp, now);
    same_identity_exec(a, b) && ba == bb && (a.time_stamp.secs < b.time_stamp.secs
        || (a.time_stamp.secs == b.time_stamp.secs && j < i))
}

/// The artifacts that the tiered policy deletes, in listing order: per
/// object and bucket, everything beyond the oldest `count(bucket)`
/// artifacts; unbucketed artifacts and everything under an all-zero policy
/// survive.
pub fn select_tiered_victims(
    objs: &Vec<BackupObject>,
    daily: u32,
    weekly: u32,
    monthly: u32,
    yearly: u32,
    now: Timestamp,
) -> (r: Vec<BackupObject>)
    ensures
        r.deep_view() == tiered_victims(
            objs.deep_view(),
            daily,
            weekly,
            monthly,
            yearly,
            now.secs,
        ),
{
    let mut r: Vec<BackupObject> = Vec::new();
    if daily == 0 && weekly == 0 && monthly == 0 && yearly == 0 {
        proof {
            assert(r.deep_view() =~= tiered_victims(
                objs.deep_view(),
                daily,
                weekly,
                monthly,
                yearly,
                now.secs,
            ));
        }
        return r;
    }
    let mut i: usize = 0;
    proof {
        assert(r.deep_view() =~= tiered_victims_upto(
            objs.deep_view(),
            daily,
            weekly,
            monthly,
            yearly,
            now.secs,
            0,
        ));
    }
    while i < objs.len()
        invariant
            i <= objs@.len(),
            r.deep_view() == tiered_victims_upto(
                objs.deep_view(),
                daily,
                weekly,
                monthly,
                yearly,
                now.secs,
                i as int,
            ),
        decreases objs@.len() - i,
    {
        let ghost r_before = r.deep_view();
        proof {
            assert(objs.deep_view()[i as int].time_stamp == objs@[i as int].time_stamp.secs);
        }
        let bucket = age_bucket_exec(objs[i].time_stamp, now);
        let is_victim = match bucket {
            None => false,
            Some(b) => {
                let allowance = match b {
                    AgeBucket::Daily => daily,
                    AgeBucket::Weekly => weekly,
                    AgeBucket::Monthly => monthly,
                    AgeBucket::Yearly => yearly,
                };
                let mut count: usize = 0;
                let mut j: usize = 0;
                while j < objs.len()
                    invariant
                        j <= objs@.len(),
                        i < objs@.len(),
                        count <= j,
                        count as nat == ncrowding(
                            objs.deep_view(),
                            now.secs,
                            i as int,
                            j as int,
                        ),
                    decreases objs@.len() - j,
                {
                    if older_first_exec(objs, now, j, i) {
                        count = count + 1;
                    }
                    j = j + 1;
                }
                count >= allowance as usize
            },
        };
        if is_victim {
            let v = objs[i].clone();
            r.push(v);
            proof {
                assert(!tiered_keeps(
                    objs.deep_view(),
                    daily,
                    weekly,
                    monthly,
                    yearly,
                    now.secs,
                    i as int,
                ));
                assert(r.deep_view() =~= r_before + seq![objs.deep_view()[i as int]]);
            }
        } else {
            proof {
                assert(tiered_keeps(
                    objs.deep_view(),
                    daily,
                    weekly,
                    monthly,
                    yearly,
                    now.secs,
                    i as int,
                ));
                assert(r.deep_view() =~= r_before + Seq::<BackupObjectView>::empty());
            }
        }
        i = i + 1;
    }
    r
}

/// Everything the policy `p` deletes from the listing `objs` at `now`.
pub fn rotation_victims(objs: &Vec<BackupObject>, p: &RetentionPolicy, now: Timestamp) -> (r:
    Vec<BackupObject>)
    ensures
        r.deep_view() == victims_of(objs.deep_view(), *p, now.secs),
{
    match p {
        RetentionPolicy::FlatCount(n) => select_flat_victims(objs, *n),
        RetentionPolicy::Tiered { daily, weekly, monthly, yearly } => select_tiered_victims(
            objs,
            *daily,
            *weekly,
            *monthly,
            *yearly,
            now,
        ),
    }
}

// --------------------------------------------------------------------------
// FlatCount idempotence
// --------------------------------------------------------------------------
/// The listing positions of the kept artifacts among the first `k`.
spec fn kept_idx(s: Seq<BackupObjectView>, n: int, k: int) -> Seq<int>
    decreases k,
{
    if k <= 0 {
        Seq::empty()
    } else {
        let rest = kept_idx(s, n, k - 1);
        if flat_keeps(s, n, k - 1) {
            rest.push(k - 1)
        } else {
            rest
        }
    }
}

/// `kept_idx` maps the kept listing positionwise onto the original listing:
/// strictly increasing positions, each kept by the policy.
proof fn lemma_kept_idx_props(s: Seq<BackupObjectView>, n: int, k: int)
    requires
        0 <= k <= s.len(),
    ensures
        kept_idx(s, n, k).len() == flat_kept_upto(s, n, k).len(),
        forall|q: int|
            0 <= q < kept_idx(s, n, k).len() ==> 0 <= #[trigger] kept_idx(s, n, k)[q] < k,
        forall|q: int|
            0 <= q < kept_idx(s, n, k).len() ==> flat_kept_upto(s, n, k)[q] == s[#[trigger] kept_idx(
                s,
                n,
                k,
            )[q]],
        forall|q: int|
            0 <= q < kept_idx(s, n, k).len() ==> flat_keeps(s, n, #[trigger] kept_idx(s, n, k)[q]),
        forall|q1: int, q2: int|
            0 <= q1 < q2 < kept_idx(s, n, k).len() ==> #[trigger] kept_idx(s, n, k)[q1]
                < #[trigger] kept_idx(s, n, k)[q2],
    decreases k,
{
    if k <= 0 {
    } else {
        lemma_kept_idx_props(s, n, k - 1);
        let rest = kept_idx(s, n, k - 1);
        let restk = flat_kept_upto(s, n, k - 1);
        if flat_keeps(s, n, k - 1) {
            assert(kept_idx(s, n, k) =~= rest.push(k - 1));
            assert(flat_kept_upto(s, n, k) =~= restk.push(s[k - 1]));
        } else {
            assert(flat_kept_upto(s, n, k) =~= restk);
        }
    }
}

/// Counting prefixes grow with the prefix.
proof fn lemma_nbetter_monotone(s: Seq<BackupObjectView>, i: int, a: int, b: int)
    requires
        0 <= a <= b,
    ensures
        nbetter(s, i, a) <= nbetter(s, i, b),
    decreases b,
{
    if b > a {
        lemma_nbetter_monotone(s, i, a, b - 1);
    }
}

/// Ranks do not grow when a listing is thinned to an order-preserving
/// subsequence: whoever precedes the artifact in the thinned listing
/// preceded it in the original one.
proof fn lemma_nbetter_map(
    s: Seq<BackupObjectView>,
    t: Seq<BackupObjectView>,
    m: Seq<int>,
    p: int,
    q: int,
)
    requires
        t.len() == m.len(),
        forall|u: int| 0 <= u < m.len() ==> 0 <= #[trigger] m[u] < s.len(),
        forall|u: int| 0 <= u < m.len() ==> t[u] == s[#[trigger] m[u]],
        forall|u1: int, u2: int|
            0 <= u1 < u2 < m.len() ==> #[trigger] m[u1] < #[trigger] m[u2],
        0 <= p < t.len(),
        0 <= q <= t.len(),
    ensures
        q > 0 ==> nbetter(t, p, q) <= nbetter(s, m[p], m[q - 1] + 1),
        q == 0 ==> nbetter(t, p, q) == 0,
    decreases q,
{
    if q > 0 {
        lemma_nbetter_map(s, t, m, p, q - 1);
        if q - 1 > 0 {
            assert(m[q - 2] + 1 <= m[q - 1]);
            lemma_nbetter_monotone(s, m[p], m[q - 2] + 1, m[q - 1]);
        }
        if newer_first(t, q - 1, p) {
            assert(newer_first(s, m[q - 1], m[p])) by {
                assert(t[q - 1] == s[m[q - 1]]);
                assert(t[p] == s[m[p]]);
                if q - 1 < p {
                    assert(m[q - 1] < m[p]);
                }
            }
            assert(nbetter(s, m[p], m[q - 1] + 1) == nbetter(s, m[p], m[q - 1]) + 1);
        } else {
            assert(nbetter(s, m[p], m[q - 1] + 1) >= nbetter(s, m[p], m[q - 1]));
        }
    }
}

/// Where every artifact of the first `k` is kept, nothing is deleted.
proof fn lemma_victims_empty(t: Seq<BackupObjectView>, n: int, k: int)
    requires
        0 <= k <= t.len(),
        forall|p: int| 0 <= p < k ==> flat_keeps(t, n, p),
    ensures
        flat_victims_upto(t, n, k) == Seq::<BackupObjectView>::empty(),
    decreases k,
{
    if k > 0 {
        lemma_victims_empty(t, n, k - 1);
        assert(flat_victims_upto(t, n, k) =~= Seq::<BackupObjectView>::empty());
    }
}

/// **FlatCount idempotence law**: rotating what a rotation kept, with no
/// new artifacts added, deletes nothing — every survivor's keep rank can
/// only shrink when the deleted artifacts disappear from the listing.
pub proof fn lemma_flat_idempotent(s: Seq<BackupObjectView>, n: u32)
    ensures
        flat_victims(flat_kept(s, n as int), n as int) == Seq::<BackupObjectView>::empty(),
{
    let nn = n as int;
    let t = flat_kept(s, nn);
    let m = kept_idx(s, nn, s.len() as int);
    lemma_kept_idx_props(s, nn, s.len() as int);
    assert(forall|p: int| 0 <= p < t.len() ==> flat_keeps(t, nn, p)) by {
        assert forall|p: int| 0 <= p < t.len() implies flat_keeps(t, nn, p) by {
            lemma_nbetter_map(s, t, m, p, t.len() as int);
            assert(nbetter(t, p, t.len() as int) <= nbetter(s, m[p], m[t.len() - 1] + 1));
            lemma_nbetter_monotone(s, m[p], m[t.len() - 1] + 1, s.len() as int);
            assert(flat_keeps(s, nn, m[p]));
        }
    }
    lemma_victims_empty(t, nn, t.len() as int);
}

/// **Rotation scope law**: whatever a policy marks for deletion is drawn
/// from the candidate listing itself — rotation never touches an artifact
/// outside the filtered listing it was given.
pub proof fn lemma_victims_come_from_listing(s: Seq<BackupObjectView>, p: RetentionPolicy, now: i64)
    ensures
        forall|i: int|
            0 <= i < victims_of(s, p, now).len() ==> s.contains(
                #[trigger] victims_of(s, p, now)[i],
            ),
{
    match p {
        RetentionPolicy::FlatCount(n) => {
            lemma_flat_victims_contained(s, n as int, s.len() as int);
        },
        RetentionPolicy::Tiered { daily, weekly, monthly, yearly } => {
            if daily == 0 && weekly == 0 && monthly == 0 && yearly == 0 {
            } else {
                lemma_tiered_victims_contained(s, daily, weekly, monthly, yearly, now, s.len() as int);
            }
        },
    }
}

proof fn lemma_flat_victims_contained(s: Seq<BackupObjectView>, n: int, k: int)
    requires
        0 <= k <= s.len(),
    ensures
        forall|i: int|
            0 <= i < flat_victims_upto(s, n, k).len() ==> s.contains(
                #[trigger] flat_victims_upto(s, n, k)[i],
            ),
    decreases k,
{
    if k > 0 {
        lemma_flat_victims_contained(s, n, k - 1);
        if !flat_keeps(s, n, k - 1) {
            assert forall|i: int| 0 <= i < flat_victims_upto(s, n, k).len() implies s.contains(
                #[trigger] flat_victims_upto(s, n, k)[i],
            ) by {
                if i < flat_victims_upto(s, n, k - 1).len() {
                    assert(flat_victims_upto(s, n, k)[i] == flat_victims_upto(s, n, k - 1)[i]);
                } else {
                    assert(flat_victims_upto(s, n, k)[i] == s[k - 1]);
                }
            }
        }
    }
}

proof fn lemma_tiered_victims_contained(
    s: Seq<BackupObjectView>,
    daily: u32,
    weekly: u32,
    monthly: u32,
    yearly: u32,
    now: i64,
    k: int,
)
    requires
        0 <= k <= s.len(),
    ensures
        forall|i: int|
            0 <= i < tiered_victims_upto(s, daily, weekly, monthly, yearly, now, k).len()
                ==> s.contains(
                #[trigger] tiered_victims_upto(s, daily, weekly, monthly, yearly, now, k)[i],
            ),
    decreases k,
{
    if k > 0 {
        lemma_tiered_victims_contained(s, daily, weekly, monthly, yearly, now, k - 1);
        let prev = tiered_victims_upto(s, daily, weekly, monthly, yearly, now, k - 1);
        let cur = tiered_victims_upto(s, daily, weekly, monthly, yearly, now, k);
        if !tiered_keeps(s, daily, weekly, monthly, yearly, now, k - 1) {
            assert forall|i: int| 0 <= i < cur.len() implies s.contains(#[trigger] cur[i]) by {
                if i < prev.len() {
                    assert(cur[i] == prev[i]);
                } else {
                    assert(cur[i] == s[k - 1]);
                }
            }
        }
    }
}

} // verus!
