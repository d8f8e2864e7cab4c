//! Bookkeeping of the ACL grants that AppContainers hold on filesystem roots.
//!
//! Several sandboxes may ask for access to the same resource at once, for the
//! same trustee or for different ones. The registry keeps, per resource, how
//! many times each trustee asked for each access mask; the resource's original
//! DACL is snapshotted once, when the first request arrives, it is reconfigured
//! only when the aggregated access changes, and it is restored when the last
//! request is released.

use vstd::prelude::*;

use crate::windows::paths::RootAccess;
use crate::windows::token::RegistryToken;

verus! {

/// `FILE_GENERIC_READ` of the Win32 file access rights.
pub const FILE_GENERIC_READ: u32 = 0x0012_0089;

/// `FILE_GENERIC_WRITE` of the Win32 file access rights.
pub const FILE_GENERIC_WRITE: u32 = 0x0012_0116;

/// `FILE_GENERIC_EXECUTE` of the Win32 file access rights.
pub const FILE_GENERIC_EXECUTE: u32 = 0x0012_00A0;

/// The standard `DELETE` access right.
pub const DELETE: u32 = 0x0001_0000;

/// `FILE_DELETE_CHILD` of the Win32 file access rights.
pub const FILE_DELETE_CHILD: u32 = 0x0000_0040;

/// ACE flags of an entry that children do not inherit.
pub const NO_INHERITANCE: u32 = 0;

/// ACE flags of an entry that both child containers and child objects inherit.
pub const SUB_CONTAINERS_AND_OBJECTS_INHERIT: u32 = 3;

/// The access mask granted for each kind of root access.
pub open spec fn spec_access_mask(access: RootAccess) -> u32 {
    match access {
        RootAccess::Read => FILE_GENERIC_READ,
        RootAccess::Write => FILE_GENERIC_READ | FILE_GENERIC_WRITE,
        RootAccess::Execute | RootAccess::Runtime => FILE_GENERIC_READ | FILE_GENERIC_EXECUTE,
        RootAccess::Full => FILE_GENERIC_READ | FILE_GENERIC_WRITE | FILE_GENERIC_EXECUTE | DELETE
            | FILE_DELETE_CHILD,
    }
}

/// The access mask for `access`: reading for every kind, writing, executing
/// and deleting only as the kind allows.
pub fn access_mask_for(access: RootAccess) -> (r: u32)
    ensures
        r == spec_access_mask(access),
{
    match access {
        RootAccess::Read => FILE_GENERIC_READ,
        RootAccess::Write => FILE_GENERIC_READ | FILE_GENERIC_WRITE,
        RootAccess::Execute | RootAccess::Runtime => FILE_GENERIC_READ | FILE_GENERIC_EXECUTE,
        RootAccess::Full => FILE_GENERIC_READ | FILE_GENERIC_WRITE | FILE_GENERIC_EXECUTE | DELETE
            | FILE_DELETE_CHILD,
    }
}

/// The ACE inheritance flags of a grant: a directory's grant reaches its
/// children, a file's does not.
pub fn inheritance_for(is_directory: bool) -> (r: u32)
    ensures
        r == (if is_directory { SUB_CONTAINERS_AND_OBJECTS_INHERIT } else { NO_INHERITANCE }),
{
    if is_directory {
        SUB_CONTAINERS_AND_OBJECTS_INHERIT
    } else {
        NO_INHERITANCE
    }
}

/// The name of the session-local mutex that serialises ACL changes across
/// processes; it names no resource.
pub fn global_acl_mutex_name() -> (r: &'static str)
    ensures
        r@ == "Local\\heel-acl-coordination"@,
{
    "Local\\heel-acl-coordination"
}

// ---------------------------------------------------------------------------
// Mask counts of one trustee: (access mask, number of open requests), masks
// strictly ascending, every count positive.
// ---------------------------------------------------------------------------

/// Masks strictly ascending, counts positive.
pub open spec fn masks_sorted(s: Seq<(u32, usize)>) -> bool {
    &&& forall|a: int, b: int| 0 <= a < b < s.len() ==> s[a].0 < s[b].0
    &&& forall|a: int| 0 <= a < s.len() ==> s[a].1 > 0
}

/// The open requests for `m`.
pub open spec fn mask_count(s: Seq<(u32, usize)>, m: u32) -> nat
    decreases s.len(),
{
    if s.len() == 0 {
        0
    } else if s[0].0 == m {
        s[0].1 as nat
    } else {
        mask_count(s.drop_first(), m)
    }
}

/// All open requests.
pub open spec fn masks_total(s: Seq<(u32, usize)>) -> nat
    decreases s.len(),
{
    if s.len() == 0 {
        0
    } else {
        s[0].1 as nat + masks_total(s.drop_first())
    }
}

/// `s` with one more request for `m`, kept in order.
pub open spec fn inc_masks(s: Seq<(u32, usize)>, m: u32) -> Seq<(u32, usize)>
    decreases s.len(),
{
    if s.len() == 0 {
        seq![(m, 1usize)]
    } else if s[0].0 == m {
        seq![(m, (s[0].1 + 1) as usize)] + s.drop_first()
    } else if m < s[0].0 {
        seq![(m, 1usize)] + s
    } else {
        seq![s[0]] + inc_masks(s.drop_first(), m)
    }
}

/// `s` with one request for `m` fewer; a mask whose count reaches zero leaves.
pub open spec fn dec_masks(s: Seq<(u32, usize)>, m: u32) -> Seq<(u32, usize)>
    decreases s.len(),
{
    if s.len() == 0 {
        s
    } else if s[0].0 == m {
        if s[0].1 <= 1 {
            s.drop_first()
        } else {
            seq![(m, (s[0].1 - 1) as usize)] + s.drop_first()
        }
    } else {
        seq![s[0]] + dec_masks(s.drop_first(), m)
    }
}

/// The union of the masks that have open requests.
pub open spec fn or_masks(s: Seq<(u32, usize)>) -> u32
    decreases s.len(),
{
    if s.len() == 0 {
        0
    } else if s.last().1 > 0 {
        or_masks(s.drop_last()) | s.last().0
    } else {
        or_masks(s.drop_last())
    }
}

proof fn lemma_inc_masks_bound(s: Seq<(u32, usize)>, m: u32, lo: u32)
    requires
        forall|a: int| 0 <= a < s.len() ==> lo < s[a].0,
        lo < m,
    ensures
        forall|a: int| 0 <= a < inc_masks(s, m).len() ==> lo < #[trigger] inc_masks(s, m)[a].0,
    decreases s.len(),
{
    if s.len() > 0 && s[0].0 != m && !(m < s[0].0) {
        lemma_inc_masks_bound(s.drop_first(), m, lo);
        let t = inc_masks(s.drop_first(), m);
        assert forall|a: int| 0 <= a < inc_masks(s, m).len() implies lo < #[trigger] inc_masks(
            s,
            m,
        )[a].0 by {
            if a > 0 {
                assert(inc_masks(s, m)[a] == t[a - 1]);
            }
        }
    } else if s.len() > 0 {
        assert forall|a: int| 0 <= a < inc_masks(s, m).len() implies lo < #[trigger] inc_masks(
            s,
            m,
        )[a].0 by {
            if a > 0 && s[0].0 != m {
                assert(inc_masks(s, m)[a] == s[a - 1]);
            } else if a > 0 {
                assert(inc_masks(s, m)[a] == s[a]);
            }
        }
    }
}

proof fn lemma_inc_masks_sorted(s: Seq<(u32, usize)>, m: u32)
    requires
        masks_sorted(s),
        mask_count(s, m) < usize::MAX,
    ensures
        masks_sorted(inc_masks(s, m)),
        inc_masks(s, m).len() > 0,
        mask_count(inc_masks(s, m), m) == mask_count(s, m) + 1,
        masks_total(inc_masks(s, m)) == masks_total(s) + 1,
    decreases s.len(),
{
    let r = inc_masks(s, m);
    if s.len() == 0 {
        assert(r.drop_first() =~= s);
    } else if s[0].0 == m {
        assert(r.drop_first() =~= s.drop_first());
        assert forall|a: int, b: int| 0 <= a < b < r.len() implies r[a].0 < r[b].0 by {
            assert(s[a].0 < s[b].0);
        }
    } else if m < s[0].0 {
        assert(r.drop_first() =~= s);
        assert forall|a: int, b: int| 0 <= a < b < r.len() implies r[a].0 < r[b].0 by {
            if a > 0 {
                assert(s[a - 1].0 < s[b - 1].0);
            } else if b > 1 {
                assert(s[0].0 < s[b - 1].0);
            }
        }
        lemma_mask_count_absent(s, m);
    } else {
        let t = s.drop_first();
        lemma_inc_masks_sorted(t, m);
        lemma_inc_masks_bound(t, m, s[0].0);
        assert(r.drop_first() =~= inc_masks(t, m));
        assert forall|a: int, b: int| 0 <= a < b < r.len() implies r[a].0 < r[b].0 by {
            if a > 0 {
                assert(r[a] == inc_masks(t, m)[a - 1]);
                assert(r[b] == inc_masks(t, m)[b - 1]);
            } else {
                assert(r[b] == inc_masks(t, m)[b - 1]);
            }
        }
        assert forall|a: int| 0 <= a < r.len() implies r[a].1 > 0 by {
            if a > 0 {
                assert(r[a] == inc_masks(t, m)[a - 1]);
            }
        }
    }
}

proof fn lemma_mask_count_absent(s: Seq<(u32, usize)>, m: u32)
    requires
        forall|a: int| 0 <= a < s.len() ==> s[a].0 != m,
    ensures
        mask_count(s, m) == 0,
    decreases s.len(),
{
    if s.len() > 0 {
        lemma_mask_count_absent(s.drop_first(), m);
    }
}

proof fn lemma_dec_masks(s: Seq<(u32, usize)>, m: u32)
    requires
        masks_sorted(s),
        mask_count(s, m) > 0,
    ensures
        masks_sorted(dec_masks(s, m)),
        mask_count(dec_masks(s, m), m) == mask_count(s, m) - 1,
        masks_total(dec_masks(s, m)) == masks_total(s) - 1,
        forall|a: int|
            0 <= a < dec_masks(s, m).len() ==> exists|b: int|
                0 <= b < s.len() && s[b].0 == #[trigger] dec_masks(s, m)[a].0,
    decreases s.len(),
{
    let r = dec_masks(s, m);
    if s[0].0 == m {
        if s[0].1 <= 1 {
            assert forall|a: int| 0 <= a < r.len() implies exists|b: int|
                0 <= b < s.len() && s[b].0 == #[trigger] r[a].0 by {
                assert(s[a + 1].0 == r[a].0);
            }
            if s.len() > 1 {
                assert forall|a: int| 0 < a < s.len() implies s[a].0 != m by {
                    assert(s[0].0 < s[a].0);
                }
                lemma_mask_count_absent(s.drop_first(), m);
            }
        } else {
            assert(r.drop_first() =~= s.drop_first());
            assert forall|a: int, b: int| 0 <= a < b < r.len() implies r[a].0 < r[b].0 by {
                assert(s[a].0 < s[b].0);
            }
            assert forall|a: int| 0 <= a < r.len() implies exists|b: int|
                0 <= b < s.len() && s[b].0 == #[trigger] r[a].0 by {
                assert(s[a].0 == r[a].0);
            }
        }
    } else {
        let t = s.drop_first();
        lemma_dec_masks(t, m);
        let u = dec_masks(t, m);
        assert(r.drop_first() =~= u);
        assert forall|a: int, b: int| 0 <= a < b < r.len() implies r[a].0 < r[b].0 by {
            if a > 0 {
                assert(r[a] == u[a - 1]);
                assert(r[b] == u[b - 1]);
            } else {
                assert(r[b] == u[b - 1]);
                let k = choose|k: int| 0 <= k < t.len() && t[k].0 == u[b - 1].0;
                assert(s[k + 1].0 == t[k].0);
                assert(s[0].0 < s[k + 1].0);
            }
        }
        assert forall|a: int| 0 <= a < r.len() implies r[a].1 > 0 by {
            if a > 0 {
                assert(r[a] == u[a - 1]);
            }
        }
        assert forall|a: int| 0 <= a < r.len() implies exists|b: int|
            0 <= b < s.len() && s[b].0 == #[trigger] r[a].0 by {
            if a > 0 {
                assert(r[a] == u[a - 1]);
                let k = choose|k: int| 0 <= k < t.len() && t[k].0 == u[a - 1].0;
                assert(s[k + 1].0 == t[k].0);
            } else {
                assert(s[0].0 == r[0].0);
            }
        }
    }
}

proof fn lemma_dec_inc_masks(s: Seq<(u32, usize)>, m: u32)
    requires
        masks_sorted(s),
        mask_count(s, m) < usize::MAX,
    ensures
        dec_masks(inc_masks(s, m), m) == s,
    decreases s.len(),
{
    if s.len() == 0 {
        assert(dec_masks(inc_masks(s, m), m) =~= s);
    } else if s[0].0 == m {
        assert(dec_masks(inc_masks(s, m), m) =~= s);
    } else if m < s[0].0 {
        assert(inc_masks(s, m).drop_first() =~= s);
    } else {
        lemma_dec_inc_masks(s.drop_first(), m);
        assert(inc_masks(s, m).drop_first() =~= inc_masks(s.drop_first(), m));
        assert(dec_masks(inc_masks(s, m), m) =~= s);
    }
}

/// Adds one request for `mask`, keeping the masks in order.
fn increment_mask(masks: &mut Vec<(u32, usize)>, mask: u32)
    requires
        masks_sorted(old(masks)@),
        mask_count(old(masks)@, mask) < usize::MAX,
    ensures
        final(masks)@ == inc_masks(old(masks)@, mask),
{
    let ghost s = masks@;
    let mut i: usize = 0;
    while i < masks.len() && masks[i].0 < mask
        invariant
            i <= masks.len(),
            masks@ == s,
            masks_sorted(s),
            forall|j: int| 0 <= j < i ==> s[j].0 < mask,
        decreases masks.len() - i,
    {
        i = i + 1;
    }
    proof {
        lemma_inc_masks_prefix(s, mask, i as int);
        lemma_mask_count_prefix(s, mask, i as int);
    }
    if i < masks.len() && masks[i].0 == mask {
        let (m, c) = masks.remove(i);
        masks.insert(i, (m, c + 1));
        assert(masks@ =~= s.take(i as int) + inc_masks(s.skip(i as int), mask));
    } else {
        masks.insert(i, (mask, 1));
        assert(masks@ =~= s.take(i as int) + inc_masks(s.skip(i as int), mask));
    }
}

proof fn lemma_inc_masks_prefix(s: Seq<(u32, usize)>, m: u32, i: int)
    requires
        0 <= i <= s.len(),
        forall|j: int| 0 <= j < i ==> s[j].0 < m,
    ensures
        inc_masks(s, m) == s.take(i) + inc_masks(s.skip(i), m),
    decreases i,
{
    if i == 0 {
        assert(s.skip(0) =~= s);
        assert(s.take(0) + inc_masks(s, m) =~= inc_masks(s, m));
    } else {
        lemma_inc_masks_prefix(s.drop_first(), m, i - 1);
        assert(s.drop_first().skip(i - 1) =~= s.skip(i));
        assert(s.take(i) =~= seq![s[0]] + s.drop_first().take(i - 1));
        assert(inc_masks(s, m) =~= s.take(i) + inc_masks(s.skip(i), m));
    }
}

proof fn lemma_mask_count_prefix(s: Seq<(u32, usize)>, m: u32, i: int)
    requires
        0 <= i <= s.len(),
        forall|j: int| 0 <= j < i ==> s[j].0 != m,
    ensures
        mask_count(s, m) == mask_count(s.skip(i), m),
    decreases i,
{
    if i == 0 {
        assert(s.skip(0) =~= s);
    } else {
        lemma_mask_count_prefix(s.drop_first(), m, i - 1);
        assert(s.drop_first().skip(i - 1) =~= s.skip(i));
    }
}

proof fn lemma_dec_masks_prefix(s: Seq<(u32, usize)>, m: u32, i: int)
    requires
        0 <= i <= s.len(),
        forall|j: int| 0 <= j < i ==> s[j].0 != m,
    ensures
        dec_masks(s, m) == s.take(i) + dec_masks(s.skip(i), m),
    decreases i,
{
    if i == 0 {
        assert(s.skip(0) =~= s);
        assert(s.take(0) + dec_masks(s, m) =~= dec_masks(s, m));
    } else {
        lemma_dec_masks_prefix(s.drop_first(), m, i - 1);
        assert(s.drop_first().skip(i - 1) =~= s.skip(i));
        assert(s.take(i) =~= seq![s[0]] + s.drop_first().take(i - 1));
        assert(dec_masks(s, m) =~= s.take(i) + dec_masks(s.skip(i), m));
    }
}

/// Removes one request for `mask`; a mask whose count reaches zero leaves.
fn decrement_mask(masks: &mut Vec<(u32, usize)>, mask: u32)
    requires
        mask_count(old(masks)@, mask) > 0,
    ensures
        final(masks)@ == dec_masks(old(masks)@, mask),
{
    let ghost s = masks@;
    let mut i: usize = 0;
    while i < masks.len() && masks[i].0 != mask
        invariant
            i <= masks.len(),
            masks@ == s,
            forall|j: int| 0 <= j < i ==> s[j].0 != mask,
        decreases masks.len() - i,
    {
        i = i + 1;
    }
    proof {
        lemma_dec_masks_prefix(s, mask, i as int);
        lemma_mask_count_prefix(s, mask, i as int);
    }
    let (m, c) = masks.remove(i);
    if c > 1 {
        masks.insert(i, (m, c - 1));
    }
    assert(masks@ =~= s.take(i as int) + dec_masks(s.skip(i as int), mask));
}

/// The open requests for `mask`.
fn count_for_mask(masks: &Vec<(u32, usize)>, mask: u32) -> (r: usize)
    ensures
        r == mask_count(masks@, mask),
{
    let mut i: usize = 0;
    while i < masks.len()
        invariant
            i <= masks.len(),
            forall|j: int| 0 <= j < i ==> masks@[j].0 != mask,
        decreases masks.len() - i,
    {
        if masks[i].0 == mask {
            proof {
                lemma_mask_count_prefix(masks@, mask, i as int);
            }
            return masks[i].1;
        }
        i = i + 1;
    }
    proof {
        lemma_mask_count_prefix(masks@, mask, i as int);
    }
    0
}

/// The union of the masks with open requests.
fn aggregate_access_mask(masks: &Vec<(u32, usize)>) -> (r: u32)
    ensures
        r == or_masks(masks@),
{
    let mut acc: u32 = 0;
    let mut i: usize = 0;
    while i < masks.len()
        invariant
            i <= masks.len(),
            acc == or_masks(masks@.take(i as int)),
        decreases masks.len() - i,
    {
        assert(masks@.take(i + 1).drop_last() =~= masks@.take(i as int));
        if masks[i].1 > 0 {
            acc = acc | masks[i].0;
        }
        i = i + 1;
    }
    assert(masks@.take(masks.len() as int) =~= masks@);
    acc
}

fn copy_masks(masks: &Vec<(u32, usize)>) -> (r: Vec<(u32, usize)>)
    ensures
        r@ == masks@,
{
    let mut out: Vec<(u32, usize)> = Vec::new();
    let mut i: usize = 0;
    while i < masks.len()
        invariant
            i <= masks.len(),
            out@ == masks@.take(i as int),
        decreases masks.len() - i,
    {
        out.push(masks[i]);
        i = i + 1;
        assert(out@ =~= masks@.take(i as int));
    }
    assert(masks@.take(masks.len() as int) =~= masks@);
    out
}

// ---------------------------------------------------------------------------
// Request counts of one resource: per trustee, its mask counts; trustees
// strictly ascending in their order, every trustee with some open request.
// ---------------------------------------------------------------------------

/// Trustees strictly ascending, each with well-formed, non-empty mask counts.
pub open spec fn counts_wf<R: RegistryToken>(c: Seq<(R::Model, Seq<(u32, usize)>)>) -> bool {
    &&& forall|i: int, j: int| 0 <= i < j < c.len() ==> R::model_lt(c[i].0, c[j].0)
    &&& forall|i: int| 0 <= i < c.len() ==> masks_sorted(#[trigger] c[i].1) && c[i].1.len() > 0
}

/// The open requests of trustee `r` for mask `m`.
pub open spec fn count_of<RM>(c: Seq<(RM, Seq<(u32, usize)>)>, r: RM, m: u32) -> nat
    decreases c.len(),
{
    if c.len() == 0 {
        0
    } else if c[0].0 == r {
        mask_count(c[0].1, m)
    } else {
        count_of(c.drop_first(), r, m)
    }
}

/// All open requests on the resource.
pub open spec fn total<RM>(c: Seq<(RM, Seq<(u32, usize)>)>) -> nat
    decreases c.len(),
{
    if c.len() == 0 {
        0
    } else {
        masks_total(c[0].1) + total(c.drop_first())
    }
}

/// `c` with one more request of trustee `r` for mask `m`, kept in order.
pub open spec fn inc_counts<R: RegistryToken>(
    c: Seq<(R::Model, Seq<(u32, usize)>)>,
    r: R::Model,
    m: u32,
) -> Seq<(R::Model, Seq<(u32, usize)>)>
    decreases c.len(),
{
    if c.len() == 0 {
        seq![(r, seq![(m, 1usize)])]
    } else if c[0].0 == r {
        seq![(r, inc_masks(c[0].1, m))] + c.drop_first()
    } else if R::model_lt(r, c[0].0) {
        seq![(r, seq![(m, 1usize)])] + c
    } else {
        seq![c[0]] + inc_counts::<R>(c.drop_first(), r, m)
    }
}

/// `c` with one request of trustee `r` for mask `m` fewer; a trustee left
/// without requests leaves.
pub open spec fn dec_counts<RM>(c: Seq<(RM, Seq<(u32, usize)>)>, r: RM, m: u32) -> Seq<
    (RM, Seq<(u32, usize)>),
>
    decreases c.len(),
{
    if c.len() == 0 {
        c
    } else if c[0].0 == r {
        if dec_masks(c[0].1, m).len() == 0 {
            c.drop_first()
        } else {
            seq![(r, dec_masks(c[0].1, m))] + c.drop_first()
        }
    } else {
        seq![c[0]] + dec_counts(c.drop_first(), r, m)
    }
}

/// The access each trustee holds: the union of its open masks, in trustee
/// order; a trustee whose union is empty is left out.
pub open spec fn aggregate<RM>(c: Seq<(RM, Seq<(u32, usize)>)>) -> Seq<(RM, u32)>
    decreases c.len(),
{
    if c.len() == 0 {
        seq![]
    } else if or_masks(c.last().1) != 0 {
        aggregate(c.drop_last()).push((c.last().0, or_masks(c.last().1)))
    } else {
        aggregate(c.drop_last())
    }
}

/// Requests handed to the callbacks, by their models.
pub open spec fn requests_model<R: RegistryToken>(s: Seq<(R, u32)>) -> Seq<(R::Model, u32)> {
    s.map_values(|p: (R, u32)| (p.0.model(), p.1))
}

proof fn lemma_inc_counts_bound<R: RegistryToken>(
    c: Seq<(R::Model, Seq<(u32, usize)>)>,
    r: R::Model,
    m: u32,
    lo: R::Model,
)
    requires
        forall|a: int| 0 <= a < c.len() ==> R::model_lt(lo, c[a].0),
        R::model_lt(lo, r),
    ensures
        forall|a: int|
            0 <= a < inc_counts::<R>(c, r, m).len() ==> R::model_lt(
                lo,
                #[trigger] inc_counts::<R>(c, r, m)[a].0,
            ),
    decreases c.len(),
{
    let x = inc_counts::<R>(c, r, m);
    if c.len() > 0 && c[0].0 != r && !R::model_lt(r, c[0].0) {
        lemma_inc_counts_bound::<R>(c.drop_first(), r, m, lo);
        assert forall|a: int| 0 <= a < x.len() implies R::model_lt(lo, #[trigger] x[a].0) by {
            if a > 0 {
                assert(x[a] == inc_counts::<R>(c.drop_first(), r, m)[a - 1]);
            }
        }
    } else if c.len() > 0 {
        assert forall|a: int| 0 <= a < x.len() implies R::model_lt(lo, #[trigger] x[a].0) by {
            if a > 0 && c[0].0 != r {
                assert(x[a] == c[a - 1]);
            } else if a > 0 {
                assert(x[a] == c[a]);
            }
        }
    }
}

proof fn lemma_count_absent<RM>(c: Seq<(RM, Seq<(u32, usize)>)>, r: RM, m: u32)
    requires
        forall|a: int| 0 <= a < c.len() ==> c[a].0 != r,
    ensures
        count_of(c, r, m) == 0,
    decreases c.len(),
{
    if c.len() > 0 {
        lemma_count_absent(c.drop_first(), r, m);
    }
}

/// One more request keeps the counts well formed, raises exactly the count of
/// that request by one, and the total by one.
pub proof fn lemma_inc_counts<R: RegistryToken>(
    c: Seq<(R::Model, Seq<(u32, usize)>)>,
    r: R::Model,
    m: u32,
)
    requires
        counts_wf::<R>(c),
        count_of(c, r, m) < usize::MAX,
    ensures
        counts_wf::<R>(inc_counts::<R>(c, r, m)),
        count_of(inc_counts::<R>(c, r, m), r, m) == count_of(c, r, m) + 1,
        total(inc_counts::<R>(c, r, m)) == total(c) + 1,
        inc_counts::<R>(c, r, m).len() > 0,
    decreases c.len(),
{
    let x = inc_counts::<R>(c, r, m);
    let one: Seq<(u32, usize)> = seq![(m, 1usize)];
    assert(one.drop_first() =~= Seq::<(u32, usize)>::empty());
    assert(masks_total(Seq::<(u32, usize)>::empty()) == 0);
    assert(masks_total(one) == 1);
    assert(mask_count(one, m) == 1);
    if c.len() == 0 {
        assert(x.drop_first() =~= c);
    } else if c[0].0 == r {
        lemma_inc_masks_sorted(c[0].1, m);
        assert(x.drop_first() =~= c.drop_first());
        assert forall|i: int, j: int| 0 <= i < j < x.len() implies R::model_lt(x[i].0, x[j].0) by {
            assert(R::model_lt(c[i].0, c[j].0));
        }
        assert forall|i: int| 0 <= i < x.len() implies masks_sorted(#[trigger] x[i].1)
            && x[i].1.len() > 0 by {
            if i > 0 {
                assert(x[i] == c[i]);
            }
        }
    } else if R::model_lt(r, c[0].0) {
        assert(x.drop_first() =~= c);
        assert forall|i: int, j: int| 0 <= i < j < x.len() implies R::model_lt(x[i].0, x[j].0) by {
            if i > 0 {
                assert(R::model_lt(c[i - 1].0, c[j - 1].0));
            } else if j > 1 {
                assert(R::model_lt(c[0].0, c[j - 1].0));
                R::lemma_model_order(r, c[0].0, c[j - 1].0);
            }
        }
        assert forall|i: int| 0 <= i < x.len() implies masks_sorted(#[trigger] x[i].1)
            && x[i].1.len() > 0 by {
            if i > 0 {
                assert(x[i] == c[i - 1]);
            }
        }
        assert forall|a: int| 0 <= a < c.len() implies c[a].0 != r by {
            if a > 0 {
                assert(R::model_lt(c[0].0, c[a].0));
                R::lemma_model_order(r, c[0].0, c[a].0);
                R::lemma_model_order(c[a].0, c[a].0, c[a].0);
            }
        }
        lemma_count_absent(c, r, m);
    } else {
        let t = c.drop_first();
        R::lemma_model_order(c[0].0, r, r);
        assert(counts_wf::<R>(t)) by {
            assert forall|i: int, j: int| 0 <= i < j < t.len() implies R::model_lt(
                t[i].0,
                t[j].0,
            ) by {
                assert(R::model_lt(c[i + 1].0, c[j + 1].0));
            }
            assert forall|i: int| 0 <= i < t.len() implies masks_sorted(#[trigger] t[i].1)
                && t[i].1.len() > 0 by {
                assert(t[i] == c[i + 1]);
            }
        }
        lemma_inc_counts::<R>(t, r, m);
        assert forall|a: int| 0 <= a < t.len() implies R::model_lt(c[0].0, t[a].0) by {
            assert(R::model_lt(c[0].0, c[a + 1].0));
        }
        lemma_inc_counts_bound::<R>(t, r, m, c[0].0);
        let u = inc_counts::<R>(t, r, m);
        assert(x.drop_first() =~= u);
        assert forall|i: int, j: int| 0 <= i < j < x.len() implies R::model_lt(x[i].0, x[j].0) by {
            assert(x[j] == u[j - 1]);
            if i > 0 {
                assert(x[i] == u[i - 1]);
            }
        }
        assert forall|i: int| 0 <= i < x.len() implies masks_sorted(#[trigger] x[i].1)
            && x[i].1.len() > 0 by {
            if i > 0 {
                assert(x[i] == u[i - 1]);
            }
        }
    }
}

/// One request fewer keeps the counts well formed, lowers exactly the count
/// of that request by one, and the total by one.
pub proof fn lemma_dec_counts<R: RegistryToken>(
    c: Seq<(R::Model, Seq<(u32, usize)>)>,
    r: R::Model,
    m: u32,
)
    requires
        counts_wf::<R>(c),
        count_of(c, r, m) > 0,
    ensures
        counts_wf::<R>(dec_counts(c, r, m)),
        count_of(dec_counts(c, r, m), r, m) == count_of(c, r, m) - 1,
        total(dec_counts(c, r, m)) == total(c) - 1,
        forall|a: int|
            0 <= a < dec_counts(c, r, m).len() ==> exists|b: int|
                0 <= b < c.len() && c[b].0 == #[trigger] dec_counts(c, r, m)[a].0,
    decreases c.len(),
{
    let x = dec_counts(c, r, m);
    let t = c.drop_first();
    assert(counts_wf::<R>(t)) by {
        assert forall|i: int, j: int| 0 <= i < j < t.len() implies R::model_lt(t[i].0, t[j].0) by {
            assert(R::model_lt(c[i + 1].0, c[j + 1].0));
        }
        assert forall|i: int| 0 <= i < t.len() implies masks_sorted(#[trigger] t[i].1)
            && t[i].1.len() > 0 by {
            assert(t[i] == c[i + 1]);
        }
    }
    if c[0].0 == r {
        lemma_dec_masks(c[0].1, m);
        assert forall|a: int| 0 <= a < t.len() implies t[a].0 != r by {
            assert(R::model_lt(c[0].0, c[a + 1].0));
            R::lemma_model_order(r, r, r);
        }
        lemma_count_absent(t, r, m);
        if dec_masks(c[0].1, m).len() == 0 {
            assert forall|a: int| 0 <= a < x.len() implies exists|b: int|
                0 <= b < c.len() && c[b].0 == #[trigger] x[a].0 by {
                assert(c[a + 1].0 == x[a].0);
            }
        } else {
            assert(x.drop_first() =~= t);
            assert forall|i: int, j: int| 0 <= i < j < x.len() implies R::model_lt(
                x[i].0,
                x[j].0,
            ) by {
                assert(R::model_lt(c[i].0, c[j].0));
            }
            assert forall|i: int| 0 <= i < x.len() implies masks_sorted(#[trigger] x[i].1)
                && x[i].1.len() > 0 by {
                if i > 0 {
                    assert(x[i] == c[i]);
                }
            }
            assert forall|a: int| 0 <= a < x.len() implies exists|b: int|
                0 <= b < c.len() && c[b].0 == #[trigger] x[a].0 by {
                assert(c[a].0 == x[a].0);
            }
        }
    } else {
        lemma_dec_counts::<R>(t, r, m);
        let u = dec_counts(t, r, m);
        assert(x.drop_first() =~= u);
        assert forall|i: int, j: int| 0 <= i < j < x.len() implies R::model_lt(x[i].0, x[j].0) by {
            assert(x[j] == u[j - 1]);
            if i > 0 {
                assert(x[i] == u[i - 1]);
            } else {
                let k = choose|k: int| 0 <= k < t.len() && t[k].0 == u[j - 1].0;
                assert(R::model_lt(c[0].0, c[k + 1].0));
            }
        }
        assert forall|i: int| 0 <= i < x.len() implies masks_sorted(#[trigger] x[i].1)
            && x[i].1.len() > 0 by {
            if i > 0 {
                assert(x[i] == u[i - 1]);
            }
        }
        assert forall|a: int| 0 <= a < x.len() implies exists|b: int|
            0 <= b < c.len() && c[b].0 == #[trigger] x[a].0 by {
            if a > 0 {
                assert(x[a] == u[a - 1]);
                let k = choose|k: int| 0 <= k < t.len() && t[k].0 == u[a - 1].0;
                assert(c[k + 1].0 == t[k].0);
            } else {
                assert(c[0].0 == x[0].0);
            }
        }
    }
}

/// Releasing a request just acquired gives back the counts from before.
pub proof fn lemma_release_undoes_acquire<R: RegistryToken>(
    c: Seq<(R::Model, Seq<(u32, usize)>)>,
    r: R::Model,
    m: u32,
)
    requires
        counts_wf::<R>(c),
        count_of(c, r, m) < usize::MAX,
    ensures
        dec_counts(inc_counts::<R>(c, r, m), r, m) == c,
    decreases c.len(),
{
    let x = inc_counts::<R>(c, r, m);
    let one: Seq<(u32, usize)> = seq![(m, 1usize)];
    assert(one.drop_first() =~= Seq::<(u32, usize)>::empty());
    if c.len() == 0 {
        assert(dec_counts(x, r, m) =~= c);
    } else if c[0].0 == r {
        lemma_dec_inc_masks(c[0].1, m);
        lemma_inc_masks_sorted(c[0].1, m);
        assert(dec_counts(x, r, m) =~= c);
    } else if R::model_lt(r, c[0].0) {
        assert(x.drop_first() =~= c);
    } else {
        let t = c.drop_first();
        assert(counts_wf::<R>(t)) by {
            assert forall|i: int, j: int| 0 <= i < j < t.len() implies R::model_lt(
                t[i].0,
                t[j].0,
            ) by {
                assert(R::model_lt(c[i + 1].0, c[j + 1].0));
            }
            assert forall|i: int| 0 <= i < t.len() implies masks_sorted(#[trigger] t[i].1)
                && t[i].1.len() > 0 by {
                assert(t[i] == c[i + 1]);
            }
        }
        lemma_release_undoes_acquire::<R>(t, r, m);
        assert(x.drop_first() =~= inc_counts::<R>(t, r, m));
        assert(dec_counts(x, r, m) =~= c);
    }
}

/// The first request on a resource is its only open request, so releasing
/// it restores the resource; the access it aggregates to is its mask.
pub proof fn lemma_first_request_is_last<R: RegistryToken>(r: R::Model, m: u32)
    ensures
        counts_wf::<R>(inc_counts::<R>(Seq::empty(), r, m)),
        total(inc_counts::<R>(Seq::empty(), r, m)) == 1,
        count_of(inc_counts::<R>(Seq::empty(), r, m), r, m) == 1,
        m != 0 ==> aggregate(inc_counts::<R>(Seq::empty(), r, m)) == seq![(r, m)],
{
    let e: Seq<(R::Model, Seq<(u32, usize)>)> = Seq::empty();
    assert(count_of(e, r, m) == 0);
    assert(total(e) == 0);
    lemma_inc_counts::<R>(e, r, m);
    let c = inc_counts::<R>(e, r, m);
    let one: Seq<(u32, usize)> = seq![(m, 1usize)];
    assert(one.drop_last() =~= Seq::<(u32, usize)>::empty());
    assert(or_masks(Seq::<(u32, usize)>::empty()) == 0);
    assert(or_masks(one) == 0 | m);
    assert(0 | m == m) by (bit_vector);
    assert(c.drop_last() =~= e);
    assert(aggregate(e) =~= Seq::<(R::Model, u32)>::empty());
    if m != 0 {
        assert(aggregate(c) =~= seq![(r, m)]);
    }
}

proof fn lemma_inc_counts_prefix<R: RegistryToken>(
    c: Seq<(R::Model, Seq<(u32, usize)>)>,
    r: R::Model,
    m: u32,
    i: int,
)
    requires
        0 <= i <= c.len(),
        forall|j: int| 0 <= j < i ==> R::model_lt(c[j].0, r),
    ensures
        inc_counts::<R>(c, r, m) == c.take(i) + inc_counts::<R>(c.skip(i), r, m),
    decreases i,
{
    if i == 0 {
        assert(c.skip(0) =~= c);
        assert(c.take(0) + inc_counts::<R>(c, r, m) =~= inc_counts::<R>(c, r, m));
    } else {
        R::lemma_model_order(c[0].0, r, c[0].0);
        R::lemma_model_order(r, c[0].0, r);
        lemma_inc_counts_prefix::<R>(c.drop_first(), r, m, i - 1);
        assert(c.drop_first().skip(i - 1) =~= c.skip(i));
        assert(c.take(i) =~= seq![c[0]] + c.drop_first().take(i - 1));
        assert(inc_counts::<R>(c, r, m) =~= c.take(i) + inc_counts::<R>(c.skip(i), r, m));
    }
}

proof fn lemma_dec_counts_prefix<RM>(c: Seq<(RM, Seq<(u32, usize)>)>, r: RM, m: u32, i: int)
    requires
        0 <= i <= c.len(),
        forall|j: int| 0 <= j < i ==> c[j].0 != r,
    ensures
        dec_counts(c, r, m) == c.take(i) + dec_counts(c.skip(i), r, m),
        count_of(c, r, m) == count_of(c.skip(i), r, m),
    decreases i,
{
    if i == 0 {
        assert(c.skip(0) =~= c);
        assert(c.take(0) + dec_counts(c, r, m) =~= dec_counts(c, r, m));
    } else {
        lemma_dec_counts_prefix(c.drop_first(), r, m, i - 1);
        assert(c.drop_first().skip(i - 1) =~= c.skip(i));
        assert(c.take(i) =~= seq![c[0]] + c.drop_first().take(i - 1));
        assert(dec_counts(c, r, m) =~= c.take(i) + dec_counts(c.skip(i), r, m));
    }
}

proof fn lemma_total_bounds<RM>(c: Seq<(RM, Seq<(u32, usize)>)>)
    requires
        forall|i: int| 0 <= i < c.len() ==> masks_sorted(#[trigger] c[i].1) && c[i].1.len() > 0,
    ensures
        total(c) >= c.len(),
        c.len() > 0 ==> total(c) >= masks_total(c[0].1),
    decreases c.len(),
{
    if c.len() > 0 {
        let t = c.drop_first();
        assert forall|i: int| 0 <= i < t.len() implies masks_sorted(#[trigger] t[i].1)
            && t[i].1.len() > 0 by {
            assert(t[i] == c[i + 1]);
        }
        lemma_total_bounds(t);
        lemma_masks_total_bounds(c[0].1);
    }
}

proof fn lemma_masks_total_bounds(s: Seq<(u32, usize)>)
    requires
        masks_sorted(s),
    ensures
        masks_total(s) >= s.len(),
        s.len() > 0 ==> masks_total(s) >= s[0].1,
    decreases s.len(),
{
    if s.len() > 0 {
        let t = s.drop_first();
        assert forall|a: int, b: int| 0 <= a < b < t.len() implies t[a].0 < t[b].0 by {
            assert(s[a + 1].0 < s[b + 1].0);
        }
        assert forall|a: int| 0 <= a < t.len() implies t[a].1 > 0 by {
            assert(t[a] == s[a + 1]);
        }
        lemma_masks_total_bounds(t);
    }
}

proof fn lemma_total_one<R: RegistryToken>(c: Seq<(R::Model, Seq<(u32, usize)>)>)
    requires
        counts_wf::<R>(c),
    ensures
        (total(c) == 1) == (c.len() == 1 && c[0].1.len() == 1 && c[0].1[0].1 == 1),
{
    let e: Seq<(u32, usize)> = Seq::empty();
    assert(masks_total(e) == 0);
    if c.len() == 0 {
    } else {
        let t = c.drop_first();
        assert forall|i: int| 0 <= i < t.len() implies masks_sorted(#[trigger] t[i].1)
            && t[i].1.len() > 0 by {
            assert(t[i] == c[i + 1]);
        }
        lemma_total_bounds(t);
        let s = c[0].1;
        lemma_masks_total_bounds(s);
        let u = s.drop_first();
        assert forall|a: int, b: int| 0 <= a < b < u.len() implies u[a].0 < u[b].0 by {
            assert(s[a + 1].0 < s[b + 1].0);
        }
        assert forall|a: int| 0 <= a < u.len() implies u[a].1 > 0 by {
            assert(u[a] == s[a + 1]);
        }
        lemma_masks_total_bounds(u);
        assert(total(c) == masks_total(s) + total(t));
        assert(masks_total(s) == s[0].1 + masks_total(u));
        if c.len() == 1 {
            assert(t.len() == 0);
            assert(total(t) == 0);
        }
    }
}

/// The open requests of one trustee on a resource.
struct RequestCount<R> {
    request: R,
    masks: Vec<(u32, usize)>,
}

/// Request counts by their models.
closed spec fn counts_model<R: RegistryToken>(v: Seq<RequestCount<R>>) -> Seq<
    (R::Model, Seq<(u32, usize)>),
> {
    v.map_values(|e: RequestCount<R>| (e.request.model(), e.masks@))
}

/// Adds one request of `request` for `mask`, keeping trustees in order.
fn increment_request<R: RegistryToken>(counts: &mut Vec<RequestCount<R>>, request: R, mask: u32)
    requires
        counts_wf::<R>(counts_model(old(counts)@)),
        count_of(counts_model(old(counts)@), request.model(), mask) < usize::MAX,
    ensures
        counts_model(final(counts)@) == inc_counts::<R>(
            counts_model(old(counts)@),
            request.model(),
            mask,
        ),
{
    let ghost c = counts_model(counts@);
    let ghost r = request.model();
    let mut i: usize = 0;
    while i < counts.len() && counts[i].request.before(&request)
        invariant
            i <= counts.len(),
            counts@ == old(counts)@,
            c == counts_model(counts@),
            c.len() == counts@.len(),
            r == request.model(),
            forall|j: int| 0 <= j < i ==> R::model_lt(c[j].0, r),
        decreases counts.len() - i,
    {
        i = i + 1;
    }
    proof {
        lemma_inc_counts_prefix::<R>(c, r, mask, i as int);
        assert forall|j: int| 0 <= j < i implies c[j].0 != r by {
            R::lemma_model_order(r, r, r);
        }
        lemma_dec_counts_prefix(c, r, mask, i as int);
    }
    if i < counts.len() && counts[i].request.same(&request) {
        let mut e = counts.remove(i);
        assert(c[i as int].1 == e.masks@);
        increment_mask(&mut e.masks, mask);
        counts.insert(i, e);
        assert(counts_model(counts@) =~= c.take(i as int) + inc_counts::<R>(
            c.skip(i as int),
            r,
            mask,
        ));
    } else {
        proof {
            if i < c.len() {
                R::lemma_model_order(c[i as int].0, r, r);
            }
        }
        let mut masks: Vec<(u32, usize)> = Vec::new();
        masks.push((mask, 1));
        counts.insert(i, RequestCount { request, masks });
        assert(counts_model(counts@) =~= c.take(i as int) + inc_counts::<R>(
            c.skip(i as int),
            r,
            mask,
        ));
    }
}

/// Where `request` stands among the counts, if it has any.
fn find_request<R: RegistryToken>(counts: &Vec<RequestCount<R>>, request: &R) -> (r: Option<usize>)
    ensures
        match r {
            Some(i) => i < counts@.len() && counts_model(counts@)[i as int].0 == request.model()
                && forall|j: int| 0 <= j < i ==> counts_model(counts@)[j].0 != request.model(),
            None => forall|j: int|
                0 <= j < counts@.len() ==> counts_model(counts@)[j].0 != request.model(),
        },
{
    let mut i: usize = 0;
    while i < counts.len()
        invariant
            i <= counts.len(),
            forall|j: int| 0 <= j < i ==> counts_model(counts@)[j].0 != request.model(),
        decreases counts.len() - i,
    {
        if counts[i].request.same(request) {
            return Some(i);
        }
        i = i + 1;
    }
    None
}

/// Removes one request of `request` for `mask`.
fn decrement_request<R: RegistryToken>(counts: &mut Vec<RequestCount<R>>, request: &R, mask: u32)
    requires
        count_of(counts_model(old(counts)@), request.model(), mask) > 0,
    ensures
        counts_model(final(counts)@) == dec_counts(counts_model(old(counts)@), request.model(), mask),
{
    let ghost c = counts_model(counts@);
    let ghost r = request.model();
    match find_request(counts, request) {
        Some(i) => {
            proof {
                lemma_dec_counts_prefix(c, r, mask, i as int);
            }
            let mut e = counts.remove(i);
            assert(c[i as int].1 == e.masks@);
            decrement_mask(&mut e.masks, mask);
            if e.masks.len() > 0 {
                counts.insert(i, e);
            }
            assert(counts_model(counts@) =~= c.take(i as int) + dec_counts(c.skip(i as int), r, mask));
        },
        None => {
            proof {
                lemma_count_absent(c, r, mask);
            }
        },
    }
}

/// The open requests of `request` for `mask`.
fn count_for_request<R: RegistryToken>(counts: &Vec<RequestCount<R>>, request: &R, mask: u32) -> (n: usize)
    ensures
        n == count_of(counts_model(counts@), request.model(), mask),
{
    let ghost c = counts_model(counts@);
    match find_request(counts, request) {
        Some(i) => {
            proof {
                lemma_dec_counts_prefix(c, request.model(), mask, i as int);
            }
            count_for_mask(&counts[i].masks, mask)
        },
        None => {
            proof {
                lemma_count_absent(c, request.model(), mask);
            }
            0
        },
    }
}

/// The access each trustee holds, in trustee order.
fn aggregate_requests<R: RegistryToken>(counts: &Vec<RequestCount<R>>) -> (out: Vec<(R, u32)>)
    ensures
        requests_model(out@) == aggregate(counts_model(counts@)),
{
    let ghost c = counts_model(counts@);
    let mut out: Vec<(R, u32)> = Vec::new();
    let mut i: usize = 0;
    while i < counts.len()
        invariant
            i <= counts.len(),
            c == counts_model(counts@),
            requests_model(out@) == aggregate(c.take(i as int)),
        decreases counts.len() - i,
    {
        assert(c.take(i + 1).drop_last() =~= c.take(i as int));
        assert(c.take(i + 1).last() == c[i as int]);
        let m = aggregate_access_mask(&counts[i].masks);
        if m != 0 {
            let ghost before = out@;
            out.push((counts[i].request.duplicate(), m));
            assert(requests_model(out@) =~= requests_model(before).push((c[i as int].0, m)));
        }
        i = i + 1;
    }
    assert(c.take(counts.len() as int) =~= c);
    out
}

/// Whether two lists of requests are the same.
fn same_requests<R: RegistryToken>(a: &Vec<(R, u32)>, b: &Vec<(R, u32)>) -> (r: bool)
    ensures
        r == (requests_model(a@) == requests_model(b@)),
{
    if a.len() != b.len() {
        assert(requests_model(a@).len() != requests_model(b@).len());
        return false;
    }
    let mut i: usize = 0;
    while i < a.len()
        invariant
            i <= a.len(),
            a.len() == b.len(),
            requests_model(a@).take(i as int) == requests_model(b@).take(i as int),
        decreases a.len() - i,
    {
        if !(a[i].1 == b[i].1 && a[i].0.same(&b[i].0)) {
            assert(requests_model(a@)[i as int] != requests_model(b@)[i as int]);
            return false;
        }
        assert(requests_model(a@).take(i + 1) =~= requests_model(a@).take(i as int).push(
            requests_model(a@)[i as int],
        ));
        assert(requests_model(b@).take(i + 1) =~= requests_model(b@).take(i as int).push(
            requests_model(b@)[i as int],
        ));
        i = i + 1;
    }
    assert(requests_model(a@).take(a.len() as int) =~= requests_model(a@));
    assert(requests_model(b@).take(b.len() as int) =~= requests_model(b@));
    true
}

/// Whether exactly one request is open.
fn last_open_request<R: RegistryToken>(counts: &Vec<RequestCount<R>>) -> (r: bool)
    requires
        counts_wf::<R>(counts_model(counts@)),
    ensures
        r == (total(counts_model(counts@)) == 1),
{
    proof {
        lemma_total_one::<R>(counts_model(counts@));
    }
    counts.len() == 1 && counts[0].masks.len() == 1 && counts[0].masks[0].1 == 1
}

fn copy_counts<R: RegistryToken>(counts: &Vec<RequestCount<R>>) -> (out: Vec<RequestCount<R>>)
    ensures
        counts_model(out@) == counts_model(counts@),
{
    let mut out: Vec<RequestCount<R>> = Vec::new();
    let mut i: usize = 0;
    while i < counts.len()
        invariant
            i <= counts.len(),
            counts_model(out@) == counts_model(counts@).take(i as int),
        decreases counts.len() - i,
    {
        let e = RequestCount {
            request: counts[i].request.duplicate(),
            masks: copy_masks(&counts[i].masks),
        };
        let ghost before = out@;
        out.push(e);
        assert(counts_model(out@) =~= counts_model(before).push(counts_model(counts@)[i as int]));
        assert(counts_model(counts@).take(i + 1) =~= counts_model(counts@).take(i as int).push(
            counts_model(counts@)[i as int],
        ));
        i = i + 1;
    }
    assert(counts_model(counts@).take(counts.len() as int) =~= counts_model(counts@));
    out
}

// ---------------------------------------------------------------------------
// The registry: per resource key, the state kept for it (the applied grant
// with the resource's original DACL) and its request counts.
// ---------------------------------------------------------------------------

/// Why a release was refused or failed.
#[derive(Debug, PartialEq, Eq)]
pub enum RegistryReleaseError<E> {
    /// No grant is registered for the resource.
    UnknownGrant,
    /// The trustee holds no open request for that mask on the resource.
    UnknownAccessMask,
    /// Reconfiguring the resource to the remaining requests failed.
    Reconfigure(E),
    /// Restoring the resource's original state failed.
    Restore(E),
}

struct AggregateGrant<R, S> {
    state: S,
    request_counts: Vec<RequestCount<R>>,
}

struct RegistryEntry<K, R, S> {
    key: K,
    grant: AggregateGrant<R, S>,
}

/// Open ACL grant requests, per resource.
pub struct AggregateGrantRegistry<K, R, S> {
    entries: Vec<RegistryEntry<K, R, S>>,
}

/// A resource's state and request counts.
closed spec fn entry_model<K: RegistryToken, R: RegistryToken, S>(e: RegistryEntry<K, R, S>) -> (
    S,
    Seq<(R::Model, Seq<(u32, usize)>)>,
) {
    (e.grant.state, counts_model(e.grant.request_counts@))
}

closed spec fn entries_hold<K: RegistryToken, R: RegistryToken, S>(
    s: Seq<RegistryEntry<K, R, S>>,
    k: K::Model,
) -> bool {
    exists|i: int| 0 <= i < s.len() && (#[trigger] s[i]).key.model() == k
}

closed spec fn entries_view<K: RegistryToken, R: RegistryToken, S>(
    s: Seq<RegistryEntry<K, R, S>>,
) -> Map<K::Model, (S, Seq<(R::Model, Seq<(u32, usize)>)>)> {
    Map::new(
        |k: K::Model| entries_hold(s, k),
        |k: K::Model|
            entry_model(s[choose|i: int| 0 <= i < s.len() && (#[trigger] s[i]).key.model() == k]),
    )
}

closed spec fn grant_ok<K: RegistryToken, R: RegistryToken, S>(e: RegistryEntry<K, R, S>) -> bool {
    counts_wf::<R>(counts_model(e.grant.request_counts@)) && e.grant.request_counts@.len() > 0
}

closed spec fn entries_ok<K: RegistryToken, R: RegistryToken, S>(
    s: Seq<RegistryEntry<K, R, S>>,
) -> bool {
    forall|i: int| 0 <= i < s.len() ==> grant_ok(#[trigger] s[i])
}

closed spec fn entries_distinct<K: RegistryToken, R: RegistryToken, S>(
    s: Seq<RegistryEntry<K, R, S>>,
) -> bool {
    forall|i: int, j: int|
        0 <= i < s.len() && 0 <= j < s.len() && i != j ==> s[i].key.model() != s[j].key.model()
}

proof fn lemma_entries_update<K: RegistryToken, R: RegistryToken, S>(
    s: Seq<RegistryEntry<K, R, S>>,
    i: int,
    e: RegistryEntry<K, R, S>,
)
    requires
        entries_distinct(s),
        0 <= i < s.len(),
        e.key.model() == s[i].key.model(),
    ensures
        entries_distinct(s.update(i, e)),
        entries_view(s.update(i, e)) == entries_view(s).insert(e.key.model(), entry_model(e)),
        entries_ok(s) && grant_ok(e) ==> entries_ok(s.update(i, e)),
{
    let t = s.update(i, e);
    if entries_ok(s) && grant_ok(e) {
        assert forall|j: int| 0 <= j < t.len() implies grant_ok(#[trigger] t[j]) by {
            if j != i {
                assert(t[j] == s[j]);
            }
        }
    }
    let k = e.key.model();
    assert forall|x: K::Model| entries_hold(t, x) == (entries_hold(s, x) || x == k) by {
        if entries_hold(s, x) {
            let j = choose|j: int| 0 <= j < s.len() && (#[trigger] s[j]).key.model() == x;
            assert(t[j].key.model() == x);
        }
        if entries_hold(t, x) {
            let j = choose|j: int| 0 <= j < t.len() && (#[trigger] t[j]).key.model() == x;
            assert(s[j].key.model() == x);
        }
        if x == k {
            assert(t[i].key.model() == x);
        }
    }
    assert forall|x: K::Model| #[trigger] entries_view(t).dom().contains(x) implies entries_view(
        t,
    )[x] == entries_view(s).insert(k, entry_model(e))[x] by {
        let j = choose|j: int| 0 <= j < t.len() && (#[trigger] t[j]).key.model() == x;
        if x == k {
            assert(j == i);
        } else {
            let j2 = choose|j: int| 0 <= j < s.len() && (#[trigger] s[j]).key.model() == x;
            assert(j == j2);
        }
    }
    assert(entries_view(t) =~= entries_view(s).insert(k, entry_model(e)));
}

proof fn lemma_entries_push<K: RegistryToken, R: RegistryToken, S>(
    s: Seq<RegistryEntry<K, R, S>>,
    e: RegistryEntry<K, R, S>,
)
    requires
        entries_distinct(s),
        !entries_hold(s, e.key.model()),
    ensures
        entries_distinct(s.push(e)),
        entries_view(s.push(e)) == entries_view(s).insert(e.key.model(), entry_model(e)),
        entries_ok(s) && grant_ok(e) ==> entries_ok(s.push(e)),
{
    let t = s.push(e);
    if entries_ok(s) && grant_ok(e) {
        assert forall|j: int| 0 <= j < t.len() implies grant_ok(#[trigger] t[j]) by {
            if j < s.len() {
                assert(t[j] == s[j]);
            }
        }
    }
    let k = e.key.model();
    assert forall|i: int, j: int|
        0 <= i < t.len() && 0 <= j < t.len() && i != j implies t[i].key.model() != t[j].key.model() by {
        if i == s.len() {
            assert(t[j] == s[j]);
        } else if j == s.len() {
            assert(t[i] == s[i]);
        } else {
            assert(t[i] == s[i] && t[j] == s[j]);
        }
    }
    assert forall|x: K::Model| entries_hold(t, x) == (entries_hold(s, x) || x == k) by {
        if entries_hold(s, x) {
            let j = choose|j: int| 0 <= j < s.len() && (#[trigger] s[j]).key.model() == x;
            assert(t[j] == s[j]);
        }
        if entries_hold(t, x) {
            let j = choose|j: int| 0 <= j < t.len() && (#[trigger] t[j]).key.model() == x;
            if j < s.len() {
                assert(t[j] == s[j]);
            }
        }
        if x == k {
            assert(t[s.len() as int] == e);
        }
    }
    assert forall|x: K::Model| #[trigger] entries_view(t).dom().contains(x) implies entries_view(
        t,
    )[x] == entries_view(s).insert(k, entry_model(e))[x] by {
        let j = choose|j: int| 0 <= j < t.len() && (#[trigger] t[j]).key.model() == x;
        if x == k {
            assert(t[s.len() as int] == e);
            assert(j == s.len());
        } else {
            let j2 = choose|j: int| 0 <= j < s.len() && (#[trigger] s[j]).key.model() == x;
            assert(t[j2] == s[j2]);
            assert(j == j2);
        }
    }
    assert(entries_view(t) =~= entries_view(s).insert(k, entry_model(e)));
}

proof fn lemma_entries_remove<K: RegistryToken, R: RegistryToken, S>(
    s: Seq<RegistryEntry<K, R, S>>,
    i: int,
)
    requires
        entries_distinct(s),
        0 <= i < s.len(),
    ensures
        entries_distinct(s.remove(i)),
        entries_view(s.remove(i)) == entries_view(s).remove(s[i].key.model()),
        entries_ok(s) ==> entries_ok(s.remove(i)),
{
    let t = s.remove(i);
    if entries_ok(s) {
        assert forall|j: int| 0 <= j < t.len() implies grant_ok(#[trigger] t[j]) by {
            if j < i {
                assert(t[j] == s[j]);
            } else {
                assert(t[j] == s[j + 1]);
            }
        }
    }
    let k = s[i].key.model();
    assert forall|a: int, b: int|
        0 <= a < t.len() && 0 <= b < t.len() && a != b implies t[a].key.model() != t[b].key.model() by {
        let a2 = if a < i { a } else { a + 1 };
        let b2 = if b < i { b } else { b + 1 };
        assert(t[a] == s[a2] && t[b] == s[b2]);
    }
    assert forall|x: K::Model| entries_hold(t, x) == (entries_hold(s, x) && x != k) by {
        if entries_hold(s, x) && x != k {
            let j = choose|j: int| 0 <= j < s.len() && (#[trigger] s[j]).key.model() == x;
            if j < i {
                assert(t[j] == s[j]);
            } else {
                assert(t[j - 1] == s[j]);
            }
        }
        if entries_hold(t, x) {
            let j = choose|j: int| 0 <= j < t.len() && (#[trigger] t[j]).key.model() == x;
            let j2 = if j < i { j } else { j + 1 };
            assert(t[j] == s[j2]);
        }
    }
    assert forall|x: K::Model| #[trigger] entries_view(t).dom().contains(x) implies entries_view(
        t,
    )[x] == entries_view(s)[x] by {
        let j = choose|j: int| 0 <= j < t.len() && (#[trigger] t[j]).key.model() == x;
        let j2 = choose|j: int| 0 <= j < s.len() && (#[trigger] s[j]).key.model() == x;
        let j3 = if j < i { j } else { j + 1 };
        assert(t[j] == s[j3]);
        assert(j3 == j2);
    }
    assert(entries_view(t) =~= entries_view(s).remove(k));
}

impl<K: RegistryToken, R: RegistryToken, S> View for AggregateGrantRegistry<K, R, S> {
    type V = Map<K::Model, (S, Seq<(R::Model, Seq<(u32, usize)>)>)>;

    /// Per resource, the kept state and the request counts.
    closed spec fn view(&self) -> Self::V {
        entries_view(self.entries@)
    }
}

impl<K: RegistryToken, R: RegistryToken, S> AggregateGrantRegistry<K, R, S> {
    /// Resources are distinct; each has well-formed counts with some request open.
    pub closed spec fn wf(&self) -> bool {
        &&& entries_distinct(self.entries@)
        &&& entries_ok(self.entries@)
    }

    /// Every registered resource has well-formed counts with some request open.
    pub proof fn lemma_wf_view(&self)
        requires
            self.wf(),
        ensures
            forall|k: K::Model|
                #[trigger] self@.dom().contains(k) ==> counts_wf::<R>(self@[k].1) && total(
                    self@[k].1,
                ) > 0,
    {
        assert forall|k: K::Model| #[trigger] self@.dom().contains(k) implies counts_wf::<R>(
            self@[k].1,
        ) && total(self@[k].1) > 0 by {
            let s = self.entries@;
            let j = choose|j: int| 0 <= j < s.len() && (#[trigger] s[j]).key.model() == k;
            let c = counts_model(s[j].grant.request_counts@);
            assert(grant_ok(s[j]));
            lemma_total_bounds(c);
        }
    }

    /// An empty registry.
    pub fn new() -> (r: Self)
        ensures
            r.wf(),
            r@ == Map::<K::Model, (S, Seq<(R::Model, Seq<(u32, usize)>)>)>::empty(),
    {
        let r = AggregateGrantRegistry { entries: Vec::new() };
        assert(r@ =~= Map::<K::Model, (S, Seq<(R::Model, Seq<(u32, usize)>)>)>::empty());
        r
    }

    fn find(&self, key: &K) -> (r: Option<usize>)
        ensures
            match r {
                Some(i) => i < self.entries@.len() && self.entries@[i as int].key.model()
                    == key.model(),
                None => !entries_hold(self.entries@, key.model()),
            },
    {
        let mut i: usize = 0;
        while i < self.entries.len()
            invariant
                i <= self.entries.len(),
                forall|j: int| 0 <= j < i ==> self.entries@[j].key.model() != key.model(),
            decreases self.entries.len() - i,
        {
            if self.entries[i].key.same(key) {
                return Some(i);
            }
            i = i + 1;
        }
        None
    }

    /// Registers one request of `request` for `access_mask` on resource `key`.
    ///
    /// A resource seen for the first time is set up by `create`, which gets
    /// the aggregated requests and returns the state kept for the resource.
    /// On a known resource `create` is never called; `reconfigure` gets the
    /// kept state and the new aggregate, and only when the aggregate changes.
    /// A failed callback leaves the request counts as they were.
    pub fn acquire<E>(
        &mut self,
        key: K,
        request: R,
        access_mask: u32,
        create: impl FnOnce(&[(R, u32)]) -> Result<S, E>,
        reconfigure: impl FnOnce(&mut S, &[(R, u32)]) -> Result<(), E>,
    ) -> (r: Result<(), E>)
        requires
            old(self).wf(),
            forall|a: &[(R, u32)]| create.requires((a,)),
            forall|st: &mut S, a: &[(R, u32)]| reconfigure.requires((st, a)),
            old(self)@.dom().contains(key.model()) ==> count_of(
                old(self)@[key.model()].1,
                request.model(),
                access_mask,
            ) < usize::MAX,
        ensures
            final(self).wf(),
            ({
                let km = key.model();
                let rm = request.model();
                if old(self)@.dom().contains(km) {
                    let s0 = old(self)@[km].0;
                    let c0 = old(self)@[km].1;
                    let c1 = inc_counts::<R>(c0, rm, access_mask);
                    if aggregate(c1) == aggregate(c0) {
                        r is Ok && final(self)@ == old(self)@.insert(km, (s0, c1))
                    } else {
                        exists|st: &mut S, a: &[(R, u32)], out: Result<(), E>|
                            {
                                &&& *st == s0
                                &&& requests_model(a@) == aggregate(c1)
                                &&& reconfigure.ensures((st, a), out)
                                &&& match out {
                                    Ok(_) => r is Ok && final(self)@ == old(self)@.insert(
                                        km,
                                        (*final(st), c1),
                                    ),
                                    Err(e) => r == Err::<(), E>(e) && final(self)@ == old(
                                        self,
                                    )@.insert(km, (*final(st), c0)),
                                }
                            }
                    }
                } else {
                    let c1 = inc_counts::<R>(Seq::empty(), rm, access_mask);
                    exists|a: &[(R, u32)], out: Result<S, E>|
                        {
                            &&& requests_model(a@) == aggregate(c1)
                            &&& create.ensures((a,), out)
                            &&& match out {
                                Ok(st) => r is Ok && final(self)@ == old(self)@.insert(km, (st, c1)),
                                Err(e) => r == Err::<(), E>(e) && final(self)@ == old(self)@,
                            }
                        }
                }
            }),
    {
        let ghost km = key.model();
        let ghost rm = request.model();
        let ghost s = self.entries@;
        match self.find(&key) {
            Some(i) => {
                let mut entry = self.entries.remove(i);
                let ghost c0 = counts_model(entry.grant.request_counts@);
                let ghost s0 = entry.grant.state;
                proof {
                    assert(s[i as int] == entry);
                    assert(grant_ok(s[i as int]));
                    assert(entries_view(s)[km] == entry_model(entry)) by {
                        let j = choose|j: int| 0 <= j < s.len() && (#[trigger] s[j]).key.model() == km;
                        assert(j == i);
                    }
                    lemma_inc_counts::<R>(c0, rm, access_mask);
                }
                let before = aggregate_requests(&entry.grant.request_counts);
                let mut next = copy_counts(&entry.grant.request_counts);
                increment_request(&mut next, request, access_mask);
                let after = aggregate_requests(&next);
                if !same_requests(&before, &after) {
                    let outcome = reconfigure(&mut entry.grant.state, after.as_slice());
                    match outcome {
                        Ok(()) => {
                            entry.grant.request_counts = next;
                            self.entries.insert(i, entry);
                            proof {
                                assert(self.entries@ =~= s.update(i as int, entry));
                                lemma_entries_update(s, i as int, entry);
                            }
                            return Ok(());
                        },
                        Err(e) => {
                            self.entries.insert(i, entry);
                            proof {
                                assert(self.entries@ =~= s.update(i as int, entry));
                                lemma_entries_update(s, i as int, entry);
                            }
                            return Err(e);
                        },
                    }
                }
                entry.grant.request_counts = next;
                self.entries.insert(i, entry);
                proof {
                    assert(self.entries@ =~= s.update(i as int, entry));
                    lemma_entries_update(s, i as int, entry);
                }
                Ok(())
            },
            None => {
                let mut counts: Vec<RequestCount<R>> = Vec::new();
                proof {
                    assert(counts_model(counts@) =~= Seq::<(R::Model, Seq<(u32, usize)>)>::empty());
                    lemma_inc_counts::<R>(counts_model(counts@), rm, access_mask);
                }
                increment_request(&mut counts, request, access_mask);
                let active = aggregate_requests(&counts);
                match create(active.as_slice()) {
                    Ok(state) => {
                        let entry = RegistryEntry {
                            key,
                            grant: AggregateGrant { state, request_counts: counts },
                        };
                        self.entries.push(entry);
                        proof {
                            lemma_entries_push(s, entry);
                        }
                        Ok(())
                    },
                    Err(e) => Err(e),
                }
            },
        }
    }

    /// Releases one request of `request` for `access_mask` on resource `key`.
    ///
    /// The last open request on a resource restores it through `restore` and
    /// forgets it; otherwise `reconfigure` gets the remaining aggregate, only
    /// when it changes. A refused or failed release leaves the request counts
    /// as they were, so it can be retried.
    pub fn release<E>(
        &mut self,
        key: &K,
        request: &R,
        access_mask: u32,
        reconfigure: impl FnOnce(&mut S, &[(R, u32)]) -> Result<(), E>,
        restore: impl FnOnce(&mut S) -> Result<(), E>,
    ) -> (r: Result<(), RegistryReleaseError<E>>)
        requires
            old(self).wf(),
            forall|st: &mut S, a: &[(R, u32)]| reconfigure.requires((st, a)),
            forall|st: &mut S| restore.requires((st,)),
        ensures
            final(self).wf(),
            ({
                let km = key.model();
                let rm = request.model();
                let s0 = old(self)@[km].0;
                let c0 = old(self)@[km].1;
                if !old(self)@.dom().contains(km) {
                    r == Err::<(), RegistryReleaseError<E>>(RegistryReleaseError::UnknownGrant)
                        && final(self)@ == old(self)@
                } else if count_of(c0, rm, access_mask) == 0 {
                    r == Err::<(), RegistryReleaseError<E>>(RegistryReleaseError::UnknownAccessMask)
                        && final(self)@ == old(self)@
                } else if total(c0) == 1 {
                    exists|st: &mut S, out: Result<(), E>|
                        {
                            &&& *st == s0
                            &&& restore.ensures((st,), out)
                            &&& match out {
                                Ok(_) => r is Ok && final(self)@ == old(self)@.remove(km),
                                Err(e) => r == Err::<(), RegistryReleaseError<E>>(
                                    RegistryReleaseError::Restore(e),
                                ) && final(self)@ == old(self)@.insert(km, (*final(st), c0)),
                            }
                        }
                } else {
                    let c1 = dec_counts(c0, rm, access_mask);
                    if aggregate(c1) == aggregate(c0) {
                        r is Ok && final(self)@ == old(self)@.insert(km, (s0, c1))
                    } else {
                        exists|st: &mut S, a: &[(R, u32)], out: Result<(), E>|
                            {
                                &&& *st == s0
                                &&& requests_model(a@) == aggregate(c1)
                                &&& reconfigure.ensures((st, a), out)
                                &&& match out {
                                    Ok(_) => r is Ok && final(self)@ == old(self)@.insert(
                                        km,
                                        (*final(st), c1),
                                    ),
                                    Err(e) => r == Err::<(), RegistryReleaseError<E>>(
                                        RegistryReleaseError::Reconfigure(e),
                                    ) && final(self)@ == old(self)@.insert(km, (*final(st), c0)),
                                }
                            }
                    }
                }
            }),
    {
        let ghost km = key.model();
        let ghost rm = request.model();
        let ghost s = self.entries@;
        let i = match self.find(key) {
            Some(i) => i,
            None => {
                return Err(RegistryReleaseError::UnknownGrant);
            },
        };
        proof {
            assert(grant_ok(s[i as int]));
            assert(entries_view(s)[km] == entry_model(s[i as int])) by {
                let j = choose|j: int| 0 <= j < s.len() && (#[trigger] s[j]).key.model() == km;
                assert(j == i);
            }
        }
        let open = count_for_request(&self.entries[i].grant.request_counts, request, access_mask);
        if open == 0 {
            return Err(RegistryReleaseError::UnknownAccessMask);
        }
        let mut entry = self.entries.remove(i);
        let ghost c0 = counts_model(entry.grant.request_counts@);
        if last_open_request(&entry.grant.request_counts) {
            let outcome = restore(&mut entry.grant.state);
            match outcome {
                Ok(()) => {
                    proof {
                        lemma_entries_remove(s, i as int);
                    }
                    return Ok(());
                },
                Err(e) => {
                    self.entries.insert(i, entry);
                    proof {
                        assert(self.entries@ =~= s.update(i as int, entry));
                        lemma_entries_update(s, i as int, entry);
                    }
                    return Err(RegistryReleaseError::Restore(e));
                },
            }
        }
        proof {
            lemma_dec_counts::<R>(c0, rm, access_mask);
        }
        let before = aggregate_requests(&entry.grant.request_counts);
        let mut next = copy_counts(&entry.grant.request_counts);
        decrement_request(&mut next, request, access_mask);
        let after = aggregate_requests(&next);
        if !same_requests(&before, &after) {
            let outcome = reconfigure(&mut entry.grant.state, after.as_slice());
            match outcome {
                Ok(()) => {},
                Err(e) => {
                    self.entries.insert(i, entry);
                    proof {
                        assert(self.entries@ =~= s.update(i as int, entry));
                        lemma_entries_update(s, i as int, entry);
                    }
                    return Err(RegistryReleaseError::Reconfigure(e));
                },
            }
        }
        proof {
            lemma_total_bounds(c0);
            let c1 = dec_counts(c0, rm, access_mask);
            if c1.len() == 0 {
                assert(total(c1) == 0);
            }
        }
        entry.grant.request_counts = next;
        self.entries.insert(i, entry);
        proof {
            assert(self.entries@ =~= s.update(i as int, entry));
            lemma_entries_update(s, i as int, entry);
        }
        Ok(())
    }

    /// The open requests of `request` for `access_mask` on resource `key`.
    pub fn request_count(&self, key: &K, request: &R, access_mask: u32) -> (n: usize)
        requires
            self.wf(),
        ensures
            n == (if self@.dom().contains(key.model()) {
                count_of(self@[key.model()].1, request.model(), access_mask)
            } else {
                0
            }),
    {
        match self.find(key) {
            Some(i) => {
                proof {
                    let s = self.entries@;
                    let km = key.model();
                    let j = choose|j: int| 0 <= j < s.len() && (#[trigger] s[j]).key.model() == km;
                    assert(j == i);
                }
                count_for_request(&self.entries[i].grant.request_counts, request, access_mask)
            },
            None => 0,
        }
    }
}

impl<K: RegistryToken, R: RegistryToken, S> Default for AggregateGrantRegistry<K, R, S> {
    fn default() -> (r: Self)
        ensures
            r.wf(),
            r@ == Map::<K::Model, (S, Seq<(R::Model, Seq<(u32, usize)>)>)>::empty(),
    {
        Self::new()
    }
}

} // verus!

verus! {

/// The access handed to the DACL for a trustee is the union of the masks of
/// its open requests: it includes every open mask, and it is the least such
/// value, having no bit outside what the open masks together allow (for any
/// `bound` that includes each open mask, the aggregate stays within `bound`).
pub proof fn lemma_aggregate_is_union_of_open_masks(s: Seq<(u32, usize)>, bound: u32)
    ensures
        forall|i: int| 0 <= i < s.len() && s[i].1 > 0 ==> #[trigger] (or_masks(s) & s[i].0) == s[i].0,
        (forall|i: int| 0 <= i < s.len() && s[i].1 > 0 ==> #[trigger] (s[i].0 & bound) == s[i].0)
            ==> or_masks(s) & bound == or_masks(s),
    decreases s.len(),
{
    if s.len() == 0 {
        assert(0u32 & bound == 0u32) by (bit_vector);
    } else {
        let init = s.drop_last();
        lemma_aggregate_is_union_of_open_masks(init, bound);
        let a = or_masks(init);
        let m = s.last().0;
        assert forall|i: int| 0 <= i < s.len() && s[i].1 > 0 implies #[trigger] (or_masks(s) & s[i].0)
            == s[i].0 by {
            let x = s[i].0;
            if i < s.len() - 1 {
                assert(init[i] == s[i]);
                assert(a & x == x);
                if s.last().1 > 0 {
                    assert((a | m) & x == x) by (bit_vector)
                        requires
                            a & x == x,
                    ;
                }
            } else {
                assert((a | m) & m == m) by (bit_vector);
            }
        }
        if forall|i: int| 0 <= i < s.len() && s[i].1 > 0 ==> #[trigger] (s[i].0 & bound) == s[i].0 {
            assert forall|i: int| 0 <= i < init.len() && init[i].1 > 0 implies #[trigger] (init[i].0
                & bound) == init[i].0 by {
                assert(init[i] == s[i]);
            }
            assert(a & bound == a);
            if s.last().1 > 0 {
                assert(s[s.len() - 1] == s.last());
                assert(m & bound == m);
                assert((a | m) & bound == (a | m)) by (bit_vector)
                    requires
                        a & bound == a,
                        m & bound == m,
                ;
            }
        }
    }
}

} // verus!
