//! The order in which role overrides are applied, and what applying them in
//! that order gives.
//!
//! Roles are applied from the highest rank down, so that the role of lowest
//! rank is applied last and decides the bits that it touches. Roles of equal
//! rank are applied in the order of their ids.

use crate::permissions::bit_set;
use crate::permissions::lemma_override_bit;
use crate::permissions::overridden;
use crate::permissions::Override;
use crate::permissions::PermissionValue;
use crate::text::lemma_bytes_before_total;
use crate::text::lemma_text_before_total;
use crate::text::lemma_bytes_before_transitive;
use crate::text::str_before;
use crate::text::text_before;
use vstd::prelude::*;
use vstd::utf8::encode_utf8;

verus! {

/// An override with what places it among the others: the rank and the id of
/// the role it belongs to.
pub struct Ranked {
    /// Rank of the role.
    pub rank: i64,
    /// Id of the role.
    pub id: Seq<char>,
    /// What the role allows and denies.
    pub permissions: Override,
}

/// An override with the rank and the id of the role it belongs to.
#[derive(Clone, Debug, PartialEq, Eq)]
pub struct RankedOverride {
    /// Rank of the role.
    pub rank: i64,
    /// Id of the role.
    pub id: String,
    /// What the role allows and denies.
    pub permissions: Override,
}

impl View for RankedOverride {
    type V = Ranked;

    open spec fn view(&self) -> Ranked {
        Ranked { rank: self.rank, id: self.id@, permissions: self.permissions }
    }
}

/// The views of a sequence of ranked overrides.
pub open spec fn ranked_views(entries: Seq<RankedOverride>) -> Seq<Ranked> {
    Seq::new(entries.len(), |i: int| entries[i]@)
}

/// Whether `a` is applied before `b`: it has the higher rank, or the same
/// rank and the id that comes first.
pub open spec fn applies_before(a: Ranked, b: Ranked) -> bool {
    a.rank > b.rank || (a.rank == b.rank && text_before(a.id, b.id))
}

/// Where `x` goes into a sequence that is in application order: before the
/// first entry that it is applied before, or at the end.
pub open spec fn insertion_point(sorted: Seq<Ranked>, x: Ranked) -> int
    decreases sorted.len(),
{
    if sorted.len() == 0 {
        0
    } else if applies_before(x, sorted[0]) {
        0
    } else {
        1 + insertion_point(sorted.drop_first(), x)
    }
}

/// The entries in application order: from the highest rank down, entries of
/// one rank by id, and entries that tie on both in the order they came in.
pub open spec fn in_application_order(entries: Seq<Ranked>) -> Seq<Ranked>
    decreases entries.len(),
{
    if entries.len() == 0 {
        Seq::empty()
    } else {
        let sorted = in_application_order(entries.drop_last());
        sorted.insert(insertion_point(sorted, entries.last()), entries.last())
    }
}

/// The value left when the overrides of `entries` are applied to `base`, one
/// after the other from the first to the last.
pub open spec fn apply_all(base: u64, entries: Seq<Ranked>) -> u64
    decreases entries.len(),
{
    if entries.len() == 0 {
        base
    } else {
        overridden(
            apply_all(base, entries.drop_last()),
            entries.last().permissions.allow,
            entries.last().permissions.deny,
        )
    }
}

/// The value that the overrides of `entries` give when they are applied to
/// `base` in application order.
pub open spec fn resolved(base: u64, entries: Seq<Ranked>) -> u64 {
    apply_all(base, in_application_order(entries))
}

/// The insertion point lies within the sequence or at its end.
pub proof fn lemma_insertion_point_bounds(sorted: Seq<Ranked>, x: Ranked)
    ensures
        0 <= insertion_point(sorted, x) <= sorted.len(),
    decreases sorted.len(),
{
    if sorted.len() > 0 && !applies_before(x, sorted[0]) {
        lemma_insertion_point_bounds(sorted.drop_first(), x);
    }
}

/// Putting entries in application order keeps their number.
pub proof fn lemma_application_order_len(entries: Seq<Ranked>)
    ensures
        in_application_order(entries).len() == entries.len(),
    decreases entries.len(),
{
    if entries.len() > 0 {
        lemma_application_order_len(entries.drop_last());
        lemma_insertion_point_bounds(in_application_order(entries.drop_last()), entries.last());
    }
}

/// Whether `a` is applied before `b`.
pub fn precedes(a: &RankedOverride, b: &RankedOverride) -> (r: bool)
    ensures
        r == applies_before(a@, b@),
{
    a.rank > b.rank || (a.rank == b.rank && str_before(a.id.as_str(), b.id.as_str()))
}

/// Puts the entries in application order.
pub fn sort_for_application(entries: Vec<RankedOverride>) -> (r: Vec<RankedOverride>)
    ensures
        ranked_views(r@) == in_application_order(ranked_views(entries@)),
{
    let mut sorted: Vec<RankedOverride> = Vec::new();
    let mut rest = entries;
    let ghost all = ranked_views(entries@);
    // Entries are taken from the back of `rest`, so the ones still to place
    // are a prefix of the input; placing goes over the input from the front,
    // which is why the input is turned round first.
    let mut reversed: Vec<RankedOverride> = Vec::new();
    while rest.len() > 0
        invariant
            rest@.len() + reversed@.len() == all.len(),
            forall|k: int| 0 <= k < rest@.len() ==> (#[trigger] rest@[k])@ == all[k],
            forall|k: int|
                0 <= k < reversed@.len() ==> (#[trigger] reversed@[k])@ == all[all.len() - 1 - k],
        decreases rest@.len(),
    {
        let last = rest.pop().unwrap();
        reversed.push(last);
    }
    proof {
        assert(ranked_views(sorted@) =~= in_application_order(all.take(0)));
    }
    while reversed.len() > 0
        invariant
            reversed@.len() <= all.len(),
            forall|k: int|
                0 <= k < reversed@.len() ==> (#[trigger] reversed@[k])@ == all[all.len() - 1 - k],
            ranked_views(sorted@) == in_application_order(all.take(all.len() - reversed@.len())),
        decreases reversed@.len(),
    {
        let ghost done = all.len() - reversed@.len();
        let x = reversed.pop().unwrap();
        let ghost before = ranked_views(sorted@);
        let mut k: usize = 0;
        proof {
            assert(before.skip(0) =~= before);
            lemma_insertion_point_bounds(before, x@);
        }
        while k < sorted.len() && !precedes(&x, &sorted[k])
            invariant
                before == ranked_views(sorted@),
                k <= sorted@.len(),
                insertion_point(before, x@) == k + insertion_point(before.skip(k as int), x@),
            decreases sorted@.len() - k,
        {
            proof {
                assert(before.skip(k as int).drop_first() =~= before.skip(k as int + 1));
                assert(before.skip(k as int)[0] == sorted@[k as int]@);
            }
            k = k + 1;
        }
        proof {
            if k < sorted@.len() {
                assert(before.skip(k as int)[0] == sorted@[k as int]@);
            }
            assert(insertion_point(before, x@) == k);
            assert(all.take(done + 1).drop_last() =~= all.take(done));
            assert(all.take(done + 1).last() == x@);
        }
        sorted.insert(k, x);
        proof {
            assert(ranked_views(sorted@) =~= before.insert(k as int, x@));
        }
    }
    proof {
        assert(all.take(all.len() as int) =~= all);
    }
    sorted
}

/// Applies the overrides to `base` in application order.
pub fn apply_in_order(base: PermissionValue, entries: Vec<RankedOverride>) -> (r: PermissionValue)
    ensures
        r.0 == resolved(base.0, ranked_views(entries@)),
{
    let sorted = sort_for_application(entries);
    let ghost order = ranked_views(sorted@);
    let mut value = base;
    let mut i: usize = 0;
    proof {
        assert(order.take(0) =~= Seq::<Ranked>::empty());
    }
    while i < sorted.len()
        invariant
            order == ranked_views(sorted@),
            i <= sorted@.len(),
            value.0 == apply_all(base.0, order.take(i as int)),
        decreases sorted@.len() - i,
    {
        proof {
            assert(order.take(i as int + 1).drop_last() =~= order.take(i as int));
            assert(order.take(i as int + 1).last() == sorted@[i as int]@);
        }
        value.apply(sorted[i].permissions);
        i = i + 1;
    }
    proof {
        assert(order.take(i as int) =~= order);
    }
    value
}

/// Whether the override of `entry` allows or denies bit `i`.
pub open spec fn touches(entry: Ranked, i: u64) -> bool {
    bit_set(entry.permissions.allow, i) || bit_set(entry.permissions.deny, i)
}

/// Whether no entry is applied before one that stands earlier in the
/// sequence.
pub open spec fn is_in_application_order(entries: Seq<Ranked>) -> bool {
    forall|a: int, b: int|
        0 <= a < b < entries.len() ==> !applies_before(#[trigger] entries[b], #[trigger] entries[a])
}

/// If `a` is applied before `b`, then `b` is not applied before `a`.
pub proof fn lemma_applies_before_asymmetric(a: Ranked, b: Ranked)
    requires
        applies_before(a, b),
    ensures
        !applies_before(b, a),
{
    lemma_bytes_before_total(encode_utf8(a.id), encode_utf8(b.id));
}

/// If `a` is applied before `b` and `b` before `c`, then `a` is applied
/// before `c`.
pub proof fn lemma_applies_before_transitive(a: Ranked, b: Ranked, c: Ranked)
    requires
        applies_before(a, b),
        applies_before(b, c),
    ensures
        applies_before(a, c),
{
    if a.rank == b.rank && b.rank == c.rank {
        lemma_bytes_before_transitive(encode_utf8(a.id), encode_utf8(b.id), encode_utf8(c.id));
    }
}

/// `x` is not applied before any entry that stands ahead of its insertion
/// point, and is applied before the entry at its insertion point.
pub proof fn lemma_insertion_point_first(sorted: Seq<Ranked>, x: Ranked)
    ensures
        forall|a: int| 0 <= a < insertion_point(sorted, x) ==> !applies_before(x, #[trigger] sorted[a]),
        insertion_point(sorted, x) < sorted.len() ==> applies_before(
            x,
            sorted[insertion_point(sorted, x)],
        ),
    decreases sorted.len(),
{
    lemma_insertion_point_bounds(sorted, x);
    if sorted.len() > 0 && !applies_before(x, sorted[0]) {
        let rest = sorted.drop_first();
        lemma_insertion_point_first(rest, x);
        lemma_insertion_point_bounds(rest, x);
        assert forall|a: int| 0 <= a < insertion_point(sorted, x) implies !applies_before(
            x,
            #[trigger] sorted[a],
        ) by {
            if a > 0 {
                assert(sorted[a] == rest[a - 1]);
            }
        }
        if insertion_point(sorted, x) < sorted.len() {
            assert(sorted[insertion_point(sorted, x)] == rest[insertion_point(rest, x)]);
        }
    }
}

/// Entries put in application order are in application order.
pub proof fn lemma_application_order_sorted(entries: Seq<Ranked>)
    ensures
        is_in_application_order(in_application_order(entries)),
    decreases entries.len(),
{
    if entries.len() > 0 {
        let sorted = in_application_order(entries.drop_last());
        let x = entries.last();
        let p = insertion_point(sorted, x);
        let out = in_application_order(entries);
        lemma_application_order_sorted(entries.drop_last());
        lemma_insertion_point_bounds(sorted, x);
        lemma_insertion_point_first(sorted, x);
        assert(out == sorted.insert(p, x));
        assert forall|a: int, b: int| 0 <= a < b < out.len() implies !applies_before(
            #[trigger] out[b],
            #[trigger] out[a],
        ) by {
            if b == p {
                assert(out[a] == sorted[a]);
            } else if a == p {
                assert(out[b] == sorted[b - 1]);
                if applies_before(out[b], x) {
                    lemma_applies_before_asymmetric(x, sorted[p]);
                    if b - 1 > p {
                        lemma_applies_before_transitive(sorted[b - 1], x, sorted[p]);
                    }
                }
            } else {
                let a0 = if a < p {
                    a
                } else {
                    a - 1
                };
                let b0 = if b < p {
                    b
                } else {
                    b - 1
                };
                assert(out[a] == sorted[a0]);
                assert(out[b] == sorted[b0]);
            }
        }
    }
}

/// Putting entries in application order neither adds nor loses an entry.
pub proof fn lemma_application_order_same_entries(entries: Seq<Ranked>, x: Ranked)
    ensures
        in_application_order(entries).contains(x) <==> entries.contains(x),
    decreases entries.len(),
{
    if entries.len() == 0 {
        assert(!entries.contains(x));
        assert(!in_application_order(entries).contains(x));
    } else {
        let rest = entries.drop_last();
        let sorted = in_application_order(rest);
        let last = entries.last();
        let p = insertion_point(sorted, last);
        let out = in_application_order(entries);
        lemma_application_order_same_entries(rest, x);
        lemma_insertion_point_bounds(sorted, last);
        assert(out == sorted.insert(p, last));
        if entries.contains(x) {
            let k = choose|k: int| 0 <= k < entries.len() && entries[k] == x;
            if k < rest.len() {
                assert(rest[k] == x);
                assert(sorted.contains(x));
                let j = choose|j: int| 0 <= j < sorted.len() && sorted[j] == x;
                let j2 = if j < p {
                    j
                } else {
                    j + 1
                };
                assert(out[j2] == x);
            } else {
                assert(out[p] == x);
            }
        }
        if out.contains(x) {
            let j = choose|j: int| 0 <= j < out.len() && out[j] == x;
            if j == p {
                assert(entries[entries.len() - 1] == x);
            } else {
                let j0 = if j < p {
                    j
                } else {
                    j - 1
                };
                assert(sorted[j0] == x);
                assert(rest.contains(x));
                let k = choose|k: int| 0 <= k < rest.len() && rest[k] == x;
                assert(entries[k] == x);
            }
        }
    }
}

/// When overrides are applied one after the other, the last that touches a
/// bit decides it: the bit ends as that override's allow mask has it.
pub proof fn lemma_last_touch_decides(base: u64, entries: Seq<Ranked>, k: int, i: u64)
    requires
        i < 64,
        0 <= k < entries.len(),
        touches(entries[k], i),
        forall|j: int| k < j < entries.len() ==> !touches(#[trigger] entries[j], i),
    ensures
        bit_set(apply_all(base, entries), i) == bit_set(entries[k].permissions.allow, i),
    decreases entries.len(),
{
    let last = entries.last();
    let before = apply_all(base, entries.drop_last());
    lemma_override_bit(before, last.permissions.allow, last.permissions.deny, i);
    if k < entries.len() - 1 {
        assert(!touches(entries[entries.len() - 1], i));
        assert(entries.drop_last()[k] == entries[k]);
        assert forall|j: int| k < j < entries.drop_last().len() implies !touches(
            #[trigger] entries.drop_last()[j],
            i,
        ) by {
            assert(entries.drop_last()[j] == entries[j]);
        }
        lemma_last_touch_decides(base, entries.drop_last(), k, i);
    }
}

/// A bit that no override touches stays as it was.
pub proof fn lemma_untouched_bit_stays(base: u64, entries: Seq<Ranked>, i: u64)
    requires
        i < 64,
        forall|j: int| 0 <= j < entries.len() ==> !touches(#[trigger] entries[j], i),
    ensures
        bit_set(apply_all(base, entries), i) == bit_set(base, i),
    decreases entries.len(),
{
    if entries.len() > 0 {
        let last = entries.last();
        lemma_override_bit(
            apply_all(base, entries.drop_last()),
            last.permissions.allow,
            last.permissions.deny,
            i,
        );
        assert(!touches(entries[entries.len() - 1], i));
        assert forall|j: int| 0 <= j < entries.drop_last().len() implies !touches(
            #[trigger] entries.drop_last()[j],
            i,
        ) by {
            assert(entries.drop_last()[j] == entries[j]);
        }
        lemma_untouched_bit_stays(base, entries.drop_last(), i);
    }
}

/// The entry that is applied after every other entry that touches a bit
/// decides the bit: where `winner` is among the entries and touches bit `i`,
/// and every other entry that touches the bit is applied before `winner`,
/// the bit of the resolved value is as `winner` allows it, whatever the
/// value was before and in whatever order the entries came in.
pub proof fn lemma_last_applied_decides(base: u64, entries: Seq<Ranked>, winner: Ranked, i: u64)
    requires
        i < 64,
        entries.contains(winner),
        touches(winner, i),
        forall|j: int|
            0 <= j < entries.len() && (#[trigger] entries[j]) != winner && touches(entries[j], i)
                ==> applies_before(entries[j], winner),
    ensures
        bit_set(resolved(base, entries), i) == bit_set(winner.permissions.allow, i),
{
    let order = in_application_order(entries);
    lemma_application_order_sorted(entries);
    lemma_application_order_same_entries(entries, winner);
    let k = last_position(order, winner);
    lemma_last_position(order, winner);
    assert forall|j: int| k < j < order.len() implies !touches(#[trigger] order[j], i) by {
        if touches(order[j], i) {
            let x = order[j];
            assert(order.contains(x));
            lemma_application_order_same_entries(entries, x);
            let v = choose|v: int| 0 <= v < entries.len() && entries[v] == x;
            assert(entries[v] != winner);
            assert(applies_before(order[j], order[k]));
        }
    }
    lemma_last_touch_decides(base, order, k, i);
}

/// The last place at which `x` stands in `entries`.
pub open spec fn last_position(entries: Seq<Ranked>, x: Ranked) -> int
    decreases entries.len(),
{
    if entries.len() == 0 {
        -1
    } else if entries.last() == x {
        entries.len() - 1
    } else {
        last_position(entries.drop_last(), x)
    }
}

/// Where `x` is among the entries, it stands at its last position and at no
/// later one.
pub proof fn lemma_last_position(entries: Seq<Ranked>, x: Ranked)
    requires
        entries.contains(x),
    ensures
        0 <= last_position(entries, x) < entries.len(),
        entries[last_position(entries, x)] == x,
        forall|j: int| last_position(entries, x) < j < entries.len() ==> (#[trigger] entries[j]) != x,
    decreases entries.len(),
{
    if entries.last() != x {
        let rest = entries.drop_last();
        let k = choose|k: int| 0 <= k < entries.len() && entries[k] == x;
        assert(rest[k] == x);
        lemma_last_position(rest, x);
        assert forall|j: int| last_position(entries, x) < j < entries.len() implies (
        #[trigger] entries[j]) != x by {
            if j < rest.len() {
                assert(rest[j] == entries[j]);
            }
        }
    }
}

/// Of two roles that treat a bit in opposite ways, the one of lower rank
/// decides the bit: it is applied last, in whichever order the two are
/// listed.
pub proof fn lemma_lower_rank_decides(base: u64, a: Ranked, b: Ranked, i: u64)
    requires
        i < 64,
        a.rank > b.rank,
        touches(b, i),
    ensures
        bit_set(resolved(base, seq![a, b]), i) == bit_set(b.permissions.allow, i),
        bit_set(resolved(base, seq![b, a]), i) == bit_set(b.permissions.allow, i),
{
    let ab = seq![a, b];
    let ba = seq![b, a];
    assert(ab[1] == b);
    assert(ba[0] == b);
    assert(ab.contains(b));
    assert(ba.contains(b));
    lemma_last_applied_decides(base, ab, b, i);
    lemma_last_applied_decides(base, ba, b, i);
}

/// Whether no two entries have both the same rank and the same id.
pub open spec fn distinct_keys(entries: Seq<Ranked>) -> bool {
    forall|a: int, b: int|
        0 <= a < b < entries.len() ==> !((#[trigger] entries[a]).rank == (#[trigger] entries[b]).rank
            && entries[a].id == entries[b].id)
}

/// Of two entries that differ in rank or in id, one is applied before the
/// other.
pub proof fn lemma_applies_before_total(a: Ranked, b: Ranked)
    requires
        !(a.rank == b.rank && a.id == b.id),
    ensures
        applies_before(a, b) || applies_before(b, a),
{
    lemma_text_before_total(a.id, b.id);
}

/// Among the entries that touch bit `i`, the one that is applied after all
/// the others; `None` where no entry touches the bit.
pub open spec fn last_toucher(entries: Seq<Ranked>, i: u64) -> Option<Ranked>
    decreases entries.len(),
{
    if entries.len() == 0 {
        None
    } else {
        let rest = last_toucher(entries.drop_last(), i);
        let e = entries.last();
        if !touches(e, i) {
            rest
        } else {
            match rest {
                None => Some(e),
                Some(w) => if applies_before(w, e) {
                    Some(e)
                } else {
                    Some(w)
                },
            }
        }
    }
}

/// `last_toucher` is what its name says, where no two entries share rank
/// and id.
pub proof fn lemma_last_toucher(entries: Seq<Ranked>, i: u64)
    requires
        distinct_keys(entries),
    ensures
        match last_toucher(entries, i) {
            None => forall|j: int| 0 <= j < entries.len() ==> !touches(#[trigger] entries[j], i),
            Some(w) => entries.contains(w) && touches(w, i) && forall|j: int|
                0 <= j < entries.len() && (#[trigger] entries[j]) != w && touches(entries[j], i)
                    ==> applies_before(entries[j], w),
        },
    decreases entries.len(),
{
    if entries.len() > 0 {
        let rest = entries.drop_last();
        let e = entries.last();
        assert forall|a: int, b: int| 0 <= a < b < rest.len() implies !((#[trigger] rest[a]).rank == (
        #[trigger] rest[b]).rank && rest[a].id == rest[b].id) by {
            assert(rest[a] == entries[a]);
            assert(rest[b] == entries[b]);
        }
        lemma_last_toucher(rest, i);
        let before = last_toucher(rest, i);
        match last_toucher(entries, i) {
            None => {
                assert forall|j: int| 0 <= j < entries.len() implies !touches(
                    #[trigger] entries[j],
                    i,
                ) by {
                    if j < rest.len() {
                        assert(rest[j] == entries[j]);
                    }
                }
            },
            Some(w) => {
                if before == Some(w) {
                    let k = choose|k: int| 0 <= k < rest.len() && rest[k] == w;
                    assert(entries[k] == w);
                } else {
                    assert(w == e);
                    assert(entries[entries.len() - 1] == w);
                }
                assert forall|j: int|
                    0 <= j < entries.len() && (#[trigger] entries[j]) != w && touches(
                        entries[j],
                        i,
                    ) implies applies_before(entries[j], w) by {
                    if j < rest.len() {
                        assert(rest[j] == entries[j]);
                        if w == e && before != Some(w) {
                            let v = before.unwrap();
                            if entries[j] != v {
                                lemma_applies_before_transitive(entries[j], v, e);
                            }
                        }
                    } else {
                        let k = choose|k: int| 0 <= k < rest.len() && rest[k] == w;
                        assert(entries[k] == w);
                        lemma_applies_before_total(e, w);
                    }
                }
            },
        }
    }
}

/// Two values whose bits agree from bit `n` up agree when shifted right by
/// `n`.
proof fn lemma_same_upper_bits(x: u64, y: u64, n: u64)
    requires
        n < 64,
        forall|i: u64| n <= i < 64 ==> bit_set(x, i) == bit_set(y, i),
    ensures
        x >> n == y >> n,
    decreases 64 - n,
{
    assert(bit_set(x, n) == bit_set(y, n));
    if n == 63 {
        assert(((x >> 63) & 1 == 1) == ((y >> 63) & 1 == 1) ==> x >> 63 == y >> 63) by (bit_vector);
    } else {
        lemma_same_upper_bits(x, y, (n + 1) as u64);
        let m = (n + 1) as u64;
        assert(n < 63 && m == n + 1 && x >> m == y >> m && (((x >> n) & 1 == 1) == ((y >> n) & 1
            == 1)) ==> x >> n == y >> n) by (bit_vector);
    }
}

/// Two values that agree in every bit are the same value.
pub proof fn lemma_same_bits_same_value(x: u64, y: u64)
    requires
        forall|i: u64| i < 64 ==> bit_set(x, i) == bit_set(y, i),
    ensures
        x == y,
{
    lemma_same_upper_bits(x, y, 0);
    assert(x >> 0 == x) by (bit_vector);
    assert(y >> 0 == y) by (bit_vector);
}

/// The resolved value does not depend on the order in which the entries
/// are listed: two listings that hold the same entries resolve to the same
/// value, where no two entries share rank and id.
pub proof fn lemma_listing_order_is_irrelevant(base: u64, a: Seq<Ranked>, b: Seq<Ranked>)
    requires
        distinct_keys(a),
        forall|x: Ranked| a.contains(x) <==> b.contains(x),
    ensures
        resolved(base, a) == resolved(base, b),
{
    assert forall|i: u64| i < 64 implies bit_set(resolved(base, a), i) == bit_set(
        resolved(base, b),
        i,
    ) by {
        lemma_last_toucher(a, i);
        match last_toucher(a, i) {
            None => {
                let oa = in_application_order(a);
                let ob = in_application_order(b);
                assert forall|j: int| 0 <= j < oa.len() implies !touches(#[trigger] oa[j], i) by {
                    assert(oa.contains(oa[j]));
                    lemma_application_order_same_entries(a, oa[j]);
                    let k = choose|k: int| 0 <= k < a.len() && a[k] == oa[j];
                }
                assert forall|j: int| 0 <= j < ob.len() implies !touches(#[trigger] ob[j], i) by {
                    assert(ob.contains(ob[j]));
                    lemma_application_order_same_entries(b, ob[j]);
                    assert(a.contains(ob[j]));
                    let k = choose|k: int| 0 <= k < a.len() && a[k] == ob[j];
                }
                lemma_untouched_bit_stays(base, oa, i);
                lemma_untouched_bit_stays(base, ob, i);
            },
            Some(w) => {
                assert(b.contains(w));
                assert forall|j: int|
                    0 <= j < b.len() && (#[trigger] b[j]) != w && touches(b[j], i) implies applies_before(
                    b[j],
                    w,
                ) by {
                    assert(b.contains(b[j]));
                    assert(a.contains(b[j]));
                    let k = choose|k: int| 0 <= k < a.len() && a[k] == b[j];
                }
                lemma_last_applied_decides(base, a, w, i);
                lemma_last_applied_decides(base, b, w, i);
            },
        }
    }
    lemma_same_bits_same_value(resolved(base, a), resolved(base, b));
}

} // verus!
