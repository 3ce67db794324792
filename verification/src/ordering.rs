//! The ordering engine: the three-way tie-broken total order over event
//! records (start, then end, then name), the laws that make it a consistent
//! total order, and the chronological sort itself.

use vstd::prelude::*;

verus! {

use core::cmp::Ordering;
use crate::event::{
    MpEvent,
    spec_cmp_opt_time,
    spec_cmp_opt_name,
    spec_event_eq,
};
use crate::text::{spec_lex_cmp, cmp_str_lex, lemma_lex_cmp_antisym, lemma_lex_cmp_trans};
use crate::timestamp::FixedOffsetDateTime;

broadcast use {vstd::seq_lib::group_to_multiset_ensures, vstd::multiset::group_multiset_axioms};

/// The total tie-broken order: by start time; at equal starts by end time,
/// the later-finishing event sorting later; at equal ends by name, with an
/// absent name before any present one. With two absent values comparing
/// Equal at each key this is one consistent policy: a total preorder, under
/// which every record compares Equal to itself.
pub open spec fn spec_total_cmp(a: MpEvent, b: MpEvent) -> Ordering {
    if spec_cmp_opt_time(a.start_time, b.start_time) != Ordering::Equal {
        spec_cmp_opt_time(a.start_time, b.start_time)
    } else if spec_cmp_opt_time(a.end_time, b.end_time) != Ordering::Equal {
        spec_cmp_opt_time(a.end_time, b.end_time)
    } else {
        spec_cmp_opt_name(a.name, b.name)
    }
}

impl MpEvent {
    /// The total tie-broken comparison. It reports Equal exactly on records
    /// whose three keys agree, so every record compares Equal to itself;
    /// `lemma_cmp_equal_implies_event_eq` shows that on records carrying the
    /// equality keys this agrees with the narrow equality predicate, so the
    /// broken-contract state of the two predicates drifting apart cannot
    /// arise.
    pub fn cmp(&self, other: &MpEvent) -> (r: Ordering)
        ensures
            r == spec_total_cmp(*self, *other),
    {
        match self.cmp_start_time(other) {
            Some(Ordering::Greater) => { return Ordering::Greater },
            Some(Ordering::Less) => { return Ordering::Less },
            _ => {},
        }
        match self.cmp_end_time(other) {
            Some(Ordering::Greater) => { return Ordering::Greater },
            Some(Ordering::Less) => { return Ordering::Less },
            _ => {},
        }
        match (&self.name, &other.name) {
            (None, None) => Ordering::Equal,
            (None, Some(_)) => Ordering::Less,
            (Some(_), None) => Ordering::Greater,
            (Some(x), Some(y)) => cmp_str_lex(x.as_str(), y.as_str()),
        }
    }
}

/// The per-field time comparison, used for both the start-time and the
/// end-time tie-breaks, answers consistently in both directions: reversed
/// arguments give the reversed verdict, equal operands — absent or present —
/// compare Equal either way round, and a value compared with itself is
/// Equal.
pub proof fn lemma_cmp_opt_time_antisym(
    a: Option<FixedOffsetDateTime>,
    b: Option<FixedOffsetDateTime>,
)
    ensures
        spec_cmp_opt_time(a, b) == Ordering::Less <==> spec_cmp_opt_time(b, a)
            == Ordering::Greater,
        spec_cmp_opt_time(a, b) == Ordering::Equal <==> spec_cmp_opt_time(b, a) == Ordering::Equal,
        spec_cmp_opt_time(a, a) == Ordering::Equal,
{
}

/// The comparator is reflexive: every record, whatever fields it lacks,
/// compares Equal to itself.
pub proof fn lemma_total_cmp_reflexive(a: MpEvent)
    ensures
        spec_total_cmp(a, a) == Ordering::Equal,
{
    match a.name {
        Some(x) => {
            lemma_lex_cmp_antisym(x@, x@);
        },
        None => {},
    }
}

/// The comparator is antisymmetric: reversing the arguments reverses the
/// verdict.
pub proof fn lemma_total_cmp_antisym(a: MpEvent, b: MpEvent)
    ensures
        spec_total_cmp(a, b) == Ordering::Less <==> spec_total_cmp(b, a) == Ordering::Greater,
        spec_total_cmp(a, b) == Ordering::Equal <==> spec_total_cmp(b, a) == Ordering::Equal,
{
    match (a.name, b.name) {
        (Some(x), Some(y)) => {
            lemma_lex_cmp_antisym(x@, y@);
            lemma_lex_cmp_antisym(y@, x@);
        },
        _ => {},
    }
}

/// The non-strict order is transitive.
pub proof fn lemma_total_cmp_trans(a: MpEvent, b: MpEvent, c: MpEvent)
    requires
        spec_total_cmp(a, b) != Ordering::Greater,
        spec_total_cmp(b, c) != Ordering::Greater,
    ensures
        spec_total_cmp(a, c) != Ordering::Greater,
{
    match (a.name, b.name, c.name) {
        (Some(x), Some(y), Some(z)) => {
            lemma_lex_cmp_antisym(x@, y@);
            lemma_lex_cmp_antisym(y@, z@);
            lemma_lex_cmp_antisym(x@, z@);
            if spec_lex_cmp(x@, y@) != Ordering::Greater && spec_lex_cmp(y@, z@)
                != Ordering::Greater {
                lemma_lex_cmp_trans(x@, y@, z@);
            }
        },
        _ => {},
    }
}

/// The ordering and the narrow equality predicate stay in sync: on records
/// that carry both equality keys (a present name and a present start time)
/// and valid timestamps, an Equal verdict from the tie-broken order implies
/// equality under the narrow predicate. Records without those keys compare
/// Equal only to key-identical records, which the narrow predicate simply
/// declines to call equal.
pub proof fn lemma_cmp_equal_implies_event_eq(a: MpEvent, b: MpEvent)
    requires
        a.name is Some,
        a.start_time is Some,
        a.wf(),
        b.wf(),
        spec_total_cmp(a, b) == Ordering::Equal,
    ensures
        spec_event_eq(a, b),
{
    match (a.name, b.name) {
        (Some(x), Some(y)) => {
            lemma_lex_cmp_antisym(x@, y@);
        },
        _ => {},
    }
}

/// The sequence is ordered by the total tie-broken order.
pub open spec fn spec_sorted(s: Seq<MpEvent>) -> bool {
    forall|p: int, q: int|
        0 <= p < q < s.len() ==> spec_total_cmp(#[trigger] s[p], #[trigger] s[q])
            != Ordering::Greater
}

/// Insertion of one record into a run, in front of the first strictly
/// greater element: a new record goes after every record that compares no
/// later than it, so records comparing equal keep their relative order and
/// the sort built on this insertion is stable.
pub open spec fn spec_insert_before_greater(s: Seq<MpEvent>, x: MpEvent) -> Seq<MpEvent>
    decreases s.len(),
{
    if s.len() == 0 {
        seq![x]
    } else if spec_total_cmp(s[0], x) == Ordering::Greater {
        seq![x] + s
    } else {
        seq![s[0]] + spec_insert_before_greater(s.drop_first(), x)
    }
}

/// The canonical stable insertion sort of a record sequence: each record,
/// first to last, inserted in front of the first strictly greater one.
pub open spec fn spec_insertion_sort(s: Seq<MpEvent>) -> Seq<MpEvent>
    decreases s.len(),
{
    if s.len() == 0 {
        Seq::<MpEvent>::empty()
    } else {
        spec_insert_before_greater(spec_insertion_sort(s.drop_last()), s.last())
    }
}

proof fn lemma_insert_before_greater_at_pos(s: Seq<MpEvent>, x: MpEvent, pos: int)
    requires
        0 <= pos <= s.len(),
        forall|t: int| 0 <= t < pos ==> spec_total_cmp(#[trigger] s[t], x) != Ordering::Greater,
        pos < s.len() ==> spec_total_cmp(s[pos], x) == Ordering::Greater,
    ensures
        spec_insert_before_greater(s, x) == s.insert(pos, x),
    decreases s.len(),
{
    if pos == 0 {
        if s.len() == 0 {
            assert(spec_insert_before_greater(s, x) =~= s.insert(0, x));
        } else {
            assert(spec_insert_before_greater(s, x) =~= s.insert(0, x));
        }
    } else {
        assert(spec_total_cmp(s[0], x) != Ordering::Greater);
        assert forall|t: int| 0 <= t < pos - 1 implies spec_total_cmp(
            #[trigger] s.drop_first()[t],
            x,
        ) != Ordering::Greater by {
            assert(s.drop_first()[t] == s[t + 1]);
        }
        if pos - 1 < s.drop_first().len() {
            assert(s.drop_first()[pos - 1] == s[pos]);
        }
        lemma_insert_before_greater_at_pos(s.drop_first(), x, pos - 1);
        assert(seq![s[0]] + s.drop_first().insert(pos - 1, x) =~= s.insert(pos, x));
    }
}

fn find_insert_pos(r: &Vec<MpEvent>, x: &MpEvent) -> (pos: usize)
    ensures
        pos <= r@.len(),
        forall|t: int| 0 <= t < pos ==> spec_total_cmp(#[trigger] r@[t], *x) != Ordering::Greater,
        pos < r@.len() ==> spec_total_cmp(r@[pos as int], *x) == Ordering::Greater,
{
    let n = r.len();
    let mut pos: usize = 0;
    while pos < n
        invariant
            pos <= n,
            n == r@.len(),
            forall|t: int| 0 <= t < pos ==> spec_total_cmp(#[trigger] r@[t], *x) != Ordering::Greater,
        decreases n - pos,
    {
        match r[pos].cmp(x) {
            Ordering::Greater => { return pos },
            _ => {},
        }
        pos = pos + 1;
    }
    pos
}

/// Sorts a record sequence by the full tie-broken total order, not by the
/// weaker start-only partial order: at a tied start the earlier-finishing
/// event comes first. Insertion before the first strictly greater element
/// keeps the sort stable.
#[verifier::rlimit(100)]
pub fn sort_mpevents_chronologically_by_start(events: Vec<MpEvent>) -> (r: Vec<MpEvent>)
    ensures
        r@ == spec_insertion_sort(events@),
        r@.to_multiset() == events@.to_multiset(),
        spec_sorted(r@),
{
    let ghost all = events@;
    let ghost mut processed: int = 0;
    let mut rest = events;
    let mut r: Vec<MpEvent> = Vec::new();
    proof {
        assert(r@.to_multiset().add(rest@.to_multiset()) =~= all.to_multiset());
        assert(rest@ =~= all.skip(0));
        assert(all.take(0).len() == 0);
    }
    while rest.len() > 0
        invariant
            0 <= processed <= all.len(),
            rest@ == all.skip(processed),
            r@ == spec_insertion_sort(all.take(processed)),
            r@.to_multiset().add(rest@.to_multiset()) =~= all.to_multiset(),
            spec_sorted(r@),
        decreases rest@.len(),
    {
        let ghost old_rest = rest@;
        let ghost old_r = r@;
        let x = rest.remove(0);
        proof {
            old_rest.remove_ensures(0);
            assert(old_rest.contains(x));
            assert(x == all[processed]);
            assert(rest@ =~= all.skip(processed + 1));
        }
        let pos = find_insert_pos(&r, &x);
        r.insert(pos, x);
        proof {
            old_r.insert_ensures(pos as int, x);
            let pi = pos as int;
            // The result so far is exactly the canonical stable sort of the
            // processed prefix.
            lemma_insert_before_greater_at_pos(old_r, x, pi);
            assert(all.take(processed + 1).drop_last() =~= all.take(processed));
            assert(all.take(processed + 1).last() == all[processed]);
            assert(all.take(processed + 1).len() == processed + 1);
            assert(r@ == spec_insertion_sort(all.take(processed + 1)));
            processed = processed + 1;
            // The records held, as a multiset, are unchanged.
            assert(r@.to_multiset() == old_r.to_multiset().insert(x));
            assert(rest@.to_multiset() == old_rest.to_multiset().remove(x));
            assert(old_rest.to_multiset().count(x) > 0);
            assert(r@.to_multiset().add(rest@.to_multiset()) =~= all.to_multiset());
            // The vector stays sorted around the insertion point.
            assert forall|p: int, q: int| 0 <= p < q < r@.len() implies spec_total_cmp(
                #[trigger] r@[p],
                #[trigger] r@[q],
            ) != Ordering::Greater by {
                if p < pi && q < pi {
                    assert(r@[p] == old_r[p] && r@[q] == old_r[q]);
                } else if p < pi && q == pi {
                    assert(r@[p] == old_r[p]);
                } else if p == pi && q > pi {
                    assert(r@[q] == old_r[q - 1]);
                    assert(spec_total_cmp(old_r[pi], x) == Ordering::Greater);
                    lemma_total_cmp_antisym(old_r[pi], x);
                    assert(spec_total_cmp(x, old_r[pi]) != Ordering::Greater);
                    if q - 1 > pi {
                        assert(spec_total_cmp(old_r[pi], old_r[q - 1]) != Ordering::Greater);
                        lemma_total_cmp_trans(x, old_r[pi], old_r[q - 1]);
                    }
                } else if p < pi && q > pi {
                    assert(r@[p] == old_r[p] && r@[q] == old_r[q - 1]);
                } else if p > pi && q > pi {
                    assert(r@[p] == old_r[p - 1] && r@[q] == old_r[q - 1]);
                }
            }
        }
    }
    proof {
        assert(all.skip(processed).len() == 0);
        assert(processed == all.len());
        assert(all.take(processed) =~= all);
        assert(rest@.to_multiset().len() == 0);
        assert(r@.to_multiset().add(rest@.to_multiset()) =~= r@.to_multiset());
        assert(r@.to_multiset() == all.to_multiset());
    }
    r
}

} // verus!
