use crate::registry::{handlers_of, positions_of};
use std::any::TypeId;
use vstd::prelude::*;

verus! {

/// Every position that dispatch yields for `kind` lies within the registry.
proof fn lemma_positions_in_range<H>(entries: Seq<(TypeId, H)>, kind: TypeId)
    ensures
        forall|i: int|
            0 <= i < positions_of(entries, kind).len() ==> 0 <= #[trigger] positions_of(
                entries,
                kind,
            )[i] < entries.len(),
    decreases entries.len(),
{
    if entries.len() > 0 {
        let prev = entries.drop_last();
        lemma_positions_in_range(prev, kind);
        let ps = positions_of(entries, kind);
        let qs = positions_of(prev, kind);
        assert forall|i: int| 0 <= i < ps.len() implies 0 <= #[trigger] ps[i] < entries.len() by {
            if i < qs.len() {
                assert(ps[i] == qs[i]);
            }
        }
    }
}

/// One more registration adds its position under its own kind and leaves
/// every other kind as it was.
pub proof fn law_register_positions<H>(entries: Seq<(TypeId, H)>, kind: TypeId, handler: H, other: TypeId)
    ensures
        positions_of(entries.push((kind, handler)), other) == (if other == kind {
            positions_of(entries, other).push(entries.len() as int)
        } else {
            positions_of(entries, other)
        }),
{
    assert(entries.push((kind, handler)).drop_last() =~= entries);
}

/// One more registration appends its handler to the handlers of its kind and
/// leaves the handlers of every other kind as they were.
pub proof fn law_register_handlers<H>(entries: Seq<(TypeId, H)>, kind: TypeId, handler: H, other: TypeId)
    ensures
        handlers_of(entries.push((kind, handler)), other) == (if other == kind {
            handlers_of(entries, other).push(handler)
        } else {
            handlers_of(entries, other)
        }),
{
    let grown = entries.push((kind, handler));
    law_register_positions(entries, kind, handler, other);
    lemma_positions_in_range(entries, other);
    if other == kind {
        assert(handlers_of(grown, other) =~= handlers_of(entries, other).push(handler));
    } else {
        assert(handlers_of(grown, other) =~= handlers_of(entries, other));
    }
}

/// Dispatch under `kind` reaches each registration of `kind` exactly once,
/// in registration order, and no registration of another kind.
pub proof fn law_dispatch_exact<H>(entries: Seq<(TypeId, H)>, kind: TypeId)
    ensures
        forall|i: int, j: int|
            0 <= i < j < positions_of(entries, kind).len() ==> positions_of(entries, kind)[i]
                < positions_of(entries, kind)[j],
        forall|i: int|
            0 <= i < positions_of(entries, kind).len() ==> 0 <= #[trigger] positions_of(
                entries,
                kind,
            )[i] < entries.len() && entries[positions_of(entries, kind)[i]].0 == kind,
        forall|p: int|
            0 <= p < entries.len() && #[trigger] entries[p].0 == kind ==> exists|i: int|
                0 <= i < positions_of(entries, kind).len() && positions_of(entries, kind)[i] == p,
    decreases entries.len(),
{
    if entries.len() > 0 {
        let prev = entries.drop_last();
        law_dispatch_exact(prev, kind);
        lemma_positions_in_range(prev, kind);
        assert(prev.push(entries.last()) =~= entries);
        law_register_positions(prev, entries.last().0, entries.last().1, kind);
        let ps = positions_of(entries, kind);
        let qs = positions_of(prev, kind);
        assert forall|p: int| 0 <= p < entries.len() && #[trigger] entries[p].0 == kind implies exists|i: int|
            0 <= i < ps.len() && ps[i] == p by {
            if p < prev.len() {
                assert(prev[p] == entries[p]);
                let i = choose|i: int| 0 <= i < qs.len() && qs[i] == p;
                assert(ps[i] == p);
            } else {
                assert(ps[ps.len() - 1] == p);
            }
        }
        assert forall|i: int| 0 <= i < ps.len() implies 0 <= #[trigger] ps[i] < entries.len()
            && entries[ps[i]].0 == kind by {
            if i < qs.len() {
                assert(prev[qs[i]] == entries[qs[i]]);
            }
        }
    }
}

/// A registry with no registrations has no handler for any kind, and a kind
/// has a handler once a registration for it has completed.
pub proof fn law_has_handlers_after_register<H>(entries: Seq<(TypeId, H)>, kind: TypeId, handler: H)
    ensures
        handlers_of(Seq::<(TypeId, H)>::empty(), kind).len() == 0,
        handlers_of(entries.push((kind, handler)), kind).len() > 0,
{
    law_register_handlers(entries, kind, handler, kind);
}

/// Registering the same handler twice for a kind makes it run twice on each
/// later emission of that kind.
pub proof fn law_duplicate_registration<H>(entries: Seq<(TypeId, H)>, kind: TypeId, handler: H)
    ensures
        handlers_of(entries.push((kind, handler)).push((kind, handler)), kind) == handlers_of(
            entries,
            kind,
        ).push(handler).push(handler),
{
    law_register_handlers(entries, kind, handler, kind);
    law_register_handlers(entries.push((kind, handler)), kind, handler, kind);
}

/// Handlers registered under one kind are never reached by an emission of
/// another kind, whatever their payload shapes.
pub proof fn law_kinds_isolated<H>(entries: Seq<(TypeId, H)>, a: TypeId, handler: H, b: TypeId)
    requires
        a != b,
    ensures
        handlers_of(entries.push((a, handler)), b) == handlers_of(entries, b),
        forall|i: int|
            0 <= i < positions_of(entries.push((a, handler)), b).len() ==> positions_of(
                entries.push((a, handler)),
                b,
            )[i] != entries.len(),
{
    law_register_handlers(entries, a, handler, b);
    law_register_positions(entries, a, handler, b);
    lemma_positions_in_range(entries, b);
}

/// Handlers registered for a kind in the order h1, h2, h3 are dispatched in
/// that order, after those registered before them.
pub proof fn law_registration_order<H>(entries: Seq<(TypeId, H)>, kind: TypeId, h1: H, h2: H, h3: H)
    ensures
        handlers_of(entries.push((kind, h1)).push((kind, h2)).push((kind, h3)), kind)
            == handlers_of(entries, kind) + seq![h1, h2, h3],
{
    let e1 = entries.push((kind, h1));
    let e2 = e1.push((kind, h2));
    law_register_handlers(entries, kind, h1, kind);
    law_register_handlers(e1, kind, h2, kind);
    law_register_handlers(e2, kind, h3, kind);
    assert(handlers_of(entries, kind).push(h1).push(h2).push(h3) =~= handlers_of(entries, kind)
        + seq![h1, h2, h3]);
}

} // verus!
