use crate::kind::same_kind;
use std::any::TypeId;
use vstd::prelude::*;

verus! {

/// The positions, in registration order, of the entries registered under `kind`.
pub open spec fn positions_of<H>(entries: Seq<(TypeId, H)>, kind: TypeId) -> Seq<int>
    decreases entries.len(),
{
    if entries.len() == 0 {
        Seq::empty()
    } else {
        let before = positions_of(entries.drop_last(), kind);
        if entries.last().0 == kind {
            before.push(entries.len() - 1)
        } else {
            before
        }
    }
}

/// The handlers registered under `kind`, in registration order.
pub open spec fn handlers_of<H>(entries: Seq<(TypeId, H)>, kind: TypeId) -> Seq<H> {
    positions_of(entries, kind).map_values(|j: int| entries[j].1)
}

/// The positions of `kind` among the first `n` entries.
proof fn lemma_positions_of_prefix<H>(entries: Seq<(TypeId, H)>, kind: TypeId, n: int)
    requires
        0 <= n < entries.len(),
    ensures
        positions_of(entries.take(n + 1), kind) == (if entries[n].0 == kind {
            positions_of(entries.take(n), kind).push(n)
        } else {
            positions_of(entries.take(n), kind)
        }),
{
    assert(entries.take(n + 1).drop_last() =~= entries.take(n));
}

/// A table of handlers, each registered under an event kind, kept in
/// registration order. Registrations are never removed.
pub struct HandlerRegistry<H> {
    entries: Vec<(TypeId, H)>,
}

impl<H> View for HandlerRegistry<H> {
    type V = Seq<(TypeId, H)>;

    closed spec fn view(&self) -> Seq<(TypeId, H)> {
        self.entries@
    }
}

impl<H> HandlerRegistry<H> {
    /// An empty registry: no kind has a handler.
    pub fn new() -> (r: Self)
        ensures
            r@ == Seq::<(TypeId, H)>::empty(),
    {
        HandlerRegistry { entries: Vec::new() }
    }

    /// The number of registrations, over all kinds.
    pub fn len(&self) -> (r: usize)
        ensures
            r == self@.len(),
    {
        self.entries.len()
    }

    /// Appends `handler` under `kind`. The same handler may be registered
    /// any number of times; each registration is run on its own.
    pub fn register(&mut self, kind: TypeId, handler: H)
        ensures
            final(self)@ == old(self)@.push((kind, handler)),
    {
        self.entries.push((kind, handler));
    }

    /// The handler of the registration at `index`.
    pub fn handler(&self, index: usize) -> (r: &H)
        requires
            index < self@.len(),
        ensures
            *r == self@[index as int].1,
    {
        &self.entries[index].1
    }

    /// Whether at least one handler is registered under `kind`.
    pub fn has_handlers(&self, kind: &TypeId) -> (r: bool)
        ensures
            r == (handlers_of(self@, *kind).len() > 0),
    {
        let n = self.entries.len();
        let mut i: usize = 0;
        while i < n
            invariant
                n == self@.len(),
                i <= n,
                positions_of(self@.take(i as int), *kind).len() == 0,
            decreases n - i,
        {
            proof {
                lemma_positions_of_prefix(self@, *kind, i as int);
            }
            if same_kind(&self.entries[i].0, kind) {
                proof {
                    assert(self@.take(n as int) =~= self@);
                    lemma_positions_of_monotone(self@, *kind, i as int + 1, n as int);
                }
                return true;
            }
            i = i + 1;
        }
        proof {
            assert(self@.take(n as int) =~= self@);
        }
        false
    }

    /// The dispatch plan for one emission of `payload` under `kind`: one
    /// item per registration of `kind`, in registration order, each giving
    /// the registration's position and a clone of `payload` for it.
    pub fn emit<T: Clone>(&self, kind: &TypeId, payload: &T) -> (r: Vec<(usize, T)>)
        ensures
            r@.len() == positions_of(self@, *kind).len(),
            forall|i: int|
                #![trigger r@[i]]
                0 <= i < r@.len() ==> r@[i].0 as int == positions_of(self@, *kind)[i] && cloned(
                    *payload,
                    r@[i].1,
                ),
    {
        let n = self.entries.len();
        let mut plan: Vec<(usize, T)> = Vec::new();
        let mut i: usize = 0;
        while i < n
            invariant
                n == self@.len(),
                i <= n,
                plan@.len() == positions_of(self@.take(i as int), *kind).len(),
                forall|j: int|
                    0 <= j < plan@.len() ==> plan@[j].0 as int == #[trigger] positions_of(
                        self@.take(i as int),
                        *kind,
                    )[j] && cloned(*payload, plan@[j].1),
            decreases n - i,
        {
            proof {
                lemma_positions_of_prefix(self@, *kind, i as int);
            }
            if same_kind(&self.entries[i].0, kind) {
                plan.push((i, payload.clone()));
            }
            i = i + 1;
        }
        proof {
            assert(self@.take(n as int) =~= self@);
        }
        plan
    }
}

/// Positions of a prefix never shrink when the prefix grows.
proof fn lemma_positions_of_monotone<H>(entries: Seq<(TypeId, H)>, kind: TypeId, m: int, n: int)
    requires
        0 <= m <= n <= entries.len(),
    ensures
        positions_of(entries.take(m), kind).len() <= positions_of(entries.take(n), kind).len(),
    decreases n - m,
{
    if m < n {
        lemma_positions_of_prefix(entries, kind, n - 1);
        lemma_positions_of_monotone(entries, kind, m, n - 1);
    }
}

} // verus!
