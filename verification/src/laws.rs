//! Laws of the component registry, stated over the mathematical store
//! model of [`crate::component`] and proved once and for all.  Each law is
//! phrased over the same spec functions that the registry's contracts use,
//! so together with those contracts it speaks about every run of the
//! executable code.

use vstd::prelude::*;
use crate::component::StoreModel;
use crate::component::TypeTag;
use crate::component::borrow_allowed;
use crate::component::insert_allowed;
use crate::component::resolve_succeeds;
use crate::component::with_frozen;
use crate::component::with_lent;
use crate::component::with_published;
use crate::component::with_restored;
use crate::component::with_slot;

verus! {

/// Type isolation: no operation on one tag ever disturbs the slot of a
/// different tag.  Registering, lending or restoring under `tag2` leaves
/// the slot of `tag1` — existence and contents alike — exactly as it was,
/// so a borrow of `tag1` can never observe storage belonging to `tag2`.
pub proof fn lemma_type_isolation<C>(
    m: StoreModel<C>,
    tag1: TypeTag,
    tag2: TypeTag,
    name: Seq<char>,
    inserted: C,
    restored: C,
)
    requires
        tag1 != tag2,
    ensures
        with_slot(m, tag2, name, inserted).slots.contains_key(tag1) == m.slots.contains_key(tag1),
        m.slots.contains_key(tag1) ==> with_slot(m, tag2, name, inserted).slots[tag1]
            == m.slots[tag1],
        with_slot(m, tag2, name, inserted).slots[tag2].contents == Some(inserted),
        m.slots.contains_key(tag1) ==> with_lent(m, tag2).slots[tag1] == m.slots[tag1],
        m.slots.contains_key(tag1) ==> with_restored(m, tag2, restored).slots[tag1]
            == m.slots[tag1],
{
}

/// Single-writer freeze: once the store is frozen — by the first handle
/// taken from it or by finishing initialization — no insertion is allowed
/// any more, for any tag, registered before or never.
pub proof fn lemma_freeze_forbids_insert<C>(m: StoreModel<C>, tag: TypeTag)
    ensures
        !insert_allowed(with_frozen(m), tag),
        !insert_allowed(with_published(m), tag),
{
}

/// No duplicate registration: however the store came to hold a slot for
/// `tag`, a second insertion under `tag` is not allowed — even with a
/// different value.
pub proof fn lemma_no_duplicate_registration<C>(
    m: StoreModel<C>,
    tag: TypeTag,
    name: Seq<char>,
    value: C,
)
    ensures
        !insert_allowed(with_slot(m, tag, name, value), tag),
{
}

/// Deferred resolution: a handle captured before `finish_initialization` —
/// still unresolved — resolves against the published store, and
/// publication changes no slot, so such a handle reads exactly the
/// contents that a handle captured after publication reads.
pub proof fn lemma_deferred_resolution<C>(m: StoreModel<C>)
    ensures
        resolve_succeeds(false, with_published(m)),
        with_published(m).slots == m.slots,
{
}

/// Exclusive aliasing: while the value of `tag` is lent out through a
/// guard, no further borrow of `tag` — shared or exclusive — is allowed;
/// once the guard is released, borrowing is allowed again, so sequential
/// borrows always succeed.
pub proof fn lemma_exclusive_aliasing<C>(m: StoreModel<C>, tag: TypeTag, value: C)
    requires
        borrow_allowed(m, tag),
    ensures
        !borrow_allowed(with_lent(m, tag), tag),
        borrow_allowed(with_restored(with_lent(m, tag), tag, value), tag),
{
}

/// Idempotent finish: publishing an already published store changes
/// nothing — the second `finish_initialization` is a harmless no-op.
pub proof fn lemma_finish_idempotent<C>(m: StoreModel<C>)
    ensures
        with_published(with_published(m)) =~= with_published(m),
{
}

} // verus!
