//! A typed component registry.
//!
//! A [`ComponentStore`] maps a *type tag* — a small integer standing for the
//! concrete type of a subsystem — to one erased slot holding that
//! subsystem's single instance.  Configuration happens in three phases:
//!
//! 1. *Configuring*: the store is exclusively owned and [`ComponentStore::insert`]
//!    is allowed.
//! 2. *Frozen*: as soon as a handle is created with [`ComponentStore::handle`] or
//!    [`ComponentStore::handle_for`], or [`ComponentStore::finish_initialization`]
//!    runs, the slot set is fixed and further insertion is forbidden.
//! 3. *Published*: [`ComponentStore::finish_initialization`] marks the store
//!    as fully initialized; only then may a [`ComponentStoreHandle`] resolve.
//!
//! Slot contents stay mutable throughout: an exclusive borrow moves the
//! value out into a [`ComponentRefMut`] guard and [`ComponentStore::release`]
//! moves it back, so a slot can never be borrowed twice at once.

use vstd::prelude::*;

verus! {

/// Stable identity of a stored component's type.
pub type TypeTag = u64;

/// Mathematical model of one slot: the diagnostic type name and the stored
/// value, or `None` while the value is lent out through a guard.
pub ghost struct SlotModel<C> {
    pub label: Seq<char>,
    pub contents: Option<C>,
}

/// Mathematical model of a whole store: the slot map and the two phase
/// flags.  `published` implies `frozen` for every store this module builds.
#[verifier::ext_equal]
pub ghost struct StoreModel<C> {
    pub slots: Map<TypeTag, SlotModel<C>>,
    pub frozen: bool,
    pub published: bool,
}

/// The store of a freshly created registry: no slots, still configuring.
pub open spec fn empty_store<C>() -> StoreModel<C> {
    StoreModel { slots: Map::empty(), frozen: false, published: false }
}

/// Insertion is allowed only while the store is configuring and the tag is
/// not yet taken.
pub open spec fn insert_allowed<C>(m: StoreModel<C>, tag: TypeTag) -> bool {
    !m.frozen && !m.slots.contains_key(tag)
}

/// The store after a slot for `tag` is added.
pub open spec fn with_slot<C>(m: StoreModel<C>, tag: TypeTag, name: Seq<char>, value: C) -> StoreModel<C> {
    StoreModel { slots: m.slots.insert(tag, SlotModel { label: name, contents: Some(value) }), ..m }
}

/// A borrow of `tag` is allowed only if the slot exists and its value is
/// not already lent out.
pub open spec fn borrow_allowed<C>(m: StoreModel<C>, tag: TypeTag) -> bool {
    m.slots.contains_key(tag) && m.slots[tag].contents is Some
}

/// The store after the value of `tag` is lent out to a guard.
pub open spec fn with_lent<C>(m: StoreModel<C>, tag: TypeTag) -> StoreModel<C> {
    StoreModel {
        slots: m.slots.insert(tag, SlotModel { label: m.slots[tag].label, contents: None }),
        ..m
    }
}

/// The store after a guard holding `value` is returned to the slot of `tag`.
pub open spec fn with_restored<C>(m: StoreModel<C>, tag: TypeTag, value: C) -> StoreModel<C> {
    StoreModel {
        slots: m.slots.insert(tag, SlotModel { label: m.slots[tag].label, contents: Some(value) }),
        ..m
    }
}

/// The store after its slot set is frozen.
pub open spec fn with_frozen<C>(m: StoreModel<C>) -> StoreModel<C> {
    StoreModel { frozen: true, ..m }
}

/// The store after `finish_initialization`: frozen and published.
pub open spec fn with_published<C>(m: StoreModel<C>) -> StoreModel<C> {
    StoreModel { frozen: true, published: true, ..m }
}

/// Whether a handle in resolution state `resolved` can reach the slots of a
/// store modelled by `m`: either it resolved earlier, or the store has been
/// published.
pub open spec fn resolve_succeeds<C>(resolved: bool, m: StoreModel<C>) -> bool {
    resolved || m.published
}

/// Erased storage for one component: the identity of its type, a
/// human-readable type name kept for diagnostics, and the value itself —
/// `None` exactly while the value is lent out through a guard.
pub struct ResourceNode<C> {
    type_tag: TypeTag,
    label: String,
    data: Option<C>,
}

impl<C> View for ResourceNode<C> {
    type V = SlotModel<C>;

    closed spec fn view(&self) -> SlotModel<C> {
        SlotModel { label: self.label@, contents: self.data }
    }
}

impl<C> ResourceNode<C> {
    /// The tag of the type stored in this node.
    pub closed spec fn spec_type_tag(&self) -> TypeTag {
        self.type_tag
    }

    /// Creates a node that holds `data` under the identity `type_tag`.
    pub fn new(type_tag: TypeTag, label: String, data: C) -> (node: Self)
        ensures
            node.spec_type_tag() == type_tag,
            node@ == (SlotModel { label: label@, contents: Some(data) }),
    {
        ResourceNode { type_tag, label, data: Some(data) }
    }

    /// The tag of the type stored in this node.
    pub fn type_tag(&self) -> (tag: TypeTag)
        ensures
            tag == self.spec_type_tag(),
    {
        self.type_tag
    }

    /// The diagnostic name of the stored type.
    pub fn label(&self) -> (name: &String)
        ensures
            name@ == self@.label,
    {
        &self.label
    }
}

/// The slot map described by a sequence of nodes; later nodes win, though
/// well-formed stores never repeat a tag.
pub closed spec fn map_of_nodes<C>(s: Seq<ResourceNode<C>>) -> Map<TypeTag, SlotModel<C>>
    decreases s.len(),
{
    if s.len() == 0 {
        Map::empty()
    } else {
        map_of_nodes(s.drop_last()).insert(s.last().spec_type_tag(), s.last()@)
    }
}

/// No two nodes carry the same tag.
pub closed spec fn nodes_distinct<C>(s: Seq<ResourceNode<C>>) -> bool {
    forall|i: int, j: int|
        0 <= i < j < s.len() ==> s[i].spec_type_tag() != s[j].spec_type_tag()
}

proof fn lemma_map_of_nodes_contains<C>(s: Seq<ResourceNode<C>>, tag: TypeTag)
    ensures
        map_of_nodes(s).contains_key(tag) <==> exists|i: int|
            0 <= i < s.len() && s[i].spec_type_tag() == tag,
    decreases s.len(),
{
    if s.len() > 0 {
        lemma_map_of_nodes_contains(s.drop_last(), tag);
        if s.last().spec_type_tag() != tag {
            if map_of_nodes(s).contains_key(tag) {
                let i = choose|i: int|
                    0 <= i < s.drop_last().len() && s.drop_last()[i].spec_type_tag() == tag;
                assert(s[i].spec_type_tag() == tag);
            }
            if exists|i: int| 0 <= i < s.len() && s[i].spec_type_tag() == tag {
                let i = choose|i: int| 0 <= i < s.len() && s[i].spec_type_tag() == tag;
                assert(s.drop_last()[i].spec_type_tag() == tag);
            }
        }
    }
}

proof fn lemma_map_of_nodes_index<C>(s: Seq<ResourceNode<C>>, i: int)
    requires
        nodes_distinct(s),
        0 <= i < s.len(),
    ensures
        map_of_nodes(s).contains_key(s[i].spec_type_tag()),
        map_of_nodes(s)[s[i].spec_type_tag()] == s[i]@,
    decreases s.len(),
{
    if i < s.len() - 1 {
        assert(s.drop_last()[i] == s[i]);
        lemma_map_of_nodes_index(s.drop_last(), i);
        assert(s[i].spec_type_tag() != s.last().spec_type_tag());
    }
}

proof fn lemma_map_of_nodes_update<C>(s: Seq<ResourceNode<C>>, i: int, node: ResourceNode<C>)
    requires
        nodes_distinct(s),
        0 <= i < s.len(),
        node.spec_type_tag() == s[i].spec_type_tag(),
    ensures
        map_of_nodes(s.update(i, node)) =~= map_of_nodes(s).insert(node.spec_type_tag(), node@),
    decreases s.len(),
{
    let s2 = s.update(i, node);
    if i == s.len() - 1 {
        assert(s2.drop_last() =~= s.drop_last());
        assert(s2.last() == node);
    } else {
        assert(s2.drop_last() =~= s.drop_last().update(i, node));
        assert(s2.last() == s.last());
        lemma_map_of_nodes_update(s.drop_last(), i, node);
        assert(s.drop_last()[i] == s[i]);
        assert(s.last().spec_type_tag() != node.spec_type_tag());
    }
}

/// An exclusively owned, type-indexed registry of components.
pub struct ComponentStore<C> {
    nodes: Vec<ResourceNode<C>>,
    frozen: bool,
    published: bool,
}

impl<C> View for ComponentStore<C> {
    type V = StoreModel<C>;

    closed spec fn view(&self) -> StoreModel<C> {
        StoreModel {
            slots: map_of_nodes(self.nodes@),
            frozen: self.frozen,
            published: self.published,
        }
    }
}

/// A scoped exclusive borrow of one component: the value moved out of its
/// slot, together with the tag it must be returned under.  Give it back
/// with [`ComponentStore::release`].
pub struct ComponentRefMut<C> {
    /// The tag of the slot this value was borrowed from.
    pub type_tag: TypeTag,
    /// The borrowed value; mutate it freely before releasing it.
    pub value: C,
}

impl<C> ComponentStore<C> {
    /// Internal well-formedness: no two slots share a tag.
    pub closed spec fn wf(&self) -> bool {
        nodes_distinct(self.nodes@)
    }

    /// Creates a new, empty component database.
    pub fn new() -> (store: Self)
        ensures
            store.wf(),
            store@ =~= empty_store::<C>(),
    {
        ComponentStore { nodes: Vec::new(), frozen: false, published: false }
    }

    /// Index of the node holding `type_tag`, if any.
    fn find_node(&self, type_tag: TypeTag) -> (r: Option<usize>)
        requires
            self.wf(),
        ensures
            match r {
                Some(i) => {
                    &&& i < self.nodes@.len()
                    &&& self.nodes@[i as int].spec_type_tag() == type_tag
                    &&& self@.slots.contains_key(type_tag)
                    &&& self@.slots[type_tag] == self.nodes@[i as int]@
                },
                None => !self@.slots.contains_key(type_tag),
            },
    {
        let n = self.nodes.len();
        let mut i: usize = 0;
        while i < n
            invariant
                self.wf(),
                n == self.nodes@.len(),
                i <= n,
                forall|j: int| 0 <= j < i ==> self.nodes@[j].spec_type_tag() != type_tag,
            decreases n - i,
        {
            if self.nodes[i].type_tag() == type_tag {
                proof {
                    lemma_map_of_nodes_index(self.nodes@, i as int);
                }
                return Some(i);
            }
            i += 1;
        }
        proof {
            lemma_map_of_nodes_contains(self.nodes@, type_tag);
        }
        None
    }

    /// Whether a component is registered under `type_tag`.
    pub fn contains(&self, type_tag: TypeTag) -> (r: bool)
        requires
            self.wf(),
        ensures
            r == self@.slots.contains_key(type_tag),
    {
        self.find_node(type_tag).is_some()
    }

    /// Whether the component under `type_tag` exists and is not currently
    /// lent out, so that a borrow of it would be allowed.
    pub fn is_available(&self, type_tag: TypeTag) -> (r: bool)
        requires
            self.wf(),
        ensures
            r == borrow_allowed(self@, type_tag),
    {
        match self.find_node(type_tag) {
            Some(i) => self.nodes[i].data.is_some(),
            None => false,
        }
    }

    /// Whether the slot set is frozen, so that insertion is forbidden.
    pub fn is_frozen(&self) -> (r: bool)
        ensures
            r == self@.frozen,
    {
        self.frozen
    }

    /// Whether `finish_initialization` has run.
    pub fn is_published(&self) -> (r: bool)
        ensures
            r == self@.published,
    {
        self.published
    }

    /// Inserts a component into the database under `type_tag` and returns a
    /// typed handle to it.
    ///
    /// The store must still be configuring: freezing it — by taking a
    /// handle or by finishing initialization — forbids every later
    /// insertion, and a tag can never be registered twice.  The handle
    /// returned here is created without freezing the store, so a sequence
    /// of insertions may keep their handles.
    pub fn insert(&mut self, type_tag: TypeTag, label: String, component: C) -> (handle:
        ComponentHandle)
        requires
            old(self).wf(),
            insert_allowed(old(self)@, type_tag),
        ensures
            final(self).wf(),
            final(self)@ =~= with_slot(old(self)@, type_tag, label@, component),
            handle.spec_type_tag() == type_tag,
            !handle.spec_resolved(),
    {
        proof {
            lemma_map_of_nodes_contains(self.nodes@, type_tag);
        }
        let node = ResourceNode::new(type_tag, label, component);
        self.nodes.push(node);
        proof {
            assert(self.nodes@.drop_last() =~= old(self).nodes@);
        }
        ComponentHandle { handle: ComponentStoreHandle { state: ResolutionState::Unresolved }, type_tag }
    }

    /// Finalizes the initialization of the component database, publishing
    /// it for handles to resolve.  Running it again changes nothing.
    pub fn finish_initialization(&mut self)
        requires
            old(self).wf(),
        ensures
            final(self).wf(),
            final(self)@ =~= with_published(old(self)@),
    {
        self.frozen = true;
        self.published = true;
    }

    /// Creates an untyped handle to the component map, freezing the slot
    /// set.
    pub fn handle(&mut self) -> (h: ComponentStoreHandle)
        requires
            old(self).wf(),
        ensures
            final(self).wf(),
            final(self)@ =~= with_frozen(old(self)@),
            !h.spec_resolved(),
    {
        ComponentStoreHandle::new(self)
    }

    /// Creates a typed handle for the component under `type_tag`, freezing
    /// the slot set.
    pub fn handle_for(&mut self, type_tag: TypeTag) -> (h: ComponentHandle)
        requires
            old(self).wf(),
        ensures
            final(self).wf(),
            final(self)@ =~= with_frozen(old(self)@),
            h.spec_type_tag() == type_tag,
            !h.spec_resolved(),
    {
        let handle = ComponentStoreHandle::new(self);
        ComponentHandle { handle, type_tag }
    }

    /// A shared borrow of the component under `type_tag`, which must be
    /// registered and not lent out.
    pub fn get(&self, type_tag: TypeTag) -> (r: &C)
        requires
            self.wf(),
            borrow_allowed(self@, type_tag),
        ensures
            self@.slots[type_tag].contents == Some(*r),
    {
        let i = self.find_node(type_tag).unwrap();
        self.nodes[i].data.as_ref().unwrap()
    }

    /// A shared borrow of the component under `type_tag`, or `None` if no
    /// such component is registered.
    pub fn get_checked(&self, type_tag: TypeTag) -> (r: Option<&C>)
        requires
            self.wf(),
            self@.slots.contains_key(type_tag) ==> borrow_allowed(self@, type_tag),
        ensures
            match r {
                Some(v) => self@.slots.contains_key(type_tag) && self@.slots[type_tag].contents
                    == Some(*v),
                None => !self@.slots.contains_key(type_tag),
            },
    {
        match self.find_node(type_tag) {
            Some(i) => Some(self.nodes[i].data.as_ref().unwrap()),
            None => None,
        }
    }

    /// An exclusive borrow of the component under `type_tag`: the value is
    /// moved out into the returned guard, and the slot stays empty — so
    /// that any further borrow is refused — until the guard is given back
    /// with [`ComponentStore::release`].
    pub fn get_mut(&mut self, type_tag: TypeTag) -> (g: ComponentRefMut<C>)
        requires
            old(self).wf(),
            borrow_allowed(old(self)@, type_tag),
        ensures
            final(self).wf(),
            final(self)@ =~= with_lent(old(self)@, type_tag),
            g.type_tag == type_tag,
            old(self)@.slots[type_tag].contents == Some(g.value),
    {
        let i = self.find_node(type_tag).unwrap();
        let node = self.nodes.remove(i);
        let ResourceNode { type_tag: tag, label, data } = node;
        let value = data.unwrap();
        let emptied = ResourceNode { type_tag: tag, label, data: None };
        proof {
            assert(emptied.spec_type_tag() == old(self).nodes@[i as int].spec_type_tag());
        }
        self.nodes.insert(i, emptied);
        proof {
            assert(self.nodes@ =~= old(self).nodes@.update(i as int, emptied));
            lemma_map_of_nodes_update(old(self).nodes@, i as int, emptied);
        }
        ComponentRefMut { type_tag, value }
    }

    /// Like [`ComponentStore::get_mut`], but returns `None` instead of
    /// demanding that the component be registered.
    pub fn get_mut_checked(&mut self, type_tag: TypeTag) -> (g: Option<ComponentRefMut<C>>)
        requires
            old(self).wf(),
            old(self)@.slots.contains_key(type_tag) ==> borrow_allowed(old(self)@, type_tag),
        ensures
            final(self).wf(),
            match g {
                Some(g) => {
                    &&& old(self)@.slots.contains_key(type_tag)
                    &&& final(self)@ =~= with_lent(old(self)@, type_tag)
                    &&& g.type_tag == type_tag
                    &&& old(self)@.slots[type_tag].contents == Some(g.value)
                },
                None => !old(self)@.slots.contains_key(type_tag) && final(self)@ =~= old(self)@,
            },
    {
        if self.contains(type_tag) {
            Some(self.get_mut(type_tag))
        } else {
            None
        }
    }

    /// Returns a borrowed component to its slot, making the slot available
    /// again.  The guard's value — with whatever mutations it gathered —
    /// becomes the slot's contents.
    pub fn release(&mut self, g: ComponentRefMut<C>)
        requires
            old(self).wf(),
            old(self)@.slots.contains_key(g.type_tag),
            old(self)@.slots[g.type_tag].contents is None,
        ensures
            final(self).wf(),
            final(self)@ =~= with_restored(old(self)@, g.type_tag, g.value),
    {
        let ComponentRefMut { type_tag, value } = g;
        let i = self.find_node(type_tag).unwrap();
        let node = self.nodes.remove(i);
        let ResourceNode { type_tag: tag, label, data: _ } = node;
        let refilled = ResourceNode { type_tag: tag, label, data: Some(value) };
        self.nodes.insert(i, refilled);
        proof {
            assert(self.nodes@ =~= old(self).nodes@.update(i as int, refilled));
            lemma_map_of_nodes_update(old(self).nodes@, i as int, refilled);
        }
    }
}

/// The resolution state of a [`ComponentStoreHandle`]: a handle starts
/// unresolved and caches its view of the store the first time it resolves
/// against a published store.
#[derive(Clone, Copy, Debug, PartialEq, Eq, Structural)]
pub enum ResolutionState {
    /// The handle has not yet reached the store.
    Unresolved,
    /// The handle has resolved against a published store.
    Resolved,
}

/// A cheaply cloned, lazily resolved handle to a component store.  It can
/// be created — and stored inside other components — before the store has
/// finished initializing; it reaches the slots only once the store is
/// published.
#[derive(Clone, Copy)]
pub struct ComponentStoreHandle {
    state: ResolutionState,
}

impl ComponentStoreHandle {
    /// Whether this handle has already resolved.
    pub closed spec fn spec_resolved(&self) -> bool {
        self.state is Resolved
    }

    /// Whether this handle has already resolved.
    pub fn is_resolved(&self) -> (r: bool)
        ensures
            r == self.spec_resolved(),
    {
        matches!(self.state, ResolutionState::Resolved)
    }

    /// Creates a handle to the component map, freezing the store's slot
    /// set.
    pub fn new<C>(store: &mut ComponentStore<C>) -> (h: Self)
        requires
            old(store).wf(),
        ensures
            final(store).wf(),
            final(store)@ =~= with_frozen(old(store)@),
            !h.spec_resolved(),
    {
        store.frozen = true;
        ComponentStoreHandle { state: ResolutionState::Unresolved }
    }

    /// Resolves this handle against `store`: succeeds — and caches the
    /// resolution — exactly when the handle already resolved earlier or the
    /// store has been published.  Resolving before `finish_initialization`
    /// reports failure so that the caller can surface the bootstrap bug.
    pub fn resolve<C>(&mut self, store: &ComponentStore<C>) -> (ok: bool)
        ensures
            ok == resolve_succeeds(old(self).spec_resolved(), store@),
            final(self).spec_resolved() == ok,
    {
        if matches!(self.state, ResolutionState::Resolved) {
            true
        } else if store.is_published() {
            self.state = ResolutionState::Resolved;
            true
        } else {
            false
        }
    }

    /// Creates a typed handle for the component under `type_tag`, sharing
    /// this handle's resolution state.
    pub fn handle_for(&self, type_tag: TypeTag) -> (h: ComponentHandle)
        ensures
            h.spec_type_tag() == type_tag,
            h.spec_resolved() == self.spec_resolved(),
    {
        ComponentHandle { handle: *self, type_tag }
    }

    /// A shared borrow of the component under `type_tag`, reached through
    /// this handle.  The handle must be able to resolve — the store must be
    /// published unless the handle resolved earlier — and the component
    /// must be registered and not lent out.
    pub fn get<'a, C>(&mut self, store: &'a ComponentStore<C>, type_tag: TypeTag) -> (r: &'a C)
        requires
            store.wf(),
            resolve_succeeds(old(self).spec_resolved(), store@),
            borrow_allowed(store@, type_tag),
        ensures
            final(self).spec_resolved(),
            store@.slots[type_tag].contents == Some(*r),
    {
        self.resolve(store);
        store.get(type_tag)
    }

    /// A shared borrow of the component under `type_tag`, or `None` if no
    /// such component is registered.
    pub fn get_checked<'a, C>(&mut self, store: &'a ComponentStore<C>, type_tag: TypeTag) -> (r:
        Option<&'a C>)
        requires
            store.wf(),
            resolve_succeeds(old(self).spec_resolved(), store@),
            store@.slots.contains_key(type_tag) ==> borrow_allowed(store@, type_tag),
        ensures
            final(self).spec_resolved(),
            match r {
                Some(v) => store@.slots.contains_key(type_tag) && store@.slots[type_tag].contents
                    == Some(*v),
                None => !store@.slots.contains_key(type_tag),
            },
    {
        self.resolve(store);
        store.get_checked(type_tag)
    }

    /// An exclusive borrow of the component under `type_tag`, reached
    /// through this handle; give the guard back with
    /// [`ComponentStore::release`].
    pub fn get_mut<C>(&mut self, store: &mut ComponentStore<C>, type_tag: TypeTag) -> (g:
        ComponentRefMut<C>)
        requires
            old(store).wf(),
            resolve_succeeds(old(self).spec_resolved(), old(store)@),
            borrow_allowed(old(store)@, type_tag),
        ensures
            final(self).spec_resolved(),
            final(store).wf(),
            final(store)@ =~= with_lent(old(store)@, type_tag),
            g.type_tag == type_tag,
            old(store)@.slots[type_tag].contents == Some(g.value),
    {
        self.resolve(store);
        store.get_mut(type_tag)
    }

    /// Like [`ComponentStoreHandle::get_mut`], but returns `None` instead
    /// of demanding that the component be registered.
    pub fn get_mut_checked<C>(&mut self, store: &mut ComponentStore<C>, type_tag: TypeTag) -> (g:
        Option<ComponentRefMut<C>>)
        requires
            old(store).wf(),
            resolve_succeeds(old(self).spec_resolved(), old(store)@),
            old(store)@.slots.contains_key(type_tag) ==> borrow_allowed(old(store)@, type_tag),
        ensures
            final(self).spec_resolved(),
            final(store).wf(),
            match g {
                Some(g) => {
                    &&& old(store)@.slots.contains_key(type_tag)
                    &&& final(store)@ =~= with_lent(old(store)@, type_tag)
                    &&& g.type_tag == type_tag
                    &&& old(store)@.slots[type_tag].contents == Some(g.value)
                },
                None => !old(store)@.slots.contains_key(type_tag) && final(store)@ =~= old(
                    store,
                )@,
            },
    {
        self.resolve(store);
        store.get_mut_checked(type_tag)
    }
}

/// A statically tagged handle to one component: a [`ComponentStoreHandle`]
/// together with the tag of the component it points at, so that call sites
/// can never pass the wrong tag.
#[derive(Clone, Copy)]
pub struct ComponentHandle {
    handle: ComponentStoreHandle,
    type_tag: TypeTag,
}

impl ComponentHandle {
    /// The tag this handle is bound to.
    pub closed spec fn spec_type_tag(&self) -> TypeTag {
        self.type_tag
    }

    /// Whether the inner store handle has already resolved.
    pub closed spec fn spec_resolved(&self) -> bool {
        self.handle.spec_resolved()
    }

    /// The tag this handle is bound to.
    pub fn type_tag(&self) -> (tag: TypeTag)
        ensures
            tag == self.spec_type_tag(),
    {
        self.type_tag
    }

    /// Whether the inner store handle has already resolved.
    pub fn is_resolved(&self) -> (r: bool)
        ensures
            r == self.spec_resolved(),
    {
        self.handle.is_resolved()
    }

    /// A shared borrow of the component this handle is bound to.
    pub fn get<'a, C>(&mut self, store: &'a ComponentStore<C>) -> (r: &'a C)
        requires
            store.wf(),
            resolve_succeeds(old(self).spec_resolved(), store@),
            borrow_allowed(store@, old(self).spec_type_tag()),
        ensures
            final(self).spec_resolved(),
            final(self).spec_type_tag() == old(self).spec_type_tag(),
            store@.slots[old(self).spec_type_tag()].contents == Some(*r),
    {
        self.handle.get(store, self.type_tag)
    }

    /// An exclusive borrow of the component this handle is bound to; give
    /// the guard back with [`ComponentStore::release`].
    pub fn get_mut<C>(&mut self, store: &mut ComponentStore<C>) -> (g: ComponentRefMut<C>)
        requires
            old(store).wf(),
            resolve_succeeds(old(self).spec_resolved(), old(store)@),
            borrow_allowed(old(store)@, old(self).spec_type_tag()),
        ensures
            final(self).spec_resolved(),
            final(self).spec_type_tag() == old(self).spec_type_tag(),
            final(store).wf(),
            final(store)@ =~= with_lent(old(store)@, old(self).spec_type_tag()),
            g.type_tag == old(self).spec_type_tag(),
            old(store)@.slots[old(self).spec_type_tag()].contents == Some(g.value),
    {
        self.handle.get_mut(store, self.type_tag)
    }
}

} // verus!
