//! Callback proxies.
//!
//! A proxy fans one invocation out to many registered targets.  Rather
//! than storing closures, each registered target owns a mailbox, and
//! [`Proxy::invoke`] delivers the arguments into every live target's
//! mailbox.  The subsystem that registered a target drains its mailbox
//! with [`Proxy::take_pending`] and reacts to the deliveries, and
//! withdraws the target with [`Proxy::drop_target`] when it no longer
//! listens.

use vstd::prelude::*;

verus! {

/// Mathematical model of one callback target: its diagnostic label and
/// the arguments delivered to it and not yet drained.
pub ghost struct TargetModel<T> {
    pub label: Option<Seq<char>>,
    pub pending: Seq<T>,
}

/// Mathematical model of a proxy: the registered targets by id, and
/// whether delivery is suspended.
#[verifier::ext_equal]
pub ghost struct ProxyModel<T> {
    pub targets: Map<u64, TargetModel<T>>,
    pub suspended: bool,
}

/// One registered callback target: a diagnostic label and the mailbox of
/// arguments delivered to it.
pub struct CallbackTarget<T> {
    label: Option<String>,
    pending: Vec<T>,
}

impl<T> View for CallbackTarget<T> {
    type V = TargetModel<T>;

    closed spec fn view(&self) -> TargetModel<T> {
        TargetModel {
            label: match self.label {
                Some(l) => Some(l@),
                None => None,
            },
            pending: self.pending@,
        }
    }
}

impl<T> CallbackTarget<T> {
    /// Creates a target with an empty mailbox.
    pub fn new(label: Option<String>) -> (target: Self)
        ensures
            target@.pending =~= Seq::<T>::empty(),
            target@.label == match label {
                Some(l) => Some(l@),
                None => None::<Seq<char>>,
            },
    {
        CallbackTarget { label, pending: Vec::new() }
    }
}

/// The target map described by a sequence of id/target pairs; later pairs
/// win, though a well-formed proxy never repeats an id.
pub closed spec fn map_of_targets<T>(s: Seq<(u64, CallbackTarget<T>)>) -> Map<u64, TargetModel<T>>
    decreases s.len(),
{
    if s.len() == 0 {
        Map::empty()
    } else {
        map_of_targets(s.drop_last()).insert(s.last().0, s.last().1@)
    }
}

/// No two pairs carry the same id.
pub closed spec fn ids_distinct<T>(s: Seq<(u64, CallbackTarget<T>)>) -> bool {
    forall|i: int, j: int| 0 <= i < j < s.len() ==> s[i].0 != s[j].0
}

/// Every id lies below the bound, so a fresh id never collides.
pub closed spec fn ids_below<T>(s: Seq<(u64, CallbackTarget<T>)>, bound: u64) -> bool {
    forall|i: int| 0 <= i < s.len() ==> s[i].0 < bound
}

proof fn lemma_targets_contains<T>(s: Seq<(u64, CallbackTarget<T>)>, id: u64)
    ensures
        map_of_targets(s).contains_key(id) <==> exists|i: int| 0 <= i < s.len() && s[i].0 == id,
    decreases s.len(),
{
    if s.len() > 0 {
        lemma_targets_contains(s.drop_last(), id);
        if s.last().0 != id {
            if map_of_targets(s).contains_key(id) {
                let i = choose|i: int| 0 <= i < s.drop_last().len() && s.drop_last()[i].0 == id;
                assert(s[i].0 == id);
            }
            if exists|i: int| 0 <= i < s.len() && s[i].0 == id {
                let i = choose|i: int| 0 <= i < s.len() && s[i].0 == id;
                assert(s.drop_last()[i].0 == id);
            }
        }
    }
}

proof fn lemma_targets_index<T>(s: Seq<(u64, CallbackTarget<T>)>, i: int)
    requires
        ids_distinct(s),
        0 <= i < s.len(),
    ensures
        map_of_targets(s).contains_key(s[i].0),
        map_of_targets(s)[s[i].0] == s[i].1@,
    decreases s.len(),
{
    if i < s.len() - 1 {
        assert(s.drop_last()[i] == s[i]);
        lemma_targets_index(s.drop_last(), i);
        assert(s[i].0 != s.last().0);
    }
}

proof fn lemma_targets_update<T>(
    s: Seq<(u64, CallbackTarget<T>)>,
    i: int,
    pair: (u64, CallbackTarget<T>),
)
    requires
        ids_distinct(s),
        0 <= i < s.len(),
        pair.0 == s[i].0,
    ensures
        map_of_targets(s.update(i, pair)) =~= map_of_targets(s).insert(pair.0, pair.1@),
    decreases s.len(),
{
    let s2 = s.update(i, pair);
    if i == s.len() - 1 {
        assert(s2.drop_last() =~= s.drop_last());
        assert(s2.last() == pair);
    } else {
        assert(s2.drop_last() =~= s.drop_last().update(i, pair));
        assert(s2.last() == s.last());
        lemma_targets_update(s.drop_last(), i, pair);
        assert(s.drop_last()[i] == s[i]);
        assert(s.last().0 != pair.0);
    }
}

proof fn lemma_targets_pointwise_append<T>(
    s: Seq<(u64, CallbackTarget<T>)>,
    s2: Seq<(u64, CallbackTarget<T>)>,
    x: T,
)
    requires
        s2.len() == s.len(),
        forall|j: int|
            0 <= j < s.len() ==> s2[j].0 == s[j].0 && s2[j].1@.label == s[j].1@.label
                && s2[j].1@.pending == s[j].1@.pending.push(x),
    ensures
        map_of_targets(s2).dom() =~= map_of_targets(s).dom(),
        forall|id: u64| #[trigger] map_of_targets(s).contains_key(id) ==> map_of_targets(s2)[id].label
            == map_of_targets(s)[id].label && map_of_targets(s2)[id].pending == map_of_targets(
            s,
        )[id].pending.push(x),
    decreases s.len(),
{
    if s.len() > 0 {
        assert(forall|j: int|
            0 <= j < s.drop_last().len() ==> s2.drop_last()[j].0 == s.drop_last()[j].0
                && s2.drop_last()[j].1@.label == s.drop_last()[j].1@.label
                && s2.drop_last()[j].1@.pending == s.drop_last()[j].1@.pending.push(x));
        lemma_targets_pointwise_append(s.drop_last(), s2.drop_last(), x);
        assert(s2.last().0 == s.last().0);
    }
}

/// A general purpose callback proxy for managing and invoking callbacks.
pub struct Proxy<T: Copy> {
    targets: Vec<(u64, CallbackTarget<T>)>,
    next_id: u64,
    suspended: bool,
}

impl<T: Copy> View for Proxy<T> {
    type V = ProxyModel<T>;

    closed spec fn view(&self) -> ProxyModel<T> {
        ProxyModel { targets: map_of_targets(self.targets@), suspended: self.suspended }
    }
}

impl<T: Copy> Proxy<T> {
    /// Internal well-formedness: target ids are distinct and below the
    /// next id to hand out.
    pub closed spec fn wf(&self) -> bool {
        ids_distinct(self.targets@) && ids_below(self.targets@, self.next_id)
    }

    /// The next id to hand out.
    pub closed spec fn spec_next_id(&self) -> u64 {
        self.next_id
    }

    /// Creates a new proxy with no targets, ready to deliver.
    pub fn new() -> (proxy: Self)
        ensures
            proxy.wf(),
            proxy@ =~= (ProxyModel::<T> { targets: Map::empty(), suspended: false }),
            proxy.spec_next_id() == 0,
    {
        Proxy { targets: Vec::new(), next_id: 0, suspended: false }
    }

    /// Index of the pair holding `id`, if any.
    fn find(&self, id: u64) -> (r: Option<usize>)
        requires
            self.wf(),
        ensures
            match r {
                Some(i) => {
                    &&& i < self.targets@.len()
                    &&& self.targets@[i as int].0 == id
                    &&& self@.targets.contains_key(id)
                    &&& self@.targets[id] == self.targets@[i as int].1@
                },
                None => !self@.targets.contains_key(id),
            },
    {
        let n = self.targets.len();
        let mut i: usize = 0;
        while i < n
            invariant
                self.wf(),
                n == self.targets@.len(),
                i <= n,
                forall|j: int| 0 <= j < i ==> self.targets@[j].0 != id,
            decreases n - i,
        {
            if self.targets[i].0 == id {
                proof {
                    lemma_targets_index(self.targets@, i as int);
                }
                return Some(i);
            }
            i += 1;
        }
        proof {
            lemma_targets_contains(self.targets@, id);
        }
        None
    }

    /// Registers a new target to be invoked and returns its id.
    pub fn add_target(&mut self, label: Option<String>) -> (id: u64)
        requires
            old(self).wf(),
            old(self).spec_next_id() < u64::MAX,
        ensures
            final(self).wf(),
            !old(self)@.targets.contains_key(id),
            final(self)@.targets =~= old(self)@.targets.insert(
                id,
                TargetModel {
                    label: match label {
                        Some(l) => Some(l@),
                        None => None::<Seq<char>>,
                    },
                    pending: Seq::<T>::empty(),
                },
            ),
            final(self)@.suspended == old(self)@.suspended,
    {
        let id = self.next_id;
        proof {
            lemma_targets_contains(self.targets@, id);
        }
        let target = CallbackTarget::new(label);
        self.targets.push((id, target));
        self.next_id = id + 1;
        proof {
            assert(self.targets@.drop_last() =~= old(self).targets@);
        }
        id
    }

    /// Invokes all registered targets with the given arguments: unless
    /// delivery is suspended, `args` lands in every target's mailbox.
    pub fn invoke(&mut self, args: T)
        requires
            old(self).wf(),
        ensures
            final(self).wf(),
            final(self)@.suspended == old(self)@.suspended,
            old(self)@.suspended ==> final(self)@ =~= old(self)@,
            final(self)@.targets.dom() =~= old(self)@.targets.dom(),
            !old(self)@.suspended ==> forall|id: u64| #[trigger]
                old(self)@.targets.contains_key(id) ==> final(self)@.targets[id].label == old(
                    self,
                )@.targets[id].label && final(self)@.targets[id].pending == old(
                    self,
                )@.targets[id].pending.push(args),
            old(self)@.suspended ==> forall|id: u64| #[trigger]
                old(self)@.targets.contains_key(id) ==> final(self)@.targets[id] == old(
                    self,
                )@.targets[id],
    {
        if self.suspended {
            return ;
        }
        let n = self.targets.len();
        let mut i: usize = 0;
        while i < n
            invariant
                n == self.targets@.len(),
                self.targets@.len() == old(self).targets@.len(),
                i <= n,
                self.next_id == old(self).next_id,
                self.suspended == old(self).suspended,
                forall|j: int|
                    0 <= j < i ==> self.targets@[j].0 == old(self).targets@[j].0
                        && self.targets@[j].1@.label == old(self).targets@[j].1@.label
                        && self.targets@[j].1@.pending == old(self).targets@[j].1@.pending.push(
                        args,
                    ),
                forall|j: int| i <= j < n ==> self.targets@[j] == old(self).targets@[j],
            decreases n - i,
        {
            let ghost prev = self.targets@;
            let (id, target) = self.targets.remove(i);
            let CallbackTarget { label, mut pending } = target;
            pending.push(args);
            let refreshed = CallbackTarget { label, pending };
            let ghost newpair = (id, refreshed);
            self.targets.insert(i, (id, refreshed));
            proof {
                assert(self.targets@ =~= prev.update(i as int, newpair));
            }
            i += 1;
        }
        proof {
            assert(ids_distinct(self.targets@)) by {
                assert(forall|j: int|
                    0 <= j < self.targets@.len() ==> self.targets@[j].0 == old(
                        self,
                    ).targets@[j].0);
            }
            lemma_targets_pointwise_append(old(self).targets@, self.targets@, args);
        }
    }

    /// Suspends delivery: invocations while suspended are dropped.
    pub fn suspend(&mut self)
        requires
            old(self).wf(),
        ensures
            final(self).wf(),
            final(self)@ =~= (ProxyModel { suspended: true, ..old(self)@ }),
    {
        self.suspended = true;
    }

    /// Resumes delivery.
    pub fn unsuspend(&mut self)
        requires
            old(self).wf(),
        ensures
            final(self).wf(),
            final(self)@ =~= (ProxyModel { suspended: false, ..old(self)@ }),
    {
        self.suspended = false;
    }

    /// Drains the mailbox of the target `id`: returns every argument
    /// delivered to it since the last drain, oldest first.
    pub fn take_pending(&mut self, id: u64) -> (drained: Vec<T>)
        requires
            old(self).wf(),
            old(self)@.targets.contains_key(id),
        ensures
            final(self).wf(),
            drained@ == old(self)@.targets[id].pending,
            final(self)@.targets =~= old(self)@.targets.insert(
                id,
                TargetModel { label: old(self)@.targets[id].label, pending: Seq::<T>::empty() },
            ),
            final(self)@.suspended == old(self)@.suspended,
    {
        let i = self.find(id).unwrap();
        let (id0, target) = self.targets.remove(i);
        let CallbackTarget { label, pending } = target;
        self.targets.insert(i, (id0, CallbackTarget { label, pending: Vec::new() }));
        proof {
            assert(self.targets@ =~= old(self).targets@.update(
                i as int,
                self.targets@[i as int],
            ));
            lemma_targets_update(old(self).targets@, i as int, self.targets@[i as int]);
        }
        pending
    }

    /// Withdraws the target `id`: later invocations no longer reach it.
    pub fn drop_target(&mut self, id: u64)
        requires
            old(self).wf(),
            old(self)@.targets.contains_key(id),
        ensures
            final(self).wf(),
            final(self)@.targets =~= old(self)@.targets.remove(id),
            final(self)@.suspended == old(self)@.suspended,
    {
        let i = self.find(id).unwrap();
        self.targets.remove(i);
        proof {
            lemma_targets_remove(old(self).targets@, i as int);
        }
    }
}

proof fn lemma_targets_remove<T>(s: Seq<(u64, CallbackTarget<T>)>, i: int)
    requires
        ids_distinct(s),
        0 <= i < s.len(),
    ensures
        map_of_targets(s.remove(i)) =~= map_of_targets(s).remove(s[i].0),
        ids_distinct(s.remove(i)),
    decreases s.len(),
{
    let s2 = s.remove(i);
    assert(forall|a: int, b: int| 0 <= a < b < s2.len() ==> s2[a].0 != s2[b].0) by {
        assert(forall|a: int| 0 <= a < s2.len() ==> s2[a] == (if a < i {
            s[a]
        } else {
            s[a + 1]
        }));
    }
    if i == s.len() - 1 {
        assert(s2 =~= s.drop_last());
        lemma_targets_contains(s.drop_last(), s[i].0);
        assert(!map_of_targets(s.drop_last()).contains_key(s[i].0));
        assert(map_of_targets(s.drop_last()).remove(s[i].0) =~= map_of_targets(s.drop_last()));
    } else {
        assert(s2.drop_last() =~= s.drop_last().remove(i));
        assert(s2.last() == s.last());
        lemma_targets_remove(s.drop_last(), i);
        assert(s.drop_last()[i] == s[i]);
        assert(s.last().0 != s[i].0);
    }
}

/// The proxy dispatching window events: a plain [`Proxy`] whose delivery
/// is never suspended.
pub struct GlfwCallbackProxy<T: Copy> {
    inner: Proxy<T>,
}

impl<T: Copy> View for GlfwCallbackProxy<T> {
    type V = Map<u64, TargetModel<T>>;

    closed spec fn view(&self) -> Map<u64, TargetModel<T>> {
        self.inner@.targets
    }
}

impl<T: Copy> GlfwCallbackProxy<T> {
    /// Internal well-formedness of the inner proxy, which is never
    /// suspended.
    pub closed spec fn wf(&self) -> bool {
        self.inner.wf() && !self.inner@.suspended
    }

    /// The next id to hand out.
    pub closed spec fn spec_next_id(&self) -> u64 {
        self.inner.spec_next_id()
    }

    /// Creates a new GlfwCallbackProxy.
    pub fn new() -> (proxy: Self)
        ensures
            proxy.wf(),
            proxy@ =~= Map::<u64, TargetModel<T>>::empty(),
            proxy.spec_next_id() == 0,
    {
        GlfwCallbackProxy { inner: Proxy::new() }
    }

    /// Registers a new target to be invoked and returns its id.
    pub fn add_target(&mut self, label: Option<String>) -> (id: u64)
        requires
            old(self).wf(),
            old(self).spec_next_id() < u64::MAX,
        ensures
            final(self).wf(),
            !old(self)@.contains_key(id),
            final(self)@ =~= old(self)@.insert(
                id,
                TargetModel {
                    label: match label {
                        Some(l) => Some(l@),
                        None => None::<Seq<char>>,
                    },
                    pending: Seq::<T>::empty(),
                },
            ),
    {
        self.inner.add_target(label)
    }

    /// Invokes all registered targets with the given arguments: `args`
    /// lands in every target's mailbox.
    pub fn invoke(&mut self, args: T)
        requires
            old(self).wf(),
        ensures
            final(self).wf(),
            final(self)@.dom() =~= old(self)@.dom(),
            forall|id: u64| #[trigger] old(self)@.contains_key(id) ==> final(self)@[id].label == old(
                self,
            )@[id].label && final(self)@[id].pending == old(self)@[id].pending.push(args),
    {
        self.inner.invoke(args)
    }

    /// Drains the mailbox of the target `id`: returns every argument
    /// delivered to it since the last drain, oldest first.
    pub fn take_pending(&mut self, id: u64) -> (drained: Vec<T>)
        requires
            old(self).wf(),
            old(self)@.contains_key(id),
        ensures
            final(self).wf(),
            drained@ == old(self)@[id].pending,
            final(self)@ =~= old(self)@.insert(
                id,
                TargetModel { label: old(self)@[id].label, pending: Seq::<T>::empty() },
            ),
    {
        self.inner.take_pending(id)
    }

    /// Withdraws the target `id`: later invocations no longer reach it.
    pub fn drop_target(&mut self, id: u64)
        requires
            old(self).wf(),
            old(self)@.contains_key(id),
        ensures
            final(self).wf(),
            final(self)@ =~= old(self)@.remove(id),
    {
        self.inner.drop_target(id)
    }
}

} // verus!
