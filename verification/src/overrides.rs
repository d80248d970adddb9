//! The scoped override stack behind dependency resolution.
//!
//! Overrides are grouped in layers. Each layer maps a dependency's type key to
//! the value that replaces it. Newer layers shadow older ones. Each layer is
//! entered under an identifier of its own, and leaving a scope removes exactly
//! the layer that entering it added, in whatever order scopes are left.
use std::collections::HashMap;
use vstd::prelude::*;

verus! {

broadcast use vstd::std_specs::hash::group_hash_axioms;

/// What a stack of layers resolves `key` to: the entry of the newest layer
/// that holds `key`, or `None` when no layer does.
pub open spec fn resolve<V>(layers: Seq<Map<u64, V>>, key: u64) -> Option<V>
    decreases layers.len(),
{
    if layers.len() == 0 {
        None
    } else if layers.last().contains_key(key) {
        Some(layers.last()[key])
    } else {
        resolve(layers.drop_last(), key)
    }
}

/// The entry that `layer` holds for `key`, if any.
pub open spec fn entry<V>(layer: Map<u64, V>, key: u64) -> Option<V> {
    if layer.contains_key(key) {
        Some(layer[key])
    } else {
        None
    }
}

/// Where the layer identified by `id` stands in a stack whose layers carry
/// the identifiers `ids` (oldest first): the newest position that holds `id`,
/// or `None` when no layer carries it.
pub open spec fn layer_position(ids: Seq<u64>, id: u64) -> Option<int>
    decreases ids.len(),
{
    if ids.len() == 0 {
        None
    } else if ids.last() == id {
        Some(ids.len() - 1)
    } else {
        layer_position(ids.drop_last(), id)
    }
}

/// The stack of active override layers, oldest first. Each layer carries the
/// identifier it was entered under; identifiers are handed out in increasing
/// order and never reused.
pub struct OverrideStack<V> {
    layers: Vec<(u64, HashMap<u64, V>)>,
    next_id: u64,
}

impl<V> View for OverrideStack<V> {
    type V = Seq<Map<u64, V>>;

    closed spec fn view(&self) -> Seq<Map<u64, V>> {
        self.layers@.map_values(|layer: (u64, HashMap<u64, V>)| layer.1@)
    }
}

impl<V> OverrideStack<V> {
    #[verifier::type_invariant]
    spec fn well_formed(self) -> bool {
        &&& forall|i: int| 0 <= i < self.layers.len() ==> #[trigger] self.layers@[i].0 < self.next_id
        &&& forall|i: int, j: int|
            0 <= i < j < self.layers.len() ==> #[trigger] self.layers@[i].0 < #[trigger] self.layers@[j].0
    }

    /// The identifiers of the active layers, oldest first.
    pub closed spec fn ids(&self) -> Seq<u64> {
        self.layers@.map_values(|layer: (u64, HashMap<u64, V>)| layer.0)
    }

    /// The identifier the next entered layer receives.
    pub closed spec fn next_id(&self) -> u64 {
        self.next_id
    }

    /// An empty stack: every dependency resolves to its live value.
    pub fn new() -> (stack: Self)
        ensures
            stack@ == Seq::<Map<u64, V>>::empty(),
            stack.ids() == Seq::<u64>::empty(),
            stack.next_id() == 0,
    {
        let stack = OverrideStack { layers: Vec::new(), next_id: 0 };
        assert(stack@ =~= Seq::<Map<u64, V>>::empty());
        assert(stack.ids() =~= Seq::<u64>::empty());
        stack
    }

    /// The number of active layers.
    pub fn depth(&self) -> (n: usize)
        ensures
            n == self@.len(),
            n == self.ids().len(),
    {
        self.layers.len()
    }

    /// The identifier the next entered layer receives.
    pub fn next_layer_id(&self) -> (id: u64)
        ensures
            id == self.next_id(),
    {
        self.next_id
    }

    /// The override of the newest layer that holds `key`.
    pub fn current_override(&self, key: u64) -> (found: Option<&V>)
        ensures
            match found {
                Some(value) => resolve(self@, key) == Some(*value),
                None => resolve(self@, key) is None,
            },
    {
        let mut i = self.layers.len();
        assert(self@.subrange(0, i as int) =~= self@);
        while i > 0
            invariant
                i <= self.layers.len(),
                self@.len() == self.layers.len(),
                resolve(self@, key) == resolve(self@.subrange(0, i as int), key),
            decreases i,
        {
            let ghost prefix = self@.subrange(0, i as int);
            i = i - 1;
            assert(prefix.drop_last() =~= self@.subrange(0, i as int));
            assert(prefix.last() == self.layers@[i as int].1@);
            match self.layers[i].1.get(&key) {
                Some(value) => {
                    return Some(value);
                },
                None => {},
            }
        }
        None
    }

    /// Pushes `layer` as the newest layer, under the identifier `next_id()`,
    /// and returns that identifier.
    pub fn push(&mut self, layer: HashMap<u64, V>) -> (id: u64)
        requires
            old(self).next_id() < u64::MAX,
        ensures
            id == old(self).next_id(),
            !old(self).ids().contains(id),
            final(self)@ == old(self)@.push(layer@),
            final(self).ids() == old(self).ids().push(id),
            final(self).next_id() == id + 1,
    {
        proof {
            use_type_invariant(&*self);
        }
        let id = self.next_id;
        let mut layers = Vec::new();
        std::mem::swap(&mut layers, &mut self.layers);
        layers.push((id, layer));
        self.next_id = id + 1;
        self.layers = layers;
        assert(self@ =~= old(self)@.push(layer@));
        assert(self.ids() =~= old(self).ids().push(id));
        proof {
            if old(self).ids().contains(id) {
                let k = choose|k: int| 0 <= k < old(self).ids().len() && old(self).ids()[k] == id;
                assert(old(self).layers@[k].0 < old(self).next_id);
            }
        }
        id
    }

    /// Removes the newest layer and returns it. The stack must hold a layer.
    pub fn pop(&mut self) -> (popped: HashMap<u64, V>)
        requires
            old(self)@.len() > 0,
        ensures
            popped@ == old(self)@.last(),
            final(self)@ == old(self)@.drop_last(),
            final(self).ids() == old(self).ids().drop_last(),
            final(self).next_id() == old(self).next_id(),
    {
        proof {
            use_type_invariant(&*self);
        }
        let mut layers = Vec::new();
        std::mem::swap(&mut layers, &mut self.layers);
        let popped = layers.pop().unwrap();
        self.layers = layers;
        assert(self@ =~= old(self)@.drop_last());
        assert(self.ids() =~= old(self).ids().drop_last());
        popped.1
    }

    /// Whether an active layer was entered under `id`.
    pub fn contains_layer(&self, id: u64) -> (found: bool)
        ensures
            found == layer_position(self.ids(), id) is Some,
    {
        let ghost ids = self.ids();
        let mut i = self.layers.len();
        assert(ids.subrange(0, i as int) =~= ids);
        while i > 0
            invariant
                i <= self.layers.len(),
                ids.len() == self.layers.len(),
                ids == self.ids(),
                layer_position(ids, id) == layer_position(ids.subrange(0, i as int), id),
            decreases i,
        {
            let ghost prefix = ids.subrange(0, i as int);
            i = i - 1;
            assert(prefix.drop_last() =~= ids.subrange(0, i as int));
            assert(prefix.last() == self.layers@[i as int].0);
            if self.layers[i].0 == id {
                return true;
            }
        }
        assert(ids.subrange(0, 0) =~= Seq::<u64>::empty());
        false
    }

    /// Removes the layer entered under `id`, wherever it stands, and returns
    /// it; `None`, with the stack unchanged, when no active layer carries `id`.
    pub fn remove_layer(&mut self, id: u64) -> (removed: Option<HashMap<u64, V>>)
        ensures
            match layer_position(old(self).ids(), id) {
                Some(i) => {
                    &&& removed is Some
                    &&& removed.unwrap()@ == old(self)@[i]
                    &&& final(self)@ == old(self)@.remove(i)
                    &&& final(self).ids() == old(self).ids().remove(i)
                },
                None => {
                    &&& removed is None
                    &&& final(self)@ == old(self)@
                    &&& final(self).ids() == old(self).ids()
                },
            },
            final(self).next_id() == old(self).next_id(),
    {
        proof {
            use_type_invariant(&*self);
        }
        let ghost ids = self.ids();
        let mut i = self.layers.len();
        assert(ids.subrange(0, i as int) =~= ids);
        while i > 0
            invariant
                i <= self.layers.len(),
                ids.len() == self.layers.len(),
                ids == self.ids(),
                ids == old(self).ids(),
                self.layers@ == old(self).layers@,
                self.next_id == old(self).next_id,
                self.well_formed(),
                layer_position(ids, id) == layer_position(ids.subrange(0, i as int), id),
            decreases i,
        {
            let ghost prefix = ids.subrange(0, i as int);
            i = i - 1;
            assert(prefix.drop_last() =~= ids.subrange(0, i as int));
            assert(prefix.last() == self.layers@[i as int].0);
            if self.layers[i].0 == id {
                assert(layer_position(ids, id) == Some(i as int));
                let mut layers = Vec::new();
                std::mem::swap(&mut layers, &mut self.layers);
                let layer = layers.remove(i);
                assert forall|a: int, b: int| 0 <= a < b < layers.len() implies #[trigger] layers@[a].0
                    < #[trigger] layers@[b].0 by {
                    let oa = if a < i { a } else { a + 1 };
                    let ob = if b < i { b } else { b + 1 };
                    assert(layers@[a] == old(self).layers@[oa]);
                    assert(layers@[b] == old(self).layers@[ob]);
                }
                assert forall|a: int| 0 <= a < layers.len() implies #[trigger] layers@[a].0
                    < self.next_id by {
                    let oa = if a < i { a } else { a + 1 };
                    assert(layers@[a] == old(self).layers@[oa]);
                }
                self.layers = layers;
                assert(self@ =~= old(self)@.remove(i as int));
                assert(self.ids() =~= old(self).ids().remove(i as int));
                return Some(layer.1);
            }
        }
        assert(ids.subrange(0, 0) =~= Seq::<u64>::empty());
        None
    }
}

/// A set of overrides waiting to be entered as one layer.
pub struct OverrideBuilder<V> {
    entries: HashMap<u64, V>,
}

impl<V> View for OverrideBuilder<V> {
    type V = Map<u64, V>;

    closed spec fn view(&self) -> Map<u64, V> {
        self.entries@
    }
}

impl<V> OverrideBuilder<V> {
    /// A builder with no overrides.
    pub fn new() -> (builder: Self)
        ensures
            builder@ == Map::<u64, V>::empty(),
    {
        OverrideBuilder { entries: HashMap::new() }
    }

    /// Overrides the dependency keyed `key` with `dependency`, replacing any
    /// override this builder already holds for it.
    pub fn set(&mut self, key: u64, dependency: V) -> (this: &mut Self)
        ensures
            this@ == old(self)@.insert(key, dependency),
            *final(self) == *final(this),
    {
        self.entries.insert(key, dependency);
        self
    }

    /// Replaces the override for `key` by what `update` makes of the current
    /// one: the override this builder holds for `key` if it holds one
    /// (`Some`), or `None`, in which case `update` resolves the value itself.
    pub fn update<F>(&mut self, key: u64, update: F) -> (this: &mut Self) where
        F: FnOnce(Option<V>) -> V,
        requires
            call_requires(update, (entry(old(self)@, key),)),
        ensures
            exists|value: V|
                call_ensures(update, (entry(old(self)@, key),), value) && this@ == old(
                    self,
                )@.insert(key, value),
            *final(self) == *final(this),
    {
        let current = self.entries.remove(&key);
        proof {
            assert(current == entry(old(self)@, key));
        }
        let value = update(current);
        self.entries.insert(key, value);
        assert(self@ =~= old(self)@.insert(key, value));
        self
    }

    /// Pushes the overrides as the newest layer of `stack`; the returned guard
    /// identifies that layer and removes it again when the scope ends.
    pub fn enter(self, stack: &mut OverrideStack<V>) -> (guard: OverrideGuard)
        requires
            old(stack).next_id() < u64::MAX,
        ensures
            final(stack)@ == old(stack)@.push(self@),
            final(stack).ids() == old(stack).ids().push(guard@.1),
            final(stack).next_id() == old(stack).next_id() + 1,
            guard@ == (false, old(stack).next_id()),
            !old(stack).ids().contains(guard@.1),
    {
        let layer = stack.push(self.entries);
        OverrideGuard { release_test_lock: false, layer }
    }

    /// Like `enter`, for a scope that holds the process-wide test lock: the
    /// returned guard releases that lock when the scope ends.
    pub fn enter_test(self, stack: &mut OverrideStack<V>) -> (guard: OverrideGuard)
        requires
            old(stack).next_id() < u64::MAX,
        ensures
            final(stack)@ == old(stack)@.push(self@),
            final(stack).ids() == old(stack).ids().push(guard@.1),
            final(stack).next_id() == old(stack).next_id() + 1,
            guard@ == (true, old(stack).next_id()),
            !old(stack).ids().contains(guard@.1),
    {
        let layer = stack.push(self.entries);
        OverrideGuard { release_test_lock: true, layer }
    }
}

/// Marks an entered override layer; leaving the scope removes that layer.
pub struct OverrideGuard {
    release_test_lock: bool,
    layer: u64,
}

impl View for OverrideGuard {
    /// Whether leaving this scope releases the test lock, and the identifier
    /// of the layer the scope entered.
    type V = (bool, u64);

    closed spec fn view(&self) -> (bool, u64) {
        (self.release_test_lock, self.layer)
    }
}

impl OverrideGuard {
    /// The identifier of the layer this guard entered.
    pub fn layer_id(&self) -> (id: u64)
        ensures
            id == self@.1,
    {
        self.layer
    }

    /// Leaves the scope: removes from `stack` the layer this guard entered,
    /// wherever it stands, and tells whether the test lock is to be released.
    /// That layer must still be active.
    pub fn exit<V>(self, stack: &mut OverrideStack<V>) -> (release_test_lock: bool)
        requires
            layer_position(old(stack).ids(), self@.1) is Some,
        ensures
            release_test_lock == self@.0,
            final(stack)@ == old(stack)@.remove(layer_position(old(stack).ids(), self@.1).unwrap()),
            final(stack).ids() == old(stack).ids().remove(
                layer_position(old(stack).ids(), self@.1).unwrap(),
            ),
            final(stack).next_id() == old(stack).next_id(),
    {
        let _ = stack.remove_layer(self.layer);
        self.release_test_lock
    }
}

/// Entering a layer makes every key it overrides resolve to the layer's value,
/// whatever the layers below hold for that key.
pub proof fn lemma_entered_override_wins<V>(stack: Seq<Map<u64, V>>, layer: Map<u64, V>, key: u64)
    requires
        layer.contains_key(key),
    ensures
        resolve(stack.push(layer), key) == Some(layer[key]),
{
    assert(stack.push(layer).last() == layer);
}

/// Entering a layer leaves the resolution of every key it does not override
/// unchanged.
pub proof fn lemma_entered_layer_shadows_only_its_keys<V>(
    stack: Seq<Map<u64, V>>,
    layer: Map<u64, V>,
    key: u64,
)
    requires
        !layer.contains_key(key),
    ensures
        resolve(stack.push(layer), key) == resolve(stack, key),
{
    assert(stack.push(layer).drop_last() =~= stack);
}

/// Leaving a scope right after entering it undoes the entering: the layer
/// found under the new identifier is the one just pushed, and removing it
/// gives back the stack, and so the resolution of every key, as it was.
pub proof fn lemma_exit_undoes_enter<V>(
    stack: Seq<Map<u64, V>>,
    ids: Seq<u64>,
    layer: Map<u64, V>,
    id: u64,
    key: u64,
)
    requires
        ids.len() == stack.len(),
    ensures
        layer_position(ids.push(id), id) == Some(stack.len() as int),
        stack.push(layer).remove(stack.len() as int) == stack,
        ids.push(id).remove(stack.len() as int) == ids,
        resolve(stack.push(layer).remove(stack.len() as int), key) == resolve(stack, key),
{
    assert(ids.push(id).last() == id);
    assert(stack.push(layer).remove(stack.len() as int) =~= stack);
    assert(ids.push(id).remove(stack.len() as int) =~= ids);
}

/// Leaving an outer scope while an inner one is still active removes the
/// outer scope's layer only: the inner layer stays on top, and every key the
/// inner layer overrides still resolves to its value.
pub proof fn lemma_exit_of_outer_scope_keeps_inner_layer<V>(
    stack: Seq<Map<u64, V>>,
    ids: Seq<u64>,
    outer: Map<u64, V>,
    outer_id: u64,
    inner: Map<u64, V>,
    inner_id: u64,
    key: u64,
)
    requires
        ids.len() == stack.len(),
        outer_id != inner_id,
        inner.contains_key(key),
    ensures
        layer_position(ids.push(outer_id).push(inner_id), outer_id) == Some(stack.len() as int),
        stack.push(outer).push(inner).remove(stack.len() as int) == stack.push(inner),
        ids.push(outer_id).push(inner_id).remove(stack.len() as int) == ids.push(inner_id),
        resolve(stack.push(outer).push(inner).remove(stack.len() as int), key) == Some(inner[key]),
{
    let both = ids.push(outer_id).push(inner_id);
    assert(both.drop_last() =~= ids.push(outer_id));
    assert(layer_position(ids.push(outer_id), outer_id) == Some(stack.len() as int));
    assert(stack.push(outer).push(inner).remove(stack.len() as int) =~= stack.push(inner));
    assert(both.remove(stack.len() as int) =~= ids.push(inner_id));
    lemma_entered_override_wins(stack, inner, key);
}

/// With no layer entered, no key resolves to an override: every dependency
/// falls back to its live value.
pub proof fn lemma_empty_stack_resolves_nothing<V>(key: u64)
    ensures
        resolve(Seq::<Map<u64, V>>::empty(), key) is None,
{
}

/// A value set on a builder is what the key resolves to once the builder is
/// entered, whatever the builder and the stack held before.
pub proof fn lemma_set_then_enter_resolves_to_value<V>(
    stack: Seq<Map<u64, V>>,
    entries: Map<u64, V>,
    key: u64,
    value: V,
)
    ensures
        resolve(stack.push(entries.insert(key, value)), key) == Some(value),
{
    lemma_entered_override_wins(stack, entries.insert(key, value), key);
}

/// Setting the same key twice on a builder keeps only the later value.
pub proof fn lemma_later_set_replaces_earlier<V>(entries: Map<u64, V>, key: u64, first: V, second: V)
    ensures
        entries.insert(key, first).insert(key, second) == entries.insert(key, second),
{
    assert(entries.insert(key, first).insert(key, second) =~= entries.insert(key, second));
}

/// Setting two different keys gives the same builder in either order.
pub proof fn lemma_sets_of_distinct_keys_commute<V>(
    entries: Map<u64, V>,
    key_a: u64,
    a: V,
    key_b: u64,
    b: V,
)
    requires
        key_a != key_b,
    ensures
        entries.insert(key_a, a).insert(key_b, b) == entries.insert(key_b, b).insert(key_a, a),
{
    assert(entries.insert(key_a, a).insert(key_b, b) =~= entries.insert(key_b, b).insert(key_a, a));
}

} // verus!
