use voxelcore::component::ComponentStore;
use voxelcore::component::ResourceNode;

/// The component set of a small application: two types with identical
/// in-memory representation plus one carrying a string.
#[derive(Debug, Clone, PartialEq)]
enum Comp {
    Counter(u64),
    Score(u64),
    Label(String),
}

const COUNTER_TAG: u64 = 1;
const SCORE_TAG: u64 = 2;
const LABEL_TAG: u64 = 3;
const MISSING_TAG: u64 = 99;

fn counter(value: u64) -> Comp {
    Comp::Counter(value)
}

#[test]
fn counter_increment_round_trip() {
    let mut store: ComponentStore<Comp> = ComponentStore::new();
    store.insert(COUNTER_TAG, "Counter".to_string(), counter(0));
    store.finish_initialization();
    let mut guard = store.get_mut(COUNTER_TAG);
    if let Comp::Counter(v) = &mut guard.value {
        *v += 1;
    }
    store.release(guard);
    assert_eq!(*store.get(COUNTER_TAG), Comp::Counter(1));
}

#[test]
fn type_isolation_between_identical_representations() {
    let mut store: ComponentStore<Comp> = ComponentStore::new();
    store.insert(COUNTER_TAG, "Counter".to_string(), Comp::Counter(7));
    store.insert(SCORE_TAG, "Score".to_string(), Comp::Score(9));
    assert_eq!(*store.get(COUNTER_TAG), Comp::Counter(7));
    assert_eq!(*store.get(SCORE_TAG), Comp::Score(9));
    let mut guard = store.get_mut(SCORE_TAG);
    guard.value = Comp::Score(100);
    store.release(guard);
    assert_eq!(*store.get(COUNTER_TAG), Comp::Counter(7));
    assert_eq!(*store.get(SCORE_TAG), Comp::Score(100));
}

#[test]
fn handle_for_freezes_store() {
    let mut store: ComponentStore<Comp> = ComponentStore::new();
    store.insert(COUNTER_TAG, "Counter".to_string(), counter(0));
    assert!(!store.is_frozen());
    let _handle = store.handle_for(COUNTER_TAG);
    // The store is now frozen: an insert of the never-registered
    // MISSING_TAG is no longer allowed.
    assert!(store.is_frozen());
    assert!(!store.contains(MISSING_TAG));
}

#[test]
fn handle_freezes_store() {
    let mut store: ComponentStore<Comp> = ComponentStore::new();
    assert!(!store.is_frozen());
    let _handle = store.handle();
    assert!(store.is_frozen());
}

#[test]
fn insert_keeps_configuring() {
    let mut store: ComponentStore<Comp> = ComponentStore::new();
    let handle = store.insert(COUNTER_TAG, "Counter".to_string(), counter(0));
    // The handle that insert returns does not freeze the store, so the
    // bootstrap sequence can keep registering.
    assert!(!store.is_frozen());
    assert_eq!(handle.type_tag(), COUNTER_TAG);
    store.insert(SCORE_TAG, "Score".to_string(), Comp::Score(0));
    assert!(store.contains(SCORE_TAG));
}

#[test]
fn no_duplicate_registration() {
    let mut store: ComponentStore<Comp> = ComponentStore::new();
    store.insert(COUNTER_TAG, "Counter".to_string(), counter(0));
    // The tag is taken: a second insert under it is not allowed, whatever
    // the value.
    assert!(store.contains(COUNTER_TAG));
    assert!(!store.is_frozen());
}

#[test]
fn deferred_resolution_matches_fresh_handle() {
    let mut store: ComponentStore<Comp> = ComponentStore::new();
    store.insert(LABEL_TAG, "Label".to_string(), Comp::Label("hello".to_string()));
    // Captured before finish_initialization: still unresolved.
    let mut early = store.handle_for(LABEL_TAG);
    let mut untyped = store.handle();
    assert!(!early.is_resolved());
    assert!(!untyped.resolve(&store));
    assert!(!untyped.is_resolved());
    store.finish_initialization();
    // After publication the early handle resolves and reads the same
    // contents as a handle captured now.
    assert!(untyped.resolve(&store));
    assert!(untyped.is_resolved());
    let mut fresh = store.handle_for(LABEL_TAG);
    assert_eq!(early.get(&store), fresh.get(&store));
    assert!(early.is_resolved());
    assert_eq!(*early.get(&store), Comp::Label("hello".to_string()));
}

#[test]
fn exclusive_borrow_blocks_then_sequential_succeeds() {
    let mut store: ComponentStore<Comp> = ComponentStore::new();
    store.insert(COUNTER_TAG, "Counter".to_string(), counter(5));
    assert!(store.is_available(COUNTER_TAG));
    let guard = store.get_mut(COUNTER_TAG);
    // While the guard lives, the slot is empty: any further borrow —
    // shared or exclusive — is refused.
    assert!(!store.is_available(COUNTER_TAG));
    assert!(store.contains(COUNTER_TAG));
    store.release(guard);
    // Sequential borrows both succeed.
    assert!(store.is_available(COUNTER_TAG));
    let guard2 = store.get_mut(COUNTER_TAG);
    assert_eq!(guard2.value, Comp::Counter(5));
    store.release(guard2);
    assert_eq!(*store.get(COUNTER_TAG), Comp::Counter(5));
}

#[test]
fn idempotent_finish() {
    let mut store: ComponentStore<Comp> = ComponentStore::new();
    store.insert(COUNTER_TAG, "Counter".to_string(), counter(3));
    store.finish_initialization();
    assert!(store.is_published());
    assert!(store.is_frozen());
    // A second call must not panic and must change nothing.
    store.finish_initialization();
    assert!(store.is_published());
    assert_eq!(*store.get(COUNTER_TAG), Comp::Counter(3));
}

#[test]
fn checked_lookup_of_absent_component() {
    let mut store: ComponentStore<Comp> = ComponentStore::new();
    store.insert(COUNTER_TAG, "Counter".to_string(), counter(0));
    store.finish_initialization();
    // Probing an optional subsystem: absent means None, not a failure.
    assert!(store.get_checked(MISSING_TAG).is_none());
    assert!(store.get_mut_checked(MISSING_TAG).is_none());
    // A hard dependency on MISSING_TAG would be refused outright.
    assert!(!store.contains(MISSING_TAG));
    assert!(store.get_checked(COUNTER_TAG).is_some());
}

#[test]
fn handle_accessors_reach_components() {
    let mut store: ComponentStore<Comp> = ComponentStore::new();
    store.insert(COUNTER_TAG, "Counter".to_string(), counter(2));
    store.finish_initialization();
    let mut untyped = store.handle();
    assert_eq!(*untyped.get(&store, COUNTER_TAG), Comp::Counter(2));
    assert!(untyped.get_checked(&store, MISSING_TAG).is_none());
    let mut typed = untyped.handle_for(COUNTER_TAG);
    let mut guard = typed.get_mut(&mut store);
    guard.value = Comp::Counter(4);
    store.release(guard);
    assert_eq!(*typed.get(&store), Comp::Counter(4));
    let drained = untyped.get_mut_checked(&mut store, COUNTER_TAG);
    assert!(drained.is_some());
    let guard = drained.unwrap();
    assert_eq!(guard.value, Comp::Counter(4));
    store.release(guard);
    assert!(untyped.get_mut_checked(&mut store, MISSING_TAG).is_none());
}

#[test]
fn resource_node_keeps_tag_and_label() {
    let node: ResourceNode<Comp> = ResourceNode::new(7, "Window".to_string(), counter(0));
    assert_eq!(node.type_tag(), 7);
    assert_eq!(node.label().as_str(), "Window");
}
