//! Values keyed by what they are.
use std::any::{Any, TypeId};
use std::sync::Arc;
use zencodec::extensions::Extensions;

/// A map from types to values, over entries keyed by type identity.
#[derive(Default)]
struct TypeMap {
    entries: Extensions<TypeId, Arc<dyn Any + Send + Sync>>,
}

impl TypeMap {
    fn new() -> Self {
        TypeMap::default()
    }

    fn own<T: Any + Send + Sync>(value: Arc<dyn Any + Send + Sync>) -> Option<T> {
        value.downcast::<T>().ok().and_then(|a| Arc::try_unwrap(a).ok())
    }

    fn insert<T: Any + Send + Sync>(&mut self, value: T) -> Option<T> {
        self.entries.insert(TypeId::of::<T>(), Arc::new(value)).and_then(Self::own)
    }

    fn get<T: Any + Send + Sync>(&self) -> Option<&T> {
        self.entries.get(&TypeId::of::<T>()).and_then(|v| v.downcast_ref::<T>())
    }

    fn remove<T: Any + Send + Sync>(&mut self) -> Option<T> {
        self.entries.remove(&TypeId::of::<T>()).and_then(Self::own)
    }

    fn contains<T: Any + Send + Sync>(&self) -> bool {
        self.entries.contains(&TypeId::of::<T>())
    }

    fn len(&self) -> usize {
        self.entries.len()
    }

    fn is_empty(&self) -> bool {
        self.entries.is_empty()
    }
}

#[test]
fn empty() {
    let ext = TypeMap::new();
    assert!(ext.is_empty());
    assert_eq!(ext.len(), 0);
    assert!(ext.get::<u32>().is_none());
}

#[test]
fn insert_and_get() {
    let mut ext = TypeMap::new();
    ext.insert(42u32);
    ext.insert(99.5f64);

    assert_eq!(ext.get::<u32>(), Some(&42));
    assert_eq!(ext.get::<f64>(), Some(&99.5));
    assert_eq!(ext.get::<i32>(), None);
    assert_eq!(ext.len(), 2);
    assert!(!ext.is_empty());
}

#[test]
fn insert_replaces() {
    let mut ext = TypeMap::new();
    let old = ext.insert(42u32);
    assert!(old.is_none());

    let old = ext.insert(99u32);
    assert_eq!(old, Some(42));
    assert_eq!(ext.get::<u32>(), Some(&99));
    assert_eq!(ext.len(), 1);
}

#[test]
fn remove() {
    let mut ext = TypeMap::new();
    ext.insert(42u32);
    ext.insert(99.5f64);

    let removed = ext.remove::<u32>();
    assert_eq!(removed, Some(42));
    assert!(ext.get::<u32>().is_none());
    assert_eq!(ext.len(), 1);
    assert_eq!(ext.get::<f64>(), Some(&99.5));
}

#[test]
fn remove_missing() {
    let mut ext = TypeMap::new();
    assert!(ext.remove::<u32>().is_none());
}

#[test]
fn contains() {
    let mut ext = TypeMap::new();
    assert!(!ext.contains::<u32>());
    ext.insert(42u32);
    assert!(ext.contains::<u32>());
    assert!(!ext.contains::<f64>());
}

#[test]
fn clone_shares_arcs() {
    let mut ext = TypeMap::new();
    ext.insert(42u32);

    let cloned = TypeMap { entries: ext.entries.clone() };
    assert_eq!(cloned.get::<u32>(), Some(&42));
    assert_eq!(cloned.len(), 1);
}

#[test]
fn remove_after_clone_fails() {
    let mut ext = TypeMap::new();
    ext.insert(42u32);

    let _cloned = TypeMap { entries: ext.entries.clone() };
    // Two Arc refs exist, so try_unwrap fails
    let removed = ext.remove::<u32>();
    assert!(removed.is_none());
}

#[test]
fn integer_keys_map_to_their_last_value() {
    let mut m: Extensions<u64, &str> = Extensions::new();
    assert!(m.insert(1, "one").is_none());
    assert!(m.insert(2, "two").is_none());
    assert_eq!(m.insert(1, "uno"), Some("one"));
    assert_eq!(m.get(&1), Some(&"uno"));
    assert_eq!(m.get(&2), Some(&"two"));
    assert_eq!(m.get(&3), None);
    assert_eq!(m.remove(&1), Some("uno"));
    assert_eq!(m.remove(&1), None);
    assert!(!m.contains(&1));
    assert_eq!(m.len(), 1);
}

#[test]
fn a_shared_value_leaves_one_map_and_stays_in_the_other() {
    let mut ext = TypeMap::new();
    ext.insert(7u32);
    ext.insert("text");
    let copy = TypeMap { entries: ext.entries.clone() };
    assert_eq!(ext.remove::<u32>(), None);
    assert_eq!(ext.get::<u32>(), None);
    assert_eq!(ext.len(), 1);
    assert_eq!(ext.get::<&str>(), Some(&"text"));
    assert_eq!(copy.get::<u32>(), Some(&7));
    assert_eq!(ext.insert(8u32), None);
    assert_eq!(ext.insert(9u32), Some(8));
    assert_eq!(ext.len(), 2);
}
