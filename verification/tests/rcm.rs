use boxcar::names::NameMap;
use boxcar::rcm::{Claim, ResourceError, ResourceManager};

fn pool() -> ResourceManager {
    let mut rcm = ResourceManager::new();
    rcm.add("test1", 1024);
    rcm.add("test2", 512);
    rcm
}

fn wants(list: &[(&str, usize)]) -> NameMap<usize> {
    let mut map = NameMap::new();
    for (name, amount) in list {
        map.insert(name.to_string(), *amount);
    }
    map
}

#[test]
fn test_resource_manager() {
    let mut rcm = ResourceManager::new();
    rcm.add("test1", 1024);
    rcm.add("test2", 512);

    let current = rcm.peak();

    assert_eq!(current.get("test1"), Some(&1024));
    assert_eq!(current.get("test2"), Some(&512));

    // try an invalid claim
    let chunk = rcm.consume("test2", 1024);
    assert_eq!(chunk.is_err(), true);
    assert_eq!(chunk.err().unwrap(), ResourceError::NotEnough(1024, 512));

    let chunk = rcm.consume("test1", 512);
    assert_eq!(chunk.is_ok(), true);
    let claim = chunk.unwrap();
    assert_eq!(claim.read(), 512);

    // peak at the current values
    let current = rcm.peak();

    assert_eq!(current.get("test1"), Some(&512));

    // release the claim- which should return the resources back to the main pool
    claim.release(&mut rcm);

    let current = rcm.peak();

    assert_eq!(current.get("test1"), Some(&1024));
    assert_eq!(current.get("test2"), Some(&512));
}

#[test]
fn new_manager_is_empty() {
    assert_eq!(ResourceManager::new().peak().len(), 0);
    assert_eq!(ResourceManager::default().peak().len(), 0);
}

#[test]
fn add_increments() {
    let mut rcm = pool();
    rcm.add("test1", 6);
    assert_eq!(rcm.peak().get("test1"), Some(&1030));
    assert_eq!(rcm.peak().len(), 2);
}

#[test]
fn unknown_resource_is_refused() {
    let mut rcm = pool();
    assert_eq!(rcm.consume("test3", 0).err(), Some(ResourceError::Unknown));
    assert_eq!(rcm.remove("test3", 1), Err(ResourceError::Unknown));
    assert_eq!(rcm.peak().len(), 2);
}

#[test]
fn everything_can_be_claimed_once() {
    let mut rcm = pool();
    let claim = rcm.consume("test2", 512).unwrap();
    assert_eq!(rcm.peak().get("test2"), Some(&0));
    assert_eq!(rcm.consume("test2", 1).err(), Some(ResourceError::NotEnough(1, 0)));
    assert_eq!(rcm.consume("test2", 0).unwrap().read(), 0);
    claim.release(&mut rcm);
    assert_eq!(rcm.peak().get("test2"), Some(&512));
}

#[test]
fn remove_takes_out() {
    let mut rcm = pool();
    assert_eq!(rcm.remove("test1", 24), Ok(()));
    assert_eq!(rcm.peak().get("test1"), Some(&1000));
    assert_eq!(rcm.remove("test1", 1000), Ok(()));
    assert_eq!(rcm.peak().get("test1"), None);
    assert_eq!(rcm.remove("test2", 513), Ok(()));
    assert_eq!(rcm.peak().len(), 0);
}

#[test]
fn remove_undoes_add() {
    let mut rcm = pool();
    rcm.add("test1", 7);
    rcm.remove("test1", 7).unwrap();
    rcm.add("other", 7);
    rcm.remove("other", 7).unwrap();
    assert_eq!(rcm.peak().get("test1"), Some(&1024));
    assert_eq!(rcm.peak().len(), 2);

    // of a resource that is all claimed, nothing is left
    let _claim = rcm.consume("test2", 512).unwrap();
    rcm.add("test2", 7);
    rcm.remove("test2", 7).unwrap();
    assert_eq!(rcm.peak().get("test2"), None);
}

#[test]
fn claim_on_removed_resource_is_lost() {
    let mut rcm = pool();
    let claim = rcm.consume("test1", 24).unwrap();
    rcm.remove("test1", 1000).unwrap();
    claim.release(&mut rcm);
    assert_eq!(rcm.peak().get("test1"), None);
}

#[test]
fn consume_all_or_nothing() {
    let mut rcm = pool();
    let refused = rcm.consume_all(&wants(&[("test1", 1024), ("test2", 513)]));
    assert_eq!(refused.err(), Some(ResourceError::NotEnough(513, 512)));
    assert_eq!(rcm.peak().get("test1"), Some(&1024));
    assert_eq!(rcm.peak().get("test2"), Some(&512));

    let refused = rcm.consume_all(&wants(&[("test3", 1), ("test2", 513)]));
    assert_eq!(refused.err(), Some(ResourceError::Unknown));

    let claims = rcm.consume_all(&wants(&[("test1", 1000), ("test2", 512)])).unwrap();
    assert_eq!(claims.iter().map(Claim::read).collect::<Vec<usize>>(), vec![1000, 512]);
    assert_eq!(rcm.peak().get("test1"), Some(&24));
    assert_eq!(rcm.peak().get("test2"), Some(&0));

    assert!(rcm.can_release(&claims));
    rcm.release_all(claims);
    assert_eq!(rcm.peak().get("test1"), Some(&1024));
    assert_eq!(rcm.peak().get("test2"), Some(&512));
}

#[test]
fn nothing_wanted_is_granted() {
    let mut rcm = ResourceManager::new();
    assert_eq!(rcm.consume_all(&NameMap::new()).unwrap().len(), 0);
}

#[test]
fn releases_add_up_in_any_order() {
    let mut rcm = pool();
    let a = rcm.consume("test1", 10).unwrap();
    let b = rcm.consume("test1", 20).unwrap();
    let c = rcm.consume("test1", 30).unwrap();
    assert_eq!(rcm.peak().get("test1"), Some(&964));
    rcm.release_all(vec![c, a]);
    assert_eq!(rcm.peak().get("test1"), Some(&1004));
    b.release(&mut rcm);
    assert_eq!(rcm.peak().get("test1"), Some(&1024));
}

#[test]
fn uncountable_sums_are_seen() {
    let mut rcm = ResourceManager::new();
    rcm.add("big", usize::MAX);
    let a = rcm.consume("big", 1).unwrap();
    let b = rcm.consume("big", 1).unwrap();
    rcm.add("big", 1);
    let claims = vec![a, b];
    assert!(!rcm.can_release(&claims));
    rcm.remove("big", 1).unwrap();
    assert!(rcm.can_release(&claims));
    rcm.release_all(claims);
    assert_eq!(rcm.peak().get("big"), Some(&usize::MAX));
}

#[test]
fn free_and_held_is_what_was_added() {
    let mut rcm = ResourceManager::new();
    rcm.add("a", 10);
    let first = rcm.consume("a", 4).unwrap();
    rcm.add("a", 5);
    assert!(rcm.consume("a", 12).is_err());
    let second = rcm.consume("a", 11).unwrap();
    assert_eq!(*rcm.peak().get("a").unwrap() + first.read() + second.read(), 15);
    first.release(&mut rcm);
    assert_eq!(*rcm.peak().get("a").unwrap() + second.read(), 15);
    second.release(&mut rcm);
    assert_eq!(rcm.peak().get("a"), Some(&15));
}
