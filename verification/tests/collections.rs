use radix_engine::address::{ComponentAddress, NodeId, ResourceAddress};
use radix_engine::collections::{AddressSet, NameMap};

fn node(last: u8) -> NodeId {
    let mut bytes = [0u8; 30];
    bytes[29] = last;
    NodeId(bytes)
}

#[test]
fn name_map_keeps_each_name_once() {
    let mut map: NameMap<u32> = NameMap::new();
    map.insert("deposit".to_string(), 1);
    map.insert("withdraw".to_string(), 2);
    map.insert("deposit".to_string(), 3);
    assert_eq!(map.len(), 2);
    assert_eq!(map.entries()[0], ("deposit".to_string(), 3));
    assert_eq!(map.entries()[1], ("withdraw".to_string(), 2));
    map.insert("burn".to_string(), 4);
    assert_eq!(map.len(), 3);
    assert_eq!(map.entries()[2], ("burn".to_string(), 4));
}

#[test]
fn name_map_clone_keeps_entries() {
    let mut map: NameMap<u32> = NameMap::new();
    map.insert("a".to_string(), 1);
    map.insert("b".to_string(), 2);
    let copy = map.clone();
    assert_eq!(copy.entries(), map.entries());
}

#[test]
fn address_set_keeps_each_address_once() {
    let mut set: AddressSet<ResourceAddress> = AddressSet::new();
    set.insert(ResourceAddress(node(1)));
    set.insert(ResourceAddress(node(2)));
    set.insert(ResourceAddress(node(1)));
    assert_eq!(set.len(), 2);
    assert!(set.items()[0].same_as(&ResourceAddress(node(1))));
    assert!(set.items()[1].same_as(&ResourceAddress(node(2))));
    let mut components: AddressSet<ComponentAddress> = AddressSet::new();
    components.insert(ComponentAddress(node(7)));
    components.insert(ComponentAddress(node(7)));
    assert_eq!(components.len(), 1);
    assert_eq!(components.clone().len(), 1);
}
