use radix_engine::address::{
    ComponentAddress, NodeId, PackageAddress, ResourceAddress, FUNGIBLE_RESOURCE_ENTITY,
    NON_FUNGIBLE_RESOURCE_ENTITY, NonFungibleGlobalId, NonFungibleLocalId,
};
use radix_engine::well_known::{epoch_manager_package, package_token, radix_token};

fn node(entity: u8, last: u8) -> NodeId {
    let mut bytes = [0u8; 30];
    bytes[0] = entity;
    bytes[29] = last;
    NodeId(bytes)
}

#[test]
fn component_address_encodes_as_reference_payload() {
    let address = ComponentAddress(node(192, 7));
    let encoded = address.encode();
    assert_eq!(encoded.len(), 32);
    assert_eq!(encoded[0], 92);
    assert_eq!(encoded[1], 128);
    assert_eq!(encoded[2], 192);
    assert_eq!(encoded[31], 7);
    assert!(encoded[3..31].iter().all(|b| *b == 0));
}

#[test]
fn package_address_encodes_as_reference_payload() {
    let encoded = PackageAddress(node(13, 9)).encode();
    let mut expected = vec![92u8, 128, 13];
    expected.extend(vec![0u8; 28]);
    expected.push(9);
    assert_eq!(encoded, expected);
}

#[test]
fn node_id_comparison() {
    assert!(node(1, 2).same_as(&node(1, 2)));
    assert!(!node(1, 2).same_as(&node(1, 3)));
    assert!(!node(1, 2).same_as(&node(2, 2)));
    assert!(ResourceAddress(node(93, 1)).same_as(&ResourceAddress(node(93, 1))));
}

#[test]
fn resource_entities() {
    assert!(node(FUNGIBLE_RESOURCE_ENTITY, 0).is_resource());
    assert!(node(NON_FUNGIBLE_RESOURCE_ENTITY, 0).is_resource());
    assert!(!node(13, 0).is_resource());
}

#[test]
fn duplicate_keeps_the_id() {
    let id = NonFungibleGlobalId {
        resource_address: ResourceAddress(node(154, 4)),
        local_id: NonFungibleLocalId::Bytes(vec![1, 2, 3]),
    };
    let copy = id.duplicate();
    assert!(copy.resource_address.same_as(&id.resource_address));
    assert!(matches!(copy.local_id, NonFungibleLocalId::Bytes(ref b) if *b == vec![1, 2, 3]));
    let s = NonFungibleLocalId::String("abc".to_string()).duplicate();
    assert!(matches!(s, NonFungibleLocalId::String(ref t) if t == "abc"));
}

#[test]
fn well_known_addresses() {
    assert!(radix_token().0.is_resource());
    assert!(package_token().0.is_resource());
    assert!(!epoch_manager_package().0.is_resource());
    assert_eq!(epoch_manager_package().0 .0[0], 13);
    assert_eq!(epoch_manager_package().0 .0[29], 4);
}

#[test]
fn resource_address_of_node() {
    assert!(ResourceAddress::try_from_node(node(93, 1)).is_some());
    assert!(ResourceAddress::try_from_node(node(13, 1)).is_none());
}
