//! Addresses of the packages and resources that every ledger holds.
use vstd::prelude::*;
use crate::address::{
    NodeId, PackageAddress, ResourceAddress, FUNGIBLE_RESOURCE_ENTITY,
    NON_FUNGIBLE_RESOURCE_ENTITY,
};

verus! {

/// Entity-type byte (the first byte of a node id) of a global package.
pub const GLOBAL_PACKAGE_ENTITY: u8 = 13;

/// The node id with entity byte `entity` whose other bytes are zero but
/// the last, which is `index`.
pub open spec fn well_known_node(entity: u8, index: u8) -> Seq<u8> {
    seq![entity] + Seq::new(28, |i: int| 0u8) + seq![index]
}

fn well_known_id(entity: u8, index: u8) -> (r: NodeId)
    ensures
        r@ == well_known_node(entity, index),
{
    let mut bytes = [0u8; 30];
    bytes.set(0, entity);
    bytes.set(29, index);
    let r = NodeId(bytes);
    assert(r@ =~= well_known_node(entity, index));
    r
}

/// The resource of the native token.
pub fn radix_token() -> (r: ResourceAddress)
    ensures
        r@ == well_known_node(FUNGIBLE_RESOURCE_ENTITY, 1),
{
    ResourceAddress(well_known_id(FUNGIBLE_RESOURCE_ENTITY, 1))
}

/// The resource whose units stand for packages acting as callers.
pub fn package_token() -> (r: ResourceAddress)
    ensures
        r@ == well_known_node(NON_FUNGIBLE_RESOURCE_ENTITY, 2),
{
    ResourceAddress(well_known_id(NON_FUNGIBLE_RESOURCE_ENTITY, 2))
}

/// The resource whose units own validators.
pub fn validator_owner_token() -> (r: ResourceAddress)
    ensures
        r@ == well_known_node(NON_FUNGIBLE_RESOURCE_ENTITY, 3),
{
    ResourceAddress(well_known_id(NON_FUNGIBLE_RESOURCE_ENTITY, 3))
}

/// The package of the epoch manager and validator blueprints.
pub fn epoch_manager_package() -> (r: PackageAddress)
    ensures
        r@ == well_known_node(GLOBAL_PACKAGE_ENTITY, 4),
{
    PackageAddress(well_known_id(GLOBAL_PACKAGE_ENTITY, 4))
}

/// The package of the logger blueprint.
pub fn logger_package() -> (r: PackageAddress)
    ensures
        r@ == well_known_node(GLOBAL_PACKAGE_ENTITY, 5),
{
    PackageAddress(well_known_id(GLOBAL_PACKAGE_ENTITY, 5))
}

} // verus!
