//! Access rules as they are written ("soft" rules, whose amounts, counts
//! and resources may be given by a path into a value) and method
//! authorizations as they are checked ("hard" rules, where every such path
//! has been resolved).
use vstd::prelude::*;
use crate::decimal::Decimal;
use crate::address::{ResourceAddress, NonFungibleGlobalId, GlobalIdModel};
use crate::scrypto_value::SchemaPath;

verus! {

/// An amount, given directly or by a path into a value.
#[derive(Clone, Debug)]
pub enum SoftDecimal {
    Static(Decimal),
    Dynamic(SchemaPath),
}

/// A count, given directly or by a path into a value.
#[derive(Clone, Debug)]
pub enum SoftCount {
    Static(u8),
    Dynamic(SchemaPath),
}

/// A resource, given directly or by a path into a value.
#[derive(Clone, Debug)]
pub enum SoftResource {
    Static(ResourceAddress),
    Dynamic(SchemaPath),
}

/// A resource or a non-fungible unit, given directly or by a path into a
/// value.
#[derive(Clone, Debug)]
pub enum SoftResourceOrNonFungible {
    StaticNonFungible(NonFungibleGlobalId),
    StaticResource(ResourceAddress),
    Dynamic(SchemaPath),
}

/// A list of resources or non-fungible units, given directly or by a path
/// into a value.
#[derive(Clone, Debug)]
pub enum SoftResourceOrNonFungibleList {
    Static(Vec<SoftResourceOrNonFungible>),
    Dynamic(SchemaPath),
}

/// A requirement on the proofs that a caller presents.
#[derive(Clone, Debug)]
pub enum ProofRule {
    Require(SoftResourceOrNonFungible),
    AmountOf(SoftDecimal, SoftResource),
    CountOf(SoftCount, SoftResourceOrNonFungibleList),
    AllOf(SoftResourceOrNonFungibleList),
    AnyOf(SoftResourceOrNonFungibleList),
}

/// A tree of proof rules.
#[derive(Debug)]
pub enum AccessRuleNode {
    ProofRule(ProofRule),
    AnyOf(Vec<AccessRuleNode>),
    AllOf(Vec<AccessRuleNode>),
}

/// Who may call a method.
#[derive(Debug)]
pub enum AccessRule {
    AllowAll,
    DenyAll,
    Protected(AccessRuleNode),
}

/// An access rule, or the name of a group whose rule applies.
#[derive(Debug)]
pub enum AccessRuleEntry {
    AccessRule(AccessRule),
    Group(String),
}

/// A resolved amount.
#[derive(Clone, Copy, Debug, PartialEq, Eq, Structural)]
pub enum HardDecimal {
    Amount(Decimal),
    InvalidPath,
    NotDecimal,
}

/// A resolved count.
#[derive(Clone, Copy, Debug, PartialEq, Eq, Structural)]
pub enum HardCount {
    Count(u8),
    InvalidPath,
    NotU8,
}

/// A resolved resource or non-fungible unit.
#[derive(Clone, Debug)]
pub enum HardResourceOrNonFungible {
    NonFungible(NonFungibleGlobalId),
    Resource(ResourceAddress),
    InvalidPath,
    NotResourceAddress,
    NotResourceAddressOrNonFungibleGlobalId,
}

/// A resolved list of resources or non-fungible units.
#[derive(Clone, Debug)]
pub enum HardProofRuleResourceList {
    List(Vec<HardResourceOrNonFungible>),
    InvalidPath,
    NotResourceAddressOrNonFungibleGlobalIdArray,
}

/// A resolved proof rule.
#[derive(Clone, Debug)]
pub enum HardProofRule {
    Require(HardResourceOrNonFungible),
    AmountOf(HardDecimal, HardResourceOrNonFungible),
    AllOf(HardProofRuleResourceList),
    AnyOf(HardProofRuleResourceList),
    CountOf(HardCount, HardProofRuleResourceList),
}

/// A resolved tree of proof rules.
#[derive(Debug)]
pub enum HardAuthRule {
    ProofRule(HardProofRule),
    AnyOf(Vec<HardAuthRule>),
    AllOf(Vec<HardAuthRule>),
}

/// Who may call a method, with every path resolved.
#[derive(Debug)]
pub enum MethodAuthorization {
    AllowAll,
    DenyAll,
    Protected(HardAuthRule),
}

/// The model of a resolved resource or non-fungible unit.
pub enum HardResourceModel {
    NonFungible(GlobalIdModel),
    Resource(Seq<u8>),
    InvalidPath,
    NotResourceAddress,
    NotResourceAddressOrNonFungibleGlobalId,
}

/// The model of a resolved list.
pub enum HardListModel {
    List(Seq<HardResourceModel>),
    InvalidPath,
    NotResourceAddressOrNonFungibleGlobalIdArray,
}

/// The model of a resolved proof rule.
pub enum HardProofRuleModel {
    Require(HardResourceModel),
    AmountOf(HardDecimal, HardResourceModel),
    AllOf(HardListModel),
    AnyOf(HardListModel),
    CountOf(HardCount, HardListModel),
}

impl View for HardResourceOrNonFungible {
    type V = HardResourceModel;

    open spec fn view(&self) -> HardResourceModel {
        match self {
            HardResourceOrNonFungible::NonFungible(g) => HardResourceModel::NonFungible(g@),
            HardResourceOrNonFungible::Resource(a) => HardResourceModel::Resource(a@),
            HardResourceOrNonFungible::InvalidPath => HardResourceModel::InvalidPath,
            HardResourceOrNonFungible::NotResourceAddress => HardResourceModel::NotResourceAddress,
            HardResourceOrNonFungible::NotResourceAddressOrNonFungibleGlobalId => {
                HardResourceModel::NotResourceAddressOrNonFungibleGlobalId
            },
        }
    }
}

impl View for HardProofRuleResourceList {
    type V = HardListModel;

    open spec fn view(&self) -> HardListModel {
        match self {
            HardProofRuleResourceList::List(v) => HardListModel::List(
                v@.map_values(|h: HardResourceOrNonFungible| h@),
            ),
            HardProofRuleResourceList::InvalidPath => HardListModel::InvalidPath,
            HardProofRuleResourceList::NotResourceAddressOrNonFungibleGlobalIdArray => {
                HardListModel::NotResourceAddressOrNonFungibleGlobalIdArray
            },
        }
    }
}

impl View for HardProofRule {
    type V = HardProofRuleModel;

    open spec fn view(&self) -> HardProofRuleModel {
        match self {
            HardProofRule::Require(r) => HardProofRuleModel::Require(r@),
            HardProofRule::AmountOf(d, r) => HardProofRuleModel::AmountOf(*d, r@),
            HardProofRule::AllOf(l) => HardProofRuleModel::AllOf(l@),
            HardProofRule::AnyOf(l) => HardProofRuleModel::AnyOf(l@),
            HardProofRule::CountOf(c, l) => HardProofRuleModel::CountOf(*c, l@),
        }
    }
}

} // verus!
