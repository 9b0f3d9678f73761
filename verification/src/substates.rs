//! The substates of packages and components: code, package information,
//! royalty configuration and royalty vaults, and the type information and
//! access rules of nodes.
use vstd::prelude::*;
use crate::address::{PackageAddress, ResourceAddress, ComponentAddress, Own};
use crate::decimal::Decimal;
use crate::access_rule::AccessRule;
use crate::scrypto_value::{ScryptoSchema, LocalTypeIndex};
use crate::collections::{AddressSet, NameMap};

verus! {

/// The code of a package: a collection of blueprints, compiled and
/// published as a single unit.
#[derive(Clone, PartialEq, Eq, Debug)]
pub struct PackageCodeSubstate {
    pub code: Vec<u8>,
}

impl PackageCodeSubstate {
    /// The package's code.
    pub fn code(&self) -> (r: &[u8])
        ensures
            r@ == self.code@,
    {
        self.code.as_slice()
    }
}

/// The schemas of a package's blueprints, by blueprint name.
#[derive(Clone, Debug)]
pub struct PackageSchema {
    pub blueprints: NameMap<ScryptoSchema>,
}

/// What is known of a package: its schema, and the resources and
/// components it depends on.
#[derive(Clone, Debug)]
pub struct PackageInfoSubstate {
    pub schema: PackageSchema,
    pub dependent_resources: AddressSet<ResourceAddress>,
    pub dependent_components: AddressSet<ComponentAddress>,
}

/// The royalty charged for a call.
#[derive(Clone, Copy, Debug)]
pub enum RoyaltyAmount {
    Free,
    Xrd(Decimal),
    Usd(Decimal),
}

/// The royalty of each method, by method name, and of all others.
#[derive(Clone, Debug)]
pub struct RoyaltyConfig {
    pub rules: NameMap<RoyaltyAmount>,
    pub default_rule: RoyaltyAmount,
}

/// The royalty configuration of each blueprint of a package, by blueprint
/// name.
#[derive(Clone, Debug)]
pub struct PackageRoyaltyConfigSubstate {
    pub royalty_config: NameMap<RoyaltyConfig>,
}

/// The vault that collects a package's royalties.
#[derive(Clone, Copy, Debug)]
pub struct PackageRoyaltyAccumulatorSubstate {
    /// The vault for collecting package royalties.
    ///
    /// It's optional to break circular dependency - creating package royalty vaults
    /// requires the `resource` package existing in the first place.
    pub royalty_vault: Option<Own>,
}

/// A package's royalty configuration and royalty vault.
#[derive(Clone, Debug)]
pub struct PackageRoyaltySubstate {
    pub blueprint_royalty_configs: NameMap<RoyaltyConfig>,
    pub royalty_vault: Option<Own>,
}

/// The kind of a package's code.
#[derive(Clone, Copy, Debug)]
pub enum PackageCodeTypeSubstate {
    Native,
    Wasm,
}

/// The access rule of each function of a package, by function name, and
/// of all others.
#[derive(Debug)]
pub struct FunctionAccessRulesSubstate {
    pub access_rules: NameMap<AccessRule>,
    pub default_auth: AccessRule,
}

/// The types of the events of each blueprint of a package, by blueprint
/// and event name.
#[derive(Clone, Debug)]
pub struct PackageEventSchemaSubstate {
    pub event_schemas: NameMap<NameMap<LocalTypeIndex>>,
}

/// The blueprint a node is an instance of.
#[derive(Clone, Debug)]
pub struct TypeInfoSubstate {
    pub package_address: PackageAddress,
    pub blueprint_name: String,
    pub global: bool,
}

/// The access rule of each method of a node, by method name.
#[derive(Debug)]
pub struct MethodAccessRulesSubstate {
    pub access_rules: NameMap<AccessRule>,
}

/// The royalty configuration of a component.
#[derive(Clone, Debug)]
pub struct ComponentRoyaltyConfigSubstate {
    pub royalty_config: RoyaltyConfig,
}

/// The vault that collects a component's royalties.
#[derive(Clone, Copy, Debug)]
pub struct ComponentRoyaltyAccumulatorSubstate {
    pub royalty_vault: Option<Own>,
}

} // verus!
