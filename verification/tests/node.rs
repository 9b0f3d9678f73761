use radix_engine::address::{NodeId, PackageAddress};
use radix_engine::access_rule::AccessRule;
use radix_engine::collections::{AddressSet, NameMap};
use radix_engine::node::{
    AuthZoneStackSubstate, MetadataOffset, PackageOffset, RENodeInit, RENodeModuleInit,
    RoyaltyOffset, RuntimeSubstate, SubstateMap, SubstateOffset, TypeInfoOffset,
    AccessRulesOffset, AuthZoneStackOffset,
};
use radix_engine::substates::{
    ComponentRoyaltyAccumulatorSubstate, ComponentRoyaltyConfigSubstate,
    FunctionAccessRulesSubstate, MethodAccessRulesSubstate, PackageCodeSubstate,
    PackageCodeTypeSubstate, PackageEventSchemaSubstate, PackageInfoSubstate, PackageRoyaltySubstate,
    PackageSchema, RoyaltyAmount, RoyaltyConfig, TypeInfoSubstate,
};

fn node(last: u8) -> NodeId {
    let mut bytes = [0u8; 30];
    bytes[29] = last;
    NodeId(bytes)
}

fn type_info() -> TypeInfoSubstate {
    TypeInfoSubstate { package_address: PackageAddress(node(1)), blueprint_name: "Account".to_string(), global: true }
}

fn royalty_config() -> RoyaltyConfig {
    RoyaltyConfig { rules: NameMap::new(), default_rule: RoyaltyAmount::Free }
}

fn metadata_entry(key: u8) -> SubstateOffset {
    SubstateOffset::Metadata(MetadataOffset::Entry(vec![key]))
}

#[test]
fn type_info_module() {
    let map = RENodeModuleInit::TypeInfo(type_info()).to_substates();
    assert_eq!(map.entries().len(), 1);
    assert!(matches!(map.entries()[0].0, SubstateOffset::TypeInfo(TypeInfoOffset::TypeInfo)));
    assert!(matches!(&map.entries()[0].1, RuntimeSubstate::TypeInfo(t) if t.blueprint_name == "Account"));
}

#[test]
fn access_rules_module() {
    let map = RENodeModuleInit::MethodAccessRules(MethodAccessRulesSubstate { access_rules: NameMap::new() }).to_substates();
    assert_eq!(map.entries().len(), 1);
    assert!(matches!(map.entries()[0].0, SubstateOffset::AccessRules(AccessRulesOffset::AccessRules)));
    assert!(matches!(map.entries()[0].1, RuntimeSubstate::MethodAccessRules(_)));
}

#[test]
fn royalty_module() {
    let map = RENodeModuleInit::ComponentRoyalty(
        ComponentRoyaltyConfigSubstate { royalty_config: royalty_config() },
        ComponentRoyaltyAccumulatorSubstate { royalty_vault: None },
    )
    .to_substates();
    assert_eq!(map.entries().len(), 2);
    assert!(matches!(map.entries()[0].0, SubstateOffset::Royalty(RoyaltyOffset::RoyaltyConfig)));
    assert!(matches!(map.entries()[1].0, SubstateOffset::Royalty(RoyaltyOffset::RoyaltyAccumulator)));
    assert!(matches!(map.entries()[1].1, RuntimeSubstate::ComponentRoyaltyAccumulator(_)));
}

#[test]
fn metadata_module_keeps_its_entries() {
    let mut metadata = SubstateMap::new();
    metadata.insert(metadata_entry(1), RuntimeSubstate::MetadataEntry(None));
    metadata.insert(metadata_entry(2), RuntimeSubstate::MetadataEntry(None));
    let map = RENodeModuleInit::Metadata(metadata).to_substates();
    assert_eq!(map.entries().len(), 2);
    assert!(matches!(&map.entries()[1].0, SubstateOffset::Metadata(MetadataOffset::Entry(k)) if *k == vec![2]));
}

#[test]
fn package_node_has_six_substates() {
    let init = RENodeInit::PackageObject(
        PackageInfoSubstate {
            schema: PackageSchema { blueprints: NameMap::new() },
            dependent_resources: AddressSet::new(),
            dependent_components: AddressSet::new(),
        },
        PackageCodeTypeSubstate::Wasm,
        PackageCodeSubstate { code: vec![0, 97, 115, 109] },
        PackageRoyaltySubstate { blueprint_royalty_configs: NameMap::new(), royalty_vault: None },
        FunctionAccessRulesSubstate { access_rules: NameMap::new(), default_auth: AccessRule::DenyAll },
        PackageEventSchemaSubstate { event_schemas: NameMap::new() },
    );
    let map = init.to_substates();
    assert_eq!(map.entries().len(), 6);
    let offsets: Vec<bool> = vec![
        matches!(map.entries()[0].0, SubstateOffset::Package(PackageOffset::Info)),
        matches!(map.entries()[1].0, SubstateOffset::Package(PackageOffset::CodeType)),
        matches!(map.entries()[2].0, SubstateOffset::Package(PackageOffset::Code)),
        matches!(map.entries()[3].0, SubstateOffset::Package(PackageOffset::Royalty)),
        matches!(map.entries()[4].0, SubstateOffset::Package(PackageOffset::FunctionAccessRules)),
        matches!(map.entries()[5].0, SubstateOffset::Package(PackageOffset::EventSchema)),
    ];
    assert!(offsets.iter().all(|b| *b));
    assert!(matches!(&map.entries()[2].1, RuntimeSubstate::PackageCode(c) if c.code() == [0, 97, 115, 109]));
}

#[test]
fn stores_have_no_substates() {
    assert!(RENodeInit::KeyValueStore.to_substates().entries().is_empty());
    assert!(RENodeInit::NonFungibleStore.to_substates().entries().is_empty());
}

#[test]
fn object_nodes_keep_their_substates() {
    let mut object = SubstateMap::new();
    object.insert(metadata_entry(5), RuntimeSubstate::MetadataEntry(None));
    assert_eq!(RENodeInit::Object(object).to_substates().entries().len(), 1);
    let mut global = SubstateMap::new();
    global.insert(metadata_entry(6), RuntimeSubstate::MetadataEntry(None));
    global.insert(metadata_entry(7), RuntimeSubstate::MetadataEntry(None));
    assert_eq!(RENodeInit::GlobalObject(global).to_substates().entries().len(), 2);
}

#[test]
fn auth_zone_stack_node() {
    let map = RENodeInit::AuthZoneStack(AuthZoneStackSubstate { auth_zones: vec![vec![node(3)]] }).to_substates();
    assert_eq!(map.entries().len(), 1);
    assert!(matches!(map.entries()[0].0, SubstateOffset::AuthZoneStack(AuthZoneStackOffset::AuthZoneStack)));
}

#[test]
fn extend_replaces_the_entry_of_an_offset_already_set() {
    let mut a = SubstateMap::new();
    a.insert(metadata_entry(1), RuntimeSubstate::MetadataEntry(None));
    a.insert(metadata_entry(2), RuntimeSubstate::MetadataEntry(None));
    let mut b = SubstateMap::new();
    b.insert(metadata_entry(1), RuntimeSubstate::TypeInfo(type_info()));
    b.insert(metadata_entry(3), RuntimeSubstate::MetadataEntry(None));
    a.extend(b);
    assert_eq!(a.len(), 3);
    assert!(matches!(a.entries()[0].1, RuntimeSubstate::TypeInfo(_)));
    assert!(matches!(&a.entries()[1].0, SubstateOffset::Metadata(MetadataOffset::Entry(k)) if *k == vec![2]));
    assert!(matches!(&a.entries()[2].0, SubstateOffset::Metadata(MetadataOffset::Entry(k)) if *k == vec![3]));
}

#[test]
fn insert_replaces_the_entry_of_an_offset_already_set() {
    let mut map = SubstateMap::new();
    map.insert(SubstateOffset::TypeInfo(TypeInfoOffset::TypeInfo), RuntimeSubstate::MetadataEntry(None));
    map.insert(metadata_entry(4), RuntimeSubstate::MetadataEntry(None));
    map.insert(SubstateOffset::TypeInfo(TypeInfoOffset::TypeInfo), RuntimeSubstate::TypeInfo(type_info()));
    assert_eq!(map.len(), 2);
    assert!(matches!(&map.entries()[0].1, RuntimeSubstate::TypeInfo(t) if t.blueprint_name == "Account"));
    map.insert(metadata_entry(4), RuntimeSubstate::TypeInfo(type_info()));
    assert_eq!(map.len(), 2);
    assert!(matches!(map.entries()[1].1, RuntimeSubstate::TypeInfo(_)));
}

#[test]
fn offsets_compare_by_key_bytes() {
    assert!(metadata_entry(9).same_as(&metadata_entry(9)));
    assert!(!metadata_entry(9).same_as(&metadata_entry(8)));
    assert!(!SubstateOffset::Metadata(MetadataOffset::Entry(vec![1, 2])).same_as(&metadata_entry(1)));
    assert!(!SubstateOffset::TypeInfo(TypeInfoOffset::TypeInfo).same_as(&SubstateOffset::AccessRules(AccessRulesOffset::AccessRules)));
    assert!(SubstateOffset::Royalty(RoyaltyOffset::RoyaltyConfig).same_as(&SubstateOffset::Royalty(RoyaltyOffset::RoyaltyConfig)));
}
