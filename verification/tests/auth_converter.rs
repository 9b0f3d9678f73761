use radix_engine::access_rule::{
    AccessRule, AccessRuleNode, HardAuthRule, HardCount, HardDecimal, HardProofRule,
    HardProofRuleResourceList, HardResourceOrNonFungible, MethodAuthorization, ProofRule,
    SoftCount, SoftDecimal, SoftResource, SoftResourceOrNonFungible,
    SoftResourceOrNonFungibleList,
};
use radix_engine::address::{NodeId, NonFungibleLocalId, ResourceAddress};
use radix_engine::auth_converter::{convert, convert_contextless};
use radix_engine::decimal::Decimal;
use radix_engine::scrypto_value::{
    IndexedScryptoValue, LocalTypeIndex, SchemaPath, SchemaSubPath, ScryptoSchema, ScryptoValue,
    TypeKind, TypeMetadata,
};

fn node(entity: u8, last: u8) -> NodeId {
    let mut bytes = [0u8; 30];
    bytes[0] = entity;
    bytes[29] = last;
    NodeId(bytes)
}

/// A schema with one struct { amount: Decimal, count: u8, resource: Reference,
/// badges: Vec<Reference>, ids: Vec<(Reference, LocalId)> } at index 0 and an
/// array type at index 1.
fn schema() -> ScryptoSchema {
    ScryptoSchema {
        type_kinds: vec![
            TypeKind::Tuple(vec![
                LocalTypeIndex::WellKnown(1),
                LocalTypeIndex::WellKnown(2),
                LocalTypeIndex::WellKnown(3),
                LocalTypeIndex::SchemaLocalIndex(1),
                LocalTypeIndex::SchemaLocalIndex(1),
            ]),
            TypeKind::Array(LocalTypeIndex::WellKnown(3)),
        ],
        type_metadata: vec![
            TypeMetadata {
                field_names: Some(vec![
                    "amount".to_string(),
                    "count".to_string(),
                    "resource".to_string(),
                    "badges".to_string(),
                    "ids".to_string(),
                ]),
            },
            TypeMetadata { field_names: None },
        ],
    }
}

fn value() -> IndexedScryptoValue {
    IndexedScryptoValue {
        value: ScryptoValue::Tuple(vec![
            ScryptoValue::Decimal(Decimal::from_attos(42)),
            ScryptoValue::U8(3),
            ScryptoValue::Reference(node(93, 5)),
            ScryptoValue::Array(vec![
                ScryptoValue::Reference(node(93, 6)),
                ScryptoValue::Reference(node(154, 7)),
            ]),
            ScryptoValue::Array(vec![ScryptoValue::Tuple(vec![
                ScryptoValue::Reference(node(154, 8)),
                ScryptoValue::NonFungibleLocalId(NonFungibleLocalId::Integer(11)),
            ])]),
        ]),
    }
}

fn field(name: &str) -> SchemaPath {
    SchemaPath(vec![SchemaSubPath::Field(name.to_string())])
}

fn root() -> LocalTypeIndex {
    LocalTypeIndex::SchemaLocalIndex(0)
}

fn protected(rule: ProofRule) -> AccessRule {
    AccessRule::Protected(AccessRuleNode::ProofRule(rule))
}

fn proof_rule_of(auth: &MethodAuthorization) -> &HardProofRule {
    match auth {
        MethodAuthorization::Protected(HardAuthRule::ProofRule(r)) => r,
        _ => panic!("expected a protected proof rule"),
    }
}

#[test]
fn allow_and_deny_all_convert_to_themselves() {
    assert!(matches!(convert(&schema(), root(), &value(), &AccessRule::AllowAll), MethodAuthorization::AllowAll));
    assert!(matches!(convert(&schema(), root(), &value(), &AccessRule::DenyAll), MethodAuthorization::DenyAll));
    assert!(matches!(convert_contextless(&AccessRule::DenyAll), MethodAuthorization::DenyAll));
}

#[test]
fn dynamic_amount_and_resource_are_read_from_the_value() {
    let rule = protected(ProofRule::AmountOf(
        SoftDecimal::Dynamic(field("amount")),
        SoftResource::Dynamic(field("resource")),
    ));
    let auth = convert(&schema(), root(), &value(), &rule);
    match proof_rule_of(&auth) {
        HardProofRule::AmountOf(HardDecimal::Amount(d), HardResourceOrNonFungible::Resource(a)) => {
            assert_eq!(*d, Decimal::from_attos(42));
            assert!(a.same_as(&ResourceAddress(node(93, 5))));
        }
        _ => panic!("unexpected resolution"),
    }
}

#[test]
fn wrong_kinds_of_values() {
    let rule = protected(ProofRule::AmountOf(
        SoftDecimal::Dynamic(field("count")),
        SoftResource::Dynamic(field("amount")),
    ));
    let auth = convert(&schema(), root(), &value(), &rule);
    assert!(matches!(
        proof_rule_of(&auth),
        HardProofRule::AmountOf(HardDecimal::NotDecimal, HardResourceOrNonFungible::NotResourceAddress)
    ));
}

#[test]
fn invalid_paths() {
    let rule = protected(ProofRule::CountOf(
        SoftCount::Dynamic(field("missing")),
        SoftResourceOrNonFungibleList::Dynamic(SchemaPath(vec![SchemaSubPath::Index(0)])),
    ));
    let auth = convert(&schema(), root(), &value(), &rule);
    assert!(matches!(
        proof_rule_of(&auth),
        HardProofRule::CountOf(HardCount::InvalidPath, HardProofRuleResourceList::InvalidPath)
    ));
}

#[test]
fn dynamic_count_and_lists() {
    let rule = protected(ProofRule::CountOf(
        SoftCount::Dynamic(field("count")),
        SoftResourceOrNonFungibleList::Dynamic(field("badges")),
    ));
    let auth = convert(&schema(), root(), &value(), &rule);
    match proof_rule_of(&auth) {
        HardProofRule::CountOf(HardCount::Count(3), HardProofRuleResourceList::List(list)) => {
            assert_eq!(list.len(), 2);
            assert!(matches!(&list[0], HardResourceOrNonFungible::Resource(a) if a.same_as(&ResourceAddress(node(93, 6)))));
            assert!(matches!(&list[1], HardResourceOrNonFungible::Resource(a) if a.same_as(&ResourceAddress(node(154, 7)))));
        }
        _ => panic!("unexpected resolution"),
    }
    let rule = protected(ProofRule::AnyOf(SoftResourceOrNonFungibleList::Dynamic(field("ids"))));
    let auth = convert(&schema(), root(), &value(), &rule);
    match proof_rule_of(&auth) {
        HardProofRule::AnyOf(HardProofRuleResourceList::List(list)) => {
            assert_eq!(list.len(), 1);
            assert!(matches!(&list[0], HardResourceOrNonFungible::NonFungible(g)
                if g.resource_address.same_as(&ResourceAddress(node(154, 8)))
                    && matches!(g.local_id, NonFungibleLocalId::Integer(11))));
        }
        _ => panic!("unexpected resolution"),
    }
    let rule = protected(ProofRule::AllOf(SoftResourceOrNonFungibleList::Dynamic(field("count"))));
    let auth = convert(&schema(), root(), &value(), &rule);
    assert!(matches!(
        proof_rule_of(&auth),
        HardProofRule::AllOf(HardProofRuleResourceList::NotResourceAddressOrNonFungibleGlobalIdArray)
    ));
}

#[test]
fn indexed_path_into_array() {
    let path = SchemaPath(vec![SchemaSubPath::Field("ids".to_string()), SchemaSubPath::Index(0)]);
    let rule = protected(ProofRule::Require(SoftResourceOrNonFungible::Dynamic(path)));
    let auth = convert(&schema(), root(), &value(), &rule);
    assert!(matches!(proof_rule_of(&auth), HardProofRule::Require(HardResourceOrNonFungible::NonFungible(_))));
    let path = SchemaPath(vec![SchemaSubPath::Field("badges".to_string()), SchemaSubPath::Index(1)]);
    let rule = protected(ProofRule::Require(SoftResourceOrNonFungible::Dynamic(path)));
    let auth = convert(&schema(), root(), &value(), &rule);
    assert!(matches!(proof_rule_of(&auth), HardProofRule::Require(HardResourceOrNonFungible::Resource(_))));
}

#[test]
fn value_that_is_neither_address_nor_id() {
    let rule = protected(ProofRule::Require(SoftResourceOrNonFungible::Dynamic(field("count"))));
    let auth = convert(&schema(), root(), &value(), &rule);
    assert!(matches!(proof_rule_of(&auth), HardProofRule::Require(HardResourceOrNonFungible::NotResourceAddressOrNonFungibleGlobalId)));
}

#[test]
fn static_rules_keep_their_resources() {
    let rule = AccessRule::Protected(AccessRuleNode::AnyOf(vec![
        AccessRuleNode::ProofRule(ProofRule::Require(SoftResourceOrNonFungible::StaticResource(ResourceAddress(node(93, 1))))),
        AccessRuleNode::AllOf(vec![AccessRuleNode::ProofRule(ProofRule::AmountOf(
            SoftDecimal::Static(Decimal::from_attos(9)),
            SoftResource::Static(ResourceAddress(node(93, 2))),
        ))]),
    ]));
    let auth = convert(&schema(), root(), &value(), &rule);
    match &auth {
        MethodAuthorization::Protected(HardAuthRule::AnyOf(children)) => {
            assert_eq!(children.len(), 2);
            assert!(matches!(&children[0], HardAuthRule::ProofRule(HardProofRule::Require(HardResourceOrNonFungible::Resource(a))) if a.same_as(&ResourceAddress(node(93, 1)))));
            match &children[1] {
                HardAuthRule::AllOf(inner) => {
                    assert_eq!(inner.len(), 1);
                    assert!(matches!(&inner[0], HardAuthRule::ProofRule(HardProofRule::AmountOf(HardDecimal::Amount(d), HardResourceOrNonFungible::Resource(_))) if *d == Decimal::from_attos(9)));
                }
                _ => panic!("expected all-of"),
            }
        }
        _ => panic!("expected any-of"),
    }
    // the same static rule resolves alike on its own
    let contextless = convert_contextless(&rule);
    match &contextless {
        MethodAuthorization::Protected(HardAuthRule::AnyOf(children)) => assert_eq!(children.len(), 2),
        _ => panic!("expected any-of"),
    }
}

#[test]
fn contextless_paths() {
    let rule = protected(ProofRule::AmountOf(
        SoftDecimal::Dynamic(SchemaPath(Vec::new())),
        SoftResource::Dynamic(field("amount")),
    ));
    let auth = convert_contextless(&rule);
    assert!(matches!(
        proof_rule_of(&auth),
        HardProofRule::AmountOf(HardDecimal::NotDecimal, HardResourceOrNonFungible::InvalidPath)
    ));
    let rule = protected(ProofRule::AllOf(SoftResourceOrNonFungibleList::Static(vec![
        SoftResourceOrNonFungible::Dynamic(field("resource")),
    ])));
    let auth = convert_contextless(&rule);
    match proof_rule_of(&auth) {
        HardProofRule::AllOf(HardProofRuleResourceList::List(list)) => {
            assert!(matches!(list[0], HardResourceOrNonFungible::InvalidPath))
        }
        _ => panic!("unexpected resolution"),
    }
}
