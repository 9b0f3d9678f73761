//! Resolution of access rules into method authorizations: every amount,
//! count and resource that a rule gives by a path into a value is read
//! from that value.
use vstd::prelude::*;
use crate::address::GlobalIdModel;
use crate::access_rule::{
    SoftDecimal, SoftCount, SoftResource, SoftResourceOrNonFungible,
    SoftResourceOrNonFungibleList, ProofRule, AccessRuleNode, AccessRule, HardDecimal, HardCount,
    HardResourceOrNonFungible, HardProofRuleResourceList, HardProofRule, HardAuthRule,
    MethodAuthorization, HardResourceModel, HardListModel, HardProofRuleModel,
};
use crate::scrypto_value::{
    ScryptoSchema, LocalTypeIndex, ScryptoValue, IndexedScryptoValue, SchemaPath, SchemaSubPath,
    PathResolution, spec_to_sbor_path,
    UNIT_TYPE_ID, resolve_path, resolve, decode_decimal, decode_u8, decode_resource_address,
    decode_global_id, decode_resource_address_array, decode_global_id_array, to_decimal, to_u8,
    to_resource_address, to_global_id, to_resource_address_array, to_global_id_array,
};

verus! {

/// The schema, root type and root value against which paths are resolved.
pub struct Context {
    pub schema: ScryptoSchema,
    pub type_index: LocalTypeIndex,
    pub root: ScryptoValue,
}

/// The path has a meaning in the schema only where the value has
/// something there.
pub open spec fn path_resolvable(cx: Context, path: SchemaPath) -> bool {
    !(resolve_path(cx.schema, cx.type_index, cx.root, path) is Missing)
}

pub open spec fn resource_or_non_fungible_resolvable(
    cx: Context,
    soft: SoftResourceOrNonFungible,
) -> bool {
    match soft {
        SoftResourceOrNonFungible::Dynamic(path) => path_resolvable(cx, path),
        _ => true,
    }
}

pub open spec fn resource_list_resolvable(cx: Context, list: SoftResourceOrNonFungibleList) -> bool {
    match list {
        SoftResourceOrNonFungibleList::Static(v) => forall|i: int|
            0 <= i < v@.len() ==> resource_or_non_fungible_resolvable(cx, #[trigger] v@[i]),
        SoftResourceOrNonFungibleList::Dynamic(path) => path_resolvable(cx, path),
    }
}

pub open spec fn proof_rule_resolvable(cx: Context, rule: ProofRule) -> bool {
    match rule {
        ProofRule::Require(r) => resource_or_non_fungible_resolvable(cx, r),
        ProofRule::AmountOf(d, r) => {
            &&& (d matches SoftDecimal::Dynamic(p) ==> path_resolvable(cx, p))
            &&& (r matches SoftResource::Dynamic(p) ==> path_resolvable(cx, p))
        },
        ProofRule::CountOf(c, l) => {
            &&& (c matches SoftCount::Dynamic(p) ==> path_resolvable(cx, p))
            &&& resource_list_resolvable(cx, l)
        },
        ProofRule::AllOf(l) => resource_list_resolvable(cx, l),
        ProofRule::AnyOf(l) => resource_list_resolvable(cx, l),
    }
}

/// Every path in the rule tree that the schema gives a meaning reaches a
/// part of the value.
pub open spec fn node_resolvable(cx: Context, node: AccessRuleNode) -> bool
    decreases node,
{
    match node {
        AccessRuleNode::ProofRule(p) => proof_rule_resolvable(cx, p),
        AccessRuleNode::AnyOf(rules) => forall|i: int|
            0 <= i < rules@.len() ==> node_resolvable(cx, #[trigger] rules@[i]),
        AccessRuleNode::AllOf(rules) => forall|i: int|
            0 <= i < rules@.len() ==> node_resolvable(cx, #[trigger] rules@[i]),
    }
}

pub open spec fn access_rule_resolvable(cx: Context, rule: AccessRule) -> bool {
    match rule {
        AccessRule::Protected(node) => node_resolvable(cx, node),
        _ => true,
    }
}

/// The resolved amount.
pub open spec fn spec_hard_decimal(cx: Context, soft: SoftDecimal) -> HardDecimal {
    match soft {
        SoftDecimal::Static(amount) => HardDecimal::Amount(amount),
        SoftDecimal::Dynamic(path) => match resolve_path(cx.schema, cx.type_index, cx.root, path) {
            PathResolution::Found(v) => match decode_decimal(v) {
                Some(amount) => HardDecimal::Amount(amount),
                None => HardDecimal::NotDecimal,
            },
            _ => HardDecimal::InvalidPath,
        },
    }
}

/// The resolved count.
pub open spec fn spec_hard_count(cx: Context, soft: SoftCount) -> HardCount {
    match soft {
        SoftCount::Static(n) => HardCount::Count(n),
        SoftCount::Dynamic(path) => match resolve_path(cx.schema, cx.type_index, cx.root, path) {
            PathResolution::Found(v) => match decode_u8(v) {
                Some(n) => HardCount::Count(n),
                None => HardCount::NotU8,
            },
            _ => HardCount::InvalidPath,
        },
    }
}

/// The resolved resource.
pub open spec fn spec_hard_resource(cx: Context, soft: SoftResource) -> HardResourceModel {
    match soft {
        SoftResource::Static(a) => HardResourceModel::Resource(a@),
        SoftResource::Dynamic(path) => match resolve_path(cx.schema, cx.type_index, cx.root, path) {
            PathResolution::Found(v) => match decode_resource_address(v) {
                Some(a) => HardResourceModel::Resource(a),
                None => HardResourceModel::NotResourceAddress,
            },
            _ => HardResourceModel::InvalidPath,
        },
    }
}

/// The resolved resource or non-fungible unit.
pub open spec fn spec_hard_resource_or_non_fungible(
    cx: Context,
    soft: SoftResourceOrNonFungible,
) -> HardResourceModel {
    match soft {
        SoftResourceOrNonFungible::StaticNonFungible(g) => HardResourceModel::NonFungible(g@),
        SoftResourceOrNonFungible::StaticResource(a) => HardResourceModel::Resource(a@),
        SoftResourceOrNonFungible::Dynamic(path) => match resolve_path(
            cx.schema,
            cx.type_index,
            cx.root,
            path,
        ) {
            PathResolution::Found(v) => match decode_resource_address(v) {
                Some(a) => HardResourceModel::Resource(a),
                None => match decode_global_id(v) {
                    Some(g) => HardResourceModel::NonFungible(g),
                    None => HardResourceModel::NotResourceAddressOrNonFungibleGlobalId,
                },
            },
            _ => HardResourceModel::InvalidPath,
        },
    }
}

/// The resolved list.
pub open spec fn spec_hard_resource_list(
    cx: Context,
    list: SoftResourceOrNonFungibleList,
) -> HardListModel {
    match list {
        SoftResourceOrNonFungibleList::Static(v) => HardListModel::List(
            v@.map_values(|s: SoftResourceOrNonFungible| spec_hard_resource_or_non_fungible(cx, s)),
        ),
        SoftResourceOrNonFungibleList::Dynamic(path) => match resolve_path(
            cx.schema,
            cx.type_index,
            cx.root,
            path,
        ) {
            PathResolution::Found(v) => match decode_resource_address_array(v) {
                Some(addresses) => HardListModel::List(
                    addresses.map_values(|a: Seq<u8>| HardResourceModel::Resource(a)),
                ),
                None => match decode_global_id_array(v) {
                    Some(ids) => HardListModel::List(
                        ids.map_values(|g: GlobalIdModel| HardResourceModel::NonFungible(g)),
                    ),
                    None => HardListModel::NotResourceAddressOrNonFungibleGlobalIdArray,
                },
            },
            _ => HardListModel::InvalidPath,
        },
    }
}

/// The resolved proof rule.
pub open spec fn spec_hard_proof_rule(cx: Context, rule: ProofRule) -> HardProofRuleModel {
    match rule {
        ProofRule::Require(r) => HardProofRuleModel::Require(
            spec_hard_resource_or_non_fungible(cx, r),
        ),
        ProofRule::AmountOf(d, r) => HardProofRuleModel::AmountOf(
            spec_hard_decimal(cx, d),
            spec_hard_resource(cx, r),
        ),
        ProofRule::AllOf(l) => HardProofRuleModel::AllOf(spec_hard_resource_list(cx, l)),
        ProofRule::AnyOf(l) => HardProofRuleModel::AnyOf(spec_hard_resource_list(cx, l)),
        ProofRule::CountOf(c, l) => HardProofRuleModel::CountOf(
            spec_hard_count(cx, c),
            spec_hard_resource_list(cx, l),
        ),
    }
}

/// `hard` is the rule tree `node` with every proof rule resolved: it has
/// the same shape, and each proof rule is resolved in place.
pub open spec fn is_resolved_node(cx: Context, node: AccessRuleNode, hard: HardAuthRule) -> bool
    decreases node,
{
    match node {
        AccessRuleNode::ProofRule(p) => match hard {
            HardAuthRule::ProofRule(h) => h@ == spec_hard_proof_rule(cx, p),
            _ => false,
        },
        AccessRuleNode::AnyOf(rules) => match hard {
            HardAuthRule::AnyOf(hs) => hs@.len() == rules@.len() && forall|i: int|
                0 <= i < rules@.len() ==> is_resolved_node(cx, #[trigger] rules@[i], hs@[i]),
            _ => false,
        },
        AccessRuleNode::AllOf(rules) => match hard {
            HardAuthRule::AllOf(hs) => hs@.len() == rules@.len() && forall|i: int|
                0 <= i < rules@.len() ==> is_resolved_node(cx, #[trigger] rules@[i], hs@[i]),
            _ => false,
        },
    }
}

/// `auth` is the access rule `rule` with every proof rule resolved.
pub open spec fn is_resolved_rule(cx: Context, rule: AccessRule, auth: MethodAuthorization) -> bool {
    match rule {
        AccessRule::AllowAll => auth is AllowAll,
        AccessRule::DenyAll => auth is DenyAll,
        AccessRule::Protected(node) => match auth {
            MethodAuthorization::Protected(hard) => is_resolved_node(cx, node, hard),
            _ => false,
        },
    }
}

pub open spec fn context_of(
    schema: ScryptoSchema,
    type_index: LocalTypeIndex,
    value: IndexedScryptoValue,
) -> Context {
    Context { schema, type_index, root: value.value }
}

/// An amount of a rule, read from the value where the rule names a path.
pub fn soft_to_hard_decimal(
    schema: &ScryptoSchema,
    type_index: LocalTypeIndex,
    soft_decimal: &SoftDecimal,
    value: &IndexedScryptoValue,
) -> (r: HardDecimal)
    requires
        *soft_decimal matches SoftDecimal::Dynamic(p) ==> path_resolvable(
            context_of(*schema, type_index, *value),
            p,
        ),
    ensures
        r == spec_hard_decimal(context_of(*schema, type_index, *value), *soft_decimal),
        *soft_decimal matches SoftDecimal::Static(d) ==> r == HardDecimal::Amount(d),
{
    match soft_decimal {
        SoftDecimal::Static(amount) => HardDecimal::Amount(*amount),
        SoftDecimal::Dynamic(schema_path) => {
            match resolve(schema, type_index, value.as_scrypto_value(), schema_path) {
                Some(v) => match to_decimal(v) {
                    Some(amount) => HardDecimal::Amount(amount),
                    None => HardDecimal::NotDecimal,
                },
                None => HardDecimal::InvalidPath,
            }
        },
    }
}

/// A count of a rule, read from the value where the rule names a path.
pub fn soft_to_hard_count(
    schema: &ScryptoSchema,
    type_index: LocalTypeIndex,
    soft_count: &SoftCount,
    value: &IndexedScryptoValue,
) -> (r: HardCount)
    requires
        *soft_count matches SoftCount::Dynamic(p) ==> path_resolvable(
            context_of(*schema, type_index, *value),
            p,
        ),
    ensures
        r == spec_hard_count(context_of(*schema, type_index, *value), *soft_count),
        *soft_count matches SoftCount::Static(n) ==> r == HardCount::Count(n),
{
    match soft_count {
        SoftCount::Static(count) => HardCount::Count(*count),
        SoftCount::Dynamic(schema_path) => {
            match resolve(schema, type_index, value.as_scrypto_value(), schema_path) {
                Some(v) => match to_u8(v) {
                    Some(n) => HardCount::Count(n),
                    None => HardCount::NotU8,
                },
                None => HardCount::InvalidPath,
            }
        },
    }
}

/// A list of resources of a rule: a static list resolved element by
/// element in order, or a list read from the value at a path.
pub fn soft_to_hard_resource_list(
    schema: &ScryptoSchema,
    type_index: LocalTypeIndex,
    list: &SoftResourceOrNonFungibleList,
    value: &IndexedScryptoValue,
) -> (r: HardProofRuleResourceList)
    requires
        resource_list_resolvable(context_of(*schema, type_index, *value), *list),
    ensures
        r@ == spec_hard_resource_list(context_of(*schema, type_index, *value), *list),
{
    let ghost cx = context_of(*schema, type_index, *value);
    match list {
        SoftResourceOrNonFungibleList::Static(resources) => {
            assert(forall|j: int|
                0 <= j < resources@.len() ==> resource_or_non_fungible_resolvable(
                    cx,
                    #[trigger] resources@[j],
                ));
            let mut hard_resources: Vec<HardResourceOrNonFungible> = Vec::new();
            let mut i: usize = 0;
            while i < resources.len()
                invariant
                    cx == context_of(*schema, type_index, *value),
                    forall|j: int|
                        0 <= j < resources@.len() ==> resource_or_non_fungible_resolvable(
                            cx,
                            #[trigger] resources@[j],
                        ),
                    i <= resources@.len(),
                    hard_resources@.len() == i,
                    forall|j: int|
                        0 <= j < i ==> (#[trigger] hard_resources@[j])@
                            == spec_hard_resource_or_non_fungible(cx, resources@[j]),
                decreases resources@.len() - i,
            {
                let resource = soft_to_hard_resource_or_non_fungible(
                    schema,
                    type_index,
                    &resources[i],
                    value,
                );
                hard_resources.push(resource);
                i = i + 1;
            }
            assert(hard_resources@.map_values(|h: HardResourceOrNonFungible| h@)
                =~= resources@.map_values(
                |s: SoftResourceOrNonFungible| spec_hard_resource_or_non_fungible(cx, s),
            ));
            HardProofRuleResourceList::List(hard_resources)
        },
        SoftResourceOrNonFungibleList::Dynamic(schema_path) => {
            match resolve(schema, type_index, value.as_scrypto_value(), schema_path) {
                Some(v) => {
                    if let Some(addresses) = to_resource_address_array(v) {
                        let hard = resources_of(addresses);
                        HardProofRuleResourceList::List(hard)
                    } else if let Some(ids) = to_global_id_array(v) {
                        let hard = non_fungibles_of(ids);
                        HardProofRuleResourceList::List(hard)
                    } else {
                        HardProofRuleResourceList::NotResourceAddressOrNonFungibleGlobalIdArray
                    }
                },
                None => HardProofRuleResourceList::InvalidPath,
            }
        },
    }
}

fn resources_of(addresses: Vec<crate::address::ResourceAddress>) -> (r: Vec<
    HardResourceOrNonFungible,
>)
    ensures
        r@.map_values(|h: HardResourceOrNonFungible| h@) == addresses@.map_values(
            |a: crate::address::ResourceAddress| a@,
        ).map_values(|a: Seq<u8>| HardResourceModel::Resource(a)),
{
    let mut out: Vec<HardResourceOrNonFungible> = Vec::new();
    let mut i: usize = 0;
    while i < addresses.len()
        invariant
            i <= addresses@.len(),
            out@.len() == i,
            forall|j: int|
                0 <= j < i ==> (#[trigger] out@[j])@ == HardResourceModel::Resource(
                    addresses@[j]@,
                ),
        decreases addresses@.len() - i,
    {
        out.push(HardResourceOrNonFungible::Resource(addresses[i]));
        i = i + 1;
    }
    assert(out@.map_values(|h: HardResourceOrNonFungible| h@) =~= addresses@.map_values(
        |a: crate::address::ResourceAddress| a@,
    ).map_values(|a: Seq<u8>| HardResourceModel::Resource(a)));
    out
}

fn non_fungibles_of(ids: Vec<crate::address::NonFungibleGlobalId>) -> (r: Vec<
    HardResourceOrNonFungible,
>)
    ensures
        r@.map_values(|h: HardResourceOrNonFungible| h@) == ids@.map_values(
            |g: crate::address::NonFungibleGlobalId| g@,
        ).map_values(|g: GlobalIdModel| HardResourceModel::NonFungible(g)),
{
    let mut out: Vec<HardResourceOrNonFungible> = Vec::new();
    let mut i: usize = 0;
    while i < ids.len()
        invariant
            i <= ids@.len(),
            out@.len() == i,
            forall|j: int|
                0 <= j < i ==> (#[trigger] out@[j])@ == HardResourceModel::NonFungible(ids@[j]@),
        decreases ids@.len() - i,
    {
        out.push(HardResourceOrNonFungible::NonFungible(ids[i].duplicate()));
        i = i + 1;
    }
    assert(out@.map_values(|h: HardResourceOrNonFungible| h@) =~= ids@.map_values(
        |g: crate::address::NonFungibleGlobalId| g@,
    ).map_values(|g: GlobalIdModel| HardResourceModel::NonFungible(g)));
    out
}

/// A resource of a rule, read from the value where the rule names a path.
pub fn soft_to_hard_resource(
    schema: &ScryptoSchema,
    type_index: LocalTypeIndex,
    soft_resource: &SoftResource,
    value: &IndexedScryptoValue,
) -> (r: HardResourceOrNonFungible)
    requires
        *soft_resource matches SoftResource::Dynamic(p) ==> path_resolvable(
            context_of(*schema, type_index, *value),
            p,
        ),
    ensures
        r@ == spec_hard_resource(context_of(*schema, type_index, *value), *soft_resource),
        *soft_resource matches SoftResource::Static(a) ==> r@ == HardResourceModel::Resource(a@),
{
    match soft_resource {
        SoftResource::Dynamic(schema_path) => {
            match resolve(schema, type_index, value.as_scrypto_value(), schema_path) {
                Some(v) => match to_resource_address(v) {
                    Some(address) => HardResourceOrNonFungible::Resource(address),
                    None => HardResourceOrNonFungible::NotResourceAddress,
                },
                None => HardResourceOrNonFungible::InvalidPath,
            }
        },
        SoftResource::Static(resource) => HardResourceOrNonFungible::Resource(*resource),
    }
}

/// A resource or non-fungible of a rule, read from the value where the
/// rule names a path.
pub fn soft_to_hard_resource_or_non_fungible(
    schema: &ScryptoSchema,
    type_index: LocalTypeIndex,
    soft_resource_or_non_fungible: &SoftResourceOrNonFungible,
    value: &IndexedScryptoValue,
) -> (r: HardResourceOrNonFungible)
    requires
        resource_or_non_fungible_resolvable(
            context_of(*schema, type_index, *value),
            *soft_resource_or_non_fungible,
        ),
    ensures
        r@ == spec_hard_resource_or_non_fungible(
            context_of(*schema, type_index, *value),
            *soft_resource_or_non_fungible,
        ),
        *soft_resource_or_non_fungible matches SoftResourceOrNonFungible::StaticResource(a)
            ==> r@ == HardResourceModel::Resource(a@),
        *soft_resource_or_non_fungible matches SoftResourceOrNonFungible::StaticNonFungible(g)
            ==> r@ == HardResourceModel::NonFungible(
            GlobalIdModel { resource: g.resource_address@, local_id: g.local_id@ },
        ),
{
    match soft_resource_or_non_fungible {
        SoftResourceOrNonFungible::Dynamic(schema_path) => {
            match resolve(schema, type_index, value.as_scrypto_value(), schema_path) {
                Some(v) => {
                    if let Some(address) = to_resource_address(v) {
                        HardResourceOrNonFungible::Resource(address)
                    } else if let Some(non_fungible) = to_global_id(v) {
                        HardResourceOrNonFungible::NonFungible(non_fungible)
                    } else {
                        HardResourceOrNonFungible::NotResourceAddressOrNonFungibleGlobalId
                    }
                },
                None => HardResourceOrNonFungible::InvalidPath,
            }
        },
        SoftResourceOrNonFungible::StaticNonFungible(non_fungible_global_id) => {
            HardResourceOrNonFungible::NonFungible(non_fungible_global_id.duplicate())
        },
        SoftResourceOrNonFungible::StaticResource(resource_def_id) => {
            HardResourceOrNonFungible::Resource(*resource_def_id)
        },
    }
}

/// A proof rule with each of its parts resolved against the value.
pub fn soft_to_hard_proof_rule(
    schema: &ScryptoSchema,
    type_index: LocalTypeIndex,
    proof_rule: &ProofRule,
    value: &IndexedScryptoValue,
) -> (r: HardProofRule)
    requires
        proof_rule_resolvable(context_of(*schema, type_index, *value), *proof_rule),
    ensures
        r@ == spec_hard_proof_rule(context_of(*schema, type_index, *value), *proof_rule),
{
    match proof_rule {
        ProofRule::Require(resource_or_non_fungible) => {
            let resource = soft_to_hard_resource_or_non_fungible(
                schema,
                type_index,
                resource_or_non_fungible,
                value,
            );
            HardProofRule::Require(resource)
        },
        ProofRule::AmountOf(soft_decimal, resource) => {
            let resource = soft_to_hard_resource(schema, type_index, resource, value);
            let hard_decimal = soft_to_hard_decimal(schema, type_index, soft_decimal, value);
            HardProofRule::AmountOf(hard_decimal, resource)
        },
        ProofRule::AllOf(resources) => {
            let hard_resources = soft_to_hard_resource_list(schema, type_index, resources, value);
            HardProofRule::AllOf(hard_resources)
        },
        ProofRule::AnyOf(resources) => {
            let hard_resources = soft_to_hard_resource_list(schema, type_index, resources, value);
            HardProofRule::AnyOf(hard_resources)
        },
        ProofRule::CountOf(soft_count, resources) => {
            let hard_count = soft_to_hard_count(schema, type_index, soft_count, value);
            let hard_resources = soft_to_hard_resource_list(schema, type_index, resources, value);
            HardProofRule::CountOf(hard_count, hard_resources)
        },
    }
}

/// An access rule node resolved against the value: the same shape, with
/// each proof rule in it resolved.
pub fn soft_to_hard_auth_rule(
    schema: &ScryptoSchema,
    type_index: LocalTypeIndex,
    auth_rule: &AccessRuleNode,
    value: &IndexedScryptoValue,
) -> (r: HardAuthRule)
    requires
        node_resolvable(context_of(*schema, type_index, *value), *auth_rule),
    ensures
        is_resolved_node(context_of(*schema, type_index, *value), *auth_rule, r),
    decreases auth_rule,
{
    match auth_rule {
        AccessRuleNode::ProofRule(proof_rule) => HardAuthRule::ProofRule(
            soft_to_hard_proof_rule(schema, type_index, proof_rule, value),
        ),
        AccessRuleNode::AnyOf(rules) => {
            let hard_rules = soft_to_hard_auth_rules(schema, type_index, auth_rule, rules, value);
            HardAuthRule::AnyOf(hard_rules)
        },
        AccessRuleNode::AllOf(rules) => {
            let hard_rules = soft_to_hard_auth_rules(schema, type_index, auth_rule, rules, value);
            HardAuthRule::AllOf(hard_rules)
        },
    }
}

/// Each rule of `rules`, the children of `parent`, resolved in turn.
fn soft_to_hard_auth_rules(
    schema: &ScryptoSchema,
    type_index: LocalTypeIndex,
    parent: &AccessRuleNode,
    rules: &Vec<AccessRuleNode>,
    value: &IndexedScryptoValue,
) -> (r: Vec<HardAuthRule>)
    requires
        *parent == AccessRuleNode::AnyOf(*rules) || *parent == AccessRuleNode::AllOf(*rules),
        forall|i: int|
            0 <= i < rules@.len() ==> node_resolvable(
                context_of(*schema, type_index, *value),
                #[trigger] rules@[i],
            ),
    ensures
        r@.len() == rules@.len(),
        forall|i: int|
            0 <= i < rules@.len() ==> is_resolved_node(
                context_of(*schema, type_index, *value),
                #[trigger] rules@[i],
                r@[i],
            ),
    decreases parent, 0nat,
{
    let ghost cx = context_of(*schema, type_index, *value);
    let mut hard_rules: Vec<HardAuthRule> = Vec::new();
    let mut i: usize = 0;
    while i < rules.len()
        invariant
            cx == context_of(*schema, type_index, *value),
            *parent == AccessRuleNode::AnyOf(*rules) || *parent == AccessRuleNode::AllOf(*rules),
            forall|j: int| 0 <= j < rules@.len() ==> node_resolvable(cx, #[trigger] rules@[j]),
            i <= rules@.len(),
            hard_rules@.len() == i,
            forall|j: int| 0 <= j < i ==> is_resolved_node(cx, #[trigger] rules@[j], hard_rules@[j]),
        decreases rules@.len() - i,
    {
        proof {
            vstd::std_specs::vec::axiom_vec_index_decreases(*rules, i as int);
            if *parent is AnyOf {
                assert(decreases_to!(*parent => parent->AnyOf_0));
            } else {
                assert(decreases_to!(*parent => parent->AllOf_0));
            }
            assert(decreases_to!(*parent => rules@[i as int]));
        }
        let hard = soft_to_hard_auth_rule(schema, type_index, &rules[i], value);
        hard_rules.push(hard);
        i = i + 1;
    }
    hard_rules
}

/// Converts an access rule into a method authorization, reading each
/// amount, count and resource that the rule gives by a path from `value`,
/// a value of type `type_index` of `schema`.
///
/// The value is assumed to match the schema: every path that the schema
/// gives a meaning reaches a part of the value.
pub fn convert(
    schema: &ScryptoSchema,
    type_index: LocalTypeIndex,
    value: &IndexedScryptoValue,
    method_auth: &AccessRule,
) -> (r: MethodAuthorization)
    requires
        access_rule_resolvable(context_of(*schema, type_index, *value), *method_auth),
    ensures
        is_resolved_rule(context_of(*schema, type_index, *value), *method_auth, r),
{
    match method_auth {
        AccessRule::Protected(auth_rule) => MethodAuthorization::Protected(
            soft_to_hard_auth_rule(schema, type_index, auth_rule, value),
        ),
        AccessRule::AllowAll => MethodAuthorization::AllowAll,
        AccessRule::DenyAll => MethodAuthorization::DenyAll,
    }
}

/// The context in which a rule is resolved on its own: a schema without
/// types, the well-known unit type and the unit value.
pub open spec fn is_contextless(cx: Context) -> bool {
    &&& cx.schema.type_kinds@.len() == 0
    &&& cx.schema.type_metadata@.len() == 0
    &&& cx.type_index == LocalTypeIndex::WellKnown(UNIT_TYPE_ID)
    &&& cx.root matches ScryptoValue::Tuple(fields) && fields@.len() == 0
}

/// The rule gives every amount, count and resource directly.
pub open spec fn is_static_resource_or_non_fungible(soft: SoftResourceOrNonFungible) -> bool {
    !(soft is Dynamic)
}

pub open spec fn is_static_list(list: SoftResourceOrNonFungibleList) -> bool {
    match list {
        SoftResourceOrNonFungibleList::Static(v) => forall|i: int|
            0 <= i < v@.len() ==> is_static_resource_or_non_fungible(#[trigger] v@[i]),
        SoftResourceOrNonFungibleList::Dynamic(_) => false,
    }
}

pub open spec fn is_static_proof_rule(rule: ProofRule) -> bool {
    match rule {
        ProofRule::Require(r) => is_static_resource_or_non_fungible(r),
        ProofRule::AmountOf(d, r) => !(d is Dynamic) && !(r is Dynamic),
        ProofRule::CountOf(c, l) => !(c is Dynamic) && is_static_list(l),
        ProofRule::AllOf(l) => is_static_list(l),
        ProofRule::AnyOf(l) => is_static_list(l),
    }
}

pub open spec fn is_static_node(node: AccessRuleNode) -> bool
    decreases node,
{
    match node {
        AccessRuleNode::ProofRule(p) => is_static_proof_rule(p),
        AccessRuleNode::AnyOf(rules) => forall|i: int|
            0 <= i < rules@.len() ==> is_static_node(#[trigger] rules@[i]),
        AccessRuleNode::AllOf(rules) => forall|i: int|
            0 <= i < rules@.len() ==> is_static_node(#[trigger] rules@[i]),
    }
}

/// The access rule gives every amount, count and resource directly.
pub open spec fn is_static_rule(rule: AccessRule) -> bool {
    match rule {
        AccessRule::Protected(node) => is_static_node(node),
        _ => true,
    }
}

/// Each proof rule of the tree resolves alike in both contexts.
pub open spec fn proof_rules_agree(cx1: Context, cx2: Context, node: AccessRuleNode) -> bool
    decreases node,
{
    match node {
        AccessRuleNode::ProofRule(p) => spec_hard_proof_rule(cx1, p) == spec_hard_proof_rule(
            cx2,
            p,
        ),
        AccessRuleNode::AnyOf(rules) => forall|i: int|
            0 <= i < rules@.len() ==> proof_rules_agree(cx1, cx2, #[trigger] rules@[i]),
        AccessRuleNode::AllOf(rules) => forall|i: int|
            0 <= i < rules@.len() ==> proof_rules_agree(cx1, cx2, #[trigger] rules@[i]),
    }
}

proof fn lemma_agreeing_rules_resolve_alike(
    cx1: Context,
    cx2: Context,
    node: AccessRuleNode,
    hard: HardAuthRule,
)
    requires
        proof_rules_agree(cx1, cx2, node),
    ensures
        is_resolved_node(cx1, node, hard) == is_resolved_node(cx2, node, hard),
    decreases node,
{
    match node {
        AccessRuleNode::ProofRule(p) => {},
        AccessRuleNode::AnyOf(rules) => {
            if let HardAuthRule::AnyOf(hs) = hard {
                assert forall|i: int| 0 <= i < rules@.len() && i < hs@.len() implies is_resolved_node(
                    cx1,
                    #[trigger] rules@[i],
                    hs@[i],
                ) == is_resolved_node(cx2, rules@[i], hs@[i]) by {
                    lemma_agreeing_rules_resolve_alike(cx1, cx2, rules@[i], hs@[i]);
                }
            }
        },
        AccessRuleNode::AllOf(rules) => {
            if let HardAuthRule::AllOf(hs) = hard {
                assert forall|i: int| 0 <= i < rules@.len() && i < hs@.len() implies is_resolved_node(
                    cx1,
                    #[trigger] rules@[i],
                    hs@[i],
                ) == is_resolved_node(cx2, rules@[i], hs@[i]) by {
                    lemma_agreeing_rules_resolve_alike(cx1, cx2, rules@[i], hs@[i]);
                }
            }
        },
    }
}

proof fn lemma_static_rules_agree(cx1: Context, cx2: Context, node: AccessRuleNode)
    requires
        is_static_node(node),
    ensures
        proof_rules_agree(cx1, cx2, node),
        node_resolvable(cx1, node),
    decreases node,
{
    match node {
        AccessRuleNode::ProofRule(p) => {
            match p {
                ProofRule::Require(r) => {},
                ProofRule::AmountOf(d, r) => {},
                ProofRule::CountOf(_, l) | ProofRule::AllOf(l) | ProofRule::AnyOf(l) => {
                    if let SoftResourceOrNonFungibleList::Static(v) = l {
                        assert(v@.map_values(
                            |s: SoftResourceOrNonFungible| spec_hard_resource_or_non_fungible(cx1, s),
                        ) =~= v@.map_values(
                            |s: SoftResourceOrNonFungible| spec_hard_resource_or_non_fungible(cx2, s),
                        ));
                    }
                },
            }
        },
        AccessRuleNode::AnyOf(rules) => {
            assert forall|i: int| 0 <= i < rules@.len() implies proof_rules_agree(
                cx1,
                cx2,
                #[trigger] rules@[i],
            ) && node_resolvable(cx1, rules@[i]) by {
                lemma_static_rules_agree(cx1, cx2, rules@[i]);
            }
        },
        AccessRuleNode::AllOf(rules) => {
            assert forall|i: int| 0 <= i < rules@.len() implies proof_rules_agree(
                cx1,
                cx2,
                #[trigger] rules@[i],
            ) && node_resolvable(cx1, rules@[i]) by {
                lemma_static_rules_agree(cx1, cx2, rules@[i]);
            }
        },
    }
}

/// In a context without types, the empty path leads to the root and every
/// other path has no meaning.
proof fn lemma_contextless_path(cx: Context, path: Seq<SchemaSubPath>)
    requires
        is_contextless(cx),
    ensures
        path.len() == 0 ==> spec_to_sbor_path(cx.schema, cx.type_index, path) == Some(
            (Seq::<usize>::empty(), cx.type_index),
        ),
        path.len() > 0 ==> spec_to_sbor_path(cx.schema, cx.type_index, path) is None,
    decreases path.len(),
{
    if path.len() > 0 {
        lemma_contextless_path(cx, path.drop_last());
    }
}

proof fn lemma_contextless_resolution(cx: Context, path: SchemaPath)
    requires
        is_contextless(cx),
    ensures
        path.0@.len() == 0 ==> resolve_path(cx.schema, cx.type_index, cx.root, path)
            == PathResolution::Found(cx.root),
        path.0@.len() > 0 ==> resolve_path(cx.schema, cx.type_index, cx.root, path) is InvalidPath,
{
    lemma_contextless_path(cx, path.0@);
}

proof fn lemma_contextless_list(cx1: Context, cx2: Context, list: SoftResourceOrNonFungibleList)
    requires
        is_contextless(cx1),
        is_contextless(cx2),
    ensures
        spec_hard_resource_list(cx1, list) == spec_hard_resource_list(cx2, list),
        resource_list_resolvable(cx1, list),
{
    match list {
        SoftResourceOrNonFungibleList::Static(v) => {
            assert forall|i: int| 0 <= i < v@.len() implies spec_hard_resource_or_non_fungible(
                cx1,
                #[trigger] v@[i],
            ) == spec_hard_resource_or_non_fungible(cx2, v@[i]) && resource_or_non_fungible_resolvable(cx1, v@[i]) by {
                if let SoftResourceOrNonFungible::Dynamic(p) = v@[i] {
                    lemma_contextless_resolution(cx1, p);
                    lemma_contextless_resolution(cx2, p);
                }
            }
            assert(v@.map_values(
                |s: SoftResourceOrNonFungible| spec_hard_resource_or_non_fungible(cx1, s),
            ) =~= v@.map_values(
                |s: SoftResourceOrNonFungible| spec_hard_resource_or_non_fungible(cx2, s),
            ));
        },
        SoftResourceOrNonFungibleList::Dynamic(p) => {
            lemma_contextless_resolution(cx1, p);
            lemma_contextless_resolution(cx2, p);
        },
    }
}

proof fn lemma_contextless_rules_agree(cx1: Context, cx2: Context, node: AccessRuleNode)
    requires
        is_contextless(cx1),
        is_contextless(cx2),
    ensures
        proof_rules_agree(cx1, cx2, node),
        node_resolvable(cx1, node),
    decreases node,
{
    match node {
        AccessRuleNode::ProofRule(p) => {
            match p {
                ProofRule::Require(r) => {
                    if let SoftResourceOrNonFungible::Dynamic(path) = r {
                        lemma_contextless_resolution(cx1, path);
                        lemma_contextless_resolution(cx2, path);
                    }
                },
                ProofRule::AmountOf(d, r) => {
                    if let SoftDecimal::Dynamic(path) = d {
                        lemma_contextless_resolution(cx1, path);
                        lemma_contextless_resolution(cx2, path);
                    }
                    if let SoftResource::Dynamic(path) = r {
                        lemma_contextless_resolution(cx1, path);
                        lemma_contextless_resolution(cx2, path);
                    }
                },
                ProofRule::CountOf(c, l) => {
                    if let SoftCount::Dynamic(path) = c {
                        lemma_contextless_resolution(cx1, path);
                        lemma_contextless_resolution(cx2, path);
                    }
                    lemma_contextless_list(cx1, cx2, l);
                },
                ProofRule::AllOf(l) | ProofRule::AnyOf(l) => {
                    lemma_contextless_list(cx1, cx2, l);
                },
            }
        },
        AccessRuleNode::AnyOf(rules) => {
            assert forall|i: int| 0 <= i < rules@.len() implies proof_rules_agree(
                cx1,
                cx2,
                #[trigger] rules@[i],
            ) && node_resolvable(cx1, rules@[i]) by {
                lemma_contextless_rules_agree(cx1, cx2, rules@[i]);
            }
        },
        AccessRuleNode::AllOf(rules) => {
            assert forall|i: int| 0 <= i < rules@.len() implies proof_rules_agree(
                cx1,
                cx2,
                #[trigger] rules@[i],
            ) && node_resolvable(cx1, rules@[i]) by {
                lemma_contextless_rules_agree(cx1, cx2, rules@[i]);
            }
        },
    }
}

/// Converts an access rule on its own, where no value gives amounts,
/// counts or resources: a path into the value leads nowhere, but for the
/// empty path, which leads to the unit value.
pub fn convert_contextless(method_auth: &AccessRule) -> (r: MethodAuthorization)
    ensures
        forall|cx: Context| is_contextless(cx) ==> #[trigger] is_resolved_rule(cx, *method_auth, r),
{
    let schema = ScryptoSchema::empty();
    let value = IndexedScryptoValue::unit();
    let type_index = LocalTypeIndex::WellKnown(UNIT_TYPE_ID);
    let ghost cx0 = context_of(schema, type_index, value);
    proof {
        if let AccessRule::Protected(node) = method_auth {
            lemma_contextless_rules_agree(cx0, cx0, *node);
        }
    }
    let r = convert(&schema, type_index, &value, method_auth);
    proof {
        assert forall|cx: Context| is_contextless(cx) implies #[trigger] is_resolved_rule(
            cx,
            *method_auth,
            r,
        ) by {
            if let AccessRule::Protected(node) = method_auth {
                lemma_contextless_rules_agree(cx0, cx, *node);
                if let MethodAuthorization::Protected(hard) = &r {
                    lemma_agreeing_rules_resolve_alike(cx0, cx, *node, *hard);
                }
            }
        }
    }
    r
}

/// A rule that gives every amount, count and resource directly resolves
/// the same in every context, and in particular as it does on its own.
pub proof fn lemma_static_rule_is_context_free(
    cx1: Context,
    cx2: Context,
    rule: AccessRule,
    auth: MethodAuthorization,
)
    requires
        is_static_rule(rule),
    ensures
        access_rule_resolvable(cx1, rule),
        is_resolved_rule(cx1, rule, auth) == is_resolved_rule(cx2, rule, auth),
{
    if let AccessRule::Protected(node) = rule {
        lemma_static_rules_agree(cx1, cx2, node);
        if let MethodAuthorization::Protected(hard) = auth {
            lemma_agreeing_rules_resolve_alike(cx1, cx2, node, hard);
        }
    }
}

/// What a rule gives directly is kept as given, whatever the context: a
/// count `n` resolves to the count `n`, an amount to that amount, a
/// resource to that resource, and a non-fungible unit to that very unit
/// (its resource and its local id).
pub proof fn lemma_static_parts_resolve_to_themselves(cx: Context)
    ensures
        forall|n: u8| #[trigger] spec_hard_count(cx, SoftCount::Static(n)) == HardCount::Count(n),
        forall|d: crate::decimal::Decimal|
            #[trigger] spec_hard_decimal(cx, SoftDecimal::Static(d)) == HardDecimal::Amount(d),
        forall|a: crate::address::ResourceAddress|
            #[trigger] spec_hard_resource(cx, SoftResource::Static(a)) == HardResourceModel::Resource(
                a@,
            ),
        forall|a: crate::address::ResourceAddress|
            #[trigger] spec_hard_resource_or_non_fungible(
                cx,
                SoftResourceOrNonFungible::StaticResource(a),
            ) == HardResourceModel::Resource(a@),
        forall|g: crate::address::NonFungibleGlobalId|
            #[trigger] spec_hard_resource_or_non_fungible(
                cx,
                SoftResourceOrNonFungible::StaticNonFungible(g),
            ) == HardResourceModel::NonFungible(
                GlobalIdModel { resource: g.resource_address@, local_id: g.local_id@ },
            ),
{
}

/// A list given directly resolves element by element, in order and to
/// the same length, each resource or non-fungible unit kept as given.
pub proof fn lemma_static_list_resolves_to_itself(
    cx: Context,
    list: Vec<SoftResourceOrNonFungible>,
)
    ensures
        spec_hard_resource_list(cx, SoftResourceOrNonFungibleList::Static(list)) is List,
        ({
            let hs = spec_hard_resource_list(cx, SoftResourceOrNonFungibleList::Static(list))->List_0;
            &&& hs.len() == list@.len()
            &&& forall|i: int|
                0 <= i < list@.len() ==> (#[trigger] list@[i] matches SoftResourceOrNonFungible::StaticResource(a)
                    ==> hs[i] == HardResourceModel::Resource(a@))
            &&& forall|i: int|
                0 <= i < list@.len() ==> (#[trigger] list@[i] matches SoftResourceOrNonFungible::StaticNonFungible(g)
                    ==> hs[i] == HardResourceModel::NonFungible(
                    GlobalIdModel { resource: g.resource_address@, local_id: g.local_id@ },
                ))
        }),
{
}

/// A count-of rule given wholly directly keeps its count and its list:
/// "n of these resources" resolves to "n of these same resources".
pub proof fn lemma_static_count_of_keeps_count(
    cx: Context,
    n: u8,
    list: Vec<SoftResourceOrNonFungible>,
)
    ensures
        spec_hard_proof_rule(
            cx,
            ProofRule::CountOf(SoftCount::Static(n), SoftResourceOrNonFungibleList::Static(list)),
        ) == HardProofRuleModel::CountOf(
            HardCount::Count(n),
            spec_hard_resource_list(cx, SoftResourceOrNonFungibleList::Static(list)),
        ),
{
    lemma_static_parts_resolve_to_themselves(cx);
}

/// A rule that allows all, or denies all, is resolved to exactly that
/// authorization, and a protected rule to a protected one.
pub proof fn lemma_rule_kind_is_kept(cx: Context, rule: AccessRule, auth: MethodAuthorization)
    requires
        is_resolved_rule(cx, rule, auth),
    ensures
        rule is AllowAll <==> auth is AllowAll,
        rule is DenyAll <==> auth is DenyAll,
        rule is Protected <==> auth is Protected,
{
}

/// Resolving a rule tree keeps its shape: "any of" stays "any of" and
/// "all of" stays "all of", with as many children, each resolved in its
/// place; a proof rule stays a proof rule.
pub proof fn lemma_node_shape_is_kept(cx: Context, node: AccessRuleNode, hard: HardAuthRule)
    requires
        is_resolved_node(cx, node, hard),
    ensures
        node is ProofRule <==> hard is ProofRule,
        node matches AccessRuleNode::AnyOf(rules) ==> hard matches HardAuthRule::AnyOf(hs)
            && hs@.len() == rules@.len(),
        node matches AccessRuleNode::AllOf(rules) ==> hard matches HardAuthRule::AllOf(hs)
            && hs@.len() == rules@.len(),
{
}

} // verus!
