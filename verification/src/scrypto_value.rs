//! Structured values, the schema that describes their types, schema paths
//! and their resolution to values, and decoding of values into amounts,
//! counts, addresses and non-fungible ids.
use vstd::prelude::*;
use crate::decimal::Decimal;
use crate::address::{
    NodeId, ResourceAddress, NonFungibleLocalId, NonFungibleGlobalId, GlobalIdModel,
};

verus! {

/// Id of the well-known unit type.
pub const UNIT_TYPE_ID: u8 = 66;

/// A structured value.
#[derive(Debug)]
pub enum ScryptoValue {
    Bool(bool),
    U8(u8),
    U32(u32),
    U64(u64),
    String(String),
    Decimal(Decimal),
    Reference(NodeId),
    NonFungibleLocalId(NonFungibleLocalId),
    Tuple(Vec<ScryptoValue>),
    Enum(u8, Vec<ScryptoValue>),
    Array(Vec<ScryptoValue>),
}

/// A value together with its root, as handed to rule resolution.
#[derive(Debug)]
pub struct IndexedScryptoValue {
    pub value: ScryptoValue,
}

/// The index of a type: a well-known type, or a type of the schema.
#[derive(Clone, Copy, Debug, PartialEq, Eq, Structural)]
pub enum LocalTypeIndex {
    WellKnown(u8),
    SchemaLocalIndex(usize),
}

/// The shape of a type of the schema, as far as paths reach into it.
#[derive(Clone, Debug)]
pub enum TypeKind {
    /// A tuple or struct with the given field types.
    Tuple(Vec<LocalTypeIndex>),
    /// An array with the given element type.
    Array(LocalTypeIndex),
    /// Any other kind, which paths cannot enter.
    Other,
}

/// The names given to a type's fields, if it has named fields.
#[derive(Clone, Debug)]
pub struct TypeMetadata {
    pub field_names: Option<Vec<String>>,
}

/// Type kinds and metadata, indexed alike.
#[derive(Clone, Debug)]
pub struct ScryptoSchema {
    pub type_kinds: Vec<TypeKind>,
    pub type_metadata: Vec<TypeMetadata>,
}

/// One step of a schema path: a named field or an element index.
#[derive(Clone, Debug)]
pub enum SchemaSubPath {
    Field(String),
    Index(usize),
}

/// A path into a value, written against its schema.
#[derive(Clone, Debug)]
pub struct SchemaPath(pub Vec<SchemaSubPath>);

/// Where a schema path leads within a value.
pub enum PathResolution {
    /// The schema gives the path no meaning.
    InvalidPath,
    /// The path is valid for the schema but the value has nothing there.
    Missing,
    /// The value found at the path.
    Found(ScryptoValue),
}

impl IndexedScryptoValue {
    /// The unit value.
    pub fn unit() -> (r: IndexedScryptoValue)
        ensures
            r.value matches ScryptoValue::Tuple(fields) && fields@.len() == 0,
    {
        IndexedScryptoValue { value: ScryptoValue::Tuple(Vec::new()) }
    }

    pub fn as_scrypto_value(&self) -> (r: &ScryptoValue)
        ensures
            *r == self.value,
    {
        &self.value
    }
}

impl ScryptoSchema {
    /// The schema without types.
    pub fn empty() -> (r: ScryptoSchema)
        ensures
            r.type_kinds@.len() == 0,
            r.type_metadata@.len() == 0,
    {
        ScryptoSchema { type_kinds: Vec::new(), type_metadata: Vec::new() }
    }
}

/// The first position of `name` in `names`.
pub open spec fn first_index_of(names: Seq<String>, name: Seq<char>) -> Option<int>
    decreases names.len(),
{
    if names.len() == 0 {
        None
    } else {
        match first_index_of(names.drop_last(), name) {
            Some(i) => Some(i),
            None => if names.last()@ == name {
                Some(names.len() - 1)
            } else {
                None
            },
        }
    }
}

/// One step of a path through the schema: the child's position within its
/// parent and the child's type.
pub open spec fn spec_sub_path_step(
    schema: ScryptoSchema,
    type_index: LocalTypeIndex,
    sub_path: SchemaSubPath,
) -> Option<(usize, LocalTypeIndex)> {
    match type_index {
        LocalTypeIndex::WellKnown(_) => None,
        LocalTypeIndex::SchemaLocalIndex(k) => {
            if k >= schema.type_kinds@.len() || k >= schema.type_metadata@.len() {
                None
            } else {
                match (sub_path, schema.type_kinds@[k as int]) {
                    (SchemaSubPath::Field(name), TypeKind::Tuple(field_types)) => {
                        match schema.type_metadata@[k as int].field_names {
                            Some(names) => match first_index_of(names@, name@) {
                                Some(j) => if j < field_types@.len() {
                                    Some((j as usize, field_types@[j]))
                                } else {
                                    None
                                },
                                None => None,
                            },
                            None => None,
                        }
                    },
                    (SchemaSubPath::Index(i), TypeKind::Array(element_type)) => Some(
                        (i, element_type),
                    ),
                    _ => None,
                }
            }
        },
    }
}

/// The positions that a schema path takes through values of the type
/// `type_index`, and the type it ends at.
pub open spec fn spec_to_sbor_path(
    schema: ScryptoSchema,
    type_index: LocalTypeIndex,
    path: Seq<SchemaSubPath>,
) -> Option<(Seq<usize>, LocalTypeIndex)>
    decreases path.len(),
{
    if path.len() == 0 {
        Some((Seq::empty(), type_index))
    } else {
        match spec_to_sbor_path(schema, type_index, path.drop_last()) {
            Some((prefix, t)) => match spec_sub_path_step(schema, t, path.last()) {
                Some((i, next)) => Some((prefix.push(i), next)),
                None => None,
            },
            None => None,
        }
    }
}

/// The `i`-th child of a value, if it has one.
pub open spec fn spec_child(value: ScryptoValue, i: usize) -> Option<ScryptoValue> {
    match value {
        ScryptoValue::Tuple(fields) => if i < fields@.len() {
            Some(fields@[i as int])
        } else {
            None
        },
        ScryptoValue::Enum(_, fields) => if i < fields@.len() {
            Some(fields@[i as int])
        } else {
            None
        },
        ScryptoValue::Array(elements) => if i < elements@.len() {
            Some(elements@[i as int])
        } else {
            None
        },
        _ => None,
    }
}

/// The value reached from `value` through the child positions `path`.
pub open spec fn spec_get_from_value(value: ScryptoValue, path: Seq<usize>) -> Option<
    ScryptoValue,
>
    decreases path.len(),
{
    if path.len() == 0 {
        Some(value)
    } else {
        match spec_get_from_value(value, path.drop_last()) {
            Some(v) => spec_child(v, path.last()),
            None => None,
        }
    }
}

/// Where `path` leads within `root`, a value of type `type_index`.
pub open spec fn resolve_path(
    schema: ScryptoSchema,
    type_index: LocalTypeIndex,
    root: ScryptoValue,
    path: SchemaPath,
) -> PathResolution {
    match spec_to_sbor_path(schema, type_index, path.0@) {
        None => PathResolution::InvalidPath,
        Some((sbor_path, _)) => match spec_get_from_value(root, sbor_path) {
            None => PathResolution::Missing,
            Some(v) => PathResolution::Found(v),
        },
    }
}

/// The amount a value decodes to.
pub open spec fn decode_decimal(value: ScryptoValue) -> Option<Decimal> {
    match value {
        ScryptoValue::Decimal(d) => Some(d),
        _ => None,
    }
}

/// The count a value decodes to.
pub open spec fn decode_u8(value: ScryptoValue) -> Option<u8> {
    match value {
        ScryptoValue::U8(n) => Some(n),
        _ => None,
    }
}

/// The resource address (its node bytes) a value decodes to: a reference
/// to a resource manager.
pub open spec fn decode_resource_address(value: ScryptoValue) -> Option<Seq<u8>> {
    match value {
        ScryptoValue::Reference(node) => if node.spec_is_resource() {
            Some(node@)
        } else {
            None
        },
        _ => None,
    }
}

/// The non-fungible global id a value decodes to: a pair of a resource
/// address and a local id.
pub open spec fn decode_global_id(value: ScryptoValue) -> Option<GlobalIdModel> {
    match value {
        ScryptoValue::Tuple(fields) => if fields@.len() == 2 {
            match (decode_resource_address(fields@[0]), fields@[1]) {
                (Some(resource), ScryptoValue::NonFungibleLocalId(id)) => Some(
                    GlobalIdModel { resource, local_id: id@ },
                ),
                _ => None,
            }
        } else {
            None
        },
        _ => None,
    }
}

/// The resource addresses an array value decodes to, when each element
/// decodes to one.
pub open spec fn decode_resource_address_array(value: ScryptoValue) -> Option<Seq<Seq<u8>>> {
    match value {
        ScryptoValue::Array(elements) => if forall|i: int|
            0 <= i < elements@.len() ==> #[trigger] decode_resource_address(elements@[i]) is Some {
            Some(elements@.map_values(|e: ScryptoValue| decode_resource_address(e)->Some_0))
        } else {
            None
        },
        _ => None,
    }
}

/// The non-fungible global ids an array value decodes to, when each
/// element decodes to one.
pub open spec fn decode_global_id_array(value: ScryptoValue) -> Option<Seq<GlobalIdModel>> {
    match value {
        ScryptoValue::Array(elements) => if forall|i: int|
            0 <= i < elements@.len() ==> #[trigger] decode_global_id(elements@[i]) is Some {
            Some(elements@.map_values(|e: ScryptoValue| decode_global_id(e)->Some_0))
        } else {
            None
        },
        _ => None,
    }
}

/// The first position of `name` among `names`.
fn find_field(names: &Vec<String>, name: &String) -> (r: Option<usize>)
    ensures
        r matches Some(j) ==> first_index_of(names@, name@) == Some(j as int),
        r is None ==> first_index_of(names@, name@) is None,
{
    let mut i: usize = 0;
    while i < names.len()
        invariant
            i <= names@.len(),
            first_index_of(names@.take(i as int), name@) is None,
        decreases names@.len() - i,
    {
        let ghost pre = names@.take(i as int);
        assert(names@.take(i + 1).drop_last() == pre);
        if names[i] == *name {
            proof {
                lemma_first_index_prefix(names@, name@, i + 1);
            }
            return Some(i);
        }
        i = i + 1;
    }
    assert(names@.take(names@.len() as int) == names@);
    None
}

proof fn lemma_first_index_prefix(names: Seq<String>, name: Seq<char>, n: int)
    requires
        0 < n <= names.len(),
        first_index_of(names.take(n - 1), name) is None,
        names[n - 1]@ == name,
    ensures
        first_index_of(names, name) == Some(n - 1),
    decreases names.len(),
{
    assert(names.take(n).drop_last() == names.take(n - 1));
    if n < names.len() {
        assert(names.drop_last().take(n) == names.take(n));
        assert(names.drop_last().take(n - 1) == names.take(n - 1));
        lemma_first_index_prefix(names.drop_last(), name, n);
    } else {
        assert(names.take(n) == names);
    }
}

/// One step of a path through the schema.
pub fn sub_path_step(schema: &ScryptoSchema, type_index: LocalTypeIndex, sub_path: &SchemaSubPath) -> (r:
    Option<(usize, LocalTypeIndex)>)
    ensures
        r == spec_sub_path_step(*schema, type_index, *sub_path),
{
    match type_index {
        LocalTypeIndex::WellKnown(_) => None,
        LocalTypeIndex::SchemaLocalIndex(k) => {
            if k >= schema.type_kinds.len() || k >= schema.type_metadata.len() {
                return None;
            }
            match (sub_path, &schema.type_kinds[k]) {
                (SchemaSubPath::Field(name), TypeKind::Tuple(field_types)) => {
                    match &schema.type_metadata[k].field_names {
                        Some(names) => match find_field(names, name) {
                            Some(j) => if j < field_types.len() {
                                Some((j, field_types[j]))
                            } else {
                                None
                            },
                            None => None,
                        },
                        None => None,
                    }
                },
                (SchemaSubPath::Index(i), TypeKind::Array(element_type)) => Some((*i, *element_type)),
                _ => None,
            }
        },
    }
}

impl SchemaPath {
    /// The child positions that the path takes through values of the type
    /// `type_index`, and the type it ends at; `None` where the schema gives
    /// the path no meaning.
    pub fn to_sbor_path(&self, schema: &ScryptoSchema, type_index: LocalTypeIndex) -> (r: Option<
        (Vec<usize>, LocalTypeIndex),
    >)
        ensures
            r is Some <==> spec_to_sbor_path(*schema, type_index, self.0@) is Some,
            r matches Some((p, t)) ==> spec_to_sbor_path(*schema, type_index, self.0@) == Some(
                (p@, t),
            ),
    {
        let mut cur = type_index;
        let mut out: Vec<usize> = Vec::new();
        let mut i: usize = 0;
        while i < self.0.len()
            invariant
                i <= self.0@.len(),
                spec_to_sbor_path(*schema, type_index, self.0@.take(i as int)) == Some(
                    (out@, cur),
                ),
            decreases self.0@.len() - i,
        {
            assert(self.0@.take(i + 1).drop_last() == self.0@.take(i as int));
            match sub_path_step(schema, cur, &self.0[i]) {
                Some((j, next)) => {
                    out.push(j);
                    cur = next;
                },
                None => {
                    proof {
                        lemma_to_sbor_path_fails_after(*schema, type_index, self.0@, i + 1);
                    }
                    return None;
                },
            }
            i = i + 1;
        }
        assert(self.0@.take(self.0@.len() as int) == self.0@);
        Some((out, cur))
    }
}

proof fn lemma_to_sbor_path_fails_after(
    schema: ScryptoSchema,
    type_index: LocalTypeIndex,
    path: Seq<SchemaSubPath>,
    n: int,
)
    requires
        0 < n <= path.len(),
        spec_to_sbor_path(schema, type_index, path.take(n)) is None,
    ensures
        spec_to_sbor_path(schema, type_index, path) is None,
    decreases path.len(),
{
    if n < path.len() {
        assert(path.drop_last().take(n) == path.take(n));
        lemma_to_sbor_path_fails_after(schema, type_index, path.drop_last(), n);
    } else {
        assert(path.take(n) == path);
    }
}

proof fn lemma_get_fails_after(value: ScryptoValue, path: Seq<usize>, n: int)
    requires
        0 <= n <= path.len(),
        spec_get_from_value(value, path.take(n)) is None,
    ensures
        spec_get_from_value(value, path) is None,
    decreases path.len(),
{
    if n < path.len() {
        assert(path.drop_last().take(n) == path.take(n));
        lemma_get_fails_after(value, path.drop_last(), n);
    } else {
        assert(path.take(n) == path);
    }
}

/// The child of `value` at position `i`.
pub fn child(value: &ScryptoValue, i: usize) -> (r: Option<&ScryptoValue>)
    ensures
        r matches Some(c) ==> spec_child(*value, i) == Some(*c),
        r is None ==> spec_child(*value, i) is None,
{
    match value {
        ScryptoValue::Tuple(fields) => if i < fields.len() {
            Some(&fields[i])
        } else {
            None
        },
        ScryptoValue::Enum(_, fields) => if i < fields.len() {
            Some(&fields[i])
        } else {
            None
        },
        ScryptoValue::Array(elements) => if i < elements.len() {
            Some(&elements[i])
        } else {
            None
        },
        _ => None,
    }
}

/// The value reached from `value` through the child positions `path`.
pub fn get_from_value<'a>(path: &Vec<usize>, value: &'a ScryptoValue) -> (r: Option<&'a ScryptoValue>)
    ensures
        r matches Some(v) ==> spec_get_from_value(*value, path@) == Some(*v),
        r is None ==> spec_get_from_value(*value, path@) is None,
{
    let mut cur: &ScryptoValue = value;
    let mut i: usize = 0;
    while i < path.len()
        invariant
            i <= path@.len(),
            spec_get_from_value(*value, path@.take(i as int)) == Some(*cur),
        decreases path@.len() - i,
    {
        assert(path@.take(i + 1).drop_last() == path@.take(i as int));
        match child(cur, path[i]) {
            Some(c) => {
                cur = c;
            },
            None => {
                proof {
                    lemma_get_fails_after(*value, path@, i + 1);
                }
                return None;
            },
        }
        i = i + 1;
    }
    assert(path@.take(path@.len() as int) == path@);
    Some(cur)
}

/// The value that `path` leads to within `root`; `None` where the schema
/// gives the path no meaning.
pub fn resolve<'a>(
    schema: &ScryptoSchema,
    type_index: LocalTypeIndex,
    root: &'a ScryptoValue,
    path: &SchemaPath,
) -> (r: Option<&'a ScryptoValue>)
    requires
        !(resolve_path(*schema, type_index, *root, *path) is Missing),
    ensures
        r is None <==> resolve_path(*schema, type_index, *root, *path) is InvalidPath,
        r matches Some(v) ==> resolve_path(*schema, type_index, *root, *path) == PathResolution::Found(
            *v,
        ),
{
    match path.to_sbor_path(schema, type_index) {
        Some((sbor_path, _)) => match get_from_value(&sbor_path, root) {
            Some(v) => Some(v),
            None => None,
        },
        None => None,
    }
}

/// Decodes an amount.
pub fn to_decimal(value: &ScryptoValue) -> (r: Option<Decimal>)
    ensures
        r == decode_decimal(*value),
{
    match value {
        ScryptoValue::Decimal(d) => Some(*d),
        _ => None,
    }
}

/// Decodes a count.
pub fn to_u8(value: &ScryptoValue) -> (r: Option<u8>)
    ensures
        r == decode_u8(*value),
{
    match value {
        ScryptoValue::U8(n) => Some(*n),
        _ => None,
    }
}

/// Decodes a resource address.
pub fn to_resource_address(value: &ScryptoValue) -> (r: Option<ResourceAddress>)
    ensures
        r is Some <==> decode_resource_address(*value) is Some,
        r matches Some(a) ==> decode_resource_address(*value) == Some(a@),
{
    match value {
        ScryptoValue::Reference(node) => if node.is_resource() {
            Some(ResourceAddress(*node))
        } else {
            None
        },
        _ => None,
    }
}

/// Decodes a non-fungible global id.
pub fn to_global_id(value: &ScryptoValue) -> (r: Option<NonFungibleGlobalId>)
    ensures
        r is Some <==> decode_global_id(*value) is Some,
        r matches Some(g) ==> decode_global_id(*value) == Some(g@),
{
    match value {
        ScryptoValue::Tuple(fields) => {
            if fields.len() != 2 {
                return None;
            }
            match (to_resource_address(&fields[0]), &fields[1]) {
                (Some(resource_address), ScryptoValue::NonFungibleLocalId(id)) => Some(
                    NonFungibleGlobalId { resource_address, local_id: id.duplicate() },
                ),
                _ => None,
            }
        },
        _ => None,
    }
}

/// Decodes an array of resource addresses.
#[verifier::loop_isolation(false)]
pub fn to_resource_address_array(value: &ScryptoValue) -> (r: Option<Vec<ResourceAddress>>)
    ensures
        r is Some <==> decode_resource_address_array(*value) is Some,
        r matches Some(v) ==> decode_resource_address_array(*value) == Some(
            v@.map_values(|a: ResourceAddress| a@),
        ),
{
    match value {
        ScryptoValue::Array(elements) => {
            let mut out: Vec<ResourceAddress> = Vec::new();
            let mut i: usize = 0;
            while i < elements.len()
                invariant
                    i <= elements@.len(),
                    out@.len() == i,
                    forall|j: int|
                        0 <= j < i ==> decode_resource_address(#[trigger] elements@[j]) == Some(
                            out@[j]@,
                        ),
                decreases elements@.len() - i,
            {
                match to_resource_address(&elements[i]) {
                    Some(a) => out.push(a),
                    None => {
                        assert(!(decode_resource_address(elements@[i as int]) is Some));

                        return None;
                    },
                }
                i = i + 1;
            }
            assert(out@.map_values(|a: ResourceAddress| a@) =~= elements@.map_values(
                |e: ScryptoValue| decode_resource_address(e)->Some_0,
            ));
            Some(out)
        },
        _ => None,
    }
}

/// Decodes an array of non-fungible global ids.
#[verifier::loop_isolation(false)]
pub fn to_global_id_array(value: &ScryptoValue) -> (r: Option<Vec<NonFungibleGlobalId>>)
    ensures
        r is Some <==> decode_global_id_array(*value) is Some,
        r matches Some(v) ==> decode_global_id_array(*value) == Some(
            v@.map_values(|g: NonFungibleGlobalId| g@),
        ),
{
    match value {
        ScryptoValue::Array(elements) => {
            let mut out: Vec<NonFungibleGlobalId> = Vec::new();
            let mut i: usize = 0;
            while i < elements.len()
                invariant
                    i <= elements@.len(),
                    out@.len() == i,
                    forall|j: int|
                        0 <= j < i ==> decode_global_id(#[trigger] elements@[j]) == Some(out@[j]@),
                decreases elements@.len() - i,
            {
                match to_global_id(&elements[i]) {
                    Some(g) => out.push(g),
                    None => {
                        assert(!(decode_global_id(elements@[i as int]) is Some));
                        return None;
                    },
                }
                i = i + 1;
            }
            assert(out@.map_values(|g: NonFungibleGlobalId| g@) =~= elements@.map_values(
                |e: ScryptoValue| decode_global_id(e)->Some_0,
            ));
            Some(out)
        },
        _ => None,
    }
}

} // verus!
