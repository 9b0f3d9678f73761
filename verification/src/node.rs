//! The initial substates of a node and of its modules, laid out by offset.
use vstd::prelude::*;
use crate::address::NodeId;
use crate::scrypto_value::ScryptoValue;
use crate::substates::{
    TypeInfoSubstate, MethodAccessRulesSubstate, ComponentRoyaltyConfigSubstate,
    ComponentRoyaltyAccumulatorSubstate, PackageInfoSubstate, PackageCodeTypeSubstate,
    PackageCodeSubstate, PackageRoyaltySubstate, FunctionAccessRulesSubstate,
    PackageEventSchemaSubstate,
};

verus! {

#[derive(Clone, Copy, Debug, PartialEq, Eq, Structural)]
pub enum TypeInfoOffset {
    TypeInfo,
}

#[derive(Clone, Copy, Debug, PartialEq, Eq, Structural)]
pub enum AccessRulesOffset {
    AccessRules,
}

#[derive(Clone, Copy, Debug, PartialEq, Eq, Structural)]
pub enum RoyaltyOffset {
    RoyaltyConfig,
    RoyaltyAccumulator,
}

#[derive(Clone, Copy, Debug, PartialEq, Eq, Structural)]
pub enum PackageOffset {
    Info,
    CodeType,
    Code,
    Royalty,
    FunctionAccessRules,
    EventSchema,
}

#[derive(Clone, Copy, Debug, PartialEq, Eq, Structural)]
pub enum AuthZoneStackOffset {
    AuthZoneStack,
}

/// The offset of a metadata entry: its key.
#[derive(Clone, Debug)]
pub enum MetadataOffset {
    Entry(Vec<u8>),
}

/// Where a substate stands within its node.
#[derive(Clone, Debug)]
pub enum SubstateOffset {
    TypeInfo(TypeInfoOffset),
    AccessRules(AccessRulesOffset),
    Royalty(RoyaltyOffset),
    Package(PackageOffset),
    AuthZoneStack(AuthZoneStackOffset),
    Metadata(MetadataOffset),
}

/// The model of an offset: a metadata key is taken by its bytes, so two
/// offsets are the same key exactly when their models are equal.
pub enum OffsetKey {
    TypeInfo(TypeInfoOffset),
    AccessRules(AccessRulesOffset),
    Royalty(RoyaltyOffset),
    Package(PackageOffset),
    AuthZoneStack(AuthZoneStackOffset),
    Metadata(Seq<u8>),
}

impl View for SubstateOffset {
    type V = OffsetKey;

    open spec fn view(&self) -> OffsetKey {
        match self {
            SubstateOffset::TypeInfo(o) => OffsetKey::TypeInfo(*o),
            SubstateOffset::AccessRules(o) => OffsetKey::AccessRules(*o),
            SubstateOffset::Royalty(o) => OffsetKey::Royalty(*o),
            SubstateOffset::Package(o) => OffsetKey::Package(*o),
            SubstateOffset::AuthZoneStack(o) => OffsetKey::AuthZoneStack(*o),
            SubstateOffset::Metadata(MetadataOffset::Entry(key)) => OffsetKey::Metadata(key@),
        }
    }
}

fn bytes_equal(a: &Vec<u8>, b: &Vec<u8>) -> (r: bool)
    ensures
        r == (a@ == b@),
{
    if a.len() != b.len() {
        return false;
    }
    let mut i: usize = 0;
    while i < a.len()
        invariant
            i <= a.len(),
            a.len() == b.len(),
            forall|j: int| 0 <= j < i ==> a@[j] == b@[j],
        decreases a.len() - i,
    {
        if a[i] != b[i] {
            assert(a@[i as int] != b@[i as int]);
            return false;
        }
        i += 1;
    }
    assert(a@ =~= b@);
    true
}

impl SubstateOffset {
    /// Whether the two offsets name the same substate.
    pub fn same_as(&self, other: &SubstateOffset) -> (r: bool)
        ensures
            r == (self@ == other@),
    {
        match (self, other) {
            (SubstateOffset::TypeInfo(a), SubstateOffset::TypeInfo(b)) => *a == *b,
            (SubstateOffset::AccessRules(a), SubstateOffset::AccessRules(b)) => *a == *b,
            (SubstateOffset::Royalty(a), SubstateOffset::Royalty(b)) => *a == *b,
            (SubstateOffset::Package(a), SubstateOffset::Package(b)) => *a == *b,
            (SubstateOffset::AuthZoneStack(a), SubstateOffset::AuthZoneStack(b)) => *a == *b,
            (
                SubstateOffset::Metadata(MetadataOffset::Entry(a)),
                SubstateOffset::Metadata(MetadataOffset::Entry(b)),
            ) => bytes_equal(a, b),
            _ => false,
        }
    }
}

/// The auth zones of the call frames, innermost last, each holding the
/// proofs put in it.
#[derive(Clone, Debug)]
pub struct AuthZoneStackSubstate {
    pub auth_zones: Vec<Vec<NodeId>>,
}

/// A substate held by the engine while a transaction runs.
#[derive(Debug)]
pub enum RuntimeSubstate {
    TypeInfo(TypeInfoSubstate),
    MethodAccessRules(MethodAccessRulesSubstate),
    ComponentRoyaltyConfig(ComponentRoyaltyConfigSubstate),
    ComponentRoyaltyAccumulator(ComponentRoyaltyAccumulatorSubstate),
    AuthZoneStack(AuthZoneStackSubstate),
    PackageInfo(PackageInfoSubstate),
    PackageCodeType(PackageCodeTypeSubstate),
    PackageCode(PackageCodeSubstate),
    PackageRoyalty(PackageRoyaltySubstate),
    FunctionAccessRules(FunctionAccessRulesSubstate),
    PackageEventSchema(PackageEventSchemaSubstate),
    MetadataEntry(Option<ScryptoValue>),
}

/// No offset occurs twice among the entries.
pub open spec fn keys_distinct(entries: Seq<(SubstateOffset, RuntimeSubstate)>) -> bool {
    forall|i: int, j: int| 0 <= i < j < entries.len() ==> entries[i].0@ != entries[j].0@
}

/// The map that a list of entries stands for: each entry in turn is
/// inserted under the model of its offset.
pub open spec fn entries_map(entries: Seq<(SubstateOffset, RuntimeSubstate)>) -> Map<
    OffsetKey,
    RuntimeSubstate,
>
    decreases entries.len(),
{
    if entries.len() == 0 {
        Map::empty()
    } else {
        entries_map(entries.drop_last()).insert(entries.last().0@, entries.last().1)
    }
}

proof fn lemma_entries_map_replace(
    entries: Seq<(SubstateOffset, RuntimeSubstate)>,
    i: int,
    entry: (SubstateOffset, RuntimeSubstate),
)
    requires
        keys_distinct(entries),
        0 <= i < entries.len(),
        entries[i].0@ == entry.0@,
    ensures
        entries_map(entries.update(i, entry)) == entries_map(entries).insert(entry.0@, entry.1),
    decreases entries.len(),
{
    let updated = entries.update(i, entry);
    if i == entries.len() - 1 {
        assert(updated.drop_last() =~= entries.drop_last());
        assert(entries_map(updated) =~= entries_map(entries).insert(entry.0@, entry.1));
    } else {
        assert(updated.drop_last() =~= entries.drop_last().update(i, entry));
        lemma_entries_map_replace(entries.drop_last(), i, entry);
        assert(entries.last().0@ != entry.0@);
        assert(entries_map(updated) =~= entries_map(entries).insert(entry.0@, entry.1));
    }
}

/// Substates by offset. Each offset occurs in at most one entry; setting
/// an offset that is there replaces its entry in place, and a new offset
/// is added at the end.
#[derive(Debug)]
pub struct SubstateMap {
    entries: Vec<(SubstateOffset, RuntimeSubstate)>,
}

impl SubstateMap {
    #[verifier::type_invariant]
    spec fn offsets_are_distinct(self) -> bool {
        keys_distinct(self.entries@)
    }

    /// The entries, in the order in which their offsets were first set.
    pub closed spec fn entry_seq(self) -> Seq<(SubstateOffset, RuntimeSubstate)> {
        self.entries@
    }
}

impl View for SubstateMap {
    type V = Map<OffsetKey, RuntimeSubstate>;

    open spec fn view(&self) -> Map<OffsetKey, RuntimeSubstate> {
        entries_map(self.entry_seq())
    }
}

fn position_of(entries: &Vec<(SubstateOffset, RuntimeSubstate)>, offset: &SubstateOffset) -> (r:
    Option<usize>)
    ensures
        match r {
            Some(i) => i < entries.len() && entries@[i as int].0@ == offset@,
            None => forall|j: int| 0 <= j < entries.len() ==> entries@[j].0@ != offset@,
        },
{
    let mut i: usize = 0;
    while i < entries.len()
        invariant
            i <= entries.len(),
            forall|j: int| 0 <= j < i ==> entries@[j].0@ != offset@,
        decreases entries.len() - i,
    {
        if entries[i].0.same_as(offset) {
            return Some(i);
        }
        i += 1;
    }
    None
}

impl SubstateMap {
    /// The empty map.
    pub fn new() -> (r: SubstateMap)
        ensures
            r@ == Map::<OffsetKey, RuntimeSubstate>::empty(),
            r.entry_seq().len() == 0,
    {
        SubstateMap { entries: Vec::new() }
    }

    /// The entries, each offset once, in the order in which the offsets
    /// were first set.
    pub fn entries(&self) -> (r: &Vec<(SubstateOffset, RuntimeSubstate)>)
        ensures
            r@ == self.entry_seq(),
            keys_distinct(r@),
            entries_map(r@) == self@,
    {
        proof {
            use_type_invariant(self);
        }
        &self.entries
    }

    /// The number of offsets set.
    pub fn len(&self) -> (r: usize)
        ensures
            r == self.entry_seq().len(),
    {
        self.entries.len()
    }

    /// Sets the substate at `offset`: the entry for that offset is
    /// replaced where it stands, or a new entry is added at the end.
    pub fn insert(&mut self, offset: SubstateOffset, substate: RuntimeSubstate)
        ensures
            final(self)@ == old(self)@.insert(offset@, substate),
            forall|i: int|
                0 <= i < old(self).entry_seq().len() && #[trigger] old(self).entry_seq()[i].0@
                    == offset@ ==> final(self).entry_seq() == old(self).entry_seq().update(
                    i,
                    (offset, substate),
                ),
            (forall|i: int|
                0 <= i < old(self).entry_seq().len() ==> #[trigger] old(self).entry_seq()[i].0@
                    != offset@) ==> final(self).entry_seq() == old(self).entry_seq().push(
                (offset, substate),
            ),
    {
        proof {
            use_type_invariant(&*self);
        }
        let ghost key = offset@;
        let mut entries: Vec<(SubstateOffset, RuntimeSubstate)> = Vec::new();
        std::mem::swap(&mut entries, &mut self.entries);
        let ghost before = entries@;
        match position_of(&entries, &offset) {
            Some(i) => {
                entries.set(i, (offset, substate));
                proof {
                    lemma_entries_map_replace(before, i as int, (offset, substate));
                    assert(entries@ == before.update(i as int, (offset, substate)));
                }
            },
            None => {
                entries.push((offset, substate));
                proof {
                    assert(entries@.drop_last() =~= before);
                }
            },
        }
        self.entries = entries;
    }

    /// Sets every substate of `other` at its offset.
    pub fn extend(&mut self, other: SubstateMap)
        ensures
            final(self)@ == old(self)@.union_prefer_right(other@),
    {
        let ghost added = other.entry_seq();
        let SubstateMap { entries: mut rest } = other;
        let ghost start = self@;
        while rest.len() > 0
            invariant
                rest.len() <= added.len(),
                rest@ == added.skip(added.len() - rest.len()),
                self@ == start.union_prefer_right(entries_map(added.take(added.len() - rest.len()))),
            decreases rest.len(),
        {
            let ghost done = (added.len() - rest.len()) as int;
            proof {
                assert(rest@[0] == added[done]);
            }
            let (offset, substate) = rest.remove(0);
            self.insert(offset, substate);
            proof {
                assert(rest@ =~= added.skip(done + 1));
                assert(added.take(done + 1).drop_last() =~= added.take(done));
                assert(added.take(done + 1).last() == added[done]);
                assert(self@ =~= start.union_prefer_right(entries_map(added.take(done + 1))));
            }
        }
        proof {
            assert(added.take(added.len() as int) =~= added);
        }
    }
}

/// The initial substates of a module of a node.
#[derive(Debug)]
pub enum RENodeModuleInit {
    /* Type info */
    TypeInfo(TypeInfoSubstate),
    /* Metadata */
    Metadata(SubstateMap),
    /* Access rules */
    MethodAccessRules(MethodAccessRulesSubstate),
    /* Royalty */
    ComponentRoyalty(ComponentRoyaltyConfigSubstate, ComponentRoyaltyAccumulatorSubstate),
}

/// The substates of a module, by offset.
pub open spec fn module_substates(init: RENodeModuleInit) -> Map<OffsetKey, RuntimeSubstate> {
    match init {
        RENodeModuleInit::Metadata(metadata_substates) => metadata_substates@,
        RENodeModuleInit::MethodAccessRules(access_rules) => map![
            OffsetKey::AccessRules(AccessRulesOffset::AccessRules) => RuntimeSubstate::MethodAccessRules(access_rules)
        ],
        RENodeModuleInit::TypeInfo(type_info) => map![
            OffsetKey::TypeInfo(TypeInfoOffset::TypeInfo) => RuntimeSubstate::TypeInfo(type_info)
        ],
        RENodeModuleInit::ComponentRoyalty(config, accumulator) => map![
            OffsetKey::Royalty(RoyaltyOffset::RoyaltyConfig) => RuntimeSubstate::ComponentRoyaltyConfig(config),
            OffsetKey::Royalty(RoyaltyOffset::RoyaltyAccumulator) => RuntimeSubstate::ComponentRoyaltyAccumulator(accumulator)
        ],
    }
}

impl RENodeModuleInit {
    /// The module's substates, by offset.
    pub fn to_substates(self) -> (r: SubstateMap)
        ensures
            r@ == module_substates(self),
    {
        let ghost init = self;
        let mut substates = SubstateMap::new();
        match self {
            RENodeModuleInit::Metadata(metadata_substates) => {
                substates.extend(metadata_substates);
            },
            RENodeModuleInit::MethodAccessRules(access_rules) => {
                substates.insert(
                    SubstateOffset::AccessRules(AccessRulesOffset::AccessRules),
                    RuntimeSubstate::MethodAccessRules(access_rules),
                );
            },
            RENodeModuleInit::TypeInfo(type_info) => {
                substates.insert(
                    SubstateOffset::TypeInfo(TypeInfoOffset::TypeInfo),
                    RuntimeSubstate::TypeInfo(type_info),
                );
            },
            RENodeModuleInit::ComponentRoyalty(config, accumulator) => {
                substates.insert(
                    SubstateOffset::Royalty(RoyaltyOffset::RoyaltyConfig),
                    RuntimeSubstate::ComponentRoyaltyConfig(config),
                );
                substates.insert(
                    SubstateOffset::Royalty(RoyaltyOffset::RoyaltyAccumulator),
                    RuntimeSubstate::ComponentRoyaltyAccumulator(accumulator),
                );
            },
        }
        assert(substates@ =~= module_substates(init));
        substates
    }
}

/// The initial substates of a node.
#[derive(Debug)]
pub enum RENodeInit {
    GlobalObject(SubstateMap),
    Object(SubstateMap),
    PackageObject(
        PackageInfoSubstate,
        PackageCodeTypeSubstate,
        PackageCodeSubstate,
        PackageRoyaltySubstate,
        FunctionAccessRulesSubstate,
        PackageEventSchemaSubstate,
    ),
    AuthZoneStack(AuthZoneStackSubstate),
    KeyValueStore,
    NonFungibleStore,
}

/// The substates of a node, by offset.
pub open spec fn node_substates(init: RENodeInit) -> Map<OffsetKey, RuntimeSubstate> {
    match init {
        RENodeInit::AuthZoneStack(auth_zone) => map![
            OffsetKey::AuthZoneStack(AuthZoneStackOffset::AuthZoneStack) => RuntimeSubstate::AuthZoneStack(auth_zone)
        ],
        RENodeInit::GlobalObject(object_substates) => object_substates@,
        RENodeInit::Object(object_substates) => object_substates@,
        RENodeInit::KeyValueStore => Map::empty(),
        RENodeInit::NonFungibleStore => Map::empty(),
        RENodeInit::PackageObject(
            package_info,
            code_type,
            code,
            royalty,
            function_access_rules,
            event_schema,
        ) => map![
            OffsetKey::Package(PackageOffset::Info) => RuntimeSubstate::PackageInfo(package_info),
            OffsetKey::Package(PackageOffset::CodeType) => RuntimeSubstate::PackageCodeType(code_type),
            OffsetKey::Package(PackageOffset::Code) => RuntimeSubstate::PackageCode(code),
            OffsetKey::Package(PackageOffset::Royalty) => RuntimeSubstate::PackageRoyalty(royalty),
            OffsetKey::Package(PackageOffset::FunctionAccessRules) => RuntimeSubstate::FunctionAccessRules(function_access_rules),
            OffsetKey::Package(PackageOffset::EventSchema) => RuntimeSubstate::PackageEventSchema(event_schema)
        ],
    }
}

impl RENodeInit {
    /// The node's substates, by offset.
    pub fn to_substates(self) -> (r: SubstateMap)
        ensures
            r@ == node_substates(self),
    {
        let ghost init = self;
        let mut substates = SubstateMap::new();
        match self {
            RENodeInit::AuthZoneStack(auth_zone) => {
                substates.insert(
                    SubstateOffset::AuthZoneStack(AuthZoneStackOffset::AuthZoneStack),
                    RuntimeSubstate::AuthZoneStack(auth_zone),
                );
            },
            RENodeInit::GlobalObject(object_substates) | RENodeInit::Object(object_substates) => {
                substates.extend(object_substates);
            },
            RENodeInit::KeyValueStore | RENodeInit::NonFungibleStore => {},
            RENodeInit::PackageObject(
                package_info,
                code_type,
                code,
                royalty,
                function_access_rules,
                event_schema,
            ) => {
                substates.insert(
                    SubstateOffset::Package(PackageOffset::Info),
                    RuntimeSubstate::PackageInfo(package_info),
                );
                substates.insert(
                    SubstateOffset::Package(PackageOffset::CodeType),
                    RuntimeSubstate::PackageCodeType(code_type),
                );
                substates.insert(
                    SubstateOffset::Package(PackageOffset::Code),
                    RuntimeSubstate::PackageCode(code),
                );
                substates.insert(
                    SubstateOffset::Package(PackageOffset::Royalty),
                    RuntimeSubstate::PackageRoyalty(royalty),
                );
                substates.insert(
                    SubstateOffset::Package(PackageOffset::FunctionAccessRules),
                    RuntimeSubstate::FunctionAccessRules(function_access_rules),
                );
                substates.insert(
                    SubstateOffset::Package(PackageOffset::EventSchema),
                    RuntimeSubstate::PackageEventSchema(event_schema),
                );
            },
        };
        assert(substates@ =~= node_substates(init));
        substates
    }
}

/// A module's substates are exactly the parts it was given, each at its
/// own offset and unchanged: the type info as given (its package, its
/// blueprint name and whether it is global), the access rules as given,
/// the royalty configuration and royalty vault as given, and the metadata
/// entries as given.
pub proof fn lemma_module_substates_are_given(init: RENodeModuleInit)
    ensures
        init matches RENodeModuleInit::TypeInfo(t) ==> {
            let m = module_substates(init);
            let k = OffsetKey::TypeInfo(TypeInfoOffset::TypeInfo);
            &&& m.dom() == set![k]
            &&& m[k] == RuntimeSubstate::TypeInfo(t)
        },
        init matches RENodeModuleInit::MethodAccessRules(a) ==> {
            let m = module_substates(init);
            let k = OffsetKey::AccessRules(AccessRulesOffset::AccessRules);
            &&& m.dom() == set![k]
            &&& m[k] == RuntimeSubstate::MethodAccessRules(a)
        },
        init matches RENodeModuleInit::ComponentRoyalty(c, a) ==> {
            let m = module_substates(init);
            let kc = OffsetKey::Royalty(RoyaltyOffset::RoyaltyConfig);
            let ka = OffsetKey::Royalty(RoyaltyOffset::RoyaltyAccumulator);
            &&& m.dom() == set![kc, ka]
            &&& m[kc] == RuntimeSubstate::ComponentRoyaltyConfig(c)
            &&& m[ka] == RuntimeSubstate::ComponentRoyaltyAccumulator(a)
        },
        init matches RENodeModuleInit::Metadata(entries) ==> module_substates(init) == entries@,
{
}

/// A node's substates are exactly the parts it was given, each at its own
/// offset and unchanged: a package's information, code type, code,
/// royalty, function access rules and event schema as given; an auth zone
/// stack as given; an object's substates as given; none for a store.
pub proof fn lemma_node_substates_are_given(init: RENodeInit)
    ensures
        init matches RENodeInit::PackageObject(info, code_type, code, royalty, rules, events) ==> {
            let m = node_substates(init);
            let k_info = OffsetKey::Package(PackageOffset::Info);
            let k_type = OffsetKey::Package(PackageOffset::CodeType);
            let k_code = OffsetKey::Package(PackageOffset::Code);
            let k_royalty = OffsetKey::Package(PackageOffset::Royalty);
            let k_rules = OffsetKey::Package(PackageOffset::FunctionAccessRules);
            let k_events = OffsetKey::Package(PackageOffset::EventSchema);
            &&& m.dom() == set![k_info, k_type, k_code, k_royalty, k_rules, k_events]
            &&& m[k_info] == RuntimeSubstate::PackageInfo(info)
            &&& m[k_type] == RuntimeSubstate::PackageCodeType(code_type)
            &&& m[k_code] == RuntimeSubstate::PackageCode(code)
            &&& m[k_royalty] == RuntimeSubstate::PackageRoyalty(royalty)
            &&& m[k_rules] == RuntimeSubstate::FunctionAccessRules(rules)
            &&& m[k_events] == RuntimeSubstate::PackageEventSchema(events)
        },
        init matches RENodeInit::AuthZoneStack(z) ==> {
            let m = node_substates(init);
            let k = OffsetKey::AuthZoneStack(AuthZoneStackOffset::AuthZoneStack);
            &&& m.dom() == set![k]
            &&& m[k] == RuntimeSubstate::AuthZoneStack(z)
        },
        init matches RENodeInit::GlobalObject(entries) ==> node_substates(init) == entries@,
        init matches RENodeInit::Object(entries) ==> node_substates(init) == entries@,
        init is KeyValueStore ==> node_substates(init) == Map::<OffsetKey, RuntimeSubstate>::empty(),
        init is NonFungibleStore ==> node_substates(init) == Map::<OffsetKey, RuntimeSubstate>::empty(),
{
}

} // verus!
