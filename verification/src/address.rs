//! Node identifiers, global addresses and non-fungible identifiers, with
//! the byte payload under which an address is encoded.
use vstd::prelude::*;

verus! {

/// Number of bytes of a node id.
pub const NODE_ID_LENGTH: usize = 30;

/// Payload prefix byte of an encoded value.
pub const PAYLOAD_PREFIX: u8 = 92;

/// Value-kind byte of a reference to a node.
pub const REFERENCE_VALUE_KIND: u8 = 128;

/// Entity-type byte (the first byte of a node id) of a fungible resource manager.
pub const FUNGIBLE_RESOURCE_ENTITY: u8 = 93;

/// Entity-type byte (the first byte of a node id) of a non-fungible resource manager.
pub const NON_FUNGIBLE_RESOURCE_ENTITY: u8 = 154;

/// The id of a node of the ledger: an entity-type byte followed by 29 bytes.
#[derive(Clone, Copy, Debug)]
pub struct NodeId(pub [u8; 30]);

/// The address of a global component.
#[derive(Clone, Copy, Debug)]
pub struct ComponentAddress(pub NodeId);

/// The address of a resource manager.
#[derive(Clone, Copy, Debug)]
pub struct ResourceAddress(pub NodeId);

/// The address of a package.
#[derive(Clone, Copy, Debug)]
pub struct PackageAddress(pub NodeId);

/// A node owned by another.
#[derive(Clone, Copy, Debug)]
pub struct Own(pub NodeId);

/// The local id of a non-fungible unit within its resource.
#[derive(Clone, Debug)]
pub enum NonFungibleLocalId {
    String(String),
    Integer(u64),
    Bytes(Vec<u8>),
    UUID(u128),
}

/// A non-fungible unit: its resource and its local id.
#[derive(Clone, Debug)]
pub struct NonFungibleGlobalId {
    pub resource_address: ResourceAddress,
    pub local_id: NonFungibleLocalId,
}

impl NodeId {
    /// Whether the node is a resource manager.
    pub open spec fn spec_is_resource(self) -> bool {
        self.0[0] == FUNGIBLE_RESOURCE_ENTITY || self.0[0] == NON_FUNGIBLE_RESOURCE_ENTITY
    }

    pub fn is_resource(&self) -> (r: bool)
        ensures
            r == self.spec_is_resource(),
    {
        self.0[0] == FUNGIBLE_RESOURCE_ENTITY || self.0[0] == NON_FUNGIBLE_RESOURCE_ENTITY
    }

    /// Whether the id's bytes come before `other`'s in lexicographic order.
    pub fn lt(&self, other: &NodeId) -> (r: bool)
        ensures
            r == bytes_lt(self@, other@),
    {
        let mut i: usize = 0;
        while i < NODE_ID_LENGTH
            invariant
                i <= NODE_ID_LENGTH,
                self.0@.len() == NODE_ID_LENGTH,
                other.0@.len() == NODE_ID_LENGTH,
                self@.take(i as int) == other@.take(i as int),
            decreases NODE_ID_LENGTH - i,
        {
            if self.0[i] != other.0[i] {
                let r = self.0[i] < other.0[i];
                proof {
                    if r {
                        assert(bytes_lt(self@, other@));
                    } else {
                        assert forall|k: int|
                            0 <= k <= self@.len() && k <= other@.len() && self@.take(k) == other@.take(k)
                            implies !((k == self@.len() && k < other@.len()) || (k < self@.len() && k < other@.len() && self@[k] < other@[k])) by {
                            if k > i {
                                assert(self@.take(k)[i as int] == other@.take(k)[i as int]);
                            } else if k < i {
                                assert(self@.take(i as int)[k] == other@.take(i as int)[k]);
                            }
                        }
                    }
                }
                return r;
            }
            assert(self@.take(i + 1) == self@.take(i as int).push(self@[i as int]));
            assert(other@.take(i + 1) == other@.take(i as int).push(other@[i as int]));
            i = i + 1;
        }
        proof {
            assert(self@.take(30) == self@);
            assert(other@.take(30) == other@);
            assert forall|k: int|
                0 <= k <= self@.len() && k <= other@.len() && self@.take(k) == other@.take(k)
                implies !((k == self@.len() && k < other@.len()) || (k < self@.len() && k < other@.len() && self@[k] < other@[k])) by {
                if k < 30 {
                    assert(self@[k] == other@[k]);
                }
            }
        }
        false
    }

    /// Whether the two ids hold the same bytes.
    pub fn same_as(&self, other: &NodeId) -> (r: bool)
        ensures
            r == (self@ == other@),
    {
        let mut i: usize = 0;
        while i < NODE_ID_LENGTH
            invariant
                i <= NODE_ID_LENGTH,
                self.0@.len() == NODE_ID_LENGTH,
                other.0@.len() == NODE_ID_LENGTH,
                forall|j: int| 0 <= j < i ==> self.0@[j] == other.0@[j],
            decreases NODE_ID_LENGTH - i,
        {
            if self.0[i] != other.0[i] {
                assert(self.0@[i as int] != other.0@[i as int]);
                return false;
            }
            i = i + 1;
        }
        assert(self@ =~= other@);
        true
    }
}

/// Strict lexicographic order of byte strings.
pub open spec fn bytes_lt(a: Seq<u8>, b: Seq<u8>) -> bool {
    exists|k: int|
        0 <= k <= a.len() && k <= b.len() && a.take(k) == b.take(k) && ((k == a.len() && k
            < b.len()) || (k < a.len() && k < b.len() && a[k] < b[k]))
}

/// The encoded payload of a reference to the node with bytes `node`.
pub open spec fn reference_payload(node: Seq<u8>) -> Seq<u8> {
    seq![PAYLOAD_PREFIX, REFERENCE_VALUE_KIND] + node
}

impl NodeId {
    /// A reference to the node encoded as a payload: the prefix, the
    /// reference value kind and the node's bytes.
    pub fn encode_reference(&self) -> (r: Vec<u8>)
        ensures
            r@ == reference_payload(self@),
    {
        let mut out: Vec<u8> = Vec::new();
        out.push(PAYLOAD_PREFIX);
        out.push(REFERENCE_VALUE_KIND);
        let mut i: usize = 0;
        while i < NODE_ID_LENGTH
            invariant
                i <= NODE_ID_LENGTH,
                self.0@.len() == NODE_ID_LENGTH,
                out@ == seq![PAYLOAD_PREFIX, REFERENCE_VALUE_KIND] + self@.take(i as int),
            decreases NODE_ID_LENGTH - i,
        {
            out.push(self.0[i]);
            i = i + 1;
            assert(self@.take(i as int) == self@.take(i - 1).push(self@[i - 1]));
        }
        assert(self@.take(NODE_ID_LENGTH as int) == self@);
        out
    }
}

impl ComponentAddress {
    /// The address encoded as a payload.
    pub fn encode(&self) -> (r: Vec<u8>)
        ensures
            r@ == reference_payload(self@),
    {
        self.0.encode_reference()
    }
}

impl PackageAddress {
    /// The address encoded as a payload.
    pub fn encode(&self) -> (r: Vec<u8>)
        ensures
            r@ == reference_payload(self@),
    {
        self.0.encode_reference()
    }
}

impl ResourceAddress {
    /// The address of the node, if the node is a resource manager.
    pub fn try_from_node(node: NodeId) -> (r: Option<ResourceAddress>)
        ensures
            r is Some <==> node.spec_is_resource(),
            r matches Some(a) ==> a@ == node@,
    {
        if node.is_resource() {
            Some(ResourceAddress(node))
        } else {
            None
        }
    }

    /// Whether the two addresses are the same.
    pub fn same_as(&self, other: &ResourceAddress) -> (r: bool)
        ensures
            r == (self@ == other@),
    {
        self.0.same_as(&other.0)
    }
}

/// The model of a non-fungible local id.
pub enum LocalIdModel {
    String(Seq<char>),
    Integer(u64),
    Bytes(Seq<u8>),
    UUID(u128),
}

/// The model of a non-fungible global id: the resource's node bytes and
/// the local id.
pub struct GlobalIdModel {
    pub resource: Seq<u8>,
    pub local_id: LocalIdModel,
}

impl View for NodeId {
    type V = Seq<u8>;

    open spec fn view(&self) -> Seq<u8> {
        self.0@
    }
}

impl View for ComponentAddress {
    type V = Seq<u8>;

    open spec fn view(&self) -> Seq<u8> {
        self.0.0@
    }
}

impl View for ResourceAddress {
    type V = Seq<u8>;

    open spec fn view(&self) -> Seq<u8> {
        self.0.0@
    }
}

impl View for PackageAddress {
    type V = Seq<u8>;

    open spec fn view(&self) -> Seq<u8> {
        self.0.0@
    }
}

impl View for NonFungibleLocalId {
    type V = LocalIdModel;

    open spec fn view(&self) -> LocalIdModel {
        match self {
            NonFungibleLocalId::String(s) => LocalIdModel::String(s@),
            NonFungibleLocalId::Integer(n) => LocalIdModel::Integer(*n),
            NonFungibleLocalId::Bytes(b) => LocalIdModel::Bytes(b@),
            NonFungibleLocalId::UUID(n) => LocalIdModel::UUID(*n),
        }
    }
}

impl View for NonFungibleGlobalId {
    type V = GlobalIdModel;

    open spec fn view(&self) -> GlobalIdModel {
        GlobalIdModel { resource: self.resource_address@, local_id: self.local_id@ }
    }
}

impl NonFungibleLocalId {
    /// A copy with the same model.
    pub fn duplicate(&self) -> (r: NonFungibleLocalId)
        ensures
            r@ == self@,
    {
        match self {
            NonFungibleLocalId::String(s) => NonFungibleLocalId::String(s.clone()),
            NonFungibleLocalId::Integer(n) => NonFungibleLocalId::Integer(*n),
            NonFungibleLocalId::Bytes(b) => {
                let c = b.clone();
                assert(c@ =~= b@);
                NonFungibleLocalId::Bytes(c)
            },
            NonFungibleLocalId::UUID(n) => NonFungibleLocalId::UUID(*n),
        }
    }
}

impl NonFungibleGlobalId {
    /// A copy with the same model.
    pub fn duplicate(&self) -> (r: NonFungibleGlobalId)
        ensures
            r@ == self@,
    {
        NonFungibleGlobalId {
            resource_address: self.resource_address,
            local_id: self.local_id.duplicate(),
        }
    }
}

} // verus!
