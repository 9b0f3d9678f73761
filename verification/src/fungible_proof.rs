//! A proof of a fungible amount: the amount locked, and the containers
//! (buckets and vaults) that lock it. Cloning a proof locks the same
//! amounts again in each container; dropping one unlocks them.
use vstd::prelude::*;
use crate::address::{NodeId, bytes_lt};
use crate::decimal::Decimal;

verus! {

/// A container that can lock a fungible amount.
#[derive(Clone, Copy, Debug)]
pub enum LocalRef {
    Bucket(NodeId),
    Vault(NodeId),
}

/// The model of a container: whether it is a vault, and its node bytes.
pub struct LocalRefModel {
    pub is_vault: bool,
    pub node: Seq<u8>,
}

impl View for LocalRef {
    type V = LocalRefModel;

    open spec fn view(&self) -> LocalRefModel {
        match self {
            LocalRef::Bucket(n) => LocalRefModel { is_vault: false, node: n@ },
            LocalRef::Vault(n) => LocalRefModel { is_vault: true, node: n@ },
        }
    }
}

/// The order of containers: buckets before vaults, then by node bytes.
pub open spec fn local_ref_lt(a: LocalRefModel, b: LocalRefModel) -> bool {
    (!a.is_vault && b.is_vault) || (a.is_vault == b.is_vault && bytes_lt(a.node, b.node))
}

/// Each entry's container comes before the next entry's, as in the
/// entries of a map ordered by container.
pub open spec fn evidence_is_ordered(evidence: Seq<(LocalRef, Decimal)>) -> bool {
    forall|i: int, j: int|
        #![trigger evidence[i], evidence[j]]
        0 <= i && j == i + 1 && j < evidence.len() ==> local_ref_lt(evidence[i].0@, evidence[j].0@)
}

impl LocalRef {
    pub open spec fn spec_node_id(self) -> NodeId {
        match self {
            LocalRef::Bucket(n) => n,
            LocalRef::Vault(n) => n,
        }
    }

    /// Whether this container comes before `other`: buckets before vaults,
    /// then by node bytes.
    pub fn lt(&self, other: &LocalRef) -> (r: bool)
        ensures
            r == local_ref_lt(self@, other@),
    {
        match (self, other) {
            (LocalRef::Bucket(_), LocalRef::Vault(_)) => true,
            (LocalRef::Vault(_), LocalRef::Bucket(_)) => false,
            (LocalRef::Bucket(a), LocalRef::Bucket(b)) => a.lt(b),
            (LocalRef::Vault(a), LocalRef::Vault(b)) => a.lt(b),
        }
    }

    pub fn as_node_id(&self) -> (r: NodeId)
        ensures
            r == self.spec_node_id(),
    {
        match self {
            LocalRef::Bucket(n) => *n,
            LocalRef::Vault(n) => *n,
        }
    }
}

/// A method of a container that locks or unlocks a fungible amount.
#[derive(Clone, Copy, Debug, PartialEq, Eq, Structural)]
pub enum ContainerMethod {
    BucketLockAmount,
    VaultLockFungibleAmount,
    BucketUnlockAmount,
    VaultUnlockFungibleAmount,
}

impl ContainerMethod {
    /// The method's name.
    pub fn ident(&self) -> (r: &'static str)
        ensures
            *self == ContainerMethod::BucketLockAmount ==> r@ == "lock_amount"@,
            *self == ContainerMethod::VaultLockFungibleAmount ==> r@ == "lock_fungible_amount"@,
            *self == ContainerMethod::BucketUnlockAmount ==> r@ == "unlock_amount"@,
            *self == ContainerMethod::VaultUnlockFungibleAmount ==> r@ == "unlock_fungible_amount"@,
    {
        match self {
            ContainerMethod::BucketLockAmount => "lock_amount",
            ContainerMethod::VaultLockFungibleAmount => "lock_fungible_amount",
            ContainerMethod::BucketUnlockAmount => "unlock_amount",
            ContainerMethod::VaultUnlockFungibleAmount => "unlock_fungible_amount",
        }
    }
}

/// A call of a container's method with an amount.
#[derive(Clone, Copy, Debug)]
pub struct ContainerCall {
    pub container: NodeId,
    pub method: ContainerMethod,
    pub amount: Decimal,
}

/// The call that locks `amount` in `container`.
pub open spec fn lock_call(container: LocalRef, amount: Decimal) -> ContainerCall {
    ContainerCall {
        container: container.spec_node_id(),
        method: match container {
            LocalRef::Bucket(_) => ContainerMethod::BucketLockAmount,
            LocalRef::Vault(_) => ContainerMethod::VaultLockFungibleAmount,
        },
        amount,
    }
}

/// The call that unlocks `amount` in `container`.
pub open spec fn unlock_call(container: LocalRef, amount: Decimal) -> ContainerCall {
    ContainerCall {
        container: container.spec_node_id(),
        method: match container {
            LocalRef::Bucket(_) => ContainerMethod::BucketUnlockAmount,
            LocalRef::Vault(_) => ContainerMethod::VaultUnlockFungibleAmount,
        },
        amount,
    }
}

/// The error of a proof operation.
#[derive(Clone, Copy, Debug, PartialEq, Eq, Structural)]
pub enum ProofError {
    EmptyProofNotAllowed,
}

/// A proof of a fungible amount: the amount, and the supporting
/// containers, each with the amount it locks, in increasing order of
/// container.
#[derive(Debug)]
pub struct FungibleProof {
    total_locked: Decimal,
    evidence: Vec<(LocalRef, Decimal)>,
}

impl FungibleProof {
    #[verifier::type_invariant]
    spec fn containers_are_ordered(self) -> bool {
        evidence_is_ordered(self.evidence@)
    }

    /// The amount the proof proves.
    pub closed spec fn spec_total_locked(self) -> Decimal {
        self.total_locked
    }

    /// The supporting containers with their amounts, in order of container.
    pub closed spec fn evidence_seq(self) -> Seq<(LocalRef, Decimal)> {
        self.evidence@
    }
}

/// The calls that lock each entry's amount in its container, in order.
pub open spec fn lock_calls(evidence: Seq<(LocalRef, Decimal)>) -> Seq<ContainerCall> {
    evidence.map_values(|e: (LocalRef, Decimal)| lock_call(e.0, e.1))
}

/// The calls that unlock each entry's amount in its container, in order.
pub open spec fn unlock_calls(evidence: Seq<(LocalRef, Decimal)>) -> Seq<ContainerCall> {
    evidence.map_values(|e: (LocalRef, Decimal)| unlock_call(e.0, e.1))
}

fn copy_evidence(evidence: &Vec<(LocalRef, Decimal)>) -> (r: Vec<(LocalRef, Decimal)>)
    ensures
        r@ == evidence@,
{
    let mut out: Vec<(LocalRef, Decimal)> = Vec::new();
    let mut i: usize = 0;
    while i < evidence.len()
        invariant
            i <= evidence@.len(),
            out@ == evidence@.take(i as int),
        decreases evidence@.len() - i,
    {
        out.push(evidence[i]);
        i = i + 1;
        assert(evidence@.take(i as int) == evidence@.take(i - 1).push(evidence@[i - 1]));
    }
    assert(evidence@.take(evidence@.len() as int) == evidence@);
    out
}

impl FungibleProof {
    /// A proof of `total_locked`, supported by `evidence`; an empty proof
    /// is refused.
    pub fn new(total_locked: Decimal, evidence: Vec<(LocalRef, Decimal)>) -> (r: Result<
        FungibleProof,
        ProofError,
    >)
        requires
            evidence_is_ordered(evidence@),
        ensures
            total_locked.attos() == 0 <==> r == Err::<FungibleProof, ProofError>(
                ProofError::EmptyProofNotAllowed,
            ),
            r matches Ok(p) ==> p.spec_total_locked() == total_locked && p.evidence_seq() == evidence@,
    {
        if total_locked.is_zero() {
            return Err(ProofError::EmptyProofNotAllowed);
        }
        Ok(FungibleProof { total_locked, evidence })
    }

    /// A copy of the proof, and the calls that lock each container's
    /// amount once more for it, in order of container.
    pub fn clone_proof(&self) -> (r: (Vec<ContainerCall>, FungibleProof))
        ensures
            r.0@ == lock_calls(self.evidence_seq()),
            r.0@.len() == self.evidence_seq().len(),
            forall|i: int|
                0 <= i < self.evidence_seq().len() ==> (#[trigger] r.0@[i]).container
                    == self.evidence_seq()[i].0.spec_node_id() && r.0@[i].amount
                    == self.evidence_seq()[i].1 && r.0@[i].method == (if self.evidence_seq()[i].0 is Bucket {
                    ContainerMethod::BucketLockAmount
                } else {
                    ContainerMethod::VaultLockFungibleAmount
                }),
            r.1.spec_total_locked() == self.spec_total_locked(),
            r.1.evidence_seq() == self.evidence_seq(),
    {
        proof {
            use_type_invariant(self);
        }
        let mut calls: Vec<ContainerCall> = Vec::new();
        let mut i: usize = 0;
        while i < self.evidence.len()
            invariant
                i <= self.evidence@.len(),
                calls@ == lock_calls(self.evidence@.take(i as int)),
            decreases self.evidence@.len() - i,
        {
            let (container, locked_amount) = self.evidence[i];
            let method = match container {
                LocalRef::Bucket(_) => ContainerMethod::BucketLockAmount,
                LocalRef::Vault(_) => ContainerMethod::VaultLockFungibleAmount,
            };
            calls.push(ContainerCall { container: container.as_node_id(), method, amount: locked_amount });
            i = i + 1;
            assert(self.evidence@.take(i as int) == self.evidence@.take(i - 1).push(
                self.evidence@[i - 1],
            ));
            assert(lock_calls(self.evidence@.take(i as int)) =~= lock_calls(
                self.evidence@.take(i - 1),
            ).push(lock_call(container, locked_amount)));
        }
        assert(self.evidence@.take(self.evidence@.len() as int) == self.evidence@);
        (calls, FungibleProof { total_locked: self.total_locked, evidence: copy_evidence(&self.evidence) })
    }

    /// Whether each entry's container comes before the next entry's.
    pub fn evidence_is_ordered(evidence: &Vec<(LocalRef, Decimal)>) -> (r: bool)
        ensures
            r == evidence_is_ordered(evidence@),
    {
        let mut i: usize = 1;
        while i < evidence.len()
            invariant
                1 <= i,
                forall|k: int, j: int|
                    #![trigger evidence@[k], evidence@[j]]
                    0 <= k && j == k + 1 && j < i && j < evidence@.len() ==> local_ref_lt(
                        evidence@[k].0@,
                        evidence@[j].0@,
                    ),
            decreases evidence@.len() - i,
        {
            if !evidence[i - 1].0.lt(&evidence[i].0) {
                return false;
            }
            i = i + 1;
        }
        true
    }

    /// The calls that unlock each container's amount as the proof is
    /// dropped, in order of container.
    pub fn drop_proof(self) -> (r: Vec<ContainerCall>)
        ensures
            r@ == unlock_calls(self.evidence_seq()),
            r@.len() == self.evidence_seq().len(),
            forall|i: int|
                0 <= i < self.evidence_seq().len() ==> (#[trigger] r@[i]).container
                    == self.evidence_seq()[i].0.spec_node_id() && r@[i].amount
                    == self.evidence_seq()[i].1 && r@[i].method == (if self.evidence_seq()[i].0 is Bucket {
                    ContainerMethod::BucketUnlockAmount
                } else {
                    ContainerMethod::VaultUnlockFungibleAmount
                }),
    {
        let mut calls: Vec<ContainerCall> = Vec::new();
        let mut i: usize = 0;
        while i < self.evidence.len()
            invariant
                i <= self.evidence@.len(),
                calls@ == unlock_calls(self.evidence@.take(i as int)),
            decreases self.evidence@.len() - i,
        {
            let (container, locked_amount) = self.evidence[i];
            let method = match container {
                LocalRef::Bucket(_) => ContainerMethod::BucketUnlockAmount,
                LocalRef::Vault(_) => ContainerMethod::VaultUnlockFungibleAmount,
            };
            calls.push(ContainerCall { container: container.as_node_id(), method, amount: locked_amount });
            i = i + 1;
            assert(self.evidence@.take(i as int) == self.evidence@.take(i - 1).push(
                self.evidence@[i - 1],
            ));
            assert(unlock_calls(self.evidence@.take(i as int)) =~= unlock_calls(
                self.evidence@.take(i - 1),
            ).push(unlock_call(container, locked_amount)));
        }
        assert(self.evidence@.take(self.evidence@.len() as int) == self.evidence@);
        calls
    }

    /// The amount the proof proves.
    pub fn amount(&self) -> (r: Decimal)
        ensures
            r == self.spec_total_locked(),
    {
        self.total_locked
    }

    /// The supporting containers with their amounts, in increasing order
    /// of container.
    pub fn evidence(&self) -> (r: &Vec<(LocalRef, Decimal)>)
        ensures
            r@ == self.evidence_seq(),
            evidence_is_ordered(r@),
    {
        proof {
            use_type_invariant(self);
        }
        &self.evidence
    }
}

/// The fungible proof blueprint.
pub struct FungibleProofBlueprint;

/// Dropping a clone of a proof undoes the clone: the clone proves the same
/// amount, and its drop unlocks, container by container and in the same
/// order, exactly the amounts that cloning locked.
pub proof fn lemma_drop_of_clone_undoes_clone(proof: FungibleProof, locks: Seq<ContainerCall>, clone: FungibleProof)
    requires
        locks == lock_calls(proof.evidence_seq()),
        clone.spec_total_locked() == proof.spec_total_locked(),
        clone.evidence_seq() == proof.evidence_seq(),
    ensures
        clone.spec_total_locked() == proof.spec_total_locked(),
        unlock_calls(clone.evidence_seq()).len() == locks.len(),
        forall|i: int|
            0 <= i < locks.len() ==> {
                let u = #[trigger] unlock_calls(clone.evidence_seq())[i];
                &&& u.container == locks[i].container
                &&& u.amount == locks[i].amount
                &&& (locks[i].method == ContainerMethod::BucketLockAmount ==> u.method
                    == ContainerMethod::BucketUnlockAmount)
                &&& (locks[i].method == ContainerMethod::VaultLockFungibleAmount ==> u.method
                    == ContainerMethod::VaultUnlockFungibleAmount)
            },
{
}

/// Each call that locks or unlocks a proof's amounts goes to the entry's
/// own container with the entry's own amount, and its method is chosen by
/// the kind of that container: a bucket is locked and unlocked with the
/// bucket methods, a vault with the vault methods, wherever the entry
/// stands in the evidence.
pub proof fn lemma_calls_follow_container_kind(evidence: Seq<(LocalRef, Decimal)>)
    ensures
        lock_calls(evidence).len() == evidence.len(),
        unlock_calls(evidence).len() == evidence.len(),
        forall|i: int|
            0 <= i < evidence.len() ==> {
                let c = #[trigger] lock_calls(evidence)[i];
                &&& c.amount == evidence[i].1
                &&& (evidence[i].0 matches LocalRef::Bucket(n) ==> c.container == n && c.method
                    == ContainerMethod::BucketLockAmount)
                &&& (evidence[i].0 matches LocalRef::Vault(n) ==> c.container == n && c.method
                    == ContainerMethod::VaultLockFungibleAmount)
            },
        forall|i: int|
            0 <= i < evidence.len() ==> {
                let c = #[trigger] unlock_calls(evidence)[i];
                &&& c.amount == evidence[i].1
                &&& (evidence[i].0 matches LocalRef::Bucket(n) ==> c.container == n && c.method
                    == ContainerMethod::BucketUnlockAmount)
                &&& (evidence[i].0 matches LocalRef::Vault(n) ==> c.container == n && c.method
                    == ContainerMethod::VaultUnlockFungibleAmount)
            },
{
}

} // verus!
