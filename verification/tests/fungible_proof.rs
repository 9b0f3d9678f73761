use radix_engine::address::NodeId;
use radix_engine::decimal::Decimal;
use radix_engine::fungible_proof::{ContainerMethod, FungibleProof, LocalRef, ProofError};

fn node(last: u8) -> NodeId {
    let mut bytes = [0u8; 30];
    bytes[29] = last;
    NodeId(bytes)
}

fn evidence() -> Vec<(LocalRef, Decimal)> {
    vec![(LocalRef::Bucket(node(1)), Decimal::from_attos(5)), (LocalRef::Vault(node(2)), Decimal::from_attos(7))]
}

#[test]
fn empty_proof_is_refused() {
    let r = FungibleProof::new(Decimal::from_attos(0), evidence());
    assert!(matches!(r, Err(ProofError::EmptyProofNotAllowed)));
}

#[test]
fn new_proof_keeps_amount_and_evidence() {
    let p = FungibleProof::new(Decimal::from_attos(12), evidence()).unwrap();
    assert_eq!(p.amount(), Decimal::from_attos(12));
    assert_eq!(p.evidence().len(), 2);
    assert_eq!(p.evidence()[1].1, Decimal::from_attos(7));
}

#[test]
fn clone_proof_locks_each_container_again() {
    let p = FungibleProof::new(Decimal::from_attos(12), evidence()).unwrap();
    let (calls, clone) = p.clone_proof();
    assert_eq!(clone.amount(), Decimal::from_attos(12));
    assert_eq!(clone.evidence().len(), 2);
    assert!(FungibleProof::evidence_is_ordered(clone.evidence()));
    assert_eq!(calls.len(), 2);
    assert_eq!(calls[0].method, ContainerMethod::BucketLockAmount);
    assert_eq!(calls[0].amount, Decimal::from_attos(5));
    assert!(calls[0].container.same_as(&node(1)));
    assert_eq!(calls[1].method, ContainerMethod::VaultLockFungibleAmount);
    assert_eq!(calls[1].amount, Decimal::from_attos(7));
    assert!(calls[1].container.same_as(&node(2)));
    assert_eq!(calls[0].method.ident(), "lock_amount");
    assert_eq!(calls[1].method.ident(), "lock_fungible_amount");
}

#[test]
fn drop_proof_unlocks_each_container() {
    let p = FungibleProof::new(Decimal::from_attos(12), evidence()).unwrap();
    let calls = p.drop_proof();
    assert_eq!(calls.len(), 2);
    assert_eq!(calls[0].method, ContainerMethod::BucketUnlockAmount);
    assert_eq!(calls[1].method, ContainerMethod::VaultUnlockFungibleAmount);
    assert_eq!(calls[0].method.ident(), "unlock_amount");
    assert_eq!(calls[1].method.ident(), "unlock_fungible_amount");
    assert_eq!(calls[1].amount, Decimal::from_attos(7));
}

#[test]
fn drop_of_clone_undoes_clone() {
    let p = FungibleProof::new(Decimal::from_attos(12), evidence()).unwrap();
    let (locks, clone) = p.clone_proof();
    let unlocks = clone.drop_proof();
    assert_eq!(locks.len(), unlocks.len());
    for (l, u) in locks.iter().zip(unlocks.iter()) {
        assert!(l.container.same_as(&u.container));
        assert_eq!(l.amount, u.amount);
        match l.method {
            ContainerMethod::BucketLockAmount => assert_eq!(u.method, ContainerMethod::BucketUnlockAmount),
            ContainerMethod::VaultLockFungibleAmount => {
                assert_eq!(u.method, ContainerMethod::VaultUnlockFungibleAmount)
            }
            _ => panic!("not a locking method"),
        }
    }
}

#[test]
fn proof_without_evidence() {
    let p = FungibleProof::new(Decimal::from_attos(1), Vec::new()).unwrap();
    let (calls, clone) = p.clone_proof();
    assert!(calls.is_empty());
    assert!(clone.drop_proof().is_empty());
}

#[test]
fn evidence_order_is_checked() {
    assert!(FungibleProof::evidence_is_ordered(&evidence()));
    let reversed: Vec<(LocalRef, Decimal)> = evidence().into_iter().rev().collect();
    assert!(!FungibleProof::evidence_is_ordered(&reversed));
    let buckets = vec![(LocalRef::Bucket(node(1)), Decimal::from_attos(1)), (LocalRef::Bucket(node(2)), Decimal::from_attos(1))];
    assert!(FungibleProof::evidence_is_ordered(&buckets));
    let repeated = vec![(LocalRef::Vault(node(2)), Decimal::from_attos(1)), (LocalRef::Vault(node(2)), Decimal::from_attos(1))];
    assert!(!FungibleProof::evidence_is_ordered(&repeated));
    assert!(FungibleProof::evidence_is_ordered(&Vec::new()));
}

#[test]
fn container_order() {
    assert!(LocalRef::Bucket(node(9)).lt(&LocalRef::Vault(node(1))));
    assert!(!LocalRef::Vault(node(1)).lt(&LocalRef::Bucket(node(9))));
    assert!(LocalRef::Vault(node(1)).lt(&LocalRef::Vault(node(2))));
    assert!(!LocalRef::Vault(node(2)).lt(&LocalRef::Vault(node(2))));
    assert!(node(1).lt(&node(2)));
    assert!(!node(2).lt(&node(1)));
}
