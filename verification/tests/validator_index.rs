use radix_engine::address::{ComponentAddress, NodeId, Own, ResourceAddress};
use radix_engine::decimal::Decimal;
use radix_engine::validator::{EcdsaSecp256k1PublicKey, UpdateSecondaryIndex, ValidatorBlueprint, ValidatorSubstate};
use std::collections::BTreeMap;

const ONE: i128 = 1_000_000_000_000_000_000;

fn units(n: i128) -> Decimal {
    Decimal::from_attos(n * ONE)
}

fn node(entity: u8, last: u8) -> NodeId {
    let mut bytes = [0u8; 30];
    bytes[0] = entity;
    bytes[29] = last;
    NodeId(bytes)
}

fn address() -> ComponentAddress {
    ComponentAddress(node(131, 9))
}

/// An index entry: public key bytes and stake.
type Index = BTreeMap<Vec<u8>, (Vec<u8>, Decimal)>;

fn apply(index: &mut Index, update: Option<UpdateSecondaryIndex>) {
    match update {
        Some(UpdateSecondaryIndex::Create { index_key, key, stake, .. }) => {
            index.insert(index_key, (key.0.to_vec(), stake));
        }
        Some(UpdateSecondaryIndex::UpdateStake { index_key, new_index_key, new_stake_amount }) => {
            let (key, _) = index.remove(&index_key).expect("entry to move");
            index.insert(new_index_key, (key, new_stake_amount));
        }
        Some(UpdateSecondaryIndex::UpdatePublicKey { index_key, key }) => {
            index.get_mut(&index_key).expect("entry to update").0 = key.0.to_vec();
        }
        Some(UpdateSecondaryIndex::Remove { index_key }) => {
            index.remove(&index_key);
        }
        None => {}
    }
}

fn holds_only(index: &Index, stake: Decimal) -> bool {
    index.len() == 1 && index.get(&ValidatorBlueprint::to_index_key(stake, address())).map(|e| e.1) == Some(stake)
}

#[test]
fn index_follows_validator_through_its_life() {
    let mut validator = ValidatorSubstate {
        key: EcdsaSecp256k1PublicKey([2u8; 33]),
        is_registered: false,
        unstake_nft: ResourceAddress(node(154, 1)),
        liquidity_token: ResourceAddress(node(93, 2)),
        stake_xrd_vault_id: Own(node(88, 3)),
        pending_xrd_withdraw_vault_id: Own(node(88, 4)),
    };
    let mut index = Index::new();

    // register with no stake: no entry
    let outcome = ValidatorBlueprint::register(&validator, Decimal::from_attos(0), address());
    validator = outcome.new_state.unwrap();
    apply(&mut index, outcome.index_update);
    assert!(index.is_empty());

    // stake 10: one entry under the key of 10
    apply(&mut index, ValidatorBlueprint::stake_index_update(&validator, Decimal::from_attos(0), units(10), address()));
    assert!(holds_only(&index, units(10)));

    // stake 5 more: the entry moves to the key of 15
    apply(&mut index, ValidatorBlueprint::stake_index_update(&validator, units(10), units(15), address()));
    assert!(holds_only(&index, units(15)));

    // new key: same entry, new key
    let (updated, update) = ValidatorBlueprint::update_key(&validator, EcdsaSecp256k1PublicKey([9u8; 33]), units(15), address());
    validator = updated;
    apply(&mut index, update);
    assert!(holds_only(&index, units(15)));
    assert_eq!(index.values().next().unwrap().0, vec![9u8; 33]);

    // unstake 4: the entry moves to the key of 11
    apply(&mut index, ValidatorBlueprint::unstake_index_update(&validator, units(15), units(11), address()));
    assert!(holds_only(&index, units(11)));

    // unregister: the entry leaves
    let outcome = ValidatorBlueprint::unregister(&validator, units(11), address());
    validator = outcome.new_state.unwrap();
    apply(&mut index, outcome.index_update);
    assert!(index.is_empty());

    // re-register with stake: the entry comes back
    let outcome = ValidatorBlueprint::register(&validator, units(11), address());
    validator = outcome.new_state.unwrap();
    apply(&mut index, outcome.index_update);
    assert!(holds_only(&index, units(11)));

    // unstake everything: the entry leaves
    apply(&mut index, ValidatorBlueprint::unstake_index_update(&validator, units(11), Decimal::from_attos(0), address()));
    assert!(index.is_empty());
}

#[test]
fn staking_nothing_into_a_registered_validator_without_stake_leaves_an_entry() {
    // the one case the index laws leave out: an entry with no stake appears
    let validator = ValidatorSubstate {
        key: EcdsaSecp256k1PublicKey([2u8; 33]),
        is_registered: true,
        unstake_nft: ResourceAddress(node(154, 1)),
        liquidity_token: ResourceAddress(node(93, 2)),
        stake_xrd_vault_id: Own(node(88, 3)),
        pending_xrd_withdraw_vault_id: Own(node(88, 4)),
    };
    let mut index = Index::new();
    apply(&mut index, ValidatorBlueprint::stake_index_update(&validator, Decimal::from_attos(0), Decimal::from_attos(0), address()));
    assert_eq!(index.len(), 1);
    let outcome = ValidatorBlueprint::unregister(&validator, Decimal::from_attos(0), address());
    apply(&mut index, outcome.index_update);
    assert_eq!(index.len(), 1);
}
