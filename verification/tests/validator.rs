use radix_engine::access_rule::{AccessRule, AccessRuleEntry};
use radix_engine::address::{ComponentAddress, NodeId, Own, ResourceAddress};
use radix_engine::decimal::Decimal;
use radix_engine::validator::{
    EcdsaSecp256k1PublicKey, UnstakeData, UpdateSecondaryIndex, ValidatorBlueprint,
    ValidatorError, ValidatorSubstate,
};
use radix_engine::validator_access::{
    MethodType, ResourceMethodAuthKey, SecurifiedValidator, ValidatorCreator, LIQUIDITY_TOKEN_DIVISIBILITY,
};

const ONE: i128 = 1_000_000_000_000_000_000;

fn units(n: i128) -> Decimal {
    Decimal::from_attos(n * ONE)
}

fn node(entity: u8, last: u8) -> NodeId {
    let mut bytes = [0u8; 30];
    bytes[0] = entity;
    bytes[29] = last;
    NodeId(bytes)
}

fn validator(registered: bool) -> ValidatorSubstate {
    ValidatorSubstate {
        key: EcdsaSecp256k1PublicKey([2u8; 33]),
        is_registered: registered,
        unstake_nft: ResourceAddress(node(154, 1)),
        liquidity_token: ResourceAddress(node(93, 2)),
        stake_xrd_vault_id: Own(node(88, 3)),
        pending_xrd_withdraw_vault_id: Own(node(88, 4)),
    }
}

fn address() -> ComponentAddress {
    ComponentAddress(node(131, 9))
}

fn key_of(stake: Decimal) -> Vec<u8> {
    ValidatorBlueprint::to_index_key(stake, address())
}

#[test]
fn index_key_layout() {
    let key = key_of(Decimal::from_attos(0));
    assert_eq!(key.len(), 64);
    assert_eq!(key[..32], Decimal::max_value().to_be_bytes()[..]);
    assert_eq!(key[32..], address().encode()[..]);
    let key = key_of(Decimal::max_value());
    assert_eq!(key[..32], [0u8; 32]);
    let mut expected = vec![0x7fu8];
    expected.extend(vec![0xffu8; 30]);
    expected.push(0xfe);
    assert_eq!(key_of(Decimal::from_attos(1))[..32], expected[..]);
}

#[test]
fn index_key_orders_by_stake() {
    let small = key_of(units(10));
    let large = key_of(units(1000));
    assert!(large < small);
    let other = ValidatorBlueprint::to_index_key(units(1000), ComponentAddress(node(1, 1)));
    assert!(other < small);
}

#[test]
fn register_unregistered_with_stake() {
    let v = validator(false);
    let outcome = ValidatorBlueprint::register(&v, units(50), address());
    assert!(outcome.emits_event);
    assert!(outcome.new_state.unwrap().is_registered);
    match outcome.index_update {
        Some(UpdateSecondaryIndex::Create { index_key, primary, key, stake }) => {
            assert_eq!(index_key, key_of(units(50)));
            assert!(primary.0.same_as(&address().0));
            assert_eq!(key.0, v.key.0);
            assert_eq!(stake, units(50));
        }
        _ => panic!("expected a new index entry"),
    }
}

#[test]
fn register_without_stake_adds_no_entry() {
    let outcome = ValidatorBlueprint::register(&validator(false), Decimal::from_attos(0), address());
    assert!(outcome.emits_event);
    assert!(outcome.new_state.is_some());
    assert!(outcome.index_update.is_none());
}

#[test]
fn register_twice_changes_nothing() {
    let outcome = ValidatorBlueprint::register(&validator(true), units(50), address());
    assert!(!outcome.emits_event);
    assert!(outcome.new_state.is_none());
    assert!(outcome.index_update.is_none());
}

#[test]
fn unregister_registered_with_stake() {
    let outcome = ValidatorBlueprint::unregister(&validator(true), units(50), address());
    assert!(outcome.emits_event);
    assert!(!outcome.new_state.unwrap().is_registered);
    match outcome.index_update {
        Some(UpdateSecondaryIndex::Remove { index_key }) => assert_eq!(index_key, key_of(units(50))),
        _ => panic!("expected the entry to leave the index"),
    }
}

#[test]
fn unregister_without_stake_or_registration() {
    let outcome = ValidatorBlueprint::unregister(&validator(true), Decimal::from_attos(0), address());
    assert!(outcome.emits_event);
    assert!(outcome.index_update.is_none());
    let outcome = ValidatorBlueprint::unregister(&validator(false), units(3), address());
    assert!(!outcome.emits_event);
    assert!(outcome.new_state.is_none());
    assert!(outcome.index_update.is_none());
}

#[test]
fn unregister_undoes_register() {
    let v = validator(false);
    let registered = ValidatorBlueprint::register(&v, units(50), address());
    let state = registered.new_state.unwrap();
    let unregistered = ValidatorBlueprint::unregister(&state, units(50), address());
    let back = unregistered.new_state.unwrap();
    assert!(!back.is_registered);
    assert_eq!(back.key.0, v.key.0);
    let created = match registered.index_update {
        Some(UpdateSecondaryIndex::Create { index_key, .. }) => index_key,
        _ => panic!("expected a new index entry"),
    };
    let removed = match unregistered.index_update {
        Some(UpdateSecondaryIndex::Remove { index_key }) => index_key,
        _ => panic!("expected the entry to leave the index"),
    };
    assert_eq!(created, removed);
}

#[test]
fn stake_into_empty_pool_mints_the_stake() {
    assert_eq!(ValidatorBlueprint::stake_mint_amount(units(100), units(0), units(0)), units(100));
}

#[test]
fn stake_mints_share_of_units() {
    // 100 staked into a pool of 400 backed by 200 units mints 50 units
    assert_eq!(ValidatorBlueprint::stake_mint_amount(units(100), units(200), units(400)), units(50));
    // 1 staked into a pool of 3 backed by 1 unit mints a third of a unit
    assert_eq!(
        ValidatorBlueprint::stake_mint_amount(units(1), units(1), units(3)),
        Decimal::from_attos(333_333_333_333_333_333)
    );
}

#[test]
fn unstake_returns_share_of_stake() {
    assert_eq!(ValidatorBlueprint::unstake_amount(units(50), units(500), units(250)), units(100));
    assert_eq!(ValidatorBlueprint::unstake_amount(units(50), units(500), units(0)), units(0));
}

#[test]
fn stake_into_large_pool() {
    // 2 * 10^10 units staked into a pool of 2 * 10^10 units backed by as
    // many liquidity units: the intermediate product is 4 * 10^38 attos
    let n = units(20_000_000_000);
    assert_eq!(ValidatorBlueprint::stake_mint_amount(n, n, n), n);
    assert_eq!(ValidatorBlueprint::unstake_amount(n, n, n), n);
}

#[test]
fn stake_then_unstake_returns_at_most_stake() {
    let (x, s, a) = (units(1), units(1), units(3));
    let minted = ValidatorBlueprint::stake_mint_amount(x, s, a);
    let returned = ValidatorBlueprint::unstake_amount(
        minted,
        a.checked_add(x).unwrap(),
        s.checked_add(minted).unwrap(),
    );
    assert!(!x.checked_sub(returned).unwrap().is_negative());
    assert_eq!(returned, Decimal::from_attos(999_999_999_999_999_999));
}

#[test]
fn stake_outcome_of_a_registered_validator() {
    let v = validator(true);
    // first stake: the validator enters the index with its new stake
    let first = ValidatorBlueprint::stake(&v, units(100), units(0), units(0), address());
    assert_eq!(first.lp_mint_amount, units(100));
    assert_eq!(first.new_stake_amount, units(100));
    match first.index_update {
        Some(UpdateSecondaryIndex::Create { index_key, stake, primary, key }) => {
            assert_eq!(index_key, key_of(units(100)));
            assert_eq!(stake, units(100));
            assert!(primary.0.same_as(&address().0));
            assert_eq!(key.0, v.key.0);
        }
        _ => panic!("expected a new index entry"),
    }
    // more stake: the entry moves from the old stake to the new one
    let more = ValidatorBlueprint::stake(&v, units(100), units(200), units(400), address());
    assert_eq!(more.lp_mint_amount, units(50));
    assert_eq!(more.new_stake_amount, units(500));
    match more.index_update {
        Some(UpdateSecondaryIndex::UpdateStake { index_key, new_index_key, new_stake_amount }) => {
            assert_eq!(index_key, key_of(units(400)));
            assert_eq!(new_index_key, key_of(units(500)));
            assert_eq!(new_stake_amount, units(500));
        }
        _ => panic!("expected the entry to move"),
    }
}

#[test]
fn stake_outcome_of_an_unregistered_validator() {
    let outcome = ValidatorBlueprint::stake(&validator(false), units(100), units(200), units(400), address());
    assert_eq!(outcome.lp_mint_amount, units(50));
    assert_eq!(outcome.new_stake_amount, units(500));
    assert!(outcome.index_update.is_none());
}

#[test]
fn unstake_outcome_of_a_registered_validator() {
    let v = validator(true);
    // 50 of 250 units out of a stake of 500 returns 100, unlocking at 10 + 5
    let outcome = ValidatorBlueprint::unstake(&v, units(50), units(500), units(250), 10, 5, address());
    assert_eq!(outcome.xrd_amount, units(100));
    assert_eq!(outcome.receipt.epoch_unlocked(), 15);
    assert_eq!(outcome.receipt.amount(), units(100));
    assert_eq!(outcome.new_stake_amount, units(400));
    match outcome.index_update {
        Some(UpdateSecondaryIndex::UpdateStake { index_key, new_index_key, new_stake_amount }) => {
            assert_eq!(index_key, key_of(units(500)));
            assert_eq!(new_index_key, key_of(units(400)));
            assert_eq!(new_stake_amount, units(400));
        }
        _ => panic!("expected the entry to move"),
    }
    // all units out: the whole stake leaves and so does the entry
    let all = ValidatorBlueprint::unstake(&v, units(250), units(500), units(250), 10, 5, address());
    assert_eq!(all.xrd_amount, units(500));
    assert!(all.new_stake_amount.is_zero());
    match all.index_update {
        Some(UpdateSecondaryIndex::Remove { index_key }) => assert_eq!(index_key, key_of(units(500))),
        _ => panic!("expected the entry to leave"),
    }
}

#[test]
fn unstake_outcome_of_an_unregistered_validator() {
    let outcome = ValidatorBlueprint::unstake(&validator(false), units(50), units(500), units(0), 7, 3, address());
    assert!(outcome.xrd_amount.is_zero());
    assert_eq!(outcome.receipt.epoch_unlocked(), 10);
    assert!(outcome.receipt.amount().is_zero());
    assert_eq!(outcome.new_stake_amount, units(500));
    assert!(outcome.index_update.is_none());
}

#[test]
fn claim_resource_check() {
    let nft = ResourceAddress(node(154, 1));
    assert_eq!(ValidatorBlueprint::check_claim_resource(nft, nft), Ok(()));
    assert_eq!(
        ValidatorBlueprint::check_claim_resource(nft, ResourceAddress(node(154, 2))),
        Err(ValidatorError::InvalidClaimResource)
    );
}

#[test]
fn stake_index_update_cases() {
    let v = validator(true);
    match ValidatorBlueprint::stake_index_update(&v, Decimal::from_attos(0), units(5), address()) {
        Some(UpdateSecondaryIndex::Create { index_key, stake, .. }) => {
            assert_eq!(index_key, key_of(units(5)));
            assert_eq!(stake, units(5));
        }
        _ => panic!("expected a new entry"),
    }
    match ValidatorBlueprint::stake_index_update(&v, units(5), units(8), address()) {
        Some(UpdateSecondaryIndex::UpdateStake { index_key, new_index_key, new_stake_amount }) => {
            assert_eq!(index_key, key_of(units(5)));
            assert_eq!(new_index_key, key_of(units(8)));
            assert_eq!(new_stake_amount, units(8));
        }
        _ => panic!("expected the entry to move"),
    }
    assert!(ValidatorBlueprint::stake_index_update(&validator(false), units(5), units(8), address()).is_none());
}

#[test]
fn unstake_index_update_cases() {
    let v = validator(true);
    match ValidatorBlueprint::unstake_index_update(&v, units(5), Decimal::from_attos(0), address()) {
        Some(UpdateSecondaryIndex::Remove { index_key }) => assert_eq!(index_key, key_of(units(5))),
        _ => panic!("expected the entry to leave"),
    }
    match ValidatorBlueprint::unstake_index_update(&v, units(5), units(2), address()) {
        Some(UpdateSecondaryIndex::UpdateStake { index_key, new_index_key, new_stake_amount }) => {
            assert_eq!(index_key, key_of(units(5)));
            assert_eq!(new_index_key, key_of(units(2)));
            assert_eq!(new_stake_amount, units(2));
        }
        _ => panic!("expected the entry to move"),
    }
    assert!(ValidatorBlueprint::unstake_index_update(&validator(false), units(5), units(2), address()).is_none());
}

#[test]
fn unstake_data_unlocks_later() {
    let data = ValidatorBlueprint::unstake_data(10, 5, units(3));
    assert_eq!(data.epoch_unlocked(), 15);
    assert_eq!(data.amount(), units(3));
}

#[test]
fn claim_xrd_sums_unlocked_receipts() {
    let nft = ResourceAddress(node(154, 1));
    let claims = vec![UnstakeData::new(3, units(2)), UnstakeData::new(5, units(4))];
    assert_eq!(ValidatorBlueprint::claim_xrd(nft, nft, 5, &claims), Ok(units(6)));
    assert_eq!(ValidatorBlueprint::claim_xrd(nft, nft, 9, &Vec::new()), Ok(units(0)));
}

#[test]
fn claim_xrd_refuses_locked_receipts() {
    let nft = ResourceAddress(node(154, 1));
    let claims = vec![UnstakeData::new(3, units(2)), UnstakeData::new(6, units(4))];
    assert_eq!(
        ValidatorBlueprint::claim_xrd(nft, nft, 5, &claims),
        Err(ValidatorError::EpochUnlockHasNotOccurredYet)
    );
}

#[test]
fn claim_xrd_refuses_other_resources() {
    let nft = ResourceAddress(node(154, 1));
    let other = ResourceAddress(node(154, 2));
    let claims = vec![UnstakeData::new(3, units(2))];
    assert_eq!(
        ValidatorBlueprint::claim_xrd(nft, other, 5, &claims),
        Err(ValidatorError::InvalidClaimResource)
    );
}

#[test]
fn update_key_cases() {
    let new_key = EcdsaSecp256k1PublicKey([7u8; 33]);
    let (state, update) = ValidatorBlueprint::update_key(&validator(true), new_key, units(4), address());
    assert_eq!(state.key.0, [7u8; 33]);
    assert!(state.is_registered);
    match update {
        Some(UpdateSecondaryIndex::UpdatePublicKey { index_key, key }) => {
            assert_eq!(index_key, key_of(units(4)));
            assert_eq!(key.0, [7u8; 33]);
        }
        _ => panic!("expected the entry's key to change"),
    }
    let (_, update) = ValidatorBlueprint::update_key(&validator(true), new_key, Decimal::from_attos(0), address());
    assert!(update.is_none());
    let (state, update) = ValidatorBlueprint::update_key(&validator(false), new_key, units(4), address());
    assert!(update.is_none());
    assert_eq!(state.key.0, [7u8; 33]);
}

#[test]
fn accept_delegated_stake_rule() {
    assert!(matches!(
        ValidatorBlueprint::update_accept_delegated_stake(true),
        AccessRuleEntry::AccessRule(AccessRule::AllowAll)
    ));
    assert!(matches!(
        ValidatorBlueprint::update_accept_delegated_stake(false),
        AccessRuleEntry::Group(ref g) if g == "owner"
    ));
}

#[test]
fn non_owner_methods_of_validator() {
    let methods = SecurifiedValidator::non_owner_methods();
    assert_eq!(methods.len(), 3);
    assert_eq!(methods[0].0, "unstake");
    assert!(matches!(methods[0].1, MethodType::Public));
    assert_eq!(methods[1].0, "claim_xrd");
    assert!(matches!(methods[1].1, MethodType::Public));
    assert_eq!(methods[2].0, "stake");
    assert!(matches!(
        methods[2].1,
        MethodType::Custom(AccessRuleEntry::Group(ref g), AccessRuleEntry::AccessRule(AccessRule::Protected(_))) if g == "owner"
    ));
}

#[test]
fn token_auth_rules() {
    let auth = ValidatorCreator::token_auth();
    let keys: Vec<ResourceMethodAuthKey> = auth.iter().map(|e| e.0).collect();
    assert_eq!(
        keys,
        vec![
            ResourceMethodAuthKey::Mint,
            ResourceMethodAuthKey::Burn,
            ResourceMethodAuthKey::Withdraw,
            ResourceMethodAuthKey::Deposit
        ]
    );
    assert!(matches!(auth[0].1, (AccessRule::Protected(_), AccessRule::DenyAll)));
    assert!(matches!(auth[2].1, (AccessRule::AllowAll, AccessRule::DenyAll)));
}

#[test]
fn claims_that_cannot_be_totalled() {
    let claims = vec![UnstakeData::new(1, Decimal::max_value()), UnstakeData::new(1, Decimal::from_attos(1))];
    assert!(!ValidatorBlueprint::claims_can_be_totalled(&claims, 5));
    // a locked receipt stops the adding up before it overflows
    let claims = vec![UnstakeData::new(1, Decimal::max_value()), UnstakeData::new(9, Decimal::from_attos(1))];
    assert!(ValidatorBlueprint::claims_can_be_totalled(&claims, 5));
    let claims = vec![UnstakeData::new(1, units(2)), UnstakeData::new(1, units(3))];
    assert!(ValidatorBlueprint::claims_can_be_totalled(&claims, 5));
}

#[test]
fn initial_state_of_a_new_validator() {
    let key = EcdsaSecp256k1PublicKey([3u8; 33]);
    let state = ValidatorCreator::initial_state(
        key,
        ResourceAddress(node(93, 2)),
        ResourceAddress(node(154, 1)),
        Own(node(88, 3)),
        Own(node(88, 4)),
        true,
    );
    assert!(state.is_registered);
    assert_eq!(state.key.0, key.0);
    assert!(state.liquidity_token.same_as(&ResourceAddress(node(93, 2))));
    assert!(state.unstake_nft.same_as(&ResourceAddress(node(154, 1))));
    assert!(state.stake_xrd_vault_id.0.same_as(&node(88, 3)));
    assert!(state.pending_xrd_withdraw_vault_id.0.same_as(&node(88, 4)));
    assert_eq!(LIQUIDITY_TOKEN_DIVISIBILITY, 18);
}
