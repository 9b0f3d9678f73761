//! The epoch manager's index of validators, as the index changes describe
//! it, and what each validator operation keeps of it: a validator has one
//! entry, under the key of its current stake, while it is registered and
//! holds stake, and none otherwise.
use vstd::prelude::*;
use crate::address::ComponentAddress;
use crate::decimal::Decimal;
use crate::validator::{
    ValidatorSubstate, EcdsaSecp256k1PublicKey, IndexUpdateModel, index_key, register_update,
    unregister_update, stake_update, unstake_update, key_update,
};

verus! {

/// An entry of the index: the validator's address, key and stake.
pub struct IndexEntry {
    pub primary: Seq<u8>,
    pub key: Seq<u8>,
    pub stake: Decimal,
}

/// The index after a change: an entry is created, moved to a new key with
/// a new stake, given a new public key, or removed.
pub open spec fn apply_update(index: Map<Seq<u8>, IndexEntry>, update: IndexUpdateModel) -> Map<
    Seq<u8>,
    IndexEntry,
> {
    match update {
        IndexUpdateModel::Create { index_key, primary, key, stake } => index.insert(
            index_key,
            IndexEntry { primary, key, stake },
        ),
        IndexUpdateModel::UpdateStake { index_key, new_index_key, new_stake_amount } => {
            let entry = index[index_key];
            index.remove(index_key).insert(
                new_index_key,
                IndexEntry { primary: entry.primary, key: entry.key, stake: new_stake_amount },
            )
        },
        IndexUpdateModel::UpdatePublicKey { index_key, key } => {
            let entry = index[index_key];
            index.insert(index_key, IndexEntry { primary: entry.primary, key, stake: entry.stake })
        },
        IndexUpdateModel::Remove { index_key } => index.remove(index_key),
    }
}

/// The index after an optional change.
pub open spec fn apply(index: Map<Seq<u8>, IndexEntry>, update: Option<IndexUpdateModel>) -> Map<
    Seq<u8>,
    IndexEntry,
> {
    match update {
        Some(u) => apply_update(index, u),
        None => index,
    }
}

/// The index holds the validator at `address` as it should: one entry
/// under the key of its stake, with its address, key and stake, while it
/// is registered and holds stake; no entry otherwise.
pub open spec fn tracks(
    index: Map<Seq<u8>, IndexEntry>,
    validator: ValidatorSubstate,
    stake: Decimal,
    address: ComponentAddress,
) -> bool {
    if validator.is_registered && stake.attos() != 0 {
        index == map![index_key(stake, address) => IndexEntry { primary: address@, key: validator.key.0@, stake }]
    } else {
        index == Map::<Seq<u8>, IndexEntry>::empty()
    }
}

/// Registering keeps the index in step with the validator.
pub proof fn lemma_register_keeps_index(
    index: Map<Seq<u8>, IndexEntry>,
    validator: ValidatorSubstate,
    registered: ValidatorSubstate,
    stake: Decimal,
    address: ComponentAddress,
)
    requires
        stake.attos() >= 0,
        tracks(index, validator, stake, address),
        registered == (ValidatorSubstate { is_registered: true, ..validator }),
    ensures
        tracks(apply(index, register_update(validator, stake, address)), registered, stake, address),
{
    if !validator.is_registered && stake.attos() > 0 {
        assert(apply(index, register_update(validator, stake, address)) =~= map![index_key(stake, address) => IndexEntry { primary: address@, key: validator.key.0@, stake }]);
    }
}

/// Unregistering keeps the index in step with the validator.
pub proof fn lemma_unregister_keeps_index(
    index: Map<Seq<u8>, IndexEntry>,
    validator: ValidatorSubstate,
    unregistered: ValidatorSubstate,
    stake: Decimal,
    address: ComponentAddress,
)
    requires
        stake.attos() >= 0,
        tracks(index, validator, stake, address),
        unregistered == (ValidatorSubstate { is_registered: false, ..validator }),
    ensures
        tracks(apply(index, unregister_update(validator, stake, address)), unregistered, stake, address),
{
    if validator.is_registered && stake.attos() != 0 {
        assert(apply(index, unregister_update(validator, stake, address)) =~= Map::<Seq<u8>, IndexEntry>::empty());
    }
}

/// Adding stake keeps the index in step with the validator, unless a
/// registered validator without stake is left without stake.
pub proof fn lemma_stake_keeps_index(
    index: Map<Seq<u8>, IndexEntry>,
    validator: ValidatorSubstate,
    previous_stake: Decimal,
    new_stake: Decimal,
    address: ComponentAddress,
)
    requires
        previous_stake.attos() >= 0,
        new_stake.attos() >= previous_stake.attos(),
        validator.is_registered ==> new_stake.attos() > 0,
        tracks(index, validator, previous_stake, address),
    ensures
        tracks(
            apply(index, stake_update(validator, previous_stake, new_stake, address)),
            validator,
            new_stake,
            address,
        ),
{
    let after = apply(index, stake_update(validator, previous_stake, new_stake, address));
    if validator.is_registered {
        assert(after =~= map![index_key(new_stake, address) => IndexEntry { primary: address@, key: validator.key.0@, stake: new_stake }]);
    }
}

/// Taking stake keeps the index in step with the validator.
pub proof fn lemma_unstake_keeps_index(
    index: Map<Seq<u8>, IndexEntry>,
    validator: ValidatorSubstate,
    previous_stake: Decimal,
    new_stake: Decimal,
    address: ComponentAddress,
)
    requires
        new_stake.attos() >= 0,
        previous_stake.attos() >= new_stake.attos(),
        tracks(index, validator, previous_stake, address),
    ensures
        tracks(
            apply(index, unstake_update(validator, previous_stake, new_stake, address)),
            validator,
            new_stake,
            address,
        ),
{
    let after = apply(index, unstake_update(validator, previous_stake, new_stake, address));
    if validator.is_registered {
        if new_stake.attos() == 0 {
            assert(after =~= Map::<Seq<u8>, IndexEntry>::empty());
        } else {
            assert(after =~= map![index_key(new_stake, address) => IndexEntry { primary: address@, key: validator.key.0@, stake: new_stake }]);
        }
    }
}

/// Changing the key keeps the index in step with the validator.
pub proof fn lemma_update_key_keeps_index(
    index: Map<Seq<u8>, IndexEntry>,
    validator: ValidatorSubstate,
    updated: ValidatorSubstate,
    new_key: EcdsaSecp256k1PublicKey,
    stake: Decimal,
    address: ComponentAddress,
)
    requires
        stake.attos() >= 0,
        tracks(index, validator, stake, address),
        updated == (ValidatorSubstate { key: new_key, ..validator }),
    ensures
        tracks(apply(index, key_update(validator, new_key, stake, address)), updated, stake, address),
{
    let after = apply(index, key_update(validator, new_key, stake, address));
    if validator.is_registered && stake.attos() != 0 {
        assert(after =~= map![index_key(stake, address) => IndexEntry { primary: address@, key: new_key.0@, stake }]);
    }
}

} // verus!
