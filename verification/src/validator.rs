//! A validator of the consensus layer: its state, and the decisions taken
//! when it registers, unregisters, takes or returns stake, hands out
//! unstaked amounts and changes its key. The epoch manager keeps a
//! secondary index of registered validators keyed by `to_index_key`, under
//! which validators with more stake come first.
use vstd::prelude::*;
use crate::address::{ComponentAddress, ResourceAddress, Own, reference_payload, bytes_lt};
use crate::decimal::{
    Decimal, be_bytes, byte_power, decimal_bound, in_decimal_range, mul_attos, div_attos,
    lemma_attos_identifies, lemma_be_bytes_len, lemma_shift_below_power,
};
use crate::wide::word_base;

verus! {

/// A compressed public key of a validator.
#[derive(Clone, Copy, Debug)]
pub struct EcdsaSecp256k1PublicKey(pub [u8; 33]);

/// The state of a validator.
#[derive(Clone, Copy, Debug)]
pub struct ValidatorSubstate {
    pub key: EcdsaSecp256k1PublicKey,
    pub is_registered: bool,
    pub unstake_nft: ResourceAddress,
    pub liquidity_token: ResourceAddress,
    pub stake_xrd_vault_id: Own,
    pub pending_xrd_withdraw_vault_id: Own,
}

/// The data of an unstake receipt: when the amount can be claimed, and
/// the amount.
#[derive(Clone, Copy, Debug)]
pub struct UnstakeData {
    epoch_unlocked: u64,
    amount: Decimal,
}

/// The errors of validator methods.
#[derive(Clone, Copy, Debug, PartialEq, Eq, Structural)]
pub enum ValidatorError {
    InvalidClaimResource,
    EpochUnlockHasNotOccurredYet,
}

/// The validator blueprint.
pub struct ValidatorBlueprint;

/// A change to the epoch manager's index of registered validators.
#[derive(Clone, Debug)]
pub enum UpdateSecondaryIndex {
    Create {
        index_key: Vec<u8>,
        primary: ComponentAddress,
        key: EcdsaSecp256k1PublicKey,
        stake: Decimal,
    },
    UpdateStake { index_key: Vec<u8>, new_index_key: Vec<u8>, new_stake_amount: Decimal },
    UpdatePublicKey { index_key: Vec<u8>, key: EcdsaSecp256k1PublicKey },
    Remove { index_key: Vec<u8> },
}

/// The model of an index change: keys as byte strings, addresses and
/// public keys as their bytes.
pub enum IndexUpdateModel {
    Create { index_key: Seq<u8>, primary: Seq<u8>, key: Seq<u8>, stake: Decimal },
    UpdateStake { index_key: Seq<u8>, new_index_key: Seq<u8>, new_stake_amount: Decimal },
    UpdatePublicKey { index_key: Seq<u8>, key: Seq<u8> },
    Remove { index_key: Seq<u8> },
}

impl View for UpdateSecondaryIndex {
    type V = IndexUpdateModel;

    open spec fn view(&self) -> IndexUpdateModel {
        match self {
            UpdateSecondaryIndex::Create { index_key, primary, key, stake } => IndexUpdateModel::Create {
                index_key: index_key@,
                primary: primary@,
                key: key.0@,
                stake: *stake,
            },
            UpdateSecondaryIndex::UpdateStake { index_key, new_index_key, new_stake_amount } => {
                IndexUpdateModel::UpdateStake {
                    index_key: index_key@,
                    new_index_key: new_index_key@,
                    new_stake_amount: *new_stake_amount,
                }
            },
            UpdateSecondaryIndex::UpdatePublicKey { index_key, key } => {
                IndexUpdateModel::UpdatePublicKey { index_key: index_key@, key: key.0@ }
            },
            UpdateSecondaryIndex::Remove { index_key } => IndexUpdateModel::Remove {
                index_key: index_key@,
            },
        }
    }
}

/// The index key of a validator with `stake` at `address`: the amount by
/// which the stake falls short of the largest amount, as 32 big-endian
/// bytes, followed by the encoded address.
pub open spec fn index_key(stake: Decimal, address: ComponentAddress) -> Seq<u8> {
    be_bytes((decimal_bound() - 1 - stake.attos()) as nat, 32) + reference_payload(address@)
}

/// The number of liquidity units minted for `stake_amount` staked into a
/// pool of `active_stake` backed by `total_lp_supply` units: the stake
/// itself for an empty pool, else its share of the units.
pub open spec fn spec_stake_mint_amount(
    stake_amount: Decimal,
    total_lp_supply: Decimal,
    active_stake: Decimal,
) -> int {
    if active_stake.attos() == 0 {
        stake_amount.attos()
    } else {
        div_attos(mul_attos(stake_amount.attos(), total_lp_supply.attos()), active_stake.attos())
    }
}

/// The stake returned for `lp_amount` liquidity units out of a pool of
/// `active_stake` backed by `total_lp_supply` units: nothing when there are
/// no units, else the units' share of the stake.
pub open spec fn spec_unstake_amount(
    lp_amount: Decimal,
    active_stake: Decimal,
    total_lp_supply: Decimal,
) -> int {
    if total_lp_supply.attos() == 0 {
        0
    } else {
        div_attos(mul_attos(lp_amount.attos(), active_stake.attos()), total_lp_supply.attos())
    }
}

/// The sum of the amounts of the receipts.
pub open spec fn claims_total(claims: Seq<UnstakeData>) -> int
    decreases claims.len(),
{
    if claims.len() == 0 {
        0
    } else {
        claims_total(claims.drop_last()) + claims.last().spec_amount().attos()
    }
}

/// Every receipt can be claimed at `epoch`.
pub open spec fn all_unlocked(claims: Seq<UnstakeData>, epoch: u64) -> bool {
    forall|i: int| 0 <= i < claims.len() ==> #[trigger] claims[i].spec_epoch_unlocked() <= epoch
}

/// Each running total that is added up fits in an amount: that of each
/// prefix of receipts that can all be claimed.
pub open spec fn claim_totals_fit(claims: Seq<UnstakeData>, epoch: u64) -> bool {
    forall|k: int|
        0 <= k <= claims.len() && all_unlocked(claims.take(k), epoch) ==> in_decimal_range(
            #[trigger] claims_total(claims.take(k)),
        )
}

impl UnstakeData {
    pub closed spec fn spec_epoch_unlocked(self) -> u64 {
        self.epoch_unlocked
    }

    pub closed spec fn spec_amount(self) -> Decimal {
        self.amount
    }

    pub fn new(epoch_unlocked: u64, amount: Decimal) -> (r: UnstakeData)
        ensures
            r.spec_epoch_unlocked() == epoch_unlocked,
            r.spec_amount() == amount,
    {
        UnstakeData { epoch_unlocked, amount }
    }

    pub fn epoch_unlocked(&self) -> (r: u64)
        ensures
            r == self.spec_epoch_unlocked(),
    {
        self.epoch_unlocked
    }

    pub fn amount(&self) -> (r: Decimal)
        ensures
            r == self.spec_amount(),
    {
        self.amount
    }
}

/// What registering a validator does.
#[derive(Clone, Debug)]
pub struct RegisterOutcome {
    /// The state written, if any.
    pub new_state: Option<ValidatorSubstate>,
    /// The change to the index, if any.
    pub index_update: Option<UpdateSecondaryIndex>,
    /// Whether the registration event is emitted.
    pub emits_event: bool,
}

/// What unregistering a validator does.
#[derive(Clone, Debug)]
pub struct UnregisterOutcome {
    /// The state written, if any.
    pub new_state: Option<ValidatorSubstate>,
    /// The change to the index, if any.
    pub index_update: Option<UpdateSecondaryIndex>,
    /// Whether the unregistration event is emitted.
    pub emits_event: bool,
}

/// What staking into a validator does.
#[derive(Clone, Debug)]
pub struct StakeOutcome {
    /// The liquidity units minted for the stake.
    pub lp_mint_amount: Decimal,
    /// The validator's stake once the staked amount is in its vault.
    pub new_stake_amount: Decimal,
    /// The change to the index, if any.
    pub index_update: Option<UpdateSecondaryIndex>,
}

/// What unstaking from a validator does.
#[derive(Clone, Debug)]
pub struct UnstakeOutcome {
    /// The stake taken out of the stake vault into the pending vault.
    pub xrd_amount: Decimal,
    /// The receipt minted for it.
    pub receipt: UnstakeData,
    /// The validator's stake once the amount is taken out.
    pub new_stake_amount: Decimal,
    /// The change to the index, if any.
    pub index_update: Option<UpdateSecondaryIndex>,
}

/// `s` is `v` with its registration set to `registered`.
pub open spec fn with_registration(s: ValidatorSubstate, v: ValidatorSubstate, registered: bool) -> bool {
    &&& s.is_registered == registered
    &&& s.key == v.key
    &&& s.unstake_nft == v.unstake_nft
    &&& s.liquidity_token == v.liquidity_token
    &&& s.stake_xrd_vault_id == v.stake_xrd_vault_id
    &&& s.pending_xrd_withdraw_vault_id == v.pending_xrd_withdraw_vault_id
}

/// The index update that creates the entry of a validator.
pub open spec fn create_entry(
    stake: Decimal,
    address: ComponentAddress,
    key: EcdsaSecp256k1PublicKey,
) -> IndexUpdateModel {
    IndexUpdateModel::Create {
        index_key: index_key(stake, address),
        primary: address@,
        key: key.0@,
        stake,
    }
}

/// The index update that moves the entry of a validator from one stake to
/// another.
pub open spec fn move_entry(
    previous: Decimal,
    new_stake: Decimal,
    address: ComponentAddress,
) -> IndexUpdateModel {
    IndexUpdateModel::UpdateStake {
        index_key: index_key(previous, address),
        new_index_key: index_key(new_stake, address),
        new_stake_amount: new_stake,
    }
}

/// The model of an optional index change.
pub open spec fn update_model(update: Option<UpdateSecondaryIndex>) -> Option<IndexUpdateModel> {
    match update {
        Some(u) => Some(u@),
        None => None,
    }
}

/// The index change of registering a validator with `stake`.
pub open spec fn register_update(
    validator: ValidatorSubstate,
    stake: Decimal,
    address: ComponentAddress,
) -> Option<IndexUpdateModel> {
    if !validator.is_registered && stake.attos() > 0 {
        Some(create_entry(stake, address, validator.key))
    } else {
        None
    }
}

/// The index change of unregistering a validator with `stake`.
pub open spec fn unregister_update(
    validator: ValidatorSubstate,
    stake: Decimal,
    address: ComponentAddress,
) -> Option<IndexUpdateModel> {
    if validator.is_registered && stake.attos() != 0 {
        Some(IndexUpdateModel::Remove { index_key: index_key(stake, address) })
    } else {
        None
    }
}

/// The index change of adding stake to a validator.
pub open spec fn stake_update(
    validator: ValidatorSubstate,
    previous_stake: Decimal,
    new_stake: Decimal,
    address: ComponentAddress,
) -> Option<IndexUpdateModel> {
    if !validator.is_registered {
        None
    } else if previous_stake.attos() == 0 {
        Some(create_entry(new_stake, address, validator.key))
    } else {
        Some(move_entry(previous_stake, new_stake, address))
    }
}

/// The index change of taking stake from a validator.
pub open spec fn unstake_update(
    validator: ValidatorSubstate,
    previous_stake: Decimal,
    new_stake: Decimal,
    address: ComponentAddress,
) -> Option<IndexUpdateModel> {
    if !validator.is_registered {
        None
    } else if new_stake.attos() == 0 {
        Some(IndexUpdateModel::Remove { index_key: index_key(previous_stake, address) })
    } else {
        Some(move_entry(previous_stake, new_stake, address))
    }
}

/// The index change of a validator's key change.
pub open spec fn key_update(
    validator: ValidatorSubstate,
    new_key: EcdsaSecp256k1PublicKey,
    stake: Decimal,
    address: ComponentAddress,
) -> Option<IndexUpdateModel> {
    if validator.is_registered && stake.attos() != 0 {
        Some(IndexUpdateModel::UpdatePublicKey { index_key: index_key(stake, address), key: new_key.0@ })
    } else {
        None
    }
}

impl ValidatorBlueprint {
    /// The key under which the epoch manager indexes a validator with
    /// `stake` at `address`; validators with more stake have smaller keys.
    pub fn to_index_key(stake: Decimal, address: ComponentAddress) -> (r: Vec<u8>)
        requires
            stake.attos() >= 0,
        ensures
            r@ == index_key(stake, address),
    {
        let reverse_stake = Decimal::max_value().checked_sub(stake).unwrap();
        let mut index_key = reverse_stake.to_be_bytes();
        let encoded = address.encode();
        let mut i: usize = 0;
        let ghost head = index_key@;
        while i < encoded.len()
            invariant
                i <= encoded@.len(),
                index_key@ == head + encoded@.take(i as int),
            decreases encoded@.len() - i,
        {
            index_key.push(encoded[i]);
            i = i + 1;
            assert(encoded@.take(i as int) == encoded@.take(i - 1).push(encoded@[i - 1]));
        }
        assert(encoded@.take(encoded@.len() as int) == encoded@);
        index_key
    }

    /// Registers a validator whose stake vault holds `stake_amount`: a
    /// registered validator is left as it is; another is marked registered,
    /// enters the index if it holds a positive stake, and the registration
    /// event is emitted.
    pub fn register(
        validator: &ValidatorSubstate,
        stake_amount: Decimal,
        validator_address: ComponentAddress,
    ) -> (r: RegisterOutcome)
        ensures
            validator.is_registered ==> r.new_state is None && r.index_update is None
                && !r.emits_event,
            !validator.is_registered ==> {
                &&& r.new_state matches Some(s) && with_registration(s, *validator, true)
                &&& r.emits_event
                &&& (stake_amount.attos() > 0 <==> r.index_update is Some)
                &&& r.index_update matches Some(u) ==> u@ == create_entry(
                    stake_amount,
                    validator_address,
                    validator.key,
                )
            },
            update_model(r.index_update) == register_update(*validator, stake_amount, validator_address),
    {
        if validator.is_registered {
            return RegisterOutcome { new_state: None, index_update: None, emits_event: false };
        }
        let mut new_state = *validator;
        new_state.is_registered = true;
        let index_update = if stake_amount.is_positive() {
            Some(
                UpdateSecondaryIndex::Create {
                    index_key: Self::to_index_key(stake_amount, validator_address),
                    primary: validator_address,
                    stake: stake_amount,
                    key: validator.key,
                },
            )
        } else {
            None
        };
        RegisterOutcome { new_state: Some(new_state), index_update, emits_event: true }
    }

    /// Unregisters a validator whose stake vault holds `stake_amount`: an
    /// unregistered validator is left as it is; a registered one is marked
    /// unregistered, the event is emitted, and its entry leaves the index
    /// unless its stake is zero.
    pub fn unregister(
        validator: &ValidatorSubstate,
        stake_amount: Decimal,
        validator_address: ComponentAddress,
    ) -> (r: UnregisterOutcome)
        requires
            validator.is_registered ==> stake_amount.attos() >= 0,
        ensures
            !validator.is_registered ==> r.new_state is None && r.index_update is None
                && !r.emits_event,
            validator.is_registered ==> {
                &&& r.new_state matches Some(s) && with_registration(s, *validator, false)
                &&& r.emits_event
                &&& (stake_amount.attos() != 0 <==> r.index_update is Some)
                &&& r.index_update matches Some(u) ==> u@ == (IndexUpdateModel::Remove {
                    index_key: index_key(stake_amount, validator_address),
                })
            },
            update_model(r.index_update) == unregister_update(*validator, stake_amount, validator_address),
    {
        if !validator.is_registered {
            return UnregisterOutcome { new_state: None, index_update: None, emits_event: false };
        }
        let mut new_state = *validator;
        new_state.is_registered = false;
        let index_update = if stake_amount.is_zero() {
            None
        } else {
            Some(
                UpdateSecondaryIndex::Remove {
                    index_key: Self::to_index_key(stake_amount, validator_address),
                },
            )
        };
        UnregisterOutcome { new_state: Some(new_state), index_update, emits_event: true }
    }

    /// The liquidity units minted for `stake_amount` staked into a pool of
    /// `active_stake_amount` backed by `total_lp_supply` units.
    pub fn stake_mint_amount(
        stake_amount: Decimal,
        total_lp_supply: Decimal,
        active_stake_amount: Decimal,
    ) -> (r: Decimal)
        requires
            active_stake_amount.attos() != 0 ==> in_decimal_range(
                mul_attos(stake_amount.attos(), total_lp_supply.attos()),
            ) && in_decimal_range(
                spec_stake_mint_amount(stake_amount, total_lp_supply, active_stake_amount),
            ),
        ensures
            r.attos() == spec_stake_mint_amount(stake_amount, total_lp_supply, active_stake_amount),
    {
        if active_stake_amount.is_zero() {
            stake_amount
        } else {
            let product = stake_amount.checked_mul(total_lp_supply).unwrap();
            product.checked_div(active_stake_amount).unwrap()
        }
    }

    /// Stakes `stake_amount` into a validator whose stake vault holds
    /// `active_stake_amount` and whose liquidity units number
    /// `total_lp_supply`: the units minted for it, the stake that the vault
    /// then holds, and the change to the index that the new stake makes.
    pub fn stake(
        validator: &ValidatorSubstate,
        stake_amount: Decimal,
        total_lp_supply: Decimal,
        active_stake_amount: Decimal,
        validator_address: ComponentAddress,
    ) -> (r: StakeOutcome)
        requires
            active_stake_amount.attos() != 0 ==> in_decimal_range(
                mul_attos(stake_amount.attos(), total_lp_supply.attos()),
            ) && in_decimal_range(
                spec_stake_mint_amount(stake_amount, total_lp_supply, active_stake_amount),
            ),
            in_decimal_range(active_stake_amount.attos() + stake_amount.attos()),
            validator.is_registered ==> active_stake_amount.attos() >= 0
                && active_stake_amount.attos() + stake_amount.attos() >= 0,
        ensures
            r.lp_mint_amount.attos() == spec_stake_mint_amount(
                stake_amount,
                total_lp_supply,
                active_stake_amount,
            ),
            r.new_stake_amount.attos() == active_stake_amount.attos() + stake_amount.attos(),
            update_model(r.index_update) == stake_update(
                *validator,
                active_stake_amount,
                r.new_stake_amount,
                validator_address,
            ),
    {
        let lp_mint_amount = Self::stake_mint_amount(stake_amount, total_lp_supply, active_stake_amount);
        let new_stake_amount = active_stake_amount.checked_add(stake_amount).unwrap();
        let index_update = Self::stake_index_update(
            validator,
            active_stake_amount,
            new_stake_amount,
            validator_address,
        );
        StakeOutcome { lp_mint_amount, new_stake_amount, index_update }
    }

    /// Unstakes `lp_token_amount` liquidity units from a validator whose
    /// stake vault holds `active_stake_amount` and whose liquidity units
    /// number `total_lp_supply`, at `current_epoch` with a delay of
    /// `num_unstake_epochs`: the stake taken out, the receipt for it, which
    /// unlocks after the delay, the stake left, and the change to the index.
    pub fn unstake(
        validator: &ValidatorSubstate,
        lp_token_amount: Decimal,
        active_stake_amount: Decimal,
        total_lp_supply: Decimal,
        current_epoch: u64,
        num_unstake_epochs: u64,
        validator_address: ComponentAddress,
    ) -> (r: UnstakeOutcome)
        requires
            total_lp_supply.attos() != 0 ==> in_decimal_range(
                mul_attos(lp_token_amount.attos(), active_stake_amount.attos()),
            ) && in_decimal_range(
                spec_unstake_amount(lp_token_amount, active_stake_amount, total_lp_supply),
            ),
            current_epoch + num_unstake_epochs <= u64::MAX,
            in_decimal_range(
                active_stake_amount.attos() - spec_unstake_amount(
                    lp_token_amount,
                    active_stake_amount,
                    total_lp_supply,
                ),
            ),
            validator.is_registered ==> active_stake_amount.attos() >= 0
                && active_stake_amount.attos() - spec_unstake_amount(
                lp_token_amount,
                active_stake_amount,
                total_lp_supply,
            ) >= 0,
        ensures
            r.xrd_amount.attos() == spec_unstake_amount(
                lp_token_amount,
                active_stake_amount,
                total_lp_supply,
            ),
            r.receipt.spec_epoch_unlocked() == current_epoch + num_unstake_epochs,
            r.receipt.spec_amount() == r.xrd_amount,
            r.new_stake_amount.attos() == active_stake_amount.attos() - r.xrd_amount.attos(),
            update_model(r.index_update) == unstake_update(
                *validator,
                active_stake_amount,
                r.new_stake_amount,
                validator_address,
            ),
    {
        let xrd_amount = Self::unstake_amount(lp_token_amount, active_stake_amount, total_lp_supply);
        let receipt = Self::unstake_data(current_epoch, num_unstake_epochs, xrd_amount);
        let new_stake_amount = active_stake_amount.checked_sub(xrd_amount).unwrap();
        let index_update = Self::unstake_index_update(
            validator,
            active_stake_amount,
            new_stake_amount,
            validator_address,
        );
        UnstakeOutcome { xrd_amount, receipt, new_stake_amount, index_update }
    }

    /// The change to the index after stake was added to a validator whose
    /// stake went from `previous_stake` to `new_stake`: none for an
    /// unregistered validator; else a new entry if it had no stake, or its
    /// entry moved to the new stake.
    pub fn stake_index_update(
        validator: &ValidatorSubstate,
        previous_stake: Decimal,
        new_stake: Decimal,
        validator_address: ComponentAddress,
    ) -> (r: Option<UpdateSecondaryIndex>)
        requires
            validator.is_registered ==> new_stake.attos() >= 0 && previous_stake.attos() >= 0,
        ensures
            !validator.is_registered ==> r is None,
            validator.is_registered ==> (r matches Some(u) && u@ == (if previous_stake.attos() == 0 {
                create_entry(new_stake, validator_address, validator.key)
            } else {
                move_entry(previous_stake, new_stake, validator_address)
            })),
            update_model(r) == stake_update(*validator, previous_stake, new_stake, validator_address),
    {
        if !validator.is_registered {
            return None;
        }
        let new_index_key = Self::to_index_key(new_stake, validator_address);
        if previous_stake.is_zero() {
            Some(
                UpdateSecondaryIndex::Create {
                    index_key: new_index_key,
                    stake: new_stake,
                    primary: validator_address,
                    key: validator.key,
                },
            )
        } else {
            Some(
                UpdateSecondaryIndex::UpdateStake {
                    index_key: Self::to_index_key(previous_stake, validator_address),
                    new_index_key,
                    new_stake_amount: new_stake,
                },
            )
        }
    }

    /// The stake returned for `lp_token_amount` liquidity units out of a
    /// pool of `active_stake_amount` backed by `total_lp_supply` units.
    pub fn unstake_amount(
        lp_token_amount: Decimal,
        active_stake_amount: Decimal,
        total_lp_supply: Decimal,
    ) -> (r: Decimal)
        requires
            total_lp_supply.attos() != 0 ==> in_decimal_range(
                mul_attos(lp_token_amount.attos(), active_stake_amount.attos()),
            ) && in_decimal_range(
                spec_unstake_amount(lp_token_amount, active_stake_amount, total_lp_supply),
            ),
        ensures
            r.attos() == spec_unstake_amount(lp_token_amount, active_stake_amount, total_lp_supply),
    {
        if total_lp_supply.is_zero() {
            Decimal::zero()
        } else {
            let product = lp_token_amount.checked_mul(active_stake_amount).unwrap();
            product.checked_div(total_lp_supply).unwrap()
        }
    }

    /// The receipt for `xrd_amount` unstaked at `current_epoch`: it can be
    /// claimed `num_unstake_epochs` later.
    pub fn unstake_data(current_epoch: u64, num_unstake_epochs: u64, xrd_amount: Decimal) -> (r:
        UnstakeData)
        requires
            current_epoch + num_unstake_epochs <= u64::MAX,
        ensures
            r.spec_epoch_unlocked() == current_epoch + num_unstake_epochs,
            r.spec_amount() == xrd_amount,
    {
        UnstakeData { epoch_unlocked: current_epoch + num_unstake_epochs, amount: xrd_amount }
    }

    /// The change to the index after stake was taken from a validator whose
    /// stake went from `previous_stake` to `new_stake`: none for an
    /// unregistered validator; else its entry leaves the index if no stake
    /// is left, or moves to the new stake.
    pub fn unstake_index_update(
        validator: &ValidatorSubstate,
        previous_stake: Decimal,
        new_stake: Decimal,
        validator_address: ComponentAddress,
    ) -> (r: Option<UpdateSecondaryIndex>)
        requires
            validator.is_registered ==> new_stake.attos() >= 0 && previous_stake.attos() >= 0,
        ensures
            !validator.is_registered ==> r is None,
            validator.is_registered ==> (r matches Some(u) && u@ == (if new_stake.attos() == 0 {
                IndexUpdateModel::Remove { index_key: index_key(previous_stake, validator_address) }
            } else {
                move_entry(previous_stake, new_stake, validator_address)
            })),
            update_model(r) == unstake_update(*validator, previous_stake, new_stake, validator_address),
    {
        if !validator.is_registered {
            return None;
        }
        let index_key = Self::to_index_key(previous_stake, validator_address);
        if new_stake.is_zero() {
            Some(UpdateSecondaryIndex::Remove { index_key })
        } else {
            let new_index_key = Self::to_index_key(new_stake, validator_address);
            Some(
                UpdateSecondaryIndex::UpdateStake {
                    index_key,
                    new_index_key,
                    new_stake_amount: new_stake,
                },
            )
        }
    }

    /// Whether a bucket of resource `bucket_resource` can hold the
    /// validator's unstake receipts (`unstake_nft`): refused otherwise.
    pub fn check_claim_resource(unstake_nft: ResourceAddress, bucket_resource: ResourceAddress) -> (r:
        Result<(), ValidatorError>)
        ensures
            unstake_nft@ == bucket_resource@ <==> r is Ok,
            r is Err ==> r == Err::<(), ValidatorError>(ValidatorError::InvalidClaimResource),
    {
        if unstake_nft.same_as(&bucket_resource) {
            Ok(())
        } else {
            Err(ValidatorError::InvalidClaimResource)
        }
    }

    /// The stake that a bucket of unstake receipts of resource
    /// `bucket_resource` claims at `current_epoch`: refused unless the
    /// receipts are the validator's (`unstake_nft`) and each is unlocked;
    /// else the sum of their amounts.
    pub fn claim_xrd(
        unstake_nft: ResourceAddress,
        bucket_resource: ResourceAddress,
        current_epoch: u64,
        claims: &Vec<UnstakeData>,
    ) -> (r: Result<Decimal, ValidatorError>)
        requires
            unstake_nft@ == bucket_resource@ ==> claim_totals_fit(claims@, current_epoch),
        ensures
            unstake_nft@ != bucket_resource@ ==> r == Err::<Decimal, ValidatorError>(
                ValidatorError::InvalidClaimResource,
            ),
            unstake_nft@ == bucket_resource@ && !all_unlocked(claims@, current_epoch) ==> r == Err::<
                Decimal,
                ValidatorError,
            >(ValidatorError::EpochUnlockHasNotOccurredYet),
            unstake_nft@ == bucket_resource@ && all_unlocked(claims@, current_epoch) ==> (r matches Ok(
                total,
            ) && total.attos() == claims_total(claims@)),
    {
        match Self::check_claim_resource(unstake_nft, bucket_resource) {
            Err(e) => {
                return Err(e);
            },
            Ok(()) => {},
        }
        let mut unstake_amount = Decimal::zero();
        let mut i: usize = 0;
        while i < claims.len()
            invariant
                i <= claims@.len(),
                unstake_nft@ == bucket_resource@,
                claim_totals_fit(claims@, current_epoch),
                all_unlocked(claims@.take(i as int), current_epoch),
                unstake_amount.attos() == claims_total(claims@.take(i as int)),
            decreases claims@.len() - i,
        {
            let data = claims[i];
            if current_epoch < data.epoch_unlocked {
                assert(!all_unlocked(claims@, current_epoch)) by {
                    assert(claims@[i as int].spec_epoch_unlocked() > current_epoch);
                }
                return Err(ValidatorError::EpochUnlockHasNotOccurredYet);
            }
            assert(claims@.take(i + 1).drop_last() == claims@.take(i as int));
            assert(all_unlocked(claims@.take(i + 1), current_epoch)) by {
                assert forall|j: int| 0 <= j < i + 1 implies #[trigger] claims@.take(i + 1)[j].spec_epoch_unlocked()
                    <= current_epoch by {
                    if j < i {
                        assert(claims@.take(i + 1)[j] == claims@.take(i as int)[j]);
                    }
                }
            }
            assert(in_decimal_range(claims_total(claims@.take(i + 1))));
            unstake_amount = unstake_amount.checked_add(data.amount).unwrap();
            i = i + 1;
        }
        assert(claims@.take(claims@.len() as int) == claims@);
        Ok(unstake_amount)
    }

    /// Whether every running total of the receipts, as `claim_xrd` adds
    /// them up at `current_epoch`, fits in an amount.
    pub fn claims_can_be_totalled(claims: &Vec<UnstakeData>, current_epoch: u64) -> (r: bool)
        ensures
            r == claim_totals_fit(claims@, current_epoch),
    {
        let mut total = Decimal::zero();
        let mut i: usize = 0;
        assert(claims@.take(0) =~= Seq::<UnstakeData>::empty());
        while i < claims.len()
            invariant
                i <= claims@.len(),
                all_unlocked(claims@.take(i as int), current_epoch),
                total.attos() == claims_total(claims@.take(i as int)),
                forall|k: int|
                    0 <= k <= i ==> in_decimal_range(#[trigger] claims_total(claims@.take(k))),
            decreases claims@.len() - i,
        {
            let data = claims[i];
            assert(claims@.take(i + 1).drop_last() == claims@.take(i as int));
            if current_epoch < data.epoch_unlocked {
                proof {
                    assert forall|k: int|
                        0 <= k <= claims@.len() && all_unlocked(claims@.take(k), current_epoch)
                        implies in_decimal_range(#[trigger] claims_total(claims@.take(k))) by {
                        if k > i {
                            assert(claims@.take(k)[i as int] == claims@[i as int]);
                            assert(claims@.take(k)[i as int].spec_epoch_unlocked() > current_epoch);
                        }
                    }
                }
                return true;
            }
            match total.checked_add(data.amount) {
                Some(t) => {
                    total = t;
                },
                None => {
                    proof {
                        assert(claims@.take(i + 1).last() == data);
                        assert(claims_total(claims@.take(i + 1)) == total.attos() + data.amount.attos());
                        assert(!in_decimal_range(claims_total(claims@.take(i + 1))));
                        assert(all_unlocked(claims@.take(i + 1), current_epoch)) by {
                            assert forall|j: int| 0 <= j < i + 1 implies #[trigger] claims@.take(
                                i + 1,
                            )[j].spec_epoch_unlocked() <= current_epoch by {
                                if j < i {
                                    assert(claims@.take(i + 1)[j] == claims@.take(i as int)[j]);
                                }
                            }
                        }
                    }
                    return false;
                },
            }
            proof {
                assert(all_unlocked(claims@.take(i + 1), current_epoch)) by {
                    assert forall|j: int| 0 <= j < i + 1 implies #[trigger] claims@.take(i + 1)[j].spec_epoch_unlocked()
                        <= current_epoch by {
                        if j < i {
                            assert(claims@.take(i + 1)[j] == claims@.take(i as int)[j]);
                        }
                    }
                }
            }
            i = i + 1;
        }
        assert(claims@.take(claims@.len() as int) == claims@);
        true
    }

    /// A validator's new state after its key changed to `new_key`, and the
    /// change to the index: the entry's key is updated if the validator is
    /// registered and holds stake.
    pub fn update_key(
        validator: &ValidatorSubstate,
        new_key: EcdsaSecp256k1PublicKey,
        stake_amount: Decimal,
        validator_address: ComponentAddress,
    ) -> (r: (ValidatorSubstate, Option<UpdateSecondaryIndex>))
        requires
            validator.is_registered ==> stake_amount.attos() >= 0,
        ensures
            r.0.key == new_key,
            r.0.is_registered == validator.is_registered,
            r.0.unstake_nft == validator.unstake_nft,
            r.0.liquidity_token == validator.liquidity_token,
            r.0.stake_xrd_vault_id == validator.stake_xrd_vault_id,
            r.0.pending_xrd_withdraw_vault_id == validator.pending_xrd_withdraw_vault_id,
            (validator.is_registered && stake_amount.attos() != 0) <==> r.1 is Some,
            r.1 matches Some(u) ==> u@ == (IndexUpdateModel::UpdatePublicKey {
                index_key: index_key(stake_amount, validator_address),
                key: new_key.0@,
            }),
            update_model(r.1) == key_update(*validator, new_key, stake_amount, validator_address),
    {
        let mut new_state = *validator;
        new_state.key = new_key;
        let update = if new_state.is_registered && !stake_amount.is_zero() {
            Some(
                UpdateSecondaryIndex::UpdatePublicKey {
                    index_key: Self::to_index_key(stake_amount, validator_address),
                    key: new_key,
                },
            )
        } else {
            None
        };
        (new_state, update)
    }
}

proof fn lemma_bytes_lt_extend(a: Seq<u8>, b: Seq<u8>, c: Seq<u8>, d: Seq<u8>)
    requires
        a.len() == b.len(),
        bytes_lt(a, b),
    ensures
        bytes_lt(a + c, b + d),
{
    let k = choose|k: int|
        0 <= k <= a.len() && k <= b.len() && a.take(k) == b.take(k) && ((k == a.len() && k
            < b.len()) || (k < a.len() && k < b.len() && a[k] < b[k]));
    assert((a + c).take(k) == a.take(k));
    assert((b + d).take(k) == b.take(k));
    assert((a + c)[k] == a[k]);
    assert((b + d)[k] == b[k]);
}

proof fn lemma_bytes_lt_irreflexive(a: Seq<u8>)
    ensures
        !bytes_lt(a, a),
{
}

/// Big-endian bytes of the same width order as the numbers they write.
pub proof fn lemma_be_bytes_ordered(x: nat, y: nat, n: nat)
    requires
        x < y < byte_power(n),
    ensures
        bytes_lt(be_bytes(x, n), be_bytes(y, n)),
        be_bytes(x, n).len() == n,
        be_bytes(y, n).len() == n,
    decreases n,
{
    lemma_be_bytes_len(x, n);
    lemma_be_bytes_len(y, n);
    if n == 0 {
        assert(false);
    } else {
        let m = (n - 1) as nat;
        let a = be_bytes(x / 256, m);
        let b = be_bytes(y / 256, m);
        lemma_be_bytes_len(x / 256, m);
        lemma_be_bytes_len(y / 256, m);
        lemma_shift_below_power(y, n);
        if x / 256 < y / 256 {
            lemma_be_bytes_ordered(x / 256, y / 256, m);
            let k = choose|k: int|
                0 <= k <= a.len() && k <= b.len() && a.take(k) == b.take(k) && ((k == a.len() && k
                    < b.len()) || (k < a.len() && k < b.len() && a[k] < b[k]));
            assert(be_bytes(x, n).take(k) == a.take(k));
            assert(be_bytes(y, n).take(k) == b.take(k));
            assert(be_bytes(x, n)[k] == a[k]);
            assert(be_bytes(y, n)[k] == b[k]);
        } else {
            assert(x / 256 == y / 256) by (nonlinear_arith)
                requires
                    x < y,
                    !(x / 256 < y / 256),
            ;
            assert(x % 256 < y % 256) by (nonlinear_arith)
                requires
                    x < y,
                    x / 256 == y / 256,
            ;
            assert(be_bytes(x, n).take(m as int) == a);
            assert(be_bytes(y, n).take(m as int) == b);
            assert(be_bytes(x, n)[m as int] == (x % 256) as u8);
            assert(be_bytes(y, n)[m as int] == (y % 256) as u8);
        }
    }
}

proof fn lemma_byte_power_32()
    ensures
        byte_power(32) == word_base() * word_base(),
{
    reveal_with_fuel(byte_power, 33);
}

/// The index puts validators with more stake first: the index key of a
/// larger stake is smaller, whatever the two addresses.
pub proof fn lemma_index_key_orders_by_stake(
    larger: Decimal,
    smaller: Decimal,
    address_of_larger: ComponentAddress,
    address_of_smaller: ComponentAddress,
)
    requires
        0 <= smaller.attos() < larger.attos(),
    ensures
        bytes_lt(index_key(larger, address_of_larger), index_key(smaller, address_of_smaller)),
{
    let x = (decimal_bound() - 1 - larger.attos()) as nat;
    let y = (decimal_bound() - 1 - smaller.attos()) as nat;
    lemma_byte_power_32();
    lemma_be_bytes_ordered(x, y, 32);
    lemma_bytes_lt_extend(
        be_bytes(x, 32),
        be_bytes(y, 32),
        reference_payload(address_of_larger@),
        reference_payload(address_of_smaller@),
    );
}

/// The index key names its validator and stake: two equal keys come from
/// the same stake and the same address.
pub proof fn lemma_index_key_identifies(
    stake1: Decimal,
    address1: ComponentAddress,
    stake2: Decimal,
    address2: ComponentAddress,
)
    requires
        stake1.attos() >= 0,
        stake2.attos() >= 0,
        index_key(stake1, address1) == index_key(stake2, address2),
    ensures
        stake1 == stake2,
        address1@ == address2@,
{
    let x = (decimal_bound() - 1 - stake1.attos()) as nat;
    let y = (decimal_bound() - 1 - stake2.attos()) as nat;
    lemma_be_bytes_len(x, 32);
    lemma_be_bytes_len(y, 32);
    let k1 = index_key(stake1, address1);
    let k2 = index_key(stake2, address2);
    assert(k1.take(32) == be_bytes(x, 32));
    assert(k2.take(32) == be_bytes(y, 32));
    assert(be_bytes(x, 32) == be_bytes(y, 32));
    if x != y {
        lemma_byte_power_32();
        if x < y {
            lemma_be_bytes_ordered(x, y, 32);
        } else {
            lemma_be_bytes_ordered(y, x, 32);
        }
        lemma_bytes_lt_irreflexive(be_bytes(x, 32));
    }
    lemma_attos_identifies(stake1, stake2);
    assert(k1.skip(34) == address1@);
    assert(k2.skip(34) == address2@);
}

/// Registering and then unregistering a validator with stake leaves its
/// state as it was, and the entry that unregistering removes is the one
/// that registering created.
pub proof fn lemma_unregister_undoes_register(
    validator: ValidatorSubstate,
    registered: ValidatorSubstate,
    unregistered: ValidatorSubstate,
    stake: Decimal,
    address: ComponentAddress,
)
    requires
        !validator.is_registered,
        stake.attos() > 0,
        with_registration(registered, validator, true),
        with_registration(unregistered, registered, false),
    ensures
        unregistered == validator,
        register_update(validator, stake, address) matches Some(
            IndexUpdateModel::Create { index_key: created, .. },
        ) && unregister_update(registered, stake, address) == Some(
            IndexUpdateModel::Remove { index_key: created },
        ),
{
}

proof fn lemma_floor_times_divisor(a: int, d: int)
    requires
        a >= 0,
        d > 0,
    ensures
        (a / d) * d <= a,
        a / d >= 0,
{
    vstd::arithmetic::div_mod::lemma_fundamental_div_mod(a, d);
    vstd::arithmetic::div_mod::lemma_div_pos_is_pos(a, d);
    assert((a / d) * d == d * (a / d)) by (nonlinear_arith);
}

proof fn lemma_nonnegative_product(a: int, b: int)
    requires
        a >= 0,
        b >= 0,
    ensures
        a * b >= 0,
{
    assert(a * b >= 0) by (nonlinear_arith)
        requires
            a >= 0,
            b >= 0,
    ;
}

/// Staking and then at once unstaking the minted liquidity units returns
/// no more than was staked: rounding never creates stake.
pub proof fn lemma_stake_then_unstake_returns_at_most_stake(
    stake_amount: Decimal,
    total_lp_supply: Decimal,
    active_stake: Decimal,
    minted: Decimal,
    new_active_stake: Decimal,
    new_total_lp_supply: Decimal,
    returned: Decimal,
)
    requires
        stake_amount.attos() >= 0,
        total_lp_supply.attos() >= 0,
        active_stake.attos() >= 0,
        minted.attos() == spec_stake_mint_amount(stake_amount, total_lp_supply, active_stake),
        new_active_stake.attos() == active_stake.attos() + stake_amount.attos(),
        new_total_lp_supply.attos() == total_lp_supply.attos() + minted.attos(),
        returned.attos() == spec_unstake_amount(minted, new_active_stake, new_total_lp_supply),
    ensures
        returned.attos() <= stake_amount.attos(),
{
    let x = stake_amount.attos();
    let s = total_lp_supply.attos();
    let a = active_stake.attos();
    let u = crate::decimal::attos_per_unit();
    let m = minted.attos();
    if a == 0 {
        assert(m == x);
    } else {
        lemma_nonnegative_product(x, s);
        let p = (x * s) / u;
        lemma_floor_times_divisor(x * s, u);
        assert(mul_attos(x, s) == p);
        lemma_nonnegative_product(p, u);
        lemma_floor_times_divisor(p * u, a);
        assert(m == (p * u) / a);
        assert(m * a <= x * s) by (nonlinear_arith)
            requires
                m == (p * u) / a,
                ((p * u) / a) * a <= p * u,
                p * u <= x * s,
                p == (x * s) / u,
                (p) * u <= x * s,
        ;
    }
    assert(m >= 0) by {
        if a != 0 {
            lemma_nonnegative_product(x, s);
            lemma_floor_times_divisor(x * s, u);
            lemma_nonnegative_product((x * s) / u, u);
            lemma_floor_times_divisor(((x * s) / u) * u, a);
        }
    }
    assert(m * a <= x * s);
    let total = s + m;
    if total != 0 {
        let na = a + x;
        lemma_nonnegative_product(m, na);
        let q = (m * na) / u;
        lemma_floor_times_divisor(m * na, u);
        assert(mul_attos(m, na) == q);
        lemma_nonnegative_product(q, u);
        lemma_floor_times_divisor(q * u, total);
        let y = (q * u) / total;
        assert(returned.attos() == y);
        assert(y <= x) by (nonlinear_arith)
            requires
                y * total <= q * u,
                q * u <= m * na,
                na == a + x,
                m * a <= x * s,
                total == s + m,
                total > 0,
                x >= 0,
                m >= 0,
        ;
    }
}

/// An unstake receipt made at `current_epoch` with a delay of
/// `num_unstake_epochs` can be claimed, on its own, exactly from epoch
/// `current_epoch + num_unstake_epochs` on, and then pays its amount.
pub proof fn lemma_receipt_claimable_after_delay(
    receipt: UnstakeData,
    current_epoch: u64,
    num_unstake_epochs: u64,
    amount: Decimal,
    claim_epoch: u64,
)
    requires
        receipt.spec_epoch_unlocked() == current_epoch + num_unstake_epochs,
        receipt.spec_amount() == amount,
    ensures
        all_unlocked(seq![receipt], claim_epoch) <==> claim_epoch >= current_epoch
            + num_unstake_epochs,
        claim_totals_fit(seq![receipt], claim_epoch),
        claims_total(seq![receipt]) == amount.attos(),
{
    let s = seq![receipt];
    assert(s.drop_last() =~= Seq::<UnstakeData>::empty());
    assert(s[0] == receipt);
    assert(s.take(0) =~= Seq::<UnstakeData>::empty());
    assert(s.take(1) == s);
    assert(claims_total(s.take(0)) == 0);
    assert forall|k: int|
        0 <= k <= s.len() && all_unlocked(s.take(k), claim_epoch) implies in_decimal_range(
        #[trigger] claims_total(s.take(k)),
    ) by {
        if k == 0 {
        } else {
            assert(k == 1);
        }
    }
}

} // verus!
