//! Who may call a validator's methods, and who may mint, burn and move
//! the tokens a validator issues.
use vstd::prelude::*;
use crate::address::{
    PackageAddress, NonFungibleGlobalId, NonFungibleLocalId, GlobalIdModel, LocalIdModel,
    NON_FUNGIBLE_RESOURCE_ENTITY, reference_payload,
};
use crate::access_rule::{
    AccessRule, AccessRuleEntry, AccessRuleNode, ProofRule, SoftResourceOrNonFungible,
};
use crate::address::{Own, ResourceAddress};
use crate::validator::{EcdsaSecp256k1PublicKey, ValidatorBlueprint, ValidatorSubstate};
use crate::well_known::{package_token, epoch_manager_package, well_known_node, GLOBAL_PACKAGE_ENTITY};

verus! {

/// How a method is protected: open to all, or guarded by a rule that can
/// be changed under a mutability rule.
#[derive(Debug)]
pub enum MethodType {
    Public,
    Custom(AccessRuleEntry, AccessRuleEntry),
}

/// An action on a resource that an access rule guards.
#[derive(Clone, Copy, Debug, PartialEq, Eq, Structural)]
pub enum ResourceMethodAuthKey {
    Mint,
    Burn,
    UpdateNonFungibleData,
    UpdateMetadata,
    Withdraw,
    Deposit,
    Recall,
}

/// The validator's owner group.
pub open spec fn owner_group_name() -> Seq<char> {
    "owner"@
}

/// The non-fungible unit that stands for `package` acting as a caller:
/// the package token with the encoded package address as local id.
pub open spec fn package_actor_model(package: Seq<u8>) -> GlobalIdModel {
    GlobalIdModel {
        resource: well_known_node(NON_FUNGIBLE_RESOURCE_ENTITY, 2),
        local_id: LocalIdModel::Bytes(reference_payload(package)),
    }
}

/// The epoch manager package acting as a caller.
pub open spec fn epoch_manager_actor() -> GlobalIdModel {
    package_actor_model(well_known_node(GLOBAL_PACKAGE_ENTITY, 4))
}

/// The rule that requires a proof of the non-fungible unit `id`.
pub open spec fn requires_unit(rule: AccessRule, id: GlobalIdModel) -> bool {
    rule matches AccessRule::Protected(
        AccessRuleNode::ProofRule(ProofRule::Require(SoftResourceOrNonFungible::StaticNonFungible(g))),
    ) && g@ == id
}

/// The non-fungible unit that stands for `package` acting as a caller.
pub fn package_actor(package: PackageAddress) -> (r: NonFungibleGlobalId)
    ensures
        r@ == package_actor_model(package@),
{
    NonFungibleGlobalId {
        resource_address: package_token(),
        local_id: NonFungibleLocalId::Bytes(package.encode()),
    }
}

fn require_unit(id: NonFungibleGlobalId) -> (r: AccessRule)
    ensures
        requires_unit(r, id@),
{
    AccessRule::Protected(
        AccessRuleNode::ProofRule(ProofRule::Require(SoftResourceOrNonFungible::StaticNonFungible(id))),
    )
}

/// The validator's securing of its methods.
pub struct SecurifiedValidator;

impl SecurifiedValidator {
    /// The methods that the owner alone does not guard: unstaking and
    /// claiming are public; staking is guarded by the owner group's rule,
    /// which only the epoch manager can change.
    pub fn non_owner_methods() -> (r: Vec<(&'static str, MethodType)>)
        ensures
            r@.len() == 3,
            r@[0].0@ == "unstake"@ && r@[0].1 is Public,
            r@[1].0@ == "claim_xrd"@ && r@[1].1 is Public,
            r@[2].0@ == "stake"@,
            r@[2].1 matches MethodType::Custom(AccessRuleEntry::Group(g), AccessRuleEntry::AccessRule(m))
                && g@ == owner_group_name() && requires_unit(m, epoch_manager_actor()),
    {
        let non_fungible_global_id = package_actor(epoch_manager_package());
        let mut methods: Vec<(&'static str, MethodType)> = Vec::new();
        methods.push(("unstake", MethodType::Public));
        methods.push(("claim_xrd", MethodType::Public));
        methods.push(
            (
                "stake",
                MethodType::Custom(
                    AccessRuleEntry::Group("owner".to_owned()),
                    AccessRuleEntry::AccessRule(require_unit(non_fungible_global_id)),
                ),
            ),
        );
        methods
    }
}

/// The creation of validators and of the tokens they issue.
pub struct ValidatorCreator;

/// The divisibility of a validator's liquidity token: 18 decimal places,
/// as amounts have.
pub const LIQUIDITY_TOKEN_DIVISIBILITY: u8 = 18;

impl ValidatorCreator {
    /// The state of a new validator with `key`, holding its stake in
    /// `stake_vault` and the stake being unstaked in `unstake_vault`,
    /// issuing `liquidity_token` for stake and `unstake_nft` receipts for
    /// unstaking, registered or not as asked.
    pub fn initial_state(
        key: EcdsaSecp256k1PublicKey,
        liquidity_token: ResourceAddress,
        unstake_nft: ResourceAddress,
        stake_vault: Own,
        unstake_vault: Own,
        is_registered: bool,
    ) -> (r: ValidatorSubstate)
        ensures
            r == (ValidatorSubstate {
                key,
                is_registered,
                unstake_nft,
                liquidity_token,
                stake_xrd_vault_id: stake_vault,
                pending_xrd_withdraw_vault_id: unstake_vault,
            }),
    {
        ValidatorSubstate {
            key,
            liquidity_token,
            unstake_nft,
            stake_xrd_vault_id: stake_vault,
            pending_xrd_withdraw_vault_id: unstake_vault,
            is_registered,
        }
    }

    /// The access rules of a validator's liquidity token and unstake
    /// receipts, by action, each with the rule that guards changes to it:
    /// only the epoch manager mints and burns; anyone withdraws and
    /// deposits; no rule can be changed.
    pub fn token_auth() -> (r: Vec<(ResourceMethodAuthKey, (AccessRule, AccessRule))>)
        ensures
            r@.len() == 4,
            r@[0].0 == ResourceMethodAuthKey::Mint && requires_unit(r@[0].1.0, epoch_manager_actor())
                && r@[0].1.1 is DenyAll,
            r@[1].0 == ResourceMethodAuthKey::Burn && requires_unit(r@[1].1.0, epoch_manager_actor())
                && r@[1].1.1 is DenyAll,
            r@[2].0 == ResourceMethodAuthKey::Withdraw && r@[2].1.0 is AllowAll && r@[2].1.1 is DenyAll,
            r@[3].0 == ResourceMethodAuthKey::Deposit && r@[3].1.0 is AllowAll && r@[3].1.1 is DenyAll,
    {
        let mut auth: Vec<(ResourceMethodAuthKey, (AccessRule, AccessRule))> = Vec::new();
        auth.push(
            (
                ResourceMethodAuthKey::Mint,
                (require_unit(package_actor(epoch_manager_package())), AccessRule::DenyAll),
            ),
        );
        auth.push(
            (
                ResourceMethodAuthKey::Burn,
                (require_unit(package_actor(epoch_manager_package())), AccessRule::DenyAll),
            ),
        );
        auth.push((ResourceMethodAuthKey::Withdraw, (AccessRule::AllowAll, AccessRule::DenyAll)));
        auth.push((ResourceMethodAuthKey::Deposit, (AccessRule::AllowAll, AccessRule::DenyAll)));
        auth
    }
}

impl ValidatorBlueprint {
    /// The rule of the stake method once the validator accepts, or stops
    /// accepting, stake delegated by others: open to all, or the owner
    /// group's.
    pub fn update_accept_delegated_stake(accept_delegated_stake: bool) -> (r: AccessRuleEntry)
        ensures
            accept_delegated_stake ==> r matches AccessRuleEntry::AccessRule(AccessRule::AllowAll),
            !accept_delegated_stake ==> (r matches AccessRuleEntry::Group(g) && g@ == owner_group_name()),
    {
        if accept_delegated_stake {
            AccessRuleEntry::AccessRule(AccessRule::AllowAll)
        } else {
            AccessRuleEntry::Group("owner".to_owned())
        }
    }
}

} // verus!
