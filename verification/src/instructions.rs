//! The two operations on a drop: creating it and claiming it.
//!
//! Both take the accounts by position and a payload of little-endian
//! fields. Every test is made before the first change, so a refused
//! operation leaves all accounts as they were.

use crate::account::{Account, AccountView};
use crate::bytes::{read_i64_le, read_u64_le, spec_i64_from_le, spec_u64_from_le};
use crate::error::DropError;
use crate::geofence::{abs_diff, inside, spec_abs_diff, spec_inside};
use crate::state::{
    lemma_decode_encode, lemma_mark_claimed_bytes, Drop, DropView, CLAIMED_AT, DROP_LEN,
};
use vstd::prelude::*;

verus! {

/// Position of the record slot among the accounts of either operation.
pub const DROP_ACCOUNT: usize = 0;

/// Position of the vault among the accounts of either operation.
pub const VAULT_ACCOUNT: usize = 1;

/// Position of the signer among the accounts of either operation: the
/// creator when creating, the claimer when claiming.
pub const SIGNER_ACCOUNT: usize = 2;

/// Number of accounts that creating a drop takes.
pub const CREATE_ACCOUNTS: usize = 4;

/// Number of accounts that claiming a drop takes.
pub const CLAIM_ACCOUNTS: usize = 3;

/// Least length of the payload of a creation.
pub const CREATE_PAYLOAD_LEN: usize = 28;

/// Least length of the payload of a claim.
pub const CLAIM_PAYLOAD_LEN: usize = 16;

/// The accounts with the record slot's leading bytes replaced by a record.
pub open spec fn spec_store_record(accounts: Seq<AccountView>, record: DropView) -> Seq<
    AccountView,
> {
    let slot = accounts[DROP_ACCOUNT as int];
    accounts.update(
        DROP_ACCOUNT as int,
        AccountView { data: record.encode() + slot.data.skip(DROP_LEN as int), ..slot },
    )
}

/// The record held in the record slot.
pub open spec fn spec_load_record(accounts: Seq<AccountView>) -> DropView {
    DropView::decode(accounts[DROP_ACCOUNT as int].data.take(DROP_LEN as int))
}

/// The accounts with the balance of one of them replaced.
pub open spec fn spec_set_lamports(accounts: Seq<AccountView>, at: int, lamports: u64) -> Seq<
    AccountView,
> {
    accounts.update(at, AccountView { lamports, ..accounts[at] })
}

/// The record that a creation payload describes, funded by `creator`.
pub open spec fn spec_new_record(creator: Seq<u8>, data: Seq<u8>) -> DropView {
    DropView {
        creator,
        latitude: spec_i64_from_le(data.subrange(0, 8)),
        longitude: spec_i64_from_le(data.subrange(8, 16)),
        reward_amount: spec_u64_from_le(data.subrange(16, 24)),
        is_claimed: 0,
    }
}

/// What creating a drop does: the accounts afterwards, or why it is refused.
pub open spec fn spec_create_drop(accounts: Seq<AccountView>, data: Seq<u8>) -> Result<
    Seq<AccountView>,
    DropError,
> {
    if accounts.len() < CREATE_ACCOUNTS {
        Err(DropError::AccountCount)
    } else if !accounts[SIGNER_ACCOUNT as int].is_signer {
        Err(DropError::Signature)
    } else if data.len() < CREATE_PAYLOAD_LEN {
        Err(DropError::MalformedInstruction)
    } else if accounts[DROP_ACCOUNT as int].data.len() < DROP_LEN {
        Err(DropError::SlotTooSmall)
    } else {
        let creator = accounts[SIGNER_ACCOUNT as int].key;
        Ok(spec_store_record(accounts, spec_new_record(creator, data)))
    }
}

/// The accounts with the claim flag of the record slot set.
pub open spec fn spec_mark_claimed(accounts: Seq<AccountView>) -> Seq<AccountView> {
    let slot = accounts[DROP_ACCOUNT as int];
    accounts.update(
        DROP_ACCOUNT as int,
        AccountView { data: slot.data.update(CLAIMED_AT as int, 1u8), ..slot },
    )
}

/// What paying out a reward does to the accounts: the flag is set, the vault
/// debited and the claimer credited.
pub open spec fn spec_pay_out(accounts: Seq<AccountView>, reward: u64) -> Seq<AccountView> {
    let vault = accounts[VAULT_ACCOUNT as int].lamports;
    let claimer = accounts[SIGNER_ACCOUNT as int].lamports;
    let marked = spec_mark_claimed(accounts);
    let debited = spec_set_lamports(marked, VAULT_ACCOUNT as int, (vault - reward) as u64);
    spec_set_lamports(debited, SIGNER_ACCOUNT as int, (claimer + reward) as u64)
}

/// What claiming a drop does: the accounts afterwards, or why it is refused.
pub open spec fn spec_claim_drop(accounts: Seq<AccountView>, data: Seq<u8>) -> Result<
    Seq<AccountView>,
    DropError,
> {
    if accounts.len() < CLAIM_ACCOUNTS {
        Err(DropError::AccountCount)
    } else if !accounts[SIGNER_ACCOUNT as int].is_signer {
        Err(DropError::Signature)
    } else if data.len() < CLAIM_PAYLOAD_LEN {
        Err(DropError::MalformedInstruction)
    } else if accounts[DROP_ACCOUNT as int].data.len() < DROP_LEN {
        Err(DropError::SlotTooSmall)
    } else {
        let record = spec_load_record(accounts);
        let claimer_lat = spec_i64_from_le(data.subrange(0, 8));
        let claimer_lng = spec_i64_from_le(data.subrange(8, 16));
        if record.claimed() {
            Err(DropError::DoubleClaim)
        } else if !spec_inside(
            claimer_lat as int,
            claimer_lng as int,
            record.latitude as int,
            record.longitude as int,
        ) {
            Err(
                DropError::Proximity {
                    dlat: spec_abs_diff(claimer_lat as int, record.latitude as int) as u64,
                    dlng: spec_abs_diff(claimer_lng as int, record.longitude as int) as u64,
                },
            )
        } else if accounts[VAULT_ACCOUNT as int].lamports < record.reward_amount {
            Err(
                DropError::InsufficientFunds {
                    available: accounts[VAULT_ACCOUNT as int].lamports,
                    needed: record.reward_amount,
                },
            )
        } else if accounts[SIGNER_ACCOUNT as int].lamports + record.reward_amount > u64::MAX {
            Err(DropError::BalanceOverflow)
        } else {
            Ok(spec_pay_out(accounts, record.reward_amount))
        }
    }
}

/// Whether a result and the accounts left behind are what `outcome` says:
/// on success the accounts it gives, on refusal its error and the accounts
/// unchanged.
pub open spec fn spec_applied(
    outcome: Result<Seq<AccountView>, DropError>,
    before: Seq<AccountView>,
    after: Seq<AccountView>,
    result: Result<(), DropError>,
) -> bool {
    match outcome {
        Ok(accounts) => result is Ok && after == accounts,
        Err(e) => result == Err::<(), DropError>(e) && after == before,
    }
}

/// A successful creation leaves the described record in the slot, unclaimed,
/// and moves no funds.
pub proof fn lemma_create_stores_record(accounts: Seq<AccountView>, data: Seq<u8>)
    requires
        spec_create_drop(accounts, data) is Ok,
        accounts[SIGNER_ACCOUNT as int].wf(),
    ensures
        ({
            let after = spec_create_drop(accounts, data).unwrap();
            let record = spec_new_record(accounts[SIGNER_ACCOUNT as int].key, data);
            &&& after.len() == accounts.len()
            &&& spec_load_record(after) == record
            &&& !record.claimed()
            &&& forall|i: int|
                0 <= i < accounts.len() ==> after[i].lamports == accounts[i].lamports
        }),
{
    let record = spec_new_record(accounts[SIGNER_ACCOUNT as int].key, data);
    let after = spec_create_drop(accounts, data).unwrap();
    lemma_decode_encode(record);
    assert(after[DROP_ACCOUNT as int].data.take(DROP_LEN as int) =~= record.encode());
}

/// A successful claim conserves value: the claimer gains exactly the reward,
/// the vault loses exactly the reward, so that the two hold together what
/// they held before, and of the record only the claim flag changes.
pub proof fn lemma_claim_conserves(accounts: Seq<AccountView>, data: Seq<u8>)
    requires
        spec_claim_drop(accounts, data) is Ok,
    ensures
        ({
            let after = spec_claim_drop(accounts, data).unwrap();
            let record = spec_load_record(accounts);
            let reward = record.reward_amount;
            &&& after.len() == accounts.len()
            &&& after[SIGNER_ACCOUNT as int].lamports - accounts[SIGNER_ACCOUNT as int].lamports
                == reward
            &&& accounts[VAULT_ACCOUNT as int].lamports - after[VAULT_ACCOUNT as int].lamports
                == reward
            &&& after[VAULT_ACCOUNT as int].lamports + after[SIGNER_ACCOUNT as int].lamports
                == accounts[VAULT_ACCOUNT as int].lamports
                + accounts[SIGNER_ACCOUNT as int].lamports
            &&& spec_load_record(after) == record.mark_claimed()
        }),
{
    let after = spec_claim_drop(accounts, data).unwrap();
    let slot = accounts[DROP_ACCOUNT as int].data;
    lemma_mark_claimed_bytes(slot.take(DROP_LEN as int));
    lemma_decode_encode(spec_load_record(accounts).mark_claimed());
    assert(after[DROP_ACCOUNT as int].data.take(DROP_LEN as int) =~= slot.take(
        DROP_LEN as int,
    ).update(CLAIMED_AT as int, 1u8));
}

/// The claim flag is never cleared by a claim: on a record that is claimed,
/// no claim succeeds, whoever makes it and from wherever, so it changes no
/// record and no balance; one that is signed and well-formed is refused as
/// already claimed.
pub proof fn lemma_claimed_stays_claimed(accounts: Seq<AccountView>, data: Seq<u8>)
    requires
        accounts.len() > DROP_ACCOUNT,
        accounts[DROP_ACCOUNT as int].data.len() >= DROP_LEN,
        spec_load_record(accounts).claimed(),
    ensures
        spec_claim_drop(accounts, data) is Err,
        accounts.len() >= CLAIM_ACCOUNTS && accounts[SIGNER_ACCOUNT as int].is_signer && data.len()
            >= CLAIM_PAYLOAD_LEN ==> spec_claim_drop(accounts, data) == Err::<
            Seq<AccountView>,
            DropError,
        >(DropError::DoubleClaim),
        forall|after: Seq<AccountView>, result: Result<(), DropError>|
            spec_applied(spec_claim_drop(accounts, data), accounts, after, result) ==> after
                == accounts && result is Err,
{
}

/// A drop is claimed at most once: after a successful claim, no claim on the
/// same record succeeds, whoever makes it and from wherever, so none changes
/// the record or a balance again; one that is signed and well-formed is
/// refused as already claimed.
pub proof fn lemma_claim_once(
    accounts: Seq<AccountView>,
    data: Seq<u8>,
    later: Seq<AccountView>,
    later_data: Seq<u8>,
)
    requires
        spec_claim_drop(accounts, data) is Ok,
        later.len() > DROP_ACCOUNT,
        later[DROP_ACCOUNT as int].data == spec_claim_drop(
            accounts,
            data,
        ).unwrap()[DROP_ACCOUNT as int].data,
    ensures
        spec_claim_drop(later, later_data) is Err,
        later.len() >= CLAIM_ACCOUNTS && later[SIGNER_ACCOUNT as int].is_signer && later_data.len()
            >= CLAIM_PAYLOAD_LEN ==> spec_claim_drop(later, later_data) == Err::<
            Seq<AccountView>,
            DropError,
        >(DropError::DoubleClaim),
        forall|after: Seq<AccountView>, result: Result<(), DropError>|
            spec_applied(spec_claim_drop(later, later_data), later, after, result) ==> after
                == later && result is Err,
{
}

/// A claim that the claimer has not signed is refused for want of a
/// signature, whatever coordinates it reports.
pub proof fn lemma_unsigned_claim_refused(accounts: Seq<AccountView>, data: Seq<u8>)
    requires
        accounts.len() >= CLAIM_ACCOUNTS,
        !accounts[SIGNER_ACCOUNT as int].is_signer,
    ensures
        spec_claim_drop(accounts, data) == Err::<Seq<AccountView>, DropError>(
            DropError::Signature,
        ),
{
}

/// Creates a drop: writes a fresh, unclaimed record into the record slot.
///
/// Accounts, by position: record slot, vault, creator (must have signed),
/// a reserved account; accounts after these are not looked at. Payload:
/// latitude, longitude, reward, each 8 bytes; at least 28 bytes in all, of
/// which the rest is not read. The tests are made in this order: number of
/// accounts, signature, payload length, slot length. A record that the slot
/// already holds is overwritten, claimed or not. Nothing but the leading
/// bytes of the slot changes; no funds move.
pub fn create_drop(accounts: &mut [Account], data: &[u8]) -> (r: Result<(), DropError>)
    ensures
        spec_applied(
            spec_create_drop(old(accounts).deep_view(), data@),
            old(accounts).deep_view(),
            final(accounts).deep_view(),
            r,
        ),
        final(accounts)@.len() == old(accounts)@.len(),
        forall|i: int|
            #![trigger final(accounts)@[i]]
            0 <= i < old(accounts)@.len() ==> final(accounts)@[i].lamports
                == old(accounts)@[i].lamports,
{
    if accounts.len() < CREATE_ACCOUNTS {
        return Err(DropError::AccountCount);
    }
    if !accounts[SIGNER_ACCOUNT].is_signer {
        return Err(DropError::Signature);
    }
    if data.len() < CREATE_PAYLOAD_LEN {
        return Err(DropError::MalformedInstruction);
    }
    let record = Drop {
        creator: accounts[SIGNER_ACCOUNT].key,
        latitude: read_i64_le(data, 0),
        longitude: read_i64_le(data, 8),
        reward_amount: read_u64_le(data, 16),
        is_claimed: 0,
    };
    let stored = record.encode(accounts[DROP_ACCOUNT].data.as_mut_slice());
    proof {
        let before = old(accounts).deep_view();
        let after = accounts.deep_view();
        match stored {
            Ok(_) => {
                assert(after =~= spec_store_record(before, record@));
            },
            Err(_) => {
                assert(after =~= before);
            },
        }
    }
    stored
}

/// Claims a drop: pays the reward from the vault to the claimer and marks
/// the record as claimed.
///
/// Accounts, by position: record slot, vault, claimer (must have signed);
/// accounts after these are not looked at. Payload: the claimer's latitude
/// and longitude, each 8 bytes; bytes after them are not read. The tests
/// are made in this order: number of accounts, signature, payload length,
/// slot length, claim flag, geofence, the vault's funds, room in the
/// claimer's balance. Only when all pass are the two balances and the flag
/// changed, all three together; the reward goes from the vault to the
/// claimer in full.
pub fn claim_drop(accounts: &mut [Account], data: &[u8]) -> (r: Result<(), DropError>)
    ensures
        spec_applied(
            spec_claim_drop(old(accounts).deep_view(), data@),
            old(accounts).deep_view(),
            final(accounts).deep_view(),
            r,
        ),
        final(accounts)@.len() == old(accounts)@.len(),
        r is Ok ==> ({
            let reward = spec_load_record(old(accounts).deep_view()).reward_amount;
            let vault = VAULT_ACCOUNT as int;
            let claimer = SIGNER_ACCOUNT as int;
            &&& final(accounts)@[claimer].lamports - old(accounts)@[claimer].lamports == reward
            &&& old(accounts)@[vault].lamports - final(accounts)@[vault].lamports == reward
        }),
{
    if accounts.len() < CLAIM_ACCOUNTS {
        return Err(DropError::AccountCount);
    }
    if !accounts[SIGNER_ACCOUNT].is_signer {
        return Err(DropError::Signature);
    }
    if data.len() < CLAIM_PAYLOAD_LEN {
        return Err(DropError::MalformedInstruction);
    }
    let claimer_lat: i64 = read_i64_le(data, 0);
    let claimer_lng: i64 = read_i64_le(data, 8);
    let record = match Drop::decode(accounts[DROP_ACCOUNT].data.as_slice()) {
        Ok(record) => record,
        Err(e) => {
            return Err(e);
        },
    };
    if record.claimed() {
        return Err(DropError::DoubleClaim);
    }
    if !inside(claimer_lat, claimer_lng, record.latitude, record.longitude) {
        return Err(
            DropError::Proximity {
                dlat: abs_diff(claimer_lat, record.latitude),
                dlng: abs_diff(claimer_lng, record.longitude),
            },
        );
    }
    let vault: u64 = accounts[VAULT_ACCOUNT].lamports;
    let vault_after: u64 = match vault.checked_sub(record.reward_amount) {
        Some(left) => left,
        None => {
            return Err(
                DropError::InsufficientFunds { available: vault, needed: record.reward_amount },
            );
        },
    };
    let claimer_after: u64 = match accounts[SIGNER_ACCOUNT].lamports.checked_add(
        record.reward_amount,
    ) {
        Some(sum) => sum,
        None => {
            return Err(DropError::BalanceOverflow);
        },
    };
    accounts[SIGNER_ACCOUNT].lamports = claimer_after;
    accounts[VAULT_ACCOUNT].lamports = vault_after;
    accounts[DROP_ACCOUNT].data[CLAIMED_AT] = 1;
    proof {
        assert(accounts.deep_view() =~= spec_pay_out(
            old(accounts).deep_view(),
            record.reward_amount,
        ));
    }
    Ok(())
}

} // verus!
