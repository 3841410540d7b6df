//! Accounts as the operations see them: plain values handed in by the host.

use crate::state::KEY_LEN;
use pinocchio::pubkey::Pubkey;
use vstd::prelude::*;

verus! {

/// What an operation reads and changes of one account.
#[derive(Debug, PartialEq, Eq)]
pub struct Account {
    /// Identity of the account.
    pub key: Pubkey,
    /// Whether the account's owner has signed the operation.
    pub is_signer: bool,
    /// Balance in the smallest currency unit.
    pub lamports: u64,
    /// The account's storage.
    pub data: Vec<u8>,
}

/// An account as a mathematical value.
pub struct AccountView {
    pub key: Seq<u8>,
    pub is_signer: bool,
    pub lamports: u64,
    pub data: Seq<u8>,
}

impl AccountView {
    /// The key is a full identity.
    pub open spec fn wf(self) -> bool {
        self.key.len() == KEY_LEN
    }
}

impl View for Account {
    type V = AccountView;

    open spec fn view(&self) -> AccountView {
        AccountView {
            key: self.key@,
            is_signer: self.is_signer,
            lamports: self.lamports,
            data: self.data@,
        }
    }
}

impl Clone for Account {
    /// A copy with the same key, signature, balance and storage.
    fn clone(&self) -> (copy: Account)
        ensures
            copy@ == self@,
    {
        Account {
            key: self.key,
            is_signer: self.is_signer,
            lamports: self.lamports,
            data: self.data.clone(),
        }
    }
}

impl DeepView for Account {
    type V = AccountView;

    open spec fn deep_view(&self) -> AccountView {
        self@
    }
}

} // verus!
