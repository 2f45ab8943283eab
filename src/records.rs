use vstd::prelude::*;

use crate::account::{AccountId, Balance, Timestamp};
use crate::message::{messages_view, Message, MessageView, Username};

verus! {

/// The errors that operations return.
#[derive(Debug, PartialEq, Eq)]
pub enum Error {
    NameTaken,
    InvalidName,
    NameNonexistent(Username),
    WrongAccount(Username),
    NoMessages,
    MessageNonexistent,
    NoNames,
    InsufficientBalance,
    NotContractOwner,
    UpgradeFailed,
    PaymentFailed { received: Balance, required: Balance, missing: Balance },
    WithdrawFailed,
    NoBalance,
    NoAccount,
    CloseAccountFailed,
    UsernameAlreadyInSale,
    UsernameNotInSale,
    NoSalesForYou,
}

/// The views of a sequence of usernames.
pub open spec fn names_view(s: Seq<Username>) -> Seq<Seq<char>> {
    s.map_values(|n: Username| n@)
}

/// An account's entry in the ledger.
#[derive(Debug)]
pub struct UserInfo {
    pub usernames: Option<Vec<Username>>,
    pub balance: Balance,
}

/// The mathematical value of a [`UserInfo`]: no usernames and an empty
/// list of them are the same.
pub struct AccountView {
    pub usernames: Seq<Seq<char>>,
    pub balance: Balance,
}

impl View for UserInfo {
    type V = AccountView;

    open spec fn view(&self) -> AccountView {
        AccountView {
            usernames: match &self.usernames {
                Some(v) => names_view(v@),
                None => Seq::empty(),
            },
            balance: self.balance,
        }
    }
}

/// A username's entry in the registry.
#[derive(Debug)]
pub struct UsernameInfo {
    pub account_id: AccountId,
    pub messages: Option<Vec<Message>>,
    pub fee_payment_time: Timestamp,
}

/// The mathematical value of a [`UsernameInfo`]: no mailbox and an empty
/// one are the same.
pub struct NameView {
    pub owner: Seq<u8>,
    pub mailbox: Seq<MessageView>,
    pub fee_payment_time: Timestamp,
}

impl View for UsernameInfo {
    type V = NameView;

    open spec fn view(&self) -> NameView {
        NameView {
            owner: self.account_id@,
            mailbox: match &self.messages {
                Some(v) => messages_view(v@),
                None => Seq::empty(),
            },
            fee_payment_time: self.fee_payment_time,
        }
    }
}

/// The contract's owner and the fees accrued to it.
#[derive(Clone, Copy, Debug)]
pub struct OwnerInfo {
    pub account_id: AccountId,
    pub balance: Balance,
}

/// An offer to sell a username to an account for a price.
#[derive(Debug, PartialEq, Eq)]
pub struct Sale {
    pub username: Username,
    pub to: AccountId,
    pub price: Balance,
}

/// The mathematical value of a [`Sale`].
pub struct SaleView {
    pub username: Seq<char>,
    pub to: Seq<u8>,
    pub price: Balance,
}

impl View for Sale {
    type V = SaleView;

    open spec fn view(&self) -> SaleView {
        SaleView { username: self.username@, to: self.to@, price: self.price }
    }
}

impl Clone for Sale {
    fn clone(&self) -> (r: Sale)
        ensures
            r@ == self@,
    {
        Sale { username: self.username.clone(), to: self.to, price: self.price }
    }
}

/// The views of a sequence of sale offers.
pub open spec fn sales_view(s: Seq<Sale>) -> Seq<SaleView> {
    s.map_values(|o: Sale| o@)
}

} // verus!
