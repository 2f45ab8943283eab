use vstd::prelude::*;

use crate::account::{bytes32_eq, AccountId, Balance, BlockNumber, Timestamp};
use crate::message::{
    fingerprint_input, message_hash, messages_view, sha2_256_of, Content, Message, MessageType,
    MessageView, Username,
};
use crate::model::{
    is_first_offer_for, is_first_with_hash, lemma_balance_consistent, lemma_close_consistent,
    lemma_credit_consistent, lemma_mailbox_consistent, lemma_register_consistent, offered_to,
    TransmitterView,
};
use crate::records::{
    names_view, sales_view, AccountView, Error, NameView, OwnerInfo, Sale, SaleView, UserInfo,
    UsernameInfo,
};
use crate::store::Store;

verus! {

/// The fee that a freshly created registry charges for a username.
pub const INITIAL_FEE: Balance = 1;

/// Copies a list of usernames.
fn copy_names(v: &Vec<Username>) -> (r: Vec<Username>)
    ensures
        r@ == v@,
{
    let mut r: Vec<Username> = Vec::new();
    let mut i: usize = 0;
    while i < v.len()
        invariant
            0 <= i <= v@.len(),
            r@ == v@.subrange(0, i as int),
        decreases v@.len() - i,
    {
        r.push(v[i].clone());
        i = i + 1;
        assert(r@ =~= v@.subrange(0, i as int));
    }
    assert(r@ =~= v@);
    r
}

/// Copies a list of messages.
fn copy_messages(v: &Vec<Message>) -> (r: Vec<Message>)
    ensures
        messages_view(r@) == messages_view(v@),
{
    let mut r: Vec<Message> = Vec::new();
    let mut i: usize = 0;
    while i < v.len()
        invariant
            0 <= i <= v@.len(),
            r@.len() == i,
            forall|j: int| 0 <= j < i ==> r@[j]@ == v@[j]@,
        decreases v@.len() - i,
    {
        r.push(v[i].clone());
        i = i + 1;
    }
    assert(messages_view(r@) =~= messages_view(v@));
    r
}

/// The index of the first message with the given fingerprint, if any.
fn find_first_hash(v: &Vec<Message>, hash: &[u8; 32]) -> (r: Option<usize>)
    ensures
        match r {
            Some(i) => is_first_with_hash(messages_view(v@), hash@, i as int),
            None => forall|j: int| 0 <= j < v@.len() ==> v@[j].hash@ != hash@,
        },
{
    let mut i: usize = 0;
    while i < v.len()
        invariant
            0 <= i <= v@.len(),
            forall|j: int| 0 <= j < i ==> v@[j].hash@ != hash@,
        decreases v@.len() - i,
    {
        if bytes32_eq(&v[i].hash, hash) {
            return Some(i);
        }
        i = i + 1;
    }
    None
}

/// The registry, the ledger, the sale offers and the administration record.
pub struct Transmitter {
    users: Store<AccountId, UserInfo>,
    usernames: Store<Username, UsernameInfo>,
    sale_offers: Vec<Sale>,
    owner: OwnerInfo,
    registration_fee: Balance,
}

impl View for Transmitter {
    type V = TransmitterView;

    closed spec fn view(&self) -> TransmitterView {
        TransmitterView {
            users: self.users@,
            names: self.usernames@,
            sales: sales_view(self.sale_offers@),
            owner: self.owner.account_id@,
            owner_balance: self.owner.balance,
            fee: self.registration_fee,
        }
    }
}

impl Transmitter {
    /// The stores are well formed, ownership is consistent and every
    /// registered username is non-empty.
    pub closed spec fn wf(&self) -> bool {
        &&& self.users.wf()
        &&& self.usernames.wf()
        &&& self@.ownership_consistent()
        &&& self@.names_nonempty()
    }

    /// A username is listed under an account exactly when the registry names
    /// that account as the username's owner. Every operation keeps the
    /// registry well formed, so this holds after each of them.
    pub proof fn lemma_usernames_match_owners(&self, a: Seq<u8>, u: Seq<char>)
        requires
            self.wf(),
        ensures
            (self@.users.contains_key(a) && self@.users[a].usernames.contains(u)) <==> (
            self@.names.contains_key(u) && self@.names[u].owner == a),
    {
        if self@.users.contains_key(a) && self@.users[a].usernames.contains(u) {
            let i = choose|i: int|
                0 <= i < self@.users[a].usernames.len() && self@.users[a].usernames[i] == u;
            assert(self@.names.contains_key(self@.users[a].usernames[i]));
        }
    }

    /// An empty registry owned by `owner`, charging the initial fee.
    pub fn new(owner: AccountId) -> (r: Transmitter)
        ensures
            r.wf(),
            r@.users == Map::<Seq<u8>, AccountView>::empty(),
            r@.names == Map::<Seq<char>, NameView>::empty(),
            r@.sales == Seq::<SaleView>::empty(),
            r@.owner == owner@,
            r@.owner_balance == 0,
            r@.fee == INITIAL_FEE,
    {
        let r = Transmitter {
            users: Store::new(),
            usernames: Store::new(),
            sale_offers: Vec::new(),
            owner: OwnerInfo { account_id: owner, balance: 0 },
            registration_fee: INITIAL_FEE,
        };
        assert(sales_view(r.sale_offers@) =~= Seq::<SaleView>::empty());
        r
    }

    /// The fee for registering a username.
    pub fn check_fee(&self) -> (r: Balance)
        ensures
            r == self@.fee,
    {
        self.registration_fee
    }

    /// Adds `delta` to an account's balance, creating its entry if absent.
    pub fn register_or_credit(&mut self, account: AccountId, delta: Balance)
        requires
            old(self).wf(),
            old(self)@.balance_of(account@) + delta <= Balance::MAX,
        ensures
            final(self).wf(),
            final(self)@ == old(self)@.credit(account@, delta),
    {
        let info = match self.users.remove(&account) {
            Some(info) => UserInfo { usernames: info.usernames, balance: info.balance + delta },
            None => UserInfo { usernames: None, balance: delta },
        };
        self.users.insert(account, info);
        proof {
            lemma_credit_consistent(old(self)@, account@, delta);
            assert(self.users@ =~= old(self)@.credit(account@, delta).users);
        }
    }

    /// Registers `name` to the caller, who attached `transferred` to the call.
    ///
    /// An empty name is refused, and so is a name already registered; neither
    /// changes anything. Where the attached value is short of the fee, it is
    /// credited to the caller's balance and the call fails with
    /// `PaymentFailed`. Otherwise the fee accrues to the owner, the rest is
    /// credited to the caller, and the name is recorded in the registry and
    /// under the caller's account.
    pub fn register_username(
        &mut self,
        caller: AccountId,
        transferred: Balance,
        timestamp: Timestamp,
        name: Username,
    ) -> (r: Result<(), Error>)
        requires
            old(self).wf(),
            name@.len() > 0 && !old(self)@.names.contains_key(name@) ==> old(self)@.balance_of(
                caller@,
            ) + transferred <= Balance::MAX,
            name@.len() > 0 && !old(self)@.names.contains_key(name@) && transferred >= old(
                self,
            )@.fee ==> old(self)@.owner_balance + old(self)@.fee <= Balance::MAX,
        ensures
            final(self).wf(),
            if name@.len() == 0 {
                r == Err::<(), Error>(Error::InvalidName) && final(self)@ == old(self)@
            } else if old(self)@.names.contains_key(name@) {
                r == Err::<(), Error>(Error::NameTaken) && final(self)@ == old(self)@
            } else if transferred < old(self)@.fee {
                &&& r == Err::<(), Error>(
                    (Error::PaymentFailed {
                        received: transferred,
                        required: old(self)@.fee,
                        missing: (old(self)@.fee - transferred) as Balance,
                    }),
                )
                &&& final(self)@ == old(self)@.credit(caller@, transferred)
            } else {
                &&& r == Ok::<(), Error>(())
                &&& final(self)@ == old(self)@.register(
                    caller@,
                    name@,
                    (transferred - old(self)@.fee) as Balance,
                    timestamp,
                )
            },
            old(self)@.names.contains_key(name@) ==> r == Err::<(), Error>(Error::NameTaken)
                && final(self)@ == old(self)@,
            name@.len() > 0 && !old(self)@.names.contains_key(name@) && transferred < old(
                self,
            )@.fee ==> {
                &&& r is Err
                &&& final(self)@.balance_of(caller@) == old(self)@.balance_of(caller@) + transferred
                &&& !final(self)@.names.contains_key(name@)
            },
            name@.len() > 0 && !old(self)@.names.contains_key(name@) && transferred > old(
                self,
            )@.fee ==> {
                &&& r is Ok
                &&& final(self)@.owner_balance == old(self)@.owner_balance + old(self)@.fee
                &&& final(self)@.balance_of(caller@) == old(self)@.balance_of(caller@) + (
                transferred - old(self)@.fee)
                &&& final(self)@.names.contains_key(name@)
                &&& final(self)@.names[name@].owner == caller@
            },
    {
        if name.as_str().is_empty() {
            return Err(Error::InvalidName);
        }
        if self.usernames.contains(&name) {
            return Err(Error::NameTaken);
        }
        let fee = self.registration_fee;
        if transferred < fee {
            self.register_or_credit(caller, transferred);
            return Err(Error::PaymentFailed {
                received: transferred,
                required: fee,
                missing: fee - transferred,
            });
        }
        let ghost s = self@;
        let change = transferred - fee;
        self.owner.balance = self.owner.balance + fee;
        let info = match self.users.remove(&caller) {
            Some(info) => {
                let ghost listed = info@.usernames;
                assert(listed == s.names_of(caller@));
                let mut list = match info.usernames {
                    Some(v) => v,
                    None => Vec::new(),
                };
                let ghost before = list@;
                assert(names_view(before) =~= listed);
                list.push(name.clone());
                assert(names_view(list@) =~= names_view(before).push(name@));
                UserInfo { usernames: Some(list), balance: info.balance + change }
            },
            None => {
                let mut list: Vec<Username> = Vec::new();
                list.push(name.clone());
                assert(names_view(list@) =~= Seq::<Seq<char>>::empty().push(name@));
                UserInfo { usernames: Some(list), balance: change }
            },
        };
        self.users.insert(caller, info);
        self.usernames.insert(
            name,
            UsernameInfo { account_id: caller, messages: None, fee_payment_time: timestamp },
        );
        proof {
            lemma_register_consistent(s, caller@, name@, change, timestamp);
            assert(self@.users =~= s.register(caller@, name@, change, timestamp).users);
            assert(self@.names =~= s.register(caller@, name@, change, timestamp).names);
        }
        Ok(())
    }
    /// Whether `name` is registered.
    pub fn is_registered(&self, name: &Username) -> (r: bool)
        requires
            self.wf(),
        ensures
            r == self@.names.contains_key(name@),
    {
        self.usernames.contains(name)
    }

    /// The usernames registered to the caller.
    pub fn get_usernames(&self, caller: AccountId) -> (r: Result<Vec<Username>, Error>)
        requires
            self.wf(),
        ensures
            if !self@.users.contains_key(caller@) {
                r == Err::<Vec<Username>, Error>(Error::NoAccount)
            } else if self@.users[caller@].usernames.len() == 0 {
                r == Err::<Vec<Username>, Error>(Error::NoNames)
            } else {
                r matches Ok(v) && names_view(v@) == self@.users[caller@].usernames
            },
    {
        match self.users.get(&caller) {
            None => Err(Error::NoAccount),
            Some(info) => match &info.usernames {
                Some(v) => {
                    if v.len() == 0 {
                        Err(Error::NoNames)
                    } else {
                        Ok(copy_names(v))
                    }
                },
                None => Err(Error::NoNames),
            },
        }
    }

    /// The caller's ledger balance.
    pub fn get_balance(&self, caller: AccountId) -> (r: Result<Balance, Error>)
        requires
            self.wf(),
        ensures
            if self@.users.contains_key(caller@) {
                r == Ok::<Balance, Error>(self@.users[caller@].balance)
            } else {
                r == Err::<Balance, Error>(Error::NoAccount)
            },
    {
        match self.users.get(&caller) {
            None => Err(Error::NoAccount),
            Some(info) => Ok(info.balance),
        }
    }

    /// Appends a message with the given fingerprint to the mailbox of `to`,
    /// sent from `from`, which the caller must own.
    pub fn deliver_message(
        &mut self,
        caller: AccountId,
        from: Username,
        to: Username,
        mtype: MessageType,
        content: Content,
        hash: [u8; 32],
        timestamp: Timestamp,
    ) -> (r: Result<(), Error>)
        requires
            old(self).wf(),
        ensures
            final(self).wf(),
            old(self)@.sent(
                final(self)@,
                caller@,
                from,
                to,
                (MessageView {
                    from: from@,
                    mtype: mtype@,
                    content: content@,
                    hash: hash@,
                    timestamp,
                }),
                r,
            ),
    {
        match self.usernames.get(&from) {
            None => {
                return Err(Error::NameNonexistent(from));
            },
            Some(info) => {
                if !(info.account_id == caller) {
                    return Err(Error::WrongAccount(from));
                }
            },
        }
        if !self.usernames.contains(&to) {
            return Err(Error::NameNonexistent(to));
        }
        let ghost s = self@;
        let ghost m = MessageView {
            from: from@,
            mtype: mtype@,
            content: content@,
            hash: hash@,
            timestamp,
        };
        let mut info = self.usernames.remove(&to).unwrap();
        let mut messages = match info.messages {
            Some(v) => v,
            None => Vec::new(),
        };
        let ghost before = messages@;
        assert(messages_view(before) =~= s.names[to@].mailbox);
        messages.push(Message { from, mtype, content, hash, timestamp });
        assert(messages_view(messages@) =~= messages_view(before).push(m));
        info.messages = Some(messages);
        self.usernames.insert(to, info);
        proof {
            lemma_mailbox_consistent(s, to@, s.names[to@].mailbox.push(m));
            assert(self@.names =~= s.with_mailbox(to@, s.names[to@].mailbox.push(m)).names);
        }
        Ok(())
    }

    /// Sends a message from `from`, which the caller must own, to `to`. Its
    /// fingerprint is the SHA-256 digest of the block height's big-endian
    /// bytes followed by the content.
    pub fn send_message(
        &mut self,
        caller: AccountId,
        block_number: BlockNumber,
        timestamp: Timestamp,
        from: Username,
        to: Username,
        mtype: MessageType,
        content: Content,
    ) -> (r: Result<(), Error>)
        requires
            old(self).wf(),
        ensures
            final(self).wf(),
            old(self)@.sent(
                final(self)@,
                caller@,
                from,
                to,
                (MessageView {
                    from: from@,
                    mtype: mtype@,
                    content: content@,
                    hash: sha2_256_of(fingerprint_input(block_number, content@)),
                    timestamp,
                }),
                r,
            ),
    {
        let hash = message_hash(block_number, &content);
        self.deliver_message(caller, from, to, mtype, content, hash, timestamp)
    }

    /// The messages in the mailbox of `belonging_to`, which the caller must own.
    pub fn get_all_messages(&self, caller: AccountId, belonging_to: Username) -> (r: Result<
        Vec<Message>,
        Error,
    >)
        requires
            self.wf(),
        ensures
            if !self@.names.contains_key(belonging_to@) {
                r == Err::<Vec<Message>, Error>(Error::NameNonexistent(belonging_to))
            } else if self@.names[belonging_to@].owner != caller@ {
                r == Err::<Vec<Message>, Error>(Error::WrongAccount(belonging_to))
            } else if self@.names[belonging_to@].mailbox.len() == 0 {
                r == Err::<Vec<Message>, Error>(Error::NoMessages)
            } else {
                r matches Ok(v) && messages_view(v@) == self@.names[belonging_to@].mailbox
            },
    {
        match self.usernames.get(&belonging_to) {
            None => Err(Error::NameNonexistent(belonging_to)),
            Some(info) => {
                if !(info.account_id == caller) {
                    return Err(Error::WrongAccount(belonging_to));
                }
                match &info.messages {
                    Some(v) => {
                        if v.len() == 0 {
                            Err(Error::NoMessages)
                        } else {
                            Ok(copy_messages(v))
                        }
                    },
                    None => Err(Error::NoMessages),
                }
            },
        }
    }

    /// Deletes the first message with fingerprint `hash` from the mailbox of
    /// `belonging_to`, which the caller must own. Later messages with the
    /// same fingerprint stay.
    pub fn delete_message(&mut self, caller: AccountId, belonging_to: Username, hash: [u8; 32]) -> (r:
        Result<(), Error>)
        requires
            old(self).wf(),
        ensures
            final(self).wf(),
            if !old(self)@.names.contains_key(belonging_to@) {
                r == Err::<(), Error>(Error::NameNonexistent(belonging_to)) && final(self)@ == old(
                    self,
                )@
            } else if old(self)@.names[belonging_to@].owner != caller@ {
                r == Err::<(), Error>(Error::WrongAccount(belonging_to)) && final(self)@ == old(
                    self,
                )@
            } else if old(self)@.names[belonging_to@].mailbox.len() == 0 {
                r == Err::<(), Error>(Error::NoMessages) && final(self)@ == old(self)@
            } else if forall|j: int|
                0 <= j < old(self)@.names[belonging_to@].mailbox.len() ==> old(
                    self,
                )@.names[belonging_to@].mailbox[j].hash != hash@ {
                r == Err::<(), Error>(Error::MessageNonexistent) && final(self)@ == old(self)@
            } else {
                &&& r == Ok::<(), Error>(())
                &&& exists|i: int|
                    is_first_with_hash(old(self)@.names[belonging_to@].mailbox, hash@, i)
                        && final(self)@ == old(self)@.with_mailbox(
                        belonging_to@,
                        old(self)@.names[belonging_to@].mailbox.remove(i),
                    )
            },
            r is Ok ==> final(self)@.names[belonging_to@].mailbox.len() == old(
                self,
            )@.names[belonging_to@].mailbox.len() - 1,
    {
        let pos = match self.usernames.get(&belonging_to) {
            None => {
                return Err(Error::NameNonexistent(belonging_to));
            },
            Some(info) => {
                if !(info.account_id == caller) {
                    return Err(Error::WrongAccount(belonging_to));
                }
                match &info.messages {
                    None => {
                        return Err(Error::NoMessages);
                    },
                    Some(v) => {
                        if v.len() == 0 {
                            return Err(Error::NoMessages);
                        }
                        let pos = find_first_hash(v, &hash);
                        proof {
                            if pos is None {
                                assert forall|j: int|
                                    0 <= j < self@.names[belonging_to@].mailbox.len() implies self@.names[belonging_to@].mailbox[j].hash
                                    != hash@ by {
                                    assert(self@.names[belonging_to@].mailbox[j] == v@[j]@);
                                }
                            }
                        }
                        pos
                    },
                }
            },
        };
        match pos {
            None => Err(Error::MessageNonexistent),
            Some(i) => {
                let ghost s = self@;
                let ghost b = belonging_to@;
                let mut info = self.usernames.remove(&belonging_to).unwrap();
                let mut messages = match info.messages {
                    Some(v) => v,
                    None => Vec::new(),
                };
                let ghost before = messages@;
                assert(messages_view(before) =~= s.names[b].mailbox);
                messages.remove(i);
                assert(messages_view(messages@) =~= s.names[b].mailbox.remove(i as int));
                if messages.len() == 0 {
                    assert(s.names[b].mailbox.remove(i as int) =~= Seq::<MessageView>::empty());
                    info.messages = None;
                } else {
                    info.messages = Some(messages);
                }
                assert(info@ == NameView { mailbox: s.names[b].mailbox.remove(i as int), ..s.names[b] });
                self.usernames.insert(belonging_to, info);
                proof {
                    lemma_mailbox_consistent(s, b, s.names[b].mailbox.remove(i as int));
                    assert(self@.names =~= s.with_mailbox(b, s.names[b].mailbox.remove(i as int)).names);
                }
                Ok(())
            },
        }
    }

    /// Empties the mailbox of `username`, which the caller must own.
    pub fn delete_all_messages(&mut self, caller: AccountId, username: Username) -> (r: Result<
        (),
        Error,
    >)
        requires
            old(self).wf(),
        ensures
            final(self).wf(),
            if !old(self)@.names.contains_key(username@) {
                r == Err::<(), Error>(Error::NameNonexistent(username)) && final(self)@ == old(
                    self,
                )@
            } else if old(self)@.names[username@].owner != caller@ {
                r == Err::<(), Error>(Error::WrongAccount(username)) && final(self)@ == old(self)@
            } else {
                r == Ok::<(), Error>(()) && final(self)@ == old(self)@.with_mailbox(
                    username@,
                    Seq::empty(),
                )
            },
    {
        match self.usernames.get(&username) {
            None => {
                return Err(Error::NameNonexistent(username));
            },
            Some(info) => {
                if !(info.account_id == caller) {
                    return Err(Error::WrongAccount(username));
                }
            },
        }
        let ghost s = self@;
        let mut info = self.usernames.remove(&username).unwrap();
        info.messages = None;
        self.usernames.insert(username, info);
        proof {
            lemma_mailbox_consistent(s, username@, Seq::empty());
            assert(self@.names =~= s.with_mailbox(username@, Seq::empty()).names);
        }
        Ok(())
    }
    /// Offers `username`, which the caller must own, to account `to` for
    /// `price`. At most one offer per username is outstanding.
    pub fn sell_username_to(
        &mut self,
        caller: AccountId,
        username: Username,
        to: AccountId,
        price: Balance,
    ) -> (r: Result<(), Error>)
        requires
            old(self).wf(),
        ensures
            final(self).wf(),
            if !old(self)@.names.contains_key(username@) {
                r == Err::<(), Error>(Error::NameNonexistent(username)) && final(self)@ == old(
                    self,
                )@
            } else if old(self)@.names[username@].owner != caller@ {
                r == Err::<(), Error>(Error::WrongAccount(username)) && final(self)@ == old(self)@
            } else if old(self)@.in_sale(username@) {
                r == Err::<(), Error>(Error::UsernameAlreadyInSale) && final(self)@ == old(self)@
            } else {
                &&& r == Ok::<(), Error>(())
                &&& final(self)@ == (TransmitterView {
                    sales: old(self)@.sales.push((SaleView { username: username@, to: to@, price })),
                    ..old(self)@
                })
            },
    {
        match self.usernames.get(&username) {
            None => {
                return Err(Error::NameNonexistent(username));
            },
            Some(info) => {
                if !(info.account_id == caller) {
                    return Err(Error::WrongAccount(username));
                }
            },
        }
        match self.find_offer(&username) {
            Some(_) => Err(Error::UsernameAlreadyInSale),
            None => {
                let ghost before = self.sale_offers@;
                let ghost s = self@;
                self.sale_offers.push(Sale { username, to, price });
                assert(sales_view(self.sale_offers@) =~= sales_view(before).push(
                    SaleView { username: username@, to: to@, price },
                ));
                assert(self@.users == s.users && self@.names == s.names);
                Ok(())
            },
        }
    }

    /// The index of the first offer for `username`, if any.
    fn find_offer(&self, username: &Username) -> (r: Option<usize>)
        ensures
            match r {
                Some(i) => is_first_offer_for(self@.sales, username@, i as int),
                None => !self@.in_sale(username@),
            },
    {
        let mut i: usize = 0;
        while i < self.sale_offers.len()
            invariant
                0 <= i <= self.sale_offers@.len(),
                forall|j: int| 0 <= j < i ==> self.sale_offers@[j].username@ != username@,
            decreases self.sale_offers@.len() - i,
        {
            if self.sale_offers[i].username == *username {
                return Some(i);
            }
            i = i + 1;
        }
        proof {
            assert forall|j: int| 0 <= j < self@.sales.len() implies #[trigger] self@.sales[j].username
                != username@ by {
                assert(self@.sales[j] == self.sale_offers@[j]@);
            }
        }
        None
    }

    /// Withdraws the offer for `username`, which the caller must own.
    pub fn cancel_sale(&mut self, caller: AccountId, username: Username) -> (r: Result<(), Error>)
        requires
            old(self).wf(),
        ensures
            final(self).wf(),
            if !old(self)@.names.contains_key(username@) {
                r == Err::<(), Error>(Error::NameNonexistent(username)) && final(self)@ == old(
                    self,
                )@
            } else if old(self)@.names[username@].owner != caller@ {
                r == Err::<(), Error>(Error::WrongAccount(username)) && final(self)@ == old(self)@
            } else if !old(self)@.in_sale(username@) {
                r == Err::<(), Error>(Error::UsernameNotInSale) && final(self)@ == old(self)@
            } else {
                &&& r == Ok::<(), Error>(())
                &&& exists|i: int|
                    is_first_offer_for(old(self)@.sales, username@, i) && final(self)@
                        == (TransmitterView { sales: old(self)@.sales.remove(i), ..old(self)@ })
            },
    {
        match self.usernames.get(&username) {
            None => {
                return Err(Error::NameNonexistent(username));
            },
            Some(info) => {
                if !(info.account_id == caller) {
                    return Err(Error::WrongAccount(username));
                }
            },
        }
        match self.find_offer(&username) {
            None => Err(Error::UsernameNotInSale),
            Some(i) => {
                let ghost before = self.sale_offers@;
                let ghost s = self@;
                self.sale_offers.remove(i);
                assert(sales_view(self.sale_offers@) =~= sales_view(before).remove(i as int));
                assert(self@.users == s.users && self@.names == s.names);
                Ok(())
            },
        }
    }

    /// The outstanding offers addressed to the caller, in the order they
    /// were made.
    pub fn get_sale_propositions(&self, caller: AccountId) -> (r: Result<Vec<Sale>, Error>)
        ensures
            if self@.sales.filter(offered_to(caller@)).len() == 0 {
                r == Err::<Vec<Sale>, Error>(Error::NoSalesForYou)
            } else {
                r matches Ok(v) && sales_view(v@) == self@.sales.filter(offered_to(caller@))
            },
    {
        let ghost all = self@.sales;
        let ghost p = offered_to(caller@);
        let mut out: Vec<Sale> = Vec::new();
        let mut i: usize = 0;
        while i < self.sale_offers.len()
            invariant
                0 <= i <= self.sale_offers@.len(),
                all == sales_view(self.sale_offers@),
                p == offered_to(caller@),
                sales_view(out@) == all.subrange(0, i as int).filter(p),
            decreases self.sale_offers@.len() - i,
        {
            let ghost prefix = all.subrange(0, i as int);
            let ghost before = out@;
            assert(all.subrange(0, i + 1).drop_last() =~= prefix);
            assert(all.subrange(0, i + 1).last() == self.sale_offers@[i as int]@);
            proof {
                reveal(Seq::filter);
            }
            if self.sale_offers[i].to == caller {
                out.push(self.sale_offers[i].clone());
                assert(sales_view(out@) =~= sales_view(before).push(self.sale_offers@[i as int]@));
            }
            i = i + 1;
        }
        assert(all.subrange(0, all.len() as int) =~= all);
        if out.len() == 0 {
            Err(Error::NoSalesForYou)
        } else {
            Ok(out)
        }
    }

    /// Pays the caller's whole balance out to the caller.
    ///
    /// `payout_ok` is the host's report of that transfer. Only where it
    /// succeeded is the stored balance set to zero; where it failed, nothing
    /// changes.
    pub fn withdraw_balance(&mut self, caller: AccountId, payout_ok: bool) -> (r: Result<(), Error>)
        requires
            old(self).wf(),
        ensures
            final(self).wf(),
            if old(self)@.balance_of(caller@) == 0 {
                r == Err::<(), Error>(Error::NoBalance) && final(self)@ == old(self)@
            } else if !payout_ok {
                r == Err::<(), Error>(Error::WithdrawFailed) && final(self)@ == old(self)@
            } else {
                r == Ok::<(), Error>(()) && final(self)@ == old(self)@.with_balance(caller@, 0)
            },
            !payout_ok ==> final(self)@ == old(self)@,
    {
        match self.users.get(&caller) {
            None => {
                return Err(Error::NoBalance);
            },
            Some(info) => {
                if info.balance == 0 {
                    return Err(Error::NoBalance);
                }
            },
        }
        if !payout_ok {
            return Err(Error::WithdrawFailed);
        }
        let ghost s = self@;
        let mut info = self.users.remove(&caller).unwrap();
        info.balance = 0;
        self.users.insert(caller, info);
        proof {
            lemma_balance_consistent(s, caller@, 0);
            assert(self@.users =~= s.with_balance(caller@, 0).users);
        }
        Ok(())
    }

    /// Pays `amount` to account `to`. `payout_ok` is the host's report of
    /// that transfer; where it failed, the amount is credited to the
    /// account's ledger balance instead, so no value is lost. Returns
    /// whether the transfer itself went through.
    pub fn pay(&mut self, to: AccountId, amount: Balance, payout_ok: bool) -> (r: bool)
        requires
            old(self).wf(),
            !payout_ok ==> old(self)@.balance_of(to@) + amount <= Balance::MAX,
        ensures
            final(self).wf(),
            r == payout_ok,
            payout_ok ==> final(self)@ == old(self)@,
            !payout_ok ==> final(self)@ == old(self)@.credit(to@, amount),
    {
        if !payout_ok {
            self.register_or_credit(to, amount);
        }
        payout_ok
    }

    /// Closes the caller's account: pays out its balance, then removes every
    /// username it owns and its ledger entry.
    ///
    /// `payout_ok` is the host's report of the payout, consulted only where
    /// the balance is positive; where it failed, nothing changes.
    pub fn close_account(&mut self, caller: AccountId, payout_ok: bool) -> (r: Result<(), Error>)
        requires
            old(self).wf(),
        ensures
            final(self).wf(),
            if !old(self)@.users.contains_key(caller@) {
                r == Err::<(), Error>(Error::NoAccount) && final(self)@ == old(self)@
            } else if old(self)@.users[caller@].balance > 0 && !payout_ok {
                r == Err::<(), Error>(Error::CloseAccountFailed) && final(self)@ == old(self)@
            } else {
                r == Ok::<(), Error>(()) && final(self)@ == old(self)@.closed(caller@)
            },
    {
        match self.users.get(&caller) {
            None => {
                return Err(Error::NoAccount);
            },
            Some(info) => {
                if info.balance > 0 && !payout_ok {
                    return Err(Error::CloseAccountFailed);
                }
            },
        }
        let ghost s = self@;
        let info = self.users.remove(&caller).unwrap();
        let list = match info.usernames {
            Some(v) => v,
            None => Vec::new(),
        };
        let ghost listed = names_view(list@);
        assert(listed =~= s.users[caller@].usernames);
        let ghost rest = self@;
        let mut i: usize = 0;
        while i < list.len()
            invariant
                0 <= i <= list@.len(),
                listed == names_view(list@),
                self.users.wf(),
                self.usernames.wf(),
                self@ == (TransmitterView { names: self.usernames@, ..rest }),
                self.usernames@ == s.names.remove_keys(listed.subrange(0, i as int).to_set()),
            decreases list@.len() - i,
        {
            self.usernames.remove(&list[i]);
            proof {
                let prefix = listed.subrange(0, i as int);
                prefix.lemma_push_to_set_commute(listed[i as int]);
                assert(listed.subrange(0, i + 1) =~= prefix.push(listed[i as int]));
            }
            assert(self.usernames@ =~= s.names.remove_keys(listed.subrange(0, i + 1).to_set()));
            i = i + 1;
        }
        assert(listed.subrange(0, list@.len() as int) =~= listed);
        proof {
            lemma_close_consistent(s, caller@);
            assert(self@.users =~= s.closed(caller@).users);
        }
        Ok(())
    }

    /// The owner and the fees accrued to it.
    pub fn owner_info(&self) -> (r: OwnerInfo)
        ensures
            r.account_id@ == self@.owner,
            r.balance == self@.owner_balance,
    {
        self.owner
    }

    /// Hands the contract over to `new_owner`; only the owner may.
    pub fn co_transfer_contract_ownership(&mut self, caller: AccountId, new_owner: AccountId) -> (r:
        Result<(), Error>)
        requires
            old(self).wf(),
        ensures
            final(self).wf(),
            if caller@ != old(self)@.owner {
                r == Err::<(), Error>(Error::NotContractOwner) && final(self)@ == old(self)@
            } else {
                r == Ok::<(), Error>(()) && final(self)@ == (TransmitterView {
                    owner: new_owner@,
                    ..old(self)@
                })
            },
    {
        if !(caller == self.owner.account_id) {
            return Err(Error::NotContractOwner);
        }
        self.owner.account_id = new_owner;
        Ok(())
    }

    /// Replaces the contract's code; only the owner may. `upgrade_ok` is the
    /// host's report of the replacement, consulted only for the owner.
    pub fn co_set_code(&self, caller: AccountId, upgrade_ok: bool) -> (r: Result<(), Error>)
        ensures
            if caller@ != self@.owner {
                r == Err::<(), Error>(Error::NotContractOwner)
            } else if !upgrade_ok {
                r == Err::<(), Error>(Error::UpgradeFailed)
            } else {
                r == Ok::<(), Error>(())
            },
    {
        if !(caller == self.owner.account_id) {
            return Err(Error::NotContractOwner);
        }
        if !upgrade_ok {
            return Err(Error::UpgradeFailed);
        }
        Ok(())
    }

    /// Sets the registration fee; only the owner may.
    pub fn co_set_fee(&mut self, caller: AccountId, new_fee: Balance) -> (r: Result<(), Error>)
        requires
            old(self).wf(),
        ensures
            final(self).wf(),
            if caller@ != old(self)@.owner {
                r == Err::<(), Error>(Error::NotContractOwner) && final(self)@ == old(self)@
            } else {
                r == Ok::<(), Error>(()) && final(self)@ == (TransmitterView {
                    fee: new_fee,
                    ..old(self)@
                })
            },
    {
        if !(caller == self.owner.account_id) {
            return Err(Error::NotContractOwner);
        }
        self.registration_fee = new_fee;
        Ok(())
    }

    /// Pays the accrued fees out to the owner; only the owner may.
    ///
    /// `payout_ok` is the host's report of that transfer. Only where it
    /// succeeded are the accrued fees set to zero; where it failed, nothing
    /// changes.
    pub fn co_owner_withdraw_all_balance(&mut self, caller: AccountId, payout_ok: bool) -> (r: Result<
        (),
        Error,
    >)
        requires
            old(self).wf(),
        ensures
            final(self).wf(),
            if caller@ != old(self)@.owner {
                r == Err::<(), Error>(Error::NotContractOwner) && final(self)@ == old(self)@
            } else if old(self)@.owner_balance == 0 {
                r == Err::<(), Error>(Error::NoBalance) && final(self)@ == old(self)@
            } else if !payout_ok {
                r == Err::<(), Error>(Error::WithdrawFailed) && final(self)@ == old(self)@
            } else {
                r == Ok::<(), Error>(()) && final(self)@ == (TransmitterView {
                    owner_balance: 0,
                    ..old(self)@
                })
            },
    {
        if !(caller == self.owner.account_id) {
            return Err(Error::NotContractOwner);
        }
        if self.owner.balance == 0 {
            return Err(Error::NoBalance);
        }
        if !payout_ok {
            return Err(Error::WithdrawFailed);
        }
        self.owner.balance = 0;
        Ok(())
    }
}

} // verus!
