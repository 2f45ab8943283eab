use vstd::prelude::*;

use crate::account::{Balance, Timestamp};
use crate::message::{MessageView, Username};
use crate::records::{AccountView, Error, NameView, SaleView};

verus! {

/// The mathematical value of a [`crate::Transmitter`].
pub struct TransmitterView {
    /// The account ledger, by account.
    pub users: Map<Seq<u8>, AccountView>,
    /// The username registry, by username.
    pub names: Map<Seq<char>, NameView>,
    /// The outstanding sale offers, in the order they were made.
    pub sales: Seq<SaleView>,
    /// The contract owner.
    pub owner: Seq<u8>,
    /// The fees accrued to the owner.
    pub owner_balance: Balance,
    /// The registration fee.
    pub fee: Balance,
}

impl TransmitterView {
    /// An account's ledger balance; zero where it has no entry.
    pub open spec fn balance_of(self, a: Seq<u8>) -> Balance {
        if self.users.contains_key(a) {
            self.users[a].balance
        } else {
            0
        }
    }

    /// The usernames an account's entry lists; none where it has no entry.
    pub open spec fn names_of(self, a: Seq<u8>) -> Seq<Seq<char>> {
        if self.users.contains_key(a) {
            self.users[a].usernames
        } else {
            Seq::empty()
        }
    }

    /// A username is listed under an account exactly when the registry
    /// names that account as its owner.
    pub open spec fn ownership_consistent(self) -> bool {
        &&& forall|a: Seq<u8>, i: int|
            #![trigger self.users[a].usernames[i]]
            self.users.contains_key(a) && 0 <= i < self.users[a].usernames.len() ==> {
                &&& self.names.contains_key(self.users[a].usernames[i])
                &&& self.names[self.users[a].usernames[i]].owner == a
            }
        &&& forall|u: Seq<char>| #[trigger]
            self.names.contains_key(u) ==> {
                &&& self.users.contains_key(self.names[u].owner)
                &&& self.users[self.names[u].owner].usernames.contains(u)
            }
    }

    /// Every registered username is non-empty.
    pub open spec fn names_nonempty(self) -> bool {
        forall|u: Seq<char>| #[trigger] self.names.contains_key(u) ==> u.len() > 0
    }

    /// Adds `delta` to an account's balance, creating its entry if absent.
    pub open spec fn credit(self, a: Seq<u8>, delta: Balance) -> TransmitterView {
        TransmitterView {
            users: self.users.insert(
                a,
                AccountView {
                    usernames: self.names_of(a),
                    balance: (self.balance_of(a) + delta) as Balance,
                },
            ),
            ..self
        }
    }

    /// A successful registration of `name` by `a`: the fee accrues to the
    /// owner, `change` to `a`, and `name` is recorded on both sides.
    pub open spec fn register(
        self,
        a: Seq<u8>,
        name: Seq<char>,
        change: Balance,
        time: Timestamp,
    ) -> TransmitterView {
        TransmitterView {
            users: self.users.insert(
                a,
                AccountView {
                    usernames: self.names_of(a).push(name),
                    balance: (self.balance_of(a) + change) as Balance,
                },
            ),
            names: self.names.insert(
                name,
                NameView { owner: a, mailbox: Seq::empty(), fee_payment_time: time },
            ),
            owner_balance: (self.owner_balance + self.fee) as Balance,
            ..self
        }
    }

    /// Replaces the mailbox of a registered name.
    pub open spec fn with_mailbox(self, u: Seq<char>, mailbox: Seq<MessageView>) -> TransmitterView {
        TransmitterView {
            names: self.names.insert(u, NameView { mailbox, ..self.names[u] }),
            ..self
        }
    }

    /// The outcome of sending `m` from `from` to `to` on behalf of `caller`:
    /// the sender must be registered and the caller's, and the recipient
    /// registered; then `m` is appended to the recipient's mailbox.
    pub open spec fn sent(
        self,
        after: TransmitterView,
        caller: Seq<u8>,
        from: Username,
        to: Username,
        m: MessageView,
        r: Result<(), Error>,
    ) -> bool {
        if !self.names.contains_key(from@) {
            r == Err::<(), Error>(Error::NameNonexistent(from)) && after == self
        } else if self.names[from@].owner != caller {
            r == Err::<(), Error>(Error::WrongAccount(from)) && after == self
        } else if !self.names.contains_key(to@) {
            r == Err::<(), Error>(Error::NameNonexistent(to)) && after == self
        } else {
            r == Ok::<(), Error>(()) && after == self.with_mailbox(
                to@,
                self.names[to@].mailbox.push(m),
            )
        }
    }

    /// Sets the balance of an account that has an entry.
    pub open spec fn with_balance(self, a: Seq<u8>, balance: Balance) -> TransmitterView {
        TransmitterView {
            users: self.users.insert(a, AccountView { balance, ..self.users[a] }),
            ..self
        }
    }

    /// Removes an account's entry and every username it lists.
    pub open spec fn closed(self, a: Seq<u8>) -> TransmitterView {
        TransmitterView {
            users: self.users.remove(a),
            names: self.names.remove_keys(self.users[a].usernames.to_set()),
            ..self
        }
    }

    /// Whether an offer for username `u` is outstanding.
    pub open spec fn in_sale(self, u: Seq<char>) -> bool {
        exists|i: int| 0 <= i < self.sales.len() && #[trigger] self.sales[i].username == u
    }
}

/// Whether a sale offer is addressed to account `a`.
pub open spec fn offered_to(a: Seq<u8>) -> spec_fn(SaleView) -> bool {
    |o: SaleView| o.to == a
}

/// The index of the first offer in `sales` for username `u`.
pub open spec fn is_first_offer_for(sales: Seq<SaleView>, u: Seq<char>, i: int) -> bool {
    &&& 0 <= i < sales.len()
    &&& sales[i].username == u
    &&& forall|j: int| 0 <= j < i ==> sales[j].username != u
}

/// The index of the first message in `mailbox` with fingerprint `hash`.
pub open spec fn is_first_with_hash(mailbox: Seq<MessageView>, hash: Seq<u8>, i: int) -> bool {
    &&& 0 <= i < mailbox.len()
    &&& mailbox[i].hash == hash
    &&& forall|j: int| 0 <= j < i ==> mailbox[j].hash != hash
}

/// Setting the balance of an account that has an entry keeps ownership
/// consistent.
pub(crate) proof fn lemma_balance_consistent(s: TransmitterView, a: Seq<u8>, balance: Balance)
    requires
        s.ownership_consistent(),
        s.users.contains_key(a),
    ensures
        s.with_balance(a, balance).ownership_consistent(),
{
    let t = s.with_balance(a, balance);
    assert forall|u: Seq<char>| #[trigger] t.names.contains_key(u) implies {
        &&& t.users.contains_key(t.names[u].owner)
        &&& t.users[t.names[u].owner].usernames.contains(u)
    } by {
        assert(s.names.contains_key(u));
    }
}

/// Closing an account keeps ownership consistent.
pub(crate) proof fn lemma_close_consistent(s: TransmitterView, a: Seq<u8>)
    requires
        s.ownership_consistent(),
        s.users.contains_key(a),
    ensures
        s.closed(a).ownership_consistent(),
{
    let t = s.closed(a);
    let gone = s.users[a].usernames.to_set();
    assert forall|b: Seq<u8>, i: int|
        t.users.contains_key(b) && 0 <= i < t.users[b].usernames.len() implies {
        &&& t.names.contains_key(#[trigger] t.users[b].usernames[i])
        &&& t.names[t.users[b].usernames[i]].owner == b
    } by {
        let u = s.users[b].usernames[i];
        assert(s.names.contains_key(u) && s.names[u].owner == b);
        if gone.contains(u) {
            assert(s.users[a].usernames.contains(u));
            let j = choose|j: int| 0 <= j < s.users[a].usernames.len() && s.users[a].usernames[j] == u;
            assert(s.names[s.users[a].usernames[j]].owner == a);
        }
    }
    assert forall|u: Seq<char>| #[trigger] t.names.contains_key(u) implies {
        &&& t.users.contains_key(t.names[u].owner)
        &&& t.users[t.names[u].owner].usernames.contains(u)
    } by {
        assert(s.names.contains_key(u));
        assert(!gone.contains(u));
    }
}

/// Replacing a name's mailbox keeps ownership consistent.
pub(crate) proof fn lemma_mailbox_consistent(s: TransmitterView, u: Seq<char>, mailbox: Seq<MessageView>)
    requires
        s.ownership_consistent(),
        s.names.contains_key(u),
    ensures
        s.with_mailbox(u, mailbox).ownership_consistent(),
{
    let t = s.with_mailbox(u, mailbox);
    assert forall|v: Seq<char>| #[trigger] t.names.contains_key(v) implies {
        &&& t.users.contains_key(t.names[v].owner)
        &&& t.users[t.names[v].owner].usernames.contains(v)
    } by {
        assert(s.names.contains_key(v));
    }
}

/// Crediting a balance keeps ownership consistent.
pub(crate) proof fn lemma_credit_consistent(s: TransmitterView, a: Seq<u8>, delta: Balance)
    requires
        s.ownership_consistent(),
    ensures
        s.credit(a, delta).ownership_consistent(),
{
    let t = s.credit(a, delta);
    assert forall|u: Seq<char>| #[trigger] t.names.contains_key(u) implies {
        &&& t.users.contains_key(t.names[u].owner)
        &&& t.users[t.names[u].owner].usernames.contains(u)
    } by {
        assert(s.names.contains_key(u));
    }
}

/// Registering a free name keeps ownership consistent.
pub(crate) proof fn lemma_register_consistent(
    s: TransmitterView,
    a: Seq<u8>,
    name: Seq<char>,
    change: Balance,
    time: Timestamp,
)
    requires
        s.ownership_consistent(),
        !s.names.contains_key(name),
    ensures
        s.register(a, name, change, time).ownership_consistent(),
{
    let t = s.register(a, name, change, time);
    assert forall|b: Seq<u8>, i: int|
        t.users.contains_key(b) && 0 <= i < t.users[b].usernames.len() implies {
        &&& t.names.contains_key(#[trigger] t.users[b].usernames[i])
        &&& t.names[t.users[b].usernames[i]].owner == b
    } by {
        if b == a {
            if i < s.names_of(a).len() {
                assert(s.users[a].usernames[i] == t.users[b].usernames[i]);
            }
        } else {
            assert(s.users[b].usernames[i] == t.users[b].usernames[i]);
        }
    }
    assert forall|u: Seq<char>| #[trigger] t.names.contains_key(u) implies {
        &&& t.users.contains_key(t.names[u].owner)
        &&& t.users[t.names[u].owner].usernames.contains(u)
    } by {
        let list = s.names_of(a).push(name);
        if u == name {
            assert(list[list.len() - 1] == u);
        } else {
            assert(s.names.contains_key(u));
            let o = s.names[u].owner;
            if o == a {
                let j = choose|j: int| 0 <= j < s.users[a].usernames.len() && s.users[a].usernames[j] == u;
                assert(list[j] == u);
            }
        }
    }
}

} // verus!
