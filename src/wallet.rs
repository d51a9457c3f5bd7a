use vstd::prelude::*;

use crate::types::{Digest, PublicKey};

verus! {

/// Balance of a newly created wallet.
pub const INITIAL_BALANCE: u64 = 100;

/// An account of the wallet ledger.
#[derive(Clone, Debug)]
pub struct Wallet {
    pub pub_key: PublicKey,
    pub name: String,
    pub balance: u64,
    /// Length of the wallet's history.
    pub history_len: u64,
    /// Object hash of the wallet's history.
    pub history_hash: Digest,
}

/// Why a transfer was refused.
#[derive(Clone, Copy, Debug, PartialEq, Eq, Structural)]
pub enum TransferError {
    SenderNotFound,
    ReceiverNotFound,
    SenderSameAsReceiver,
    InsufficientCurrencyAmount,
    BalanceOverflow,
    /// A history already holds `u64::MAX` entries.
    HistoryFull,
}

/// The wallets, each with the history of transactions that touched it. Wallets and
/// histories are held as vectors with unique keys; the object hash of each history is
/// computed by the storage layer (exonum-merkledb) and handed in with every change.
#[derive(Clone, Debug)]
pub struct WalletSchema {
    wallets: Vec<Wallet>,
    /// `histories[i]` is the history of `wallets[i]`.
    histories: Vec<Vec<Digest>>,
}

impl WalletSchema {
    pub closed spec fn wallet_seq(&self) -> Seq<Wallet> {
        self.wallets@
    }

    /// The history of the wallet at position `i`.
    pub closed spec fn history_at(&self, i: int) -> Seq<Digest> {
        self.histories@[i]@
    }

    pub open spec fn has_wallet(&self, key: Seq<u8>) -> bool {
        exists|i: int| 0 <= i < self.wallet_seq().len() && (#[trigger] self.wallet_seq()[i]).pub_key@ == key
    }

    /// The position of the wallet of `key`.
    pub open spec fn index_of(&self, key: Seq<u8>) -> int {
        choose|i: int| 0 <= i < self.wallet_seq().len() && (#[trigger] self.wallet_seq()[i]).pub_key@ == key
    }

    /// The wallet of `key`.
    pub open spec fn wallet_of(&self, key: Seq<u8>) -> Wallet {
        self.wallet_seq()[self.index_of(key)]
    }

    /// The history of the wallet of `key`.
    pub open spec fn history_of(&self, key: Seq<u8>) -> Seq<Digest> {
        self.history_at(self.index_of(key))
    }

    /// Keys are unique, and each wallet's recorded history length is that of its history.
    pub closed spec fn wf(&self) -> bool {
        &&& self.wallets@.len() == self.histories@.len()
        &&& forall|i: int|
            0 <= i < self.wallets@.len() ==> (#[trigger] self.wallets@[i]).history_len
                == self.histories@[i]@.len()
        &&& forall|i: int, j: int|
            0 <= i < self.wallets@.len() && 0 <= j < self.wallets@.len() && i != j
                ==> self.wallets@[i].pub_key@ != self.wallets@[j].pub_key@
    }

    pub fn new() -> (r: WalletSchema)
        ensures
            r.wf(),
            r.wallet_seq().len() == 0,
    {
        WalletSchema { wallets: Vec::new(), histories: Vec::new() }
    }

    fn position(&self, key: &PublicKey) -> (r: Option<usize>)
        requires
            self.wf(),
        ensures
            r is Some <==> self.has_wallet(key@),
            r matches Some(i) ==> i < self.wallet_seq().len() && i == self.index_of(key@),
    {
        let mut i: usize = 0;
        while i < self.wallets.len()
            invariant
                0 <= i <= self.wallets@.len(),
                self.wf(),
                forall|j: int| 0 <= j < i ==> self.wallets@[j].pub_key@ != key@,
            decreases self.wallets@.len() - i,
        {
            if self.wallets[i].pub_key.same(key) {
                assert(self.wallet_seq()[i as int].pub_key@ == key@);
                let ghost c = self.index_of(key@);
                assert(self.wallets@[c].pub_key@ == key@);
                return Some(i);
            }
            i = i + 1;
        }
        None
    }

    /// The balance, history length and history hash of the wallet of `key`.
    pub fn wallet_state(&self, key: &PublicKey) -> (r: Option<(u64, u64, Digest)>)
        requires
            self.wf(),
        ensures
            r is Some <==> self.has_wallet(key@),
            r matches Some(t) ==> t == (
                self.wallet_of(key@).balance,
                self.wallet_of(key@).history_len,
                self.wallet_of(key@).history_hash,
            ),
    {
        match self.position(key) {
            Some(i) => Some(
                (self.wallets[i].balance, self.wallets[i].history_len, self.wallets[i].history_hash),
            ),
            None => None,
        }
    }

    /// The history of the wallet of `key`; empty if there is none.
    pub fn wallet_history(&self, key: &PublicKey) -> (r: Vec<Digest>)
        requires
            self.wf(),
        ensures
            self.has_wallet(key@) ==> r@ == self.history_of(key@),
            !self.has_wallet(key@) ==> r@.len() == 0,
    {
        match self.position(key) {
            Some(i) => {
                let h = &self.histories[i];
                let mut r: Vec<Digest> = Vec::new();
                let mut k: usize = 0;
                while k < h.len()
                    invariant
                        0 <= k <= h@.len(),
                        r@ == h@.subrange(0, k as int),
                    decreases h@.len() - k,
                {
                    r.push(h[k]);
                    k = k + 1;
                }
                assert(r@ =~= h@);
                r
            },
            None => Vec::new(),
        }
    }

    /// Creates the wallet of `key` with the initial balance and a history holding
    /// `transaction`. `history_hash` is the object hash of that one-entry history.
    /// Returns `false`, changing nothing, if `key` already has a wallet.
    pub fn create_wallet(
        &mut self,
        key: &PublicKey,
        name: String,
        transaction: Digest,
        history_hash: Digest,
    ) -> (r: bool)
        requires
            old(self).wf(),
        ensures
            final(self).wf(),
            r == !old(self).has_wallet(key@),
            !r ==> *final(self) == *old(self),
            r ==> final(self).has_wallet(key@),
            r ==> final(self).wallet_of(key@) == (Wallet {
                pub_key: *key,
                name,
                balance: INITIAL_BALANCE,
                history_len: 1,
                history_hash,
            }),
            r ==> final(self).history_of(key@) == seq![transaction],
            r ==> forall|k: Seq<u8>|
                k != key@ ==> (final(self).has_wallet(k) == old(self).has_wallet(k)),
            r ==> forall|k: Seq<u8>|
                #![trigger old(self).has_wallet(k)]
                k != key@ && old(self).has_wallet(k) ==> final(self).wallet_of(k) == old(
                    self,
                ).wallet_of(k) && final(self).history_of(k) == old(self).history_of(k),
    {
        if self.position(key).is_some() {
            return false;
        }
        let wallet = Wallet {
            pub_key: *key,
            name,
            balance: INITIAL_BALANCE,
            history_len: 1,
            history_hash,
        };
        let ghost n = self.wallets@.len();
        let mut history: Vec<Digest> = Vec::new();
        history.push(transaction);
        self.wallets.push(wallet);
        self.histories.push(history);
        assert(self.wallet_seq()[n as int].pub_key@ == key@);
        assert forall|i: int, j: int|
            0 <= i < self.wallets@.len() && 0 <= j < self.wallets@.len() && i != j implies self.wallets@[i].pub_key@
            != self.wallets@[j].pub_key@ by {
            if i == n {
                assert(self.wallets@[j] == old(self).wallets@[j]);
                assert(old(self).wallet_seq()[j].pub_key@ != key@);
            } else if j == n {
                assert(self.wallets@[i] == old(self).wallets@[i]);
                assert(old(self).wallet_seq()[i].pub_key@ != key@);
            }
        }
        proof {
            self.lemma_index_of(key@, n as int);
            assert(self.history_at(n as int) =~= seq![transaction]);
            assert forall|k: Seq<u8>| k != key@ implies (self.has_wallet(k) == old(self).has_wallet(
                k,
            )) by {
                if self.has_wallet(k) {
                    let i = choose|i: int|
                        0 <= i < self.wallet_seq().len() && (#[trigger] self.wallet_seq()[i]).pub_key@
                            == k;
                    assert(old(self).wallet_seq()[i].pub_key@ == k);
                }
                if old(self).has_wallet(k) {
                    let i = old(self).index_of(k);
                    assert(self.wallet_seq()[i].pub_key@ == k);
                }
            }
            assert forall|k: Seq<u8>|
                #![trigger old(self).has_wallet(k)]
                k != key@ && old(self).has_wallet(k) implies self.wallet_of(k) == old(self).wallet_of(
                    k,
                ) && self.history_of(k) == old(self).history_of(k) by {
                let i = old(self).index_of(k);
                assert(self.wallet_seq()[i].pub_key@ == k);
                self.lemma_index_of(k, i);
            }
        }
        true
    }

    /// The wallet at position `i` is the one `index_of` finds for its key.
    proof fn lemma_index_of(&self, key: Seq<u8>, i: int)
        requires
            self.wf(),
            0 <= i < self.wallet_seq().len(),
            self.wallet_seq()[i].pub_key@ == key,
        ensures
            self.index_of(key) == i,
    {
        let c = self.index_of(key);
        assert(self.wallets@[c].pub_key@ == key);
    }

    /// Appends `transaction` to the history of the wallet of `key` and sets its balance.
    fn record(&mut self, key: &PublicKey, balance: u64, transaction: Digest, history_hash: Digest)
        requires
            old(self).wf(),
            old(self).has_wallet(key@),
            old(self).history_of(key@).len() < u64::MAX,
        ensures
            final(self).wf(),
            final(self).wallet_seq().len() == old(self).wallet_seq().len(),
            forall|k: Seq<u8>| final(self).has_wallet(k) == old(self).has_wallet(k),
            final(self).wallet_of(key@) == (Wallet {
                balance,
                history_len: (old(self).wallet_of(key@).history_len + 1) as u64,
                history_hash,
                ..old(self).wallet_of(key@)
            }),
            final(self).history_of(key@) == old(self).history_of(key@).push(transaction),
            forall|k: Seq<u8>|
                #![trigger old(self).has_wallet(k)]
                k != key@ && old(self).has_wallet(k) ==> final(self).wallet_of(k) == old(
                    self,
                ).wallet_of(k) && final(self).history_of(k) == old(self).history_of(k),
    {
        let i = self.position(key).unwrap();
        let mut w = self.wallets.remove(i);
        w.balance = balance;
        w.history_len = w.history_len + 1;
        w.history_hash = history_hash;
        self.wallets.insert(i, w);
        let mut h: Vec<Digest> = Vec::new();
        std::mem::swap(&mut h, &mut self.histories[i]);
        h.push(transaction);
        self.histories.set(i, h);
        proof {
            assert forall|k: Seq<u8>| self.has_wallet(k) == old(self).has_wallet(k) by {
                if self.has_wallet(k) {
                    let j = choose|j: int|
                        0 <= j < self.wallet_seq().len() && (#[trigger] self.wallet_seq()[j]).pub_key@
                            == k;
                    assert(old(self).wallet_seq()[j].pub_key@ == k);
                }
                if old(self).has_wallet(k) {
                    let j = old(self).index_of(k);
                    assert(self.wallet_seq()[j].pub_key@ == k);
                }
            }
            self.lemma_index_of(key@, i as int);
            assert forall|k: Seq<u8>|
                #![trigger old(self).has_wallet(k)]
                k != key@ && old(self).has_wallet(k) implies self.wallet_of(k) == old(self).wallet_of(
                    k,
                ) && self.history_of(k) == old(self).history_of(k) by {
                let j = old(self).index_of(k);
                assert(self.wallet_seq()[j].pub_key@ == k);
                self.lemma_index_of(k, j);
            }
        }
    }

    /// Adds `amount` to the wallet of `key` and appends `transaction` to its history;
    /// `history_hash` is the object hash of the history after the append.
    pub fn increase_wallet_balance(
        &mut self,
        key: &PublicKey,
        amount: u64,
        transaction: Digest,
        history_hash: Digest,
    )
        requires
            old(self).wf(),
            old(self).has_wallet(key@),
            old(self).wallet_of(key@).balance + amount <= u64::MAX,
            old(self).history_of(key@).len() < u64::MAX,
        ensures
            final(self).wf(),
            forall|k: Seq<u8>| final(self).has_wallet(k) == old(self).has_wallet(k),
            final(self).wallet_of(key@) == (Wallet {
                balance: (old(self).wallet_of(key@).balance + amount) as u64,
                history_len: (old(self).wallet_of(key@).history_len + 1) as u64,
                history_hash,
                ..old(self).wallet_of(key@)
            }),
            final(self).history_of(key@) == old(self).history_of(key@).push(transaction),
            forall|k: Seq<u8>|
                #![trigger old(self).has_wallet(k)]
                k != key@ && old(self).has_wallet(k) ==> final(self).wallet_of(k) == old(
                    self,
                ).wallet_of(k) && final(self).history_of(k) == old(self).history_of(k),
    {
        let i = self.position(key).unwrap();
        let balance = self.wallets[i].balance + amount;
        self.record(key, balance, transaction, history_hash);
    }

    /// Takes `amount` from the wallet of `key` and appends `transaction` to its history;
    /// `history_hash` is the object hash of the history after the append.
    pub fn decrease_wallet_balance(
        &mut self,
        key: &PublicKey,
        amount: u64,
        transaction: Digest,
        history_hash: Digest,
    )
        requires
            old(self).wf(),
            old(self).has_wallet(key@),
            amount <= old(self).wallet_of(key@).balance,
            old(self).history_of(key@).len() < u64::MAX,
        ensures
            final(self).wf(),
            forall|k: Seq<u8>| final(self).has_wallet(k) == old(self).has_wallet(k),
            final(self).wallet_of(key@) == (Wallet {
                balance: (old(self).wallet_of(key@).balance - amount) as u64,
                history_len: (old(self).wallet_of(key@).history_len + 1) as u64,
                history_hash,
                ..old(self).wallet_of(key@)
            }),
            final(self).history_of(key@) == old(self).history_of(key@).push(transaction),
            forall|k: Seq<u8>|
                #![trigger old(self).has_wallet(k)]
                k != key@ && old(self).has_wallet(k) ==> final(self).wallet_of(k) == old(
                    self,
                ).wallet_of(k) && final(self).history_of(k) == old(self).history_of(k),
    {
        let i = self.position(key).unwrap();
        let balance = self.wallets[i].balance - amount;
        self.record(key, balance, transaction, history_hash);
    }

    /// The first check that a transfer of `amount` from `from` to `to` fails, if any.
    pub open spec fn transfer_error(&self, from: Seq<u8>, to: Seq<u8>, amount: u64) -> Option<
        TransferError,
    > {
        if from == to {
            Some(TransferError::SenderSameAsReceiver)
        } else if !self.has_wallet(to) {
            Some(TransferError::ReceiverNotFound)
        } else if !self.has_wallet(from) {
            Some(TransferError::SenderNotFound)
        } else if self.wallet_of(from).balance < amount {
            Some(TransferError::InsufficientCurrencyAmount)
        } else if self.wallet_of(to).balance + amount > u64::MAX {
            Some(TransferError::BalanceOverflow)
        } else if self.wallet_of(from).history_len == u64::MAX || self.wallet_of(to).history_len
            == u64::MAX {
            Some(TransferError::HistoryFull)
        } else {
            None
        }
    }

    /// Moves `amount` from the wallet of `from` to the wallet of `to` under `transaction`,
    /// which is appended to both histories. `from_history_hash` and `to_history_hash` are
    /// the object hashes of the two histories after the append.
    pub fn transfer(
        &mut self,
        from: &PublicKey,
        to: &PublicKey,
        amount: u64,
        transaction: Digest,
        from_history_hash: Digest,
        to_history_hash: Digest,
    ) -> (r: Result<(), TransferError>)
        requires
            old(self).wf(),
        ensures
            final(self).wf(),
            old(self).transfer_error(from@, to@, amount) matches Some(e) ==> r == Err::<(), TransferError>(e)
                && *final(self) == *old(self),
            old(self).transfer_error(from@, to@, amount) is None ==> {
                &&& r is Ok
                &&& final(self).wallet_of(from@).balance == old(self).wallet_of(from@).balance - amount
                &&& final(self).wallet_of(to@).balance == old(self).wallet_of(to@).balance + amount
                &&& final(self).wallet_of(from@).history_hash == from_history_hash
                &&& final(self).wallet_of(to@).history_hash == to_history_hash
                &&& final(self).history_of(from@) == old(self).history_of(from@).push(transaction)
                &&& final(self).history_of(to@) == old(self).history_of(to@).push(transaction)
                &&& forall|k: Seq<u8>| final(self).has_wallet(k) == old(self).has_wallet(k)
            },
    {
        if from.same(to) {
            return Err(TransferError::SenderSameAsReceiver);
        }
        let (to_balance, to_len, _) = match self.wallet_state(to) {
            Some(t) => t,
            None => {
                return Err(TransferError::ReceiverNotFound);
            },
        };
        let (from_balance, from_len, _) = match self.wallet_state(from) {
            Some(t) => t,
            None => {
                return Err(TransferError::SenderNotFound);
            },
        };
        if from_balance < amount {
            return Err(TransferError::InsufficientCurrencyAmount);
        }
        if to_balance > u64::MAX - amount {
            return Err(TransferError::BalanceOverflow);
        }
        if from_len == u64::MAX || to_len == u64::MAX {
            return Err(TransferError::HistoryFull);
        }
        proof {
            self.lemma_history_len_matches(from@);
            self.lemma_history_len_matches(to@);
        }
        self.decrease_wallet_balance(from, amount, transaction, from_history_hash);
        proof {
            self.lemma_history_len_matches(to@);
        }
        self.increase_wallet_balance(to, amount, transaction, to_history_hash);
        Ok(())
    }

    /// Every wallet records the length of its own history.
    pub proof fn lemma_history_len_matches(&self, key: Seq<u8>)
        requires
            self.wf(),
            self.has_wallet(key),
        ensures
            self.wallet_of(key).history_len == self.history_of(key).len(),
    {
        let i = self.index_of(key);
        assert(self.wallets@[i].history_len == self.histories@[i]@.len());
    }
}

} // verus!
