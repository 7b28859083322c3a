//! The ledger: one account for each client that has sent a record.

use crate::account::{Account, AccountSnapshot, AccountView};
use crate::driver::DrainReport;
use crate::transaction::Transaction;
use std::collections::HashMap;
use vstd::prelude::*;

verus! {

/// The mathematical value of a [`Bank`]: the clients in the order in which
/// they first appeared, and each client's account.
pub struct BankView {
    pub order: Seq<u16>,
    pub accounts: Map<u16, AccountView>,
}

impl BankView {
    /// The ledger before any record has arrived.
    pub open spec fn empty() -> BankView {
        BankView { order: Seq::empty(), accounts: Map::empty() }
    }

    /// Exactly one account for each client that has appeared, filed under
    /// that client's identifier and well-formed.
    pub open spec fn wf(self) -> bool {
        &&& self.order.no_duplicates()
        &&& forall|client: u16| self.order.contains(client) <==> self.accounts.contains_key(client)
        &&& forall|client: u16| #[trigger]
            self.accounts.contains_key(client) ==> {
                &&& self.accounts[client].client == client
                &&& self.accounts[client].wf()
                &&& self.accounts[client].in_range()
            }
    }

    /// The ledger after `record` has been routed: it waits at the back of the
    /// queue of its client's account, which is created if the client is new.
    /// No other account changes.
    pub open spec fn routed(self, record: Transaction) -> BankView {
        if self.accounts.contains_key(record.client) {
            BankView {
                accounts: self.accounts.insert(
                    record.client,
                    self.accounts[record.client].enqueue(record),
                ),
                ..self
            }
        } else {
            BankView {
                order: self.order.push(record.client),
                accounts: self.accounts.insert(
                    record.client,
                    AccountView::opened(record.client, record),
                ),
            }
        }
    }

    /// The ledger after the driver has run on the account of `client`, if
    /// there is one. No other account changes.
    pub open spec fn drained(self, client: u16) -> BankView {
        if self.accounts.contains_key(client) {
            BankView {
                accounts: self.accounts.insert(client, self.accounts[client].drained()),
                ..self
            }
        } else {
            self
        }
    }

    /// The ledger after the driver has run on every account.
    pub open spec fn drained_all(self) -> BankView {
        BankView {
            accounts: self.accounts.map_values(|account: AccountView| account.drained()),
            ..self
        }
    }

    /// The account at place `i` in the order of the clients.
    pub open spec fn at(self, i: int) -> AccountView {
        self.accounts[self.order[i]]
    }
}

/// The accounts, in the order in which their clients first appeared, and
/// where to find each client's account among them.
pub struct Bank {
    accounts: Vec<Account>,
    index: HashMap<u16, usize>,
}

impl View for Bank {
    type V = BankView;

    closed spec fn view(&self) -> BankView {
        BankView {
            order: Seq::new(self.accounts@.len(), |i: int| self.accounts@[i]@.client),
            accounts: Map::new(
                |client: u16| self.index@.contains_key(client),
                |client: u16| self.accounts@[self.index@[client] as int]@,
            ),
        }
    }
}

impl Bank {
    /// The invariant of every ledger that this module hands out.
    pub closed spec fn wf(&self) -> bool {
        &&& forall|client: u16| #[trigger]
            self.index@.contains_key(client) ==> {
                &&& self.index@[client] < self.accounts@.len()
                &&& self.accounts@[self.index@[client] as int]@.client == client
            }
        &&& forall|i: int|
            0 <= i < self.accounts@.len() ==> {
                &&& (#[trigger] self.accounts@[i]).wf()
                &&& self.index@.contains_key(self.accounts@[i]@.client)
                &&& self.index@[self.accounts@[i]@.client] == i
            }
    }

    /// A well-formed ledger has a well-formed value.
    pub proof fn lemma_wf_view(&self)
        requires
            self.wf(),
        ensures
            self@.wf(),
    {
        let v = self@;
        assert forall|i: int, j: int| 0 <= i < v.order.len() && 0 <= j < v.order.len() && i != j
            implies v.order[i] != v.order[j] by {
            assert(self.accounts@[i].wf());
            assert(self.accounts@[j].wf());
        }
        assert forall|client: u16| v.order.contains(client) <==> v.accounts.contains_key(
            client,
        ) by {
            if v.order.contains(client) {
                let i = choose|i: int| 0 <= i < v.order.len() && v.order[i] == client;
                assert(self.accounts@[i].wf());
            }
            if v.accounts.contains_key(client) {
                assert(v.order[self.index@[client] as int] == client);
            }
        }
        assert forall|client: u16| #[trigger] v.accounts.contains_key(client) implies {
            &&& v.accounts[client].client == client
            &&& v.accounts[client].wf()
            &&& v.accounts[client].in_range()
        } by {
            assert(self.accounts@[self.index@[client] as int].wf());
        }
    }

    pub fn new() -> (bank: Self)
        ensures
            bank.wf(),
            bank@.wf(),
            bank@ == BankView::empty(),
    {
        let bank = Bank { accounts: Vec::new(), index: HashMap::new() };
        assert(bank@.order =~= BankView::empty().order);
        assert(bank@.accounts =~= BankView::empty().accounts);
        proof {
            bank.lemma_wf_view();
        }
        bank
    }

    /// The number of accounts.
    pub fn len(&self) -> (n: usize)
        ensures
            n == self@.order.len(),
    {
        self.accounts.len()
    }

    /// Routes `record` to the account of its client and returns that account's
    /// place in the order of the clients. A new client gets a new account,
    /// which starts with `record` in its queue.
    pub fn route(&mut self, record: Transaction) -> (handle: usize)
        requires
            old(self).wf(),
        ensures
            final(self).wf(),
            final(self)@.wf(),
            final(self)@ == old(self)@.routed(record),
            handle < final(self)@.order.len(),
            final(self)@.order[handle as int] == record.client,
    {
        let found = match self.index.get(&record.client) {
            Some(handle) => Some(*handle),
            None => None,
        };
        match found {
            Some(handle) => {
                self.accounts[handle].add_transaction(record);
                assert(self@.order =~= old(self)@.order);
                assert(self@.accounts =~= old(self)@.routed(record).accounts);
                proof {
                    self.lemma_wf_view();
                }
                handle
            },
            None => {
                let handle = self.accounts.len();
                self.accounts.push(Account::new(record.client, record));
                self.index.insert(record.client, handle);
                assert(self@.order =~= old(self)@.routed(record).order);
                assert(self@.accounts =~= old(self)@.routed(record).accounts);
                proof {
                    self.lemma_wf_view();
                }
                handle
            },
        }
    }

    /// The account of `client`, if that client has appeared.
    pub fn account(&self, client: u16) -> (found: Option<&Account>)
        requires
            self.wf(),
        ensures
            match found {
                Some(account) => self@.accounts.contains_key(client) && account@
                    == self@.accounts[client] && account.wf(),
                None => !self@.accounts.contains_key(client),
            },
    {
        match self.index.get(&client) {
            Some(handle) => Some(&self.accounts[*handle]),
            None => None,
        }
    }

    /// The account at place `handle` in the order of the clients, if there
    /// are that many.
    pub fn account_at(&self, handle: usize) -> (found: Option<&Account>)
        requires
            self.wf(),
        ensures
            match found {
                Some(account) => handle < self@.order.len() && account@ == self@.at(handle as int)
                    && account.wf(),
                None => handle >= self@.order.len(),
            },
    {
        if handle < self.accounts.len() {
            Some(&self.accounts[handle])
        } else {
            None
        }
    }

    /// Runs the driver on the account of `client` and returns its report, or
    /// `None` if that client has not appeared.
    pub fn drain(&mut self, client: u16) -> (report: Option<DrainReport>)
        requires
            old(self).wf(),
        ensures
            final(self).wf(),
            final(self)@.wf(),
            final(self)@ == old(self)@.drained(client),
            match report {
                Some(report) => old(self)@.accounts.contains_key(client) && report.describes(
                    old(self)@.accounts[client],
                ),
                None => !old(self)@.accounts.contains_key(client),
            },
    {
        let found = match self.index.get(&client) {
            Some(handle) => Some(*handle),
            None => None,
        };
        let report = match found {
            Some(handle) => {
                let report = self.accounts[handle].drain();
                assert(self@.order =~= old(self)@.order);
                assert(self@.accounts =~= old(self)@.drained(client).accounts);
                Some(report)
            },
            None => None,
        };
        proof {
            self.lemma_wf_view();
        }
        report
    }

    /// Runs the driver on every account. The reports come in the order of the
    /// clients.
    pub fn drain_all(&mut self) -> (reports: Vec<DrainReport>)
        requires
            old(self).wf(),
        ensures
            final(self).wf(),
            final(self)@.wf(),
            final(self)@ == old(self)@.drained_all(),
            reports@.len() == old(self)@.order.len(),
            forall|i: int|
                0 <= i < reports@.len() ==> (#[trigger] reports@[i]).describes(old(self)@.at(i)),
    {
        let mut reports: Vec<DrainReport> = Vec::new();
        let mut i: usize = 0;
        while i < self.accounts.len()
            invariant
                old(self).wf(),
                i <= self.accounts@.len(),
                self.accounts@.len() == old(self).accounts@.len(),
                self.index == old(self).index,
                reports@.len() == i,
                forall|j: int|
                    0 <= j < self.accounts@.len() ==> {
                        &&& (#[trigger] self.accounts@[j]).wf()
                        &&& self.accounts@[j]@.client == old(self).accounts@[j]@.client
                    },
                forall|j: int|
                    0 <= j < i ==> {
                        &&& (#[trigger] self.accounts@[j])@ == old(self).accounts@[j]@.drained()
                        &&& reports@[j].describes(old(self).accounts@[j]@)
                    },
                forall|j: int|
                    i <= j < self.accounts@.len() ==> (#[trigger] self.accounts@[j])@ == old(
                        self,
                    ).accounts@[j]@,
            decreases self.accounts@.len() - i,
        {
            let report = self.accounts[i].drain();
            reports.push(report);
            i = i + 1;
        }
        assert(self@.order =~= old(self)@.order);
        assert(self@.accounts =~= old(self)@.drained_all().accounts);
        assert forall|k: int| 0 <= k < reports@.len() implies (#[trigger] reports@[k]).describes(
            old(self)@.at(k),
        ) by {
            assert(old(self).accounts@[k].wf());
            assert(self.accounts@[k]@ == old(self).accounts@[k]@.drained());
        }
        proof {
            self.lemma_wf_view();
        }
        reports
    }

    /// The snapshot of every account, in the order of the clients.
    pub fn snapshots(&self) -> (snapshots: Vec<AccountSnapshot>)
        requires
            self.wf(),
        ensures
            snapshots@.len() == self@.order.len(),
            forall|i: int|
                0 <= i < snapshots@.len() ==> #[trigger] snapshots@[i] == self@.at(i).snapshot(),
    {
        let mut snapshots: Vec<AccountSnapshot> = Vec::new();
        let mut i: usize = 0;
        while i < self.accounts.len()
            invariant
                self.wf(),
                i <= self.accounts@.len(),
                snapshots@.len() == i,
                forall|j: int|
                    0 <= j < i ==> #[trigger] snapshots@[j] == self.accounts@[j]@.snapshot(),
            decreases self.accounts@.len() - i,
        {
            snapshots.push(self.accounts[i].snapshot());
            i = i + 1;
        }
        assert forall|k: int| 0 <= k < snapshots@.len() implies #[trigger] snapshots@[k]
            == self@.at(k).snapshot() by {
            assert(self.accounts@[k].wf());
        }
        snapshots
    }

    /// Gives up the ledger for its accounts, in the order of the clients, so
    /// that each can be worked on by itself.
    pub fn into_accounts(self) -> (accounts: Vec<Account>)
        requires
            self.wf(),
        ensures
            accounts@.len() == self@.order.len(),
            forall|i: int|
                0 <= i < accounts@.len() ==> {
                    &&& (#[trigger] accounts@[i]).wf()
                    &&& accounts@[i]@ == self@.at(i)
                },
    {
        assert forall|k: int| 0 <= k < self.accounts@.len() implies {
            &&& (#[trigger] self.accounts@[k]).wf()
            &&& self.accounts@[k]@ == self@.at(k)
        } by {
            assert(self.accounts@[k].wf());
        }
        self.accounts
    }
}

} // verus!
