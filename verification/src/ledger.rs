//! The two stores: the real ledger, and the one that test runs and test
//! messages are kept apart in.

use vstd::prelude::*;
use crate::model::DatabaseType;
use crate::store::{Store, StoreView};

verus! {

impl DatabaseType {
    /// The store that a request in test mode, or not, works on.
    pub open spec fn of_mode(test_mode: bool) -> DatabaseType {
        if test_mode {
            DatabaseType::Test
        } else {
            DatabaseType::Production
        }
    }

    /// The store that a request in test mode, or not, works on.
    pub fn for_mode(test_mode: bool) -> (db: DatabaseType)
        ensures
            db == DatabaseType::of_mode(test_mode),
    {
        if test_mode {
            DatabaseType::Test
        } else {
            DatabaseType::Production
        }
    }
}

#[derive(Clone, Debug, PartialEq, Eq)]
pub struct Ledger {
    pub production: Store,
    pub test: Store,
}

pub struct LedgerView {
    pub production: StoreView,
    pub test: StoreView,
}

impl LedgerView {
    pub open spec fn wf(self) -> bool {
        self.production.wf() && self.test.wf()
    }

    pub open spec fn store(self, db: DatabaseType) -> StoreView {
        match db {
            DatabaseType::Production => self.production,
            DatabaseType::Test => self.test,
        }
    }

    /// The ledger with the store `db` replaced by `s`.
    pub open spec fn with_store(self, db: DatabaseType, s: StoreView) -> LedgerView {
        match db {
            DatabaseType::Production => LedgerView { production: s, test: self.test },
            DatabaseType::Test => LedgerView { production: self.production, test: s },
        }
    }
}

impl View for Ledger {
    type V = LedgerView;

    open spec fn view(&self) -> LedgerView {
        LedgerView { production: self.production@, test: self.test@ }
    }
}

impl Ledger {
    /// Two stores without rows.
    pub fn new() -> (l: Ledger)
        ensures
            l@.production == StoreView::empty(),
            l@.test == StoreView::empty(),
            l@.wf(),
    {
        Ledger { production: Store::new(), test: Store::new() }
    }

    pub fn store(&self, db: DatabaseType) -> (s: &Store)
        ensures
            s@ == self@.store(db),
    {
        match db {
            DatabaseType::Production => &self.production,
            DatabaseType::Test => &self.test,
        }
    }
}

} // verus!
