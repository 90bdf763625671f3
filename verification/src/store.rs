//! One store: the five tables of the ledger and of the review queue, kept in
//! memory, with identifiers given out in rising order.

use vstd::prelude::*;
use vstd::string::StringExecFns;
use crate::error::{AppError, ErrorKind};
use crate::index::{
    first_index, lemma_first_index_found, lemma_first_index_is_first, lemma_first_index_missing,
};
use crate::model::{
    in_unit_interval, is_unit_interval, Domain, DomainExtraction, DomainExtractionView,
    DomainStatus, DomainView, ImportStatus, PendingImport, PendingImportView, Receipt,
    ReceiptView, Subscription, SubscriptionExtraction, SubscriptionExtractionView,
    SubscriptionStatus, SubscriptionView, SyncLog, SyncLogView,
};
use crate::text::same_text;

verus! {

/// Whether identifiers were given out in rising order below `next`.
pub open spec fn ids_in_order(ids: Seq<Option<i64>>, next: i64) -> bool {
    &&& 1 <= next
    &&& forall|i: int| 0 <= i < ids.len() ==> (#[trigger] ids[i]) is Some && 1 <= ids[i]->0 < next
    &&& forall|i: int, j: int|
        0 <= i < j < ids.len() ==> (#[trigger] ids[i])->0 < (#[trigger] ids[j])->0
}

pub open spec fn subscription_ids(rows: Seq<SubscriptionView>) -> Seq<Option<i64>> {
    Seq::new(rows.len(), |i: int| rows[i].id)
}

pub open spec fn domain_ids(rows: Seq<DomainView>) -> Seq<Option<i64>> {
    Seq::new(rows.len(), |i: int| rows[i].id)
}

pub open spec fn domain_names(rows: Seq<DomainView>) -> Seq<Seq<char>> {
    Seq::new(rows.len(), |i: int| rows[i].name)
}

pub open spec fn receipt_ids(rows: Seq<ReceiptView>) -> Seq<Option<i64>> {
    Seq::new(rows.len(), |i: int| rows[i].id)
}

pub open spec fn pending_ids(rows: Seq<PendingImportView>) -> Seq<Option<i64>> {
    Seq::new(rows.len(), |i: int| rows[i].id)
}

pub open spec fn sync_log_ids(rows: Seq<SyncLogView>) -> Seq<Option<i64>> {
    Seq::new(rows.len(), |i: int| rows[i].id)
}

/// The subscription that an extraction commits under `id` at time `now`:
/// active, without notes.
pub open spec fn new_subscription(
    x: SubscriptionExtractionView,
    id: i64,
    now: Seq<char>,
) -> SubscriptionView {
    SubscriptionView {
        id: Some(id),
        name: x.name,
        amount: x.amount,
        currency: x.currency,
        periodicity: x.periodicity,
        next_date: x.next_date,
        category: x.category,
        status: SubscriptionStatus::Active,
        notes: None,
        created_at: now,
        updated_at: now,
    }
}

/// The domain that an extraction commits under `id` at time `now`: active,
/// without notes, not renewing by itself unless the extraction says so.
pub open spec fn new_domain(x: DomainExtractionView, id: i64, now: Seq<char>) -> DomainView {
    DomainView {
        id: Some(id),
        name: x.name,
        registrar: x.registrar,
        amount: x.amount,
        currency: x.currency,
        registration_date: x.registration_date,
        expiry_date: x.expiry_date,
        auto_renew: match x.auto_renew {
            Some(b) => b,
            None => false,
        },
        status: DomainStatus::Active,
        notes: None,
        created_at: now,
        updated_at: now,
    }
}

/// A stored domain after an extraction for the same name was merged into it
/// at time `now`: each optional field of the extraction replaces the stored
/// one only where it is given; the expiry date is replaced in any case.
pub open spec fn merged_domain(
    stored: DomainView,
    x: DomainExtractionView,
    now: Seq<char>,
) -> DomainView {
    DomainView {
        id: stored.id,
        name: stored.name,
        registrar: if x.registrar is Some {
            x.registrar
        } else {
            stored.registrar
        },
        amount: if x.amount is Some {
            x.amount
        } else {
            stored.amount
        },
        currency: if x.currency is Some {
            x.currency
        } else {
            stored.currency
        },
        registration_date: if x.registration_date is Some {
            x.registration_date
        } else {
            stored.registration_date
        },
        expiry_date: x.expiry_date,
        auto_renew: match x.auto_renew {
            Some(b) => b,
            None => stored.auto_renew,
        },
        status: stored.status,
        notes: stored.notes,
        created_at: stored.created_at,
        updated_at: now,
    }
}

/// The contents of a store.
pub struct StoreView {
    pub subscriptions: Seq<SubscriptionView>,
    pub domains: Seq<DomainView>,
    pub receipts: Seq<ReceiptView>,
    pub pending_imports: Seq<PendingImportView>,
    pub sync_log: Seq<SyncLogView>,
    pub next_subscription_id: i64,
    pub next_domain_id: i64,
    pub next_receipt_id: i64,
    pub next_pending_import_id: i64,
    pub next_sync_log_id: i64,
}

impl StoreView {
    /// A store without rows, whose first identifiers will be 1.
    pub open spec fn empty() -> StoreView {
        StoreView {
            subscriptions: Seq::empty(),
            domains: Seq::empty(),
            receipts: Seq::empty(),
            pending_imports: Seq::empty(),
            sync_log: Seq::empty(),
            next_subscription_id: 1,
            next_domain_id: 1,
            next_receipt_id: 1,
            next_pending_import_id: 1,
            next_sync_log_id: 1,
        }
    }

    /// What holds of every store: identifiers rise within each table, no two
    /// domains have one name, no receipt is linked to both a subscription and
    /// a domain, and every confidence lies between 0 and 1.
    pub open spec fn wf(self) -> bool {
        &&& ids_in_order(subscription_ids(self.subscriptions), self.next_subscription_id)
        &&& ids_in_order(domain_ids(self.domains), self.next_domain_id)
        &&& ids_in_order(receipt_ids(self.receipts), self.next_receipt_id)
        &&& ids_in_order(pending_ids(self.pending_imports), self.next_pending_import_id)
        &&& ids_in_order(sync_log_ids(self.sync_log), self.next_sync_log_id)
        &&& names_differ(self.domains)
        &&& links_exclusive(self.receipts)
        &&& confidences_valid(self.pending_imports)
    }

    /// The store with one more subscription, under the next identifier.
    pub open spec fn with_subscription(
        self,
        x: SubscriptionExtractionView,
        now: Seq<char>,
    ) -> StoreView {
        StoreView {
            subscriptions: self.subscriptions.push(
                new_subscription(x, self.next_subscription_id, now),
            ),
            next_subscription_id: (self.next_subscription_id + 1) as i64,
            ..self
        }
    }

    /// The store with one more domain, under the next identifier.
    pub open spec fn with_domain(self, x: DomainExtractionView, now: Seq<char>) -> StoreView {
        StoreView {
            domains: self.domains.push(new_domain(x, self.next_domain_id, now)),
            next_domain_id: (self.next_domain_id + 1) as i64,
            ..self
        }
    }

    /// The store with an extraction merged into the domain at index `at`.
    pub open spec fn with_merged_domain(
        self,
        at: int,
        x: DomainExtractionView,
        now: Seq<char>,
    ) -> StoreView {
        StoreView {
            domains: self.domains.update(at, merged_domain(self.domains[at], x, now)),
            ..self
        }
    }

    /// The store with the receipt at index `at` linked to a subscription.
    pub open spec fn with_subscription_link(self, at: Option<int>, id: i64) -> StoreView {
        match at {
            Some(at) => StoreView {
                receipts: self.receipts.update(
                    at,
                    ReceiptView { subscription_id: Some(id), ..self.receipts[at] },
                ),
                ..self
            },
            None => self,
        }
    }

    /// The store with the receipt at index `at` linked to a domain.
    pub open spec fn with_domain_link(self, at: Option<int>, id: i64) -> StoreView {
        match at {
            Some(at) => StoreView {
                receipts: self.receipts.update(
                    at,
                    ReceiptView { domain_id: Some(id), ..self.receipts[at] },
                ),
                ..self
            },
            None => self,
        }
    }

    /// The store with the status of the review item at index `at` replaced.
    pub open spec fn with_status(self, at: int, status: ImportStatus) -> StoreView {
        StoreView {
            pending_imports: self.pending_imports.update(
                at,
                PendingImportView { status: status, ..self.pending_imports[at] },
            ),
            ..self
        }
    }

    /// The store with one more receipt, under the next identifier.
    pub open spec fn with_receipt(self, row: ReceiptView) -> StoreView {
        StoreView {
            receipts: self.receipts.push(ReceiptView { id: Some(self.next_receipt_id), ..row }),
            next_receipt_id: (self.next_receipt_id + 1) as i64,
            ..self
        }
    }

    /// The store with one more review item, under the next identifier.
    pub open spec fn with_pending_import(self, row: PendingImportView) -> StoreView {
        StoreView {
            pending_imports: self.pending_imports.push(
                PendingImportView { id: Some(self.next_pending_import_id), ..row },
            ),
            next_pending_import_id: (self.next_pending_import_id + 1) as i64,
            ..self
        }
    }

    /// The store with one more sync run, under the next identifier.
    pub open spec fn with_sync_log(self, row: SyncLogView) -> StoreView {
        StoreView {
            sync_log: self.sync_log.push(SyncLogView { id: Some(self.next_sync_log_id), ..row }),
            next_sync_log_id: (self.next_sync_log_id + 1) as i64,
            ..self
        }
    }

    /// The store with the sync run at index `at` replaced.
    pub open spec fn with_sync_log_at(self, at: int, row: SyncLogView) -> StoreView {
        StoreView { sync_log: self.sync_log.update(at, row), ..self }
    }

    /// The index of the review item `id`.
    pub open spec fn pending_index(self, id: i64) -> Option<int> {
        first_index(pending_ids(self.pending_imports), Some(id))
    }

    /// The index of the receipt `id`.
    pub open spec fn receipt_index(self, id: i64) -> Option<int> {
        first_index(receipt_ids(self.receipts), Some(id))
    }

    /// The index of the sync run `id`.
    pub open spec fn sync_log_index(self, id: i64) -> Option<int> {
        first_index(sync_log_ids(self.sync_log), Some(id))
    }

    /// The index of the domain called `name`.
    pub open spec fn domain_index(self, name: Seq<char>) -> Option<int> {
        first_index(domain_names(self.domains), name)
    }
}

/// Giving out the next identifier keeps the identifiers in order.
pub proof fn lemma_ids_push(ids: Seq<Option<i64>>, next: i64)
    requires
        ids_in_order(ids, next),
        next < i64::MAX,
    ensures
        ids_in_order(ids.push(Some(next)), (next + 1) as i64),
{
    let after = ids.push(Some(next));
    assert forall|i: int| 0 <= i < after.len() implies (#[trigger] after[i]) is Some && 1
        <= after[i]->0 < next + 1 by {
        if i < ids.len() {
            assert(after[i] == ids[i]);
        }
    }
    assert forall|i: int, j: int| 0 <= i < j < after.len() implies (#[trigger] after[i])->0 < (
    #[trigger] after[j])->0 by {
        assert(after[i] == ids[i]);
        if j < ids.len() {
            assert(after[j] == ids[j]);
        }
    }
}

impl StoreView {
    pub proof fn lemma_with_subscription(self, x: SubscriptionExtractionView, now: Seq<char>)
        requires
            self.wf(),
            self.next_subscription_id < i64::MAX,
        ensures
            self.with_subscription(x, now).wf(),
    {
        let after = self.with_subscription(x, now);
        assert(subscription_ids(after.subscriptions) =~= subscription_ids(self.subscriptions).push(
            Some(self.next_subscription_id),
        ));
        lemma_ids_push(subscription_ids(self.subscriptions), self.next_subscription_id);
    }

    pub proof fn lemma_with_domain(self, x: DomainExtractionView, now: Seq<char>)
        requires
            self.wf(),
            self.next_domain_id < i64::MAX,
            self.domain_index(x.name) is None,
        ensures
            self.with_domain(x, now).wf(),
    {
        let after = self.with_domain(x, now);
        assert(domain_ids(after.domains) =~= domain_ids(self.domains).push(
            Some(self.next_domain_id),
        ));
        lemma_ids_push(domain_ids(self.domains), self.next_domain_id);
        lemma_first_index_is_first(domain_names(self.domains), x.name);
        assert forall|i: int, j: int| 0 <= i < j < after.domains.len() implies (
        #[trigger] after.domains[i]).name != (#[trigger] after.domains[j]).name by {
            assert(after.domains[i] == self.domains[i]);
            if j == self.domains.len() {
                assert(domain_names(self.domains)[i] != x.name);
            } else {
                assert(after.domains[j] == self.domains[j]);
            }
        }
    }

    pub proof fn lemma_with_merged_domain(self, at: int, x: DomainExtractionView, now: Seq<char>)
        requires
            self.wf(),
            0 <= at < self.domains.len(),
        ensures
            self.with_merged_domain(at, x, now).wf(),
    {
        let after = self.with_merged_domain(at, x, now);
        assert(domain_ids(after.domains) =~= domain_ids(self.domains));
        assert forall|i: int, j: int| 0 <= i < j < after.domains.len() implies (
        #[trigger] after.domains[i]).name != (#[trigger] after.domains[j]).name by {
            assert(after.domains[i].name == self.domains[i].name);
            assert(after.domains[j].name == self.domains[j].name);
        }
    }

    pub proof fn lemma_with_subscription_link(self, at: Option<int>, id: i64)
        requires
            self.wf(),
            at is Some ==> 0 <= at->0 < self.receipts.len() && self.receipts[at->0].domain_id
                is None,
        ensures
            self.with_subscription_link(at, id).wf(),
    {
        let after = self.with_subscription_link(at, id);
        assert(receipt_ids(after.receipts) =~= receipt_ids(self.receipts));
        assert forall|i: int| 0 <= i < after.receipts.len() implies !((
        #[trigger] after.receipts[i]).subscription_id is Some && after.receipts[i].domain_id
            is Some) by {
            if at is Some && i == at->0 {
            } else {
                assert(after.receipts[i] == self.receipts[i]);
            }
        }
    }

    pub proof fn lemma_with_domain_link(self, at: Option<int>, id: i64)
        requires
            self.wf(),
            at is Some ==> 0 <= at->0 < self.receipts.len() && self.receipts[at->0].subscription_id
                is None,
        ensures
            self.with_domain_link(at, id).wf(),
    {
        let after = self.with_domain_link(at, id);
        assert(receipt_ids(after.receipts) =~= receipt_ids(self.receipts));
        assert forall|i: int| 0 <= i < after.receipts.len() implies !((
        #[trigger] after.receipts[i]).subscription_id is Some && after.receipts[i].domain_id
            is Some) by {
            if at is Some && i == at->0 {
            } else {
                assert(after.receipts[i] == self.receipts[i]);
            }
        }
    }

    pub proof fn lemma_with_status(self, at: int, status: ImportStatus)
        requires
            self.wf(),
            0 <= at < self.pending_imports.len(),
        ensures
            self.with_status(at, status).wf(),
    {
        let after = self.with_status(at, status);
        assert(pending_ids(after.pending_imports) =~= pending_ids(self.pending_imports));
        assert forall|i: int| 0 <= i < after.pending_imports.len() implies ((
        #[trigger] after.pending_imports[i]).confidence is Some ==> is_unit_interval(
            after.pending_imports[i].confidence->0,
        )) by {
            assert(after.pending_imports[i].confidence == self.pending_imports[i].confidence);
        }
    }

    pub proof fn lemma_with_receipt(self, row: ReceiptView)
        requires
            self.wf(),
            self.next_receipt_id < i64::MAX,
            !(row.subscription_id is Some && row.domain_id is Some),
        ensures
            self.with_receipt(row).wf(),
    {
        let after = self.with_receipt(row);
        assert(receipt_ids(after.receipts) =~= receipt_ids(self.receipts).push(
            Some(self.next_receipt_id),
        ));
        lemma_ids_push(receipt_ids(self.receipts), self.next_receipt_id);
        assert forall|i: int| 0 <= i < after.receipts.len() implies !((
        #[trigger] after.receipts[i]).subscription_id is Some && after.receipts[i].domain_id
            is Some) by {
            if i < self.receipts.len() {
                assert(after.receipts[i] == self.receipts[i]);
            }
        }
    }

    pub proof fn lemma_with_pending_import(self, row: PendingImportView)
        requires
            self.wf(),
            self.next_pending_import_id < i64::MAX,
            row.confidence is Some ==> is_unit_interval(row.confidence->0),
        ensures
            self.with_pending_import(row).wf(),
    {
        let after = self.with_pending_import(row);
        assert(pending_ids(after.pending_imports) =~= pending_ids(self.pending_imports).push(
            Some(self.next_pending_import_id),
        ));
        lemma_ids_push(pending_ids(self.pending_imports), self.next_pending_import_id);
        assert forall|i: int| 0 <= i < after.pending_imports.len() implies ((
        #[trigger] after.pending_imports[i]).confidence is Some ==> is_unit_interval(
            after.pending_imports[i].confidence->0,
        )) by {
            if i < self.pending_imports.len() {
                assert(after.pending_imports[i] == self.pending_imports[i]);
            }
        }
    }

    pub proof fn lemma_with_sync_log(self, row: SyncLogView)
        requires
            self.wf(),
            self.next_sync_log_id < i64::MAX,
        ensures
            self.with_sync_log(row).wf(),
    {
        let after = self.with_sync_log(row);
        assert(sync_log_ids(after.sync_log) =~= sync_log_ids(self.sync_log).push(
            Some(self.next_sync_log_id),
        ));
        lemma_ids_push(sync_log_ids(self.sync_log), self.next_sync_log_id);
    }

    pub proof fn lemma_with_sync_log_at(self, at: int, row: SyncLogView)
        requires
            self.wf(),
            0 <= at < self.sync_log.len(),
            row.id == self.sync_log[at].id,
        ensures
            self.with_sync_log_at(at, row).wf(),
    {
        let after = self.with_sync_log_at(at, row);
        assert(sync_log_ids(after.sync_log) =~= sync_log_ids(self.sync_log));
    }
}

pub open spec fn subscriptions_view(rows: Seq<Subscription>) -> Seq<SubscriptionView> {
    Seq::new(rows.len(), |i: int| rows[i]@)
}

pub open spec fn domains_view(rows: Seq<Domain>) -> Seq<DomainView> {
    Seq::new(rows.len(), |i: int| rows[i]@)
}

pub open spec fn receipts_view(rows: Seq<Receipt>) -> Seq<ReceiptView> {
    Seq::new(rows.len(), |i: int| rows[i]@)
}

pub open spec fn pending_imports_view(rows: Seq<PendingImport>) -> Seq<PendingImportView> {
    Seq::new(rows.len(), |i: int| rows[i]@)
}

pub open spec fn sync_log_view(rows: Seq<SyncLog>) -> Seq<SyncLogView> {
    Seq::new(rows.len(), |i: int| rows[i]@)
}

/// The identifier that follows those of a table: one more than its last, or
/// 1 for a table without rows.
pub open spec fn next_after(ids: Seq<Option<i64>>) -> i64 {
    if ids.len() == 0 {
        1
    } else {
        (ids.last()->0 + 1) as i64
    }
}

/// The store that holds the given rows and gives out, in each table, the
/// identifier that follows the last row's.
pub open spec fn restored(
    subscriptions: Seq<SubscriptionView>,
    domains: Seq<DomainView>,
    receipts: Seq<ReceiptView>,
    pending_imports: Seq<PendingImportView>,
    sync_log: Seq<SyncLogView>,
) -> StoreView {
    StoreView {
        subscriptions: subscriptions,
        domains: domains,
        receipts: receipts,
        pending_imports: pending_imports,
        sync_log: sync_log,
        next_subscription_id: next_after(subscription_ids(subscriptions)),
        next_domain_id: next_after(domain_ids(domains)),
        next_receipt_id: next_after(receipt_ids(receipts)),
        next_pending_import_id: next_after(pending_ids(pending_imports)),
        next_sync_log_id: next_after(sync_log_ids(sync_log)),
    }
}

/// Whether no two domains have one name.
pub open spec fn names_differ(domains: Seq<DomainView>) -> bool {
    forall|i: int, j: int|
        0 <= i < j < domains.len() ==> (#[trigger] domains[i]).name != (#[trigger] domains[j]).name
}

/// Whether no receipt is linked to both a subscription and a domain.
pub open spec fn links_exclusive(receipts: Seq<ReceiptView>) -> bool {
    forall|i: int|
        0 <= i < receipts.len() ==> !((#[trigger] receipts[i]).subscription_id is Some
            && receipts[i].domain_id is Some)
}

/// Whether every confidence lies between 0 and 1.
pub open spec fn confidences_valid(pending_imports: Seq<PendingImportView>) -> bool {
    forall|i: int|
        0 <= i < pending_imports.len() ==> ((#[trigger] pending_imports[i]).confidence is Some
            ==> is_unit_interval(pending_imports[i].confidence->0))
}

/// The next identifier of a table whose identifiers are in order, `None`
/// where they are not or none is left.
fn check_ids(ids: &Vec<Option<i64>>) -> (r: Option<i64>)
    ensures
        match r {
            Some(next) => next == next_after(ids@) && ids_in_order(ids@, next),
            None => !ids_in_order(ids@, next_after(ids@)),
        },
{
    let mut last: i64 = 0;
    let mut i: usize = 0;
    while i < ids.len()
        invariant
            i <= ids.len(),
            0 <= last,
            i == 0 ==> last == 0,
            i > 0 ==> ids@[i - 1] == Some(last),
            forall|k: int| 0 <= k < i ==> (#[trigger] ids@[k]) is Some && 1 <= ids@[k]->0 <= last,
            forall|k: int, l: int|
                0 <= k < l < i ==> (#[trigger] ids@[k])->0 < (#[trigger] ids@[l])->0,
        decreases ids.len() - i,
    {
        match ids[i] {
            None => {
                assert(!(ids@[i as int] is Some));
                return None;
            },
            Some(id) => {
                if id <= last {
                    if i > 0 {
                        assert(!(ids@[i - 1]->0 < ids@[i as int]->0));
                    } else {
                        assert(!(1 <= ids@[i as int]->0));
                    }
                    return None;
                }
                last = id;
            },
        }
        i += 1;
    }
    if last == i64::MAX {
        assert(ids@.len() > 0);
        assert(!(ids@[ids@.len() - 1]->0 < next_after(ids@)));
        return None;
    }
    Some(last + 1)
}

fn invalid_rows(table: &str) -> (e: AppError)
    ensures
        e.spec_kind() == ErrorKind::Validation,
        e.detail() == "Rows that no store can hold: "@ + table@,
{
    AppError::Validation(String::from_str("Rows that no store can hold: ").concat(table))
}

/// Whether no two domains have one name.
fn check_names(domains: &Vec<Domain>) -> (r: bool)
    ensures
        r == names_differ(domains_view(domains@)),
{
    let ghost rows = domains_view(domains@);
    let mut j: usize = 0;
    while j < domains.len()
        invariant
            j <= domains.len(),
            rows == domains_view(domains@),
            forall|k: int, l: int|
                0 <= k < l < j ==> (#[trigger] rows[k]).name != (#[trigger] rows[l]).name,
        decreases domains.len() - j,
    {
        let mut i: usize = 0;
        while i < j
            invariant
                i <= j,
                j < domains.len(),
                rows == domains_view(domains@),
                forall|k: int| 0 <= k < i ==> (#[trigger] rows[k]).name != rows[j as int].name,
            decreases j - i,
        {
            if same_text(domains[i].name.as_str(), domains[j].name.as_str()) {
                assert(rows[i as int].name == rows[j as int].name);
                return false;
            }
            i += 1;
        }
        j += 1;
    }
    true
}

/// Whether no receipt is linked to both a subscription and a domain.
fn check_links(receipts: &Vec<Receipt>) -> (r: bool)
    ensures
        r == links_exclusive(receipts_view(receipts@)),
{
    let ghost rows = receipts_view(receipts@);
    let mut i: usize = 0;
    while i < receipts.len()
        invariant
            i <= receipts.len(),
            rows == receipts_view(receipts@),
            forall|k: int|
                0 <= k < i ==> !((#[trigger] rows[k]).subscription_id is Some && rows[k].domain_id
                    is Some),
        decreases receipts.len() - i,
    {
        if receipts[i].subscription_id.is_some() && receipts[i].domain_id.is_some() {
            assert(rows[i as int].subscription_id is Some && rows[i as int].domain_id is Some);
            return false;
        }
        i += 1;
    }
    true
}

/// Whether every confidence lies between 0 and 1.
fn check_confidences(pending_imports: &Vec<PendingImport>) -> (r: bool)
    ensures
        r == confidences_valid(pending_imports_view(pending_imports@)),
{
    let ghost rows = pending_imports_view(pending_imports@);
    let mut i: usize = 0;
    while i < pending_imports.len()
        invariant
            i <= pending_imports.len(),
            rows == pending_imports_view(pending_imports@),
            forall|k: int|
                0 <= k < i ==> ((#[trigger] rows[k]).confidence is Some ==> is_unit_interval(
                    rows[k].confidence->0,
                )),
        decreases pending_imports.len() - i,
    {
        if let Some(c) = pending_imports[i].confidence {
            if !in_unit_interval(c) {
                assert(rows[i as int].confidence == Some(c));
                return false;
            }
        }
        i += 1;
    }
    true
}

/// The five tables and the next identifier of each.
#[derive(Clone, Debug, PartialEq, Eq)]
pub struct Store {
    subscriptions: Vec<Subscription>,
    domains: Vec<Domain>,
    receipts: Vec<Receipt>,
    pending_imports: Vec<PendingImport>,
    sync_log: Vec<SyncLog>,
    next_subscription_id: i64,
    next_domain_id: i64,
    next_receipt_id: i64,
    next_pending_import_id: i64,
    next_sync_log_id: i64,
}

impl View for Store {
    type V = StoreView;

    closed spec fn view(&self) -> StoreView {
        StoreView {
            subscriptions: subscriptions_view(self.subscriptions@),
            domains: domains_view(self.domains@),
            receipts: receipts_view(self.receipts@),
            pending_imports: pending_imports_view(self.pending_imports@),
            sync_log: sync_log_view(self.sync_log@),
            next_subscription_id: self.next_subscription_id,
            next_domain_id: self.next_domain_id,
            next_receipt_id: self.next_receipt_id,
            next_pending_import_id: self.next_pending_import_id,
            next_sync_log_id: self.next_sync_log_id,
        }
    }
}

impl Store {
    /// A store without rows.
    pub fn new() -> (s: Store)
        ensures
            s@ == StoreView::empty(),
            s@.wf(),
    {
        let s = Store {
            subscriptions: Vec::new(),
            domains: Vec::new(),
            receipts: Vec::new(),
            pending_imports: Vec::new(),
            sync_log: Vec::new(),
            next_subscription_id: 1,
            next_domain_id: 1,
            next_receipt_id: 1,
            next_pending_import_id: 1,
            next_sync_log_id: 1,
        };
        assert(s@.subscriptions =~= Seq::empty());
        assert(s@.domains =~= Seq::empty());
        assert(s@.receipts =~= Seq::empty());
        assert(s@.pending_imports =~= Seq::empty());
        assert(s@.sync_log =~= Seq::empty());
        s
    }

    /// A store of the given rows, as they were read from where they are
    /// kept. The rows must be what a store can hold: identifiers rising from
    /// 1 in each table, with one left to give out; no two domains of one
    /// name; no receipt linked twice; confidences between 0 and 1. Else the
    /// error is of class `Validation`.
    pub fn restore(
        subscriptions: Vec<Subscription>,
        domains: Vec<Domain>,
        receipts: Vec<Receipt>,
        pending_imports: Vec<PendingImport>,
        sync_log: Vec<SyncLog>,
    ) -> (r: Result<Store, AppError>)
        ensures
            ({
                let store = restored(
                    subscriptions_view(subscriptions@),
                    domains_view(domains@),
                    receipts_view(receipts@),
                    pending_imports_view(pending_imports@),
                    sync_log_view(sync_log@),
                );
                match r {
                    Ok(s) => s@ == store && store.wf(),
                    Err(e) => e.spec_kind() == ErrorKind::Validation && !store.wf(),
                }
            }),
    {
        let mut ids: Vec<Option<i64>> = Vec::new();
        let mut i: usize = 0;
        while i < subscriptions.len()
            invariant
                i <= subscriptions.len(),
                ids@ == subscription_ids(subscriptions_view(subscriptions@)).subrange(0, i as int),
            decreases subscriptions.len() - i,
        {
            ids.push(subscriptions[i].id);
            i += 1;
        }
        assert(ids@ =~= subscription_ids(subscriptions_view(subscriptions@)));
        let next_subscription_id = match check_ids(&ids) {
            Some(next) => next,
            None => {
                return Err(invalid_rows("subscriptions"));
            },
        };
        let mut ids: Vec<Option<i64>> = Vec::new();
        let mut i: usize = 0;
        while i < domains.len()
            invariant
                i <= domains.len(),
                ids@ == domain_ids(domains_view(domains@)).subrange(0, i as int),
            decreases domains.len() - i,
        {
            ids.push(domains[i].id);
            i += 1;
        }
        assert(ids@ =~= domain_ids(domains_view(domains@)));
        let next_domain_id = match check_ids(&ids) {
            Some(next) => next,
            None => {
                return Err(invalid_rows("domains"));
            },
        };
        let mut ids: Vec<Option<i64>> = Vec::new();
        let mut i: usize = 0;
        while i < receipts.len()
            invariant
                i <= receipts.len(),
                ids@ == receipt_ids(receipts_view(receipts@)).subrange(0, i as int),
            decreases receipts.len() - i,
        {
            ids.push(receipts[i].id);
            i += 1;
        }
        assert(ids@ =~= receipt_ids(receipts_view(receipts@)));
        let next_receipt_id = match check_ids(&ids) {
            Some(next) => next,
            None => {
                return Err(invalid_rows("receipts"));
            },
        };
        let mut ids: Vec<Option<i64>> = Vec::new();
        let mut i: usize = 0;
        while i < pending_imports.len()
            invariant
                i <= pending_imports.len(),
                ids@ == pending_ids(pending_imports_view(pending_imports@)).subrange(0, i as int),
            decreases pending_imports.len() - i,
        {
            ids.push(pending_imports[i].id);
            i += 1;
        }
        assert(ids@ =~= pending_ids(pending_imports_view(pending_imports@)));
        let next_pending_import_id = match check_ids(&ids) {
            Some(next) => next,
            None => {
                return Err(invalid_rows("pending_imports"));
            },
        };
        let mut ids: Vec<Option<i64>> = Vec::new();
        let mut i: usize = 0;
        while i < sync_log.len()
            invariant
                i <= sync_log.len(),
                ids@ == sync_log_ids(sync_log_view(sync_log@)).subrange(0, i as int),
            decreases sync_log.len() - i,
        {
            ids.push(sync_log[i].id);
            i += 1;
        }
        assert(ids@ =~= sync_log_ids(sync_log_view(sync_log@)));
        let next_sync_log_id = match check_ids(&ids) {
            Some(next) => next,
            None => {
                return Err(invalid_rows("sync_log"));
            },
        };
        if !check_names(&domains) {
            return Err(invalid_rows("domains"));
        }
        if !check_links(&receipts) {
            return Err(invalid_rows("receipts"));
        }
        if !check_confidences(&pending_imports) {
            return Err(invalid_rows("pending_imports"));
        }
        Ok(
            Store {
                subscriptions,
                domains,
                receipts,
                pending_imports,
                sync_log,
                next_subscription_id,
                next_domain_id,
                next_receipt_id,
                next_pending_import_id,
                next_sync_log_id,
            },
        )
    }

    pub fn subscriptions(&self) -> (r: &Vec<Subscription>)
        ensures
            subscriptions_view(r@) == self@.subscriptions,
    {
        &self.subscriptions
    }

    pub fn domains(&self) -> (r: &Vec<Domain>)
        ensures
            domains_view(r@) == self@.domains,
    {
        &self.domains
    }

    pub fn receipts(&self) -> (r: &Vec<Receipt>)
        ensures
            receipts_view(r@) == self@.receipts,
    {
        &self.receipts
    }

    pub fn pending_imports(&self) -> (r: &Vec<PendingImport>)
        ensures
            pending_imports_view(r@) == self@.pending_imports,
    {
        &self.pending_imports
    }

    pub fn sync_log(&self) -> (r: &Vec<SyncLog>)
        ensures
            sync_log_view(r@) == self@.sync_log,
    {
        &self.sync_log
    }

    /// The index of the review item `id`.
    pub fn find_pending_import(&self, id: i64) -> (r: Option<usize>)
        ensures
            match r {
                Some(at) => self@.pending_index(id) == Some(at as int) && at
                    < self@.pending_imports.len(),
                None => self@.pending_index(id) is None,
            },
    {
        let ghost ids = pending_ids(self@.pending_imports);
        let mut i: usize = 0;
        while i < self.pending_imports.len()
            invariant
                i <= self.pending_imports.len(),
                ids == pending_ids(self@.pending_imports),
                forall|j: int| 0 <= j < i ==> ids[j] != Some(id),
            decreases self.pending_imports.len() - i,
        {
            if self.pending_imports[i].id == Some(id) {
                proof {
                    lemma_first_index_found(ids, Some(id), i as int);
                }
                return Some(i);
            }
            i += 1;
        }
        proof {
            lemma_first_index_missing(ids, Some(id));
        }
        None
    }

    /// The index of the receipt `id`.
    pub fn find_receipt(&self, id: i64) -> (r: Option<usize>)
        ensures
            match r {
                Some(at) => self@.receipt_index(id) == Some(at as int) && at < self@.receipts.len(),
                None => self@.receipt_index(id) is None,
            },
    {
        let ghost ids = receipt_ids(self@.receipts);
        let mut i: usize = 0;
        while i < self.receipts.len()
            invariant
                i <= self.receipts.len(),
                ids == receipt_ids(self@.receipts),
                forall|j: int| 0 <= j < i ==> ids[j] != Some(id),
            decreases self.receipts.len() - i,
        {
            if self.receipts[i].id == Some(id) {
                proof {
                    lemma_first_index_found(ids, Some(id), i as int);
                }
                return Some(i);
            }
            i += 1;
        }
        proof {
            lemma_first_index_missing(ids, Some(id));
        }
        None
    }

    /// The index of the sync run `id`.
    pub fn find_sync_log(&self, id: i64) -> (r: Option<usize>)
        ensures
            match r {
                Some(at) => self@.sync_log_index(id) == Some(at as int) && at
                    < self@.sync_log.len(),
                None => self@.sync_log_index(id) is None,
            },
    {
        let ghost ids = sync_log_ids(self@.sync_log);
        let mut i: usize = 0;
        while i < self.sync_log.len()
            invariant
                i <= self.sync_log.len(),
                ids == sync_log_ids(self@.sync_log),
                forall|j: int| 0 <= j < i ==> ids[j] != Some(id),
            decreases self.sync_log.len() - i,
        {
            if self.sync_log[i].id == Some(id) {
                proof {
                    lemma_first_index_found(ids, Some(id), i as int);
                }
                return Some(i);
            }
            i += 1;
        }
        proof {
            lemma_first_index_missing(ids, Some(id));
        }
        None
    }

    /// The index of the domain called `name`.
    pub fn find_domain(&self, name: &str) -> (r: Option<usize>)
        ensures
            match r {
                Some(at) => self@.domain_index(name@) == Some(at as int) && at
                    < self@.domains.len(),
                None => self@.domain_index(name@) is None,
            },
    {
        let ghost names = domain_names(self@.domains);
        let mut i: usize = 0;
        while i < self.domains.len()
            invariant
                i <= self.domains.len(),
                names == domain_names(self@.domains),
                forall|j: int| 0 <= j < i ==> names[j] != name@,
            decreases self.domains.len() - i,
        {
            if same_text(self.domains[i].name.as_str(), name) {
                proof {
                    lemma_first_index_found(names, name@, i as int);
                }
                return Some(i);
            }
            i += 1;
        }
        proof {
            lemma_first_index_missing(names, name@);
        }
        None
    }
    pub fn pending_import_at(&self, at: usize) -> (r: &PendingImport)
        requires
            at < self@.pending_imports.len(),
        ensures
            r@ == self@.pending_imports[at as int],
    {
        &self.pending_imports[at]
    }

    pub fn receipt_at(&self, at: usize) -> (r: &Receipt)
        requires
            at < self@.receipts.len(),
        ensures
            r@ == self@.receipts[at as int],
    {
        &self.receipts[at]
    }

    pub fn domain_at(&self, at: usize) -> (r: &Domain)
        requires
            at < self@.domains.len(),
        ensures
            r@ == self@.domains[at as int],
    {
        &self.domains[at]
    }

    pub fn sync_log_at(&self, at: usize) -> (r: &SyncLog)
        requires
            at < self@.sync_log.len(),
        ensures
            r@ == self@.sync_log[at as int],
    {
        &self.sync_log[at]
    }

    /// Whether one more subscription can be given an identifier.
    pub fn has_subscription_room(&self) -> (r: bool)
        ensures
            r == (self@.next_subscription_id < i64::MAX),
    {
        self.next_subscription_id < i64::MAX
    }

    /// Whether one more domain can be given an identifier.
    pub fn has_domain_room(&self) -> (r: bool)
        ensures
            r == (self@.next_domain_id < i64::MAX),
    {
        self.next_domain_id < i64::MAX
    }

    /// Whether one more receipt can be given an identifier.
    pub fn has_receipt_room(&self) -> (r: bool)
        ensures
            r == (self@.next_receipt_id < i64::MAX),
    {
        self.next_receipt_id < i64::MAX
    }

    /// Whether one more review item can be given an identifier.
    pub fn has_pending_import_room(&self) -> (r: bool)
        ensures
            r == (self@.next_pending_import_id < i64::MAX),
    {
        self.next_pending_import_id < i64::MAX
    }

    /// Whether one more sync run can be given an identifier.
    pub fn has_sync_log_room(&self) -> (r: bool)
        ensures
            r == (self@.next_sync_log_id < i64::MAX),
    {
        self.next_sync_log_id < i64::MAX
    }

    /// Commits a subscription under the next identifier, which it returns.
    pub(crate) fn insert_subscription(&mut self, x: SubscriptionExtraction, now: &str) -> (id: i64)
        requires
            old(self)@.wf(),
            old(self)@.next_subscription_id < i64::MAX,
        ensures
            final(self)@ == old(self)@.with_subscription(x@, now@),
            id == old(self)@.next_subscription_id,
            final(self)@.wf(),
    {
        let id = self.next_subscription_id;
        let row = Subscription {
            id: Some(id),
            name: x.name,
            amount: x.amount,
            currency: x.currency,
            periodicity: x.periodicity,
            next_date: x.next_date,
            category: x.category,
            status: SubscriptionStatus::Active,
            notes: None,
            created_at: String::from_str(now),
            updated_at: String::from_str(now),
        };
        assert(row@ == new_subscription(x@, id, now@));
        self.subscriptions.push(row);
        self.next_subscription_id = id + 1;
        assert(self@.subscriptions =~= old(self)@.subscriptions.push(row@));
        proof {
            old(self)@.lemma_with_subscription(x@, now@);
        }
        id
    }

    /// Commits a domain under the next identifier, which it returns.
    pub(crate) fn insert_domain(&mut self, x: DomainExtraction, now: &str) -> (id: i64)
        requires
            old(self)@.wf(),
            old(self)@.next_domain_id < i64::MAX,
            old(self)@.domain_index(x@.name) is None,
        ensures
            final(self)@ == old(self)@.with_domain(x@, now@),
            id == old(self)@.next_domain_id,
            final(self)@.wf(),
    {
        let id = self.next_domain_id;
        let row = Domain {
            id: Some(id),
            name: x.name,
            registrar: x.registrar,
            amount: x.amount,
            currency: x.currency,
            registration_date: x.registration_date,
            expiry_date: x.expiry_date,
            auto_renew: match x.auto_renew {
                Some(b) => b,
                None => false,
            },
            status: DomainStatus::Active,
            notes: None,
            created_at: String::from_str(now),
            updated_at: String::from_str(now),
        };
        assert(row@ == new_domain(x@, id, now@));
        self.domains.push(row);
        self.next_domain_id = id + 1;
        assert(self@.domains =~= old(self)@.domains.push(row@));
        proof {
            old(self)@.lemma_with_domain(x@, now@);
        }
        id
    }

    /// Merges an extraction into the domain at index `at`.
    pub(crate) fn merge_domain(&mut self, at: usize, x: DomainExtraction, now: &str)
        requires
            old(self)@.wf(),
            at < old(self)@.domains.len(),
        ensures
            final(self)@ == old(self)@.with_merged_domain(at as int, x@, now@),
            final(self)@.wf(),
    {
        if x.registrar.is_some() {
            self.domains[at].registrar = x.registrar;
        }
        if x.amount.is_some() {
            self.domains[at].amount = x.amount;
        }
        if x.currency.is_some() {
            self.domains[at].currency = x.currency;
        }
        if x.registration_date.is_some() {
            self.domains[at].registration_date = x.registration_date;
        }
        self.domains[at].expiry_date = x.expiry_date;
        match x.auto_renew {
            Some(b) => {
                self.domains[at].auto_renew = b;
            },
            None => {},
        }
        self.domains[at].updated_at = String::from_str(now);
        assert(self@.domains =~= old(self)@.domains.update(
            at as int,
            merged_domain(old(self)@.domains[at as int], x@, now@),
        ));
        proof {
            old(self)@.lemma_with_merged_domain(at as int, x@, now@);
        }
    }

    /// Links the receipt at index `at` to the subscription `id`.
    pub(crate) fn link_subscription(&mut self, at: usize, id: i64)
        requires
            old(self)@.wf(),
            at < old(self)@.receipts.len(),
            old(self)@.receipts[at as int].domain_id is None,
        ensures
            final(self)@ == old(self)@.with_subscription_link(Some(at as int), id),
            final(self)@.wf(),
    {
        self.receipts[at].subscription_id = Some(id);
        assert(self@.receipts =~= old(self)@.receipts.update(
            at as int,
            ReceiptView { subscription_id: Some(id), ..old(self)@.receipts[at as int] },
        ));
        proof {
            old(self)@.lemma_with_subscription_link(Some(at as int), id);
        }
    }

    /// Links the receipt at index `at` to the domain `id`.
    pub(crate) fn link_domain(&mut self, at: usize, id: i64)
        requires
            old(self)@.wf(),
            at < old(self)@.receipts.len(),
            old(self)@.receipts[at as int].subscription_id is None,
        ensures
            final(self)@ == old(self)@.with_domain_link(Some(at as int), id),
            final(self)@.wf(),
    {
        self.receipts[at].domain_id = Some(id);
        assert(self@.receipts =~= old(self)@.receipts.update(
            at as int,
            ReceiptView { domain_id: Some(id), ..old(self)@.receipts[at as int] },
        ));
        proof {
            old(self)@.lemma_with_domain_link(Some(at as int), id);
        }
    }

    /// Replaces the status of the review item at index `at`.
    pub(crate) fn set_status(&mut self, at: usize, status: ImportStatus)
        requires
            old(self)@.wf(),
            at < old(self)@.pending_imports.len(),
        ensures
            final(self)@ == old(self)@.with_status(at as int, status),
            final(self)@.wf(),
    {
        self.pending_imports[at].status = status;
        assert(self@.pending_imports =~= old(self)@.pending_imports.update(
            at as int,
            PendingImportView { status: status, ..old(self)@.pending_imports[at as int] },
        ));
        proof {
            old(self)@.lemma_with_status(at as int, status);
        }
    }

    /// Adds a receipt under the next identifier, which it returns.
    pub(crate) fn insert_receipt(&mut self, row: Receipt) -> (id: i64)
        requires
            old(self)@.wf(),
            old(self)@.next_receipt_id < i64::MAX,
            !(row.subscription_id is Some && row.domain_id is Some),
        ensures
            final(self)@ == old(self)@.with_receipt(row@),
            id == old(self)@.next_receipt_id,
            final(self)@.wf(),
    {
        let id = self.next_receipt_id;
        let ghost given = row@;
        let mut row = row;
        row.id = Some(id);
        self.receipts.push(row);
        self.next_receipt_id = id + 1;
        assert(self@.receipts =~= old(self)@.receipts.push(row@));
        proof {
            old(self)@.lemma_with_receipt(given);
        }
        id
    }

    /// Adds a review item under the next identifier, which it returns.
    pub(crate) fn insert_pending_import(&mut self, row: PendingImport) -> (id: i64)
        requires
            old(self)@.wf(),
            old(self)@.next_pending_import_id < i64::MAX,
            row.confidence is Some ==> is_unit_interval(row.confidence->0),
        ensures
            final(self)@ == old(self)@.with_pending_import(row@),
            id == old(self)@.next_pending_import_id,
            final(self)@.wf(),
    {
        let id = self.next_pending_import_id;
        let ghost given = row@;
        let mut row = row;
        row.id = Some(id);
        self.pending_imports.push(row);
        self.next_pending_import_id = id + 1;
        assert(self@.pending_imports =~= old(self)@.pending_imports.push(row@));
        proof {
            old(self)@.lemma_with_pending_import(given);
        }
        id
    }

    /// Adds a sync run under the next identifier, which it returns.
    pub(crate) fn insert_sync_log(&mut self, row: SyncLog) -> (id: i64)
        requires
            old(self)@.wf(),
            old(self)@.next_sync_log_id < i64::MAX,
        ensures
            final(self)@ == old(self)@.with_sync_log(row@),
            id == old(self)@.next_sync_log_id,
            final(self)@.wf(),
    {
        let id = self.next_sync_log_id;
        let ghost given = row@;
        let mut row = row;
        row.id = Some(id);
        self.sync_log.push(row);
        self.next_sync_log_id = id + 1;
        assert(self@.sync_log =~= old(self)@.sync_log.push(row@));
        proof {
            old(self)@.lemma_with_sync_log(given);
        }
        id
    }

    /// Replaces the sync run at index `at` by `row`, which keeps its
    /// identifier.
    pub(crate) fn replace_sync_log(&mut self, at: usize, row: SyncLog)
        requires
            old(self)@.wf(),
            at < old(self)@.sync_log.len(),
            row.id == old(self)@.sync_log[at as int].id,
        ensures
            final(self)@ == old(self)@.with_sync_log_at(at as int, row@),
            final(self)@.wf(),
    {
        self.sync_log[at] = row;
        assert(self@.sync_log =~= old(self)@.sync_log.update(at as int, row@));
        proof {
            old(self)@.lemma_with_sync_log_at(at as int, row@);
        }
    }
}

} // verus!