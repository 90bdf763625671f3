//! The review workflow: a pending item is approved, which commits a
//! subscription or a domain, or rejected; either decision is final.

use vstd::prelude::*;
use vstd::string::StringExecFns;
use crate::error::{AppError, AppResult, ErrorKind};
use crate::model::{
    copy_text, in_unit_interval, is_unit_interval, Classification, DomainExtraction,
    DomainExtractionView, ImportStatus, PendingImport, PendingImportView,
    SubscriptionExtraction, SubscriptionExtractionView,
};
use crate::payload::{domain_payload, parse_domain, parse_subscription, subscription_payload};
use crate::index::{lemma_first_index_is_first, lemma_some_first};
use crate::text::{
    lemma_text_lt_irreflexive, lemma_text_lt_total, lemma_text_lt_transitive, text_before, text_lt,
};
use crate::store::{
    domain_ids, domain_names, merged_domain, pending_ids, pending_imports_view, receipt_ids,
    Store, StoreView,
};

verus! {

/// The rank of an identifier among identifiers: its number, and below all
/// numbers where there is none.
pub open spec fn id_rank(id: Option<i64>) -> int {
    match id {
        Some(i) => i as int,
        None => i64::MIN - 1,
    }
}

/// Whether the review item `x` is read before `y`: it was created later, its
/// time standing after the other's character by character, or at the same
/// time and under the larger identifier.
pub open spec fn read_before(x: PendingImportView, y: PendingImportView) -> bool {
    text_lt(y.created_at, x.created_at) || (!text_lt(x.created_at, y.created_at) && id_rank(x.id)
        > id_rank(y.id))
}

/// Where `row` goes among `sorted`: before the first item that it is read
/// before, and at the end where there is none.
pub open spec fn place_of(sorted: Seq<PendingImportView>, row: PendingImportView) -> int
    decreases sorted.len(),
{
    if sorted.len() == 0 {
        0
    } else if read_before(row, sorted[0]) {
        0
    } else {
        1 + place_of(sorted.drop_first(), row)
    }
}

/// The review items of `rows` that are still pending, in the order of the
/// table.
pub open spec fn pending_rows(rows: Seq<PendingImportView>) -> Seq<PendingImportView>
    decreases rows.len(),
{
    if rows.len() == 0 {
        Seq::empty()
    } else if rows.last().status == ImportStatus::Pending {
        pending_rows(rows.drop_last()).push(rows.last())
    } else {
        pending_rows(rows.drop_last())
    }
}

/// The review items of `rows` that are still pending, the newest first:
/// ordered by the time of creation, the later before the earlier, and among
/// items of one time by identifier, the larger before the smaller.
pub open spec fn pending_of(rows: Seq<PendingImportView>) -> Seq<PendingImportView>
    decreases rows.len(),
{
    if rows.len() == 0 {
        Seq::empty()
    } else if rows.last().status == ImportStatus::Pending {
        pending_of(rows.drop_last()).insert(
            place_of(pending_of(rows.drop_last()), rows.last()),
            rows.last(),
        )
    } else {
        pending_of(rows.drop_last())
    }
}

/// Whether no item of `items` is read before one that stands before it.
pub open spec fn newest_first(items: Seq<PendingImportView>) -> bool {
    forall|i: int, j: int| 0 <= i < j < items.len() ==> !read_before(items[j], items[i])
}

/// An item that is read before a second, which is read before a third, is
/// read before the third.
pub proof fn lemma_read_before_transitive(
    x: PendingImportView,
    y: PendingImportView,
    z: PendingImportView,
)
    requires
        read_before(x, y),
        read_before(y, z),
    ensures
        read_before(x, z),
{
    let (a, b, c) = (x.created_at, y.created_at, z.created_at);
    if text_lt(b, a) && text_lt(c, b) {
        lemma_text_lt_transitive(c, b, a);
    } else if text_lt(b, a) {
        // b == c
        lemma_text_lt_total(b, c);
    } else if text_lt(c, b) {
        lemma_text_lt_total(a, b);
    } else {
        lemma_text_lt_total(a, b);
        lemma_text_lt_total(b, c);
    }
}

/// The place of a row lies within the sequence or at its end; the row is
/// read before none of the items ahead of its place, and before the item at
/// its place.
pub proof fn lemma_place_of(sorted: Seq<PendingImportView>, row: PendingImportView)
    ensures
        0 <= place_of(sorted, row) <= sorted.len(),
        forall|k: int| 0 <= k < place_of(sorted, row) ==> !read_before(row, sorted[k]),
        place_of(sorted, row) < sorted.len() ==> read_before(row, sorted[place_of(sorted, row)]),
    decreases sorted.len(),
{
    if sorted.len() > 0 && !read_before(row, sorted[0]) {
        lemma_place_of(sorted.drop_first(), row);
        let p = place_of(sorted.drop_first(), row);
        assert forall|k: int| 0 <= k < 1 + p implies !read_before(row, sorted[k]) by {
            if k > 0 {
                assert(sorted[k] == sorted.drop_first()[k - 1]);
            }
        }
        if 1 + p < sorted.len() {
            assert(sorted[1 + p] == sorted.drop_first()[p]);
        }
    }
}

/// What is read back is ordered, the newest first, and holds exactly the
/// pending rows: each as often as the table holds it, and nothing else.
pub proof fn lemma_pending_of(rows: Seq<PendingImportView>)
    ensures
        newest_first(pending_of(rows)),
        pending_of(rows).to_multiset() == pending_rows(rows).to_multiset(),
        pending_of(rows).len() == pending_rows(rows).len(),
    decreases rows.len(),
{
    broadcast use {
        vstd::seq_lib::to_multiset_build,
        vstd::seq_lib::to_multiset_insert,
        vstd::seq_lib::to_multiset_len,
    };

    if rows.len() > 0 {
        let rest = pending_of(rows.drop_last());
        let row = rows.last();
        lemma_pending_of(rows.drop_last());
        if row.status == ImportStatus::Pending {
            lemma_place_of(rest, row);
            let p = place_of(rest, row);
            let all = rest.insert(p, row);
            assert forall|i: int, j: int| 0 <= i < j < all.len() implies !read_before(
                all[j],
                all[i],
            ) by {
                if j < p {
                    assert(all[i] == rest[i] && all[j] == rest[j]);
                    assert(!read_before(rest[j], rest[i]));
                } else if j == p {
                    assert(all[i] == rest[i] && all[j] == row);
                    assert(!read_before(row, rest[i]));
                } else if i == p {
                    assert(all[j] == rest[j - 1] && all[i] == row);
                    if read_before(rest[j - 1], row) {
                        lemma_read_before_transitive(rest[j - 1], row, rest[p]);
                        if j - 1 == p {
                            lemma_text_lt_irreflexive(rest[p].created_at);
                        } else {
                            assert(!read_before(rest[j - 1], rest[p]));
                        }
                    }
                } else if i < p {
                    assert(all[i] == rest[i] && all[j] == rest[j - 1]);
                    assert(!read_before(rest[j - 1], rest[i]));
                } else {
                    assert(all[i] == rest[i - 1] && all[j] == rest[j - 1]);
                    assert(!read_before(rest[j - 1], rest[i - 1]));
                }
            }
            assert(pending_rows(rows) == pending_rows(rows.drop_last()).push(row));
        }
    }
}

/// A pending row of the table is among what is read back.
pub proof fn lemma_pending_row_is_read(rows: Seq<PendingImportView>, at: int)
    requires
        0 <= at < rows.len(),
        rows[at].status == ImportStatus::Pending,
    ensures
        pending_of(rows).contains(rows[at]),
    decreases rows.len(),
{
    let rest = pending_of(rows.drop_last());
    let row = rows.last();
    if row.status == ImportStatus::Pending {
        lemma_place_of(rest, row);
        let p = place_of(rest, row);
        let all = rest.insert(p, row);
        if at == rows.len() - 1 {
            assert(all[p] == row);
        } else {
            lemma_pending_row_is_read(rows.drop_last(), at);
            let k = choose|k: int| 0 <= k < rest.len() && rest[k] == rows.drop_last()[at];
            if k < p {
                assert(all[k] == rest[k]);
            } else {
                assert(all[k + 1] == rest[k]);
            }
        }
    } else {
        lemma_pending_row_is_read(rows.drop_last(), at);
    }
}

impl StoreView {
    /// The index of the receipt that a review item points to, if it points to
    /// one that exists.
    pub open spec fn link_index(self, receipt_id: Option<i64>) -> Option<int> {
        match receipt_id {
            Some(id) => self.receipt_index(id),
            None => None,
        }
    }

    /// The store after a subscription was committed, with its identifier;
    /// `Internal` where no identifier is left.
    pub open spec fn put_subscription(self, x: SubscriptionExtractionView, now: Seq<char>) -> Result<
        (StoreView, i64),
        ErrorKind,
    > {
        if self.next_subscription_id < i64::MAX {
            Ok((self.with_subscription(x, now), self.next_subscription_id))
        } else {
            Err(ErrorKind::Internal)
        }
    }

    /// The store after a domain was committed, with its identifier: merged
    /// into the domain of the same name where there is one, added otherwise;
    /// `Internal` where it must be added and no identifier is left.
    pub open spec fn put_domain(self, x: DomainExtractionView, now: Seq<char>) -> Result<
        (StoreView, i64),
        ErrorKind,
    > {
        match self.domain_index(x.name) {
            Some(at) => Ok((self.with_merged_domain(at, x, now), self.domains[at].id->0)),
            None => if self.next_domain_id < i64::MAX {
                Ok((self.with_domain(x, now), self.next_domain_id))
            } else {
                Err(ErrorKind::Internal)
            },
        }
    }

    /// The store after the review item `id` was approved at time `now`, or
    /// why it cannot be.
    ///
    /// - `NotFound`: no item has this identifier.
    /// - `Validation`: the item is no longer pending; it is classified as
    ///   junk or not at all; the data (`edited` where given, else the item's
    ///   own) does not have the shape of its classification; or its receipt
    ///   is already linked to an entity of the other kind.
    /// - `Internal`: no identifier is left for the entity.
    ///
    /// Otherwise the entity is committed, the item's receipt (if it has one
    /// that exists) is linked to it, and the item is marked approved.
    pub open spec fn approved(self, id: i64, edited: Option<Seq<char>>, now: Seq<char>) -> Result<
        StoreView,
        ErrorKind,
    > {
        match self.pending_index(id) {
            None => Err(ErrorKind::NotFound),
            Some(at) => {
                let item = self.pending_imports[at];
                let payload = match edited {
                    Some(e) => e,
                    None => item.extracted_data,
                };
                let link = self.link_index(item.receipt_id);
                if item.status != ImportStatus::Pending {
                    Err(ErrorKind::Validation)
                } else {
                    match item.classification {
                        Some(Classification::Subscription) => match subscription_payload(payload) {
                            None => Err(ErrorKind::Validation),
                            Some(x) => if link is Some && self.receipts[link->0].domain_id
                                is Some {
                                Err(ErrorKind::Validation)
                            } else {
                                match self.put_subscription(x, now) {
                                    Err(k) => Err(k),
                                    Ok((s, entity)) => Ok(
                                        s.with_subscription_link(link, entity).with_status(
                                            at,
                                            ImportStatus::Approved,
                                        ),
                                    ),
                                }
                            },
                        },
                        Some(Classification::Domain) => match domain_payload(payload) {
                            None => Err(ErrorKind::Validation),
                            Some(x) => if link is Some && self.receipts[link->0].subscription_id
                                is Some {
                                Err(ErrorKind::Validation)
                            } else {
                                match self.put_domain(x, now) {
                                    Err(k) => Err(k),
                                    Ok((s, entity)) => Ok(
                                        s.with_domain_link(link, entity).with_status(
                                            at,
                                            ImportStatus::Approved,
                                        ),
                                    ),
                                }
                            },
                        },
                        _ => Err(ErrorKind::Validation),
                    }
                }
            },
        }
    }

    /// The store after the review item `id` was rejected: `NotFound` where no
    /// item has this identifier, `Validation` where the item is no longer
    /// pending.
    pub open spec fn rejected(self, id: i64) -> Result<StoreView, ErrorKind> {
        match self.pending_index(id) {
            None => Err(ErrorKind::NotFound),
            Some(at) => if self.pending_imports[at].status != ImportStatus::Pending {
                Err(ErrorKind::Validation)
            } else {
                Ok(self.with_status(at, ImportStatus::Rejected))
            },
        }
    }

    /// The store after the items `ids` were approved one after the other,
    /// each with its own data, up to the first that fails, and that failure.
    pub open spec fn approved_all(self, ids: Seq<i64>, now: Seq<char>) -> (
        StoreView,
        Option<ErrorKind>,
    )
        decreases ids.len(),
    {
        if ids.len() == 0 {
            (self, None)
        } else {
            match self.approved(ids[0], None, now) {
                Ok(s) => s.approved_all(ids.drop_first(), now),
                Err(k) => (self, Some(k)),
            }
        }
    }

    /// The store after the items `ids` were rejected one after the other, up
    /// to the first that fails, and that failure.
    pub open spec fn rejected_all(self, ids: Seq<i64>) -> (StoreView, Option<ErrorKind>)
        decreases ids.len(),
    {
        if ids.len() == 0 {
            (self, None)
        } else {
            match self.rejected(ids[0]) {
                Ok(s) => s.rejected_all(ids.drop_first()),
                Err(k) => (self, Some(k)),
            }
        }
    }

    /// The store with a new pending item made by hand, and its identifier:
    /// `Validation` where `classification` names none of the three classes or
    /// `confidence` is not between 0 and 1, `Internal` where no identifier is
    /// left.
    pub open spec fn created_import(
        self,
        subject: Seq<char>,
        from: Seq<char>,
        date: Seq<char>,
        classification: Seq<char>,
        data: Seq<char>,
        confidence: u64,
        now: Seq<char>,
    ) -> Result<(StoreView, i64), ErrorKind> {
        match Classification::named(classification) {
            None => Err(ErrorKind::Validation),
            Some(class) => if !is_unit_interval(confidence) {
                Err(ErrorKind::Validation)
            } else if self.next_pending_import_id < i64::MAX {
                Ok(
                    (
                        self.with_pending_import(
                            PendingImportView {
                                id: None,
                                email_subject: Some(subject),
                                email_from: from,
                                email_date: Some(date),
                                classification: Some(class),
                                confidence: Some(confidence),
                                extracted_data: data,
                                receipt_id: None,
                                status: ImportStatus::Pending,
                                created_at: now,
                            },
                        ),
                        self.next_pending_import_id,
                    ),
                )
            } else {
                Err(ErrorKind::Internal)
            },
        }
    }
}

impl StoreView {
    /// The domain that approving the item `id` would commit: `None` where
    /// there is no such item, or it is not classified as a domain, or its
    /// data (`edited` where given) does not describe one.
    pub open spec fn domain_to_commit(self, id: i64, edited: Option<Seq<char>>) -> Option<
        DomainExtractionView,
    > {
        match self.pending_index(id) {
            None => None,
            Some(at) => if self.pending_imports[at].classification == Some(
                Classification::Domain,
            ) {
                domain_payload(
                    match edited {
                        Some(e) => e,
                        None => self.pending_imports[at].extracted_data,
                    },
                )
            } else {
                None
            },
        }
    }

    /// Approval keeps a store well formed.
    pub proof fn lemma_approved_wf(self, id: i64, edited: Option<Seq<char>>, now: Seq<char>)
        requires
            self.wf(),
            self.approved(id, edited, now) is Ok,
        ensures
            self.approved(id, edited, now)->Ok_0.wf(),
    {
        let at = self.pending_index(id)->0;
        lemma_first_index_is_first(pending_ids(self.pending_imports), Some(id));
        let item = self.pending_imports[at];
        let payload = match edited {
            Some(e) => e,
            None => item.extracted_data,
        };
        let link = self.link_index(item.receipt_id);
        if item.receipt_id is Some {
            lemma_first_index_is_first(receipt_ids(self.receipts), Some(item.receipt_id->0));
        }
        match item.classification {
            Some(Classification::Subscription) => {
                let x = subscription_payload(payload)->0;
                let (s, entity) = self.put_subscription(x, now)->Ok_0;
                self.lemma_with_subscription(x, now);
                s.lemma_with_subscription_link(link, entity);
                s.with_subscription_link(link, entity).lemma_with_status(
                    at,
                    ImportStatus::Approved,
                );
            },
            Some(Classification::Domain) => {
                let x = domain_payload(payload)->0;
                let (s, entity) = self.put_domain(x, now)->Ok_0;
                lemma_first_index_is_first(domain_names(self.domains), x.name);
                match self.domain_index(x.name) {
                    Some(d) => {
                        self.lemma_with_merged_domain(d, x, now);
                    },
                    None => {
                        self.lemma_with_domain(x, now);
                    },
                }
                s.lemma_with_domain_link(link, entity);
                s.with_domain_link(link, entity).lemma_with_status(at, ImportStatus::Approved);
            },
            _ => {},
        }
    }

    /// An item that is classified as junk, or not at all, is never approved:
    /// the attempt fails with `Validation`, whatever data comes with it.
    pub proof fn lemma_junk_is_not_approved(
        self,
        id: i64,
        edited: Option<Seq<char>>,
        now: Seq<char>,
    )
        requires
            self.pending_index(id) is Some,
            self.pending_imports[self.pending_index(id)->0].classification is None
                || self.pending_imports[self.pending_index(id)->0].classification == Some(
                Classification::Junk,
            ),
        ensures
            self.approved(id, edited, now) == Err::<StoreView, ErrorKind>(ErrorKind::Validation),
    {
    }

    /// An item that was rejected cannot be approved afterwards: the attempt
    /// fails with `Validation`.
    pub proof fn lemma_rejected_is_not_approved(
        self,
        id: i64,
        edited: Option<Seq<char>>,
        now: Seq<char>,
    )
        requires
            self.rejected(id) is Ok,
        ensures
            self.rejected(id)->Ok_0.approved(id, edited, now) == Err::<StoreView, ErrorKind>(
                ErrorKind::Validation,
            ),
    {
        let at = self.pending_index(id)->0;
        lemma_first_index_is_first(pending_ids(self.pending_imports), Some(id));
        let after = self.rejected(id)->Ok_0;
        assert(pending_ids(after.pending_imports) =~= pending_ids(self.pending_imports));
        assert(after.pending_imports[at].status == ImportStatus::Rejected);
    }

    /// Approving a domain whose name is already stored merges into that row:
    /// no row is added, the other rows stay as they were, and in the row of
    /// that name every optional field that the extraction leaves out keeps
    /// its stored value, while the expiry date is always the extraction's.
    pub proof fn lemma_approval_merges_domain(
        self,
        id: i64,
        edited: Option<Seq<char>>,
        now: Seq<char>,
    )
        requires
            self.approved(id, edited, now) is Ok,
            self.domain_to_commit(id, edited) is Some,
            self.domain_index(self.domain_to_commit(id, edited)->0.name) is Some,
        ensures
            ({
                let x = self.domain_to_commit(id, edited)->0;
                let at = self.domain_index(x.name)->0;
                let after = self.approved(id, edited, now)->Ok_0;
                &&& 0 <= at < self.domains.len()
                &&& after.domains.len() == self.domains.len()
                &&& forall|i: int|
                    0 <= i < self.domains.len() && i != at ==> after.domains[i] == self.domains[i]
                &&& after.domains[at] == merged_domain(self.domains[at], x, now)
                &&& after.domains[at].name == x.name
                &&& after.domains[at].id == self.domains[at].id
                &&& after.domains[at].expiry_date == x.expiry_date
                &&& x.registrar is None ==> after.domains[at].registrar
                    == self.domains[at].registrar
                &&& x.amount is None ==> after.domains[at].amount == self.domains[at].amount
                &&& x.currency is None ==> after.domains[at].currency == self.domains[at].currency
                &&& x.registration_date is None ==> after.domains[at].registration_date
                    == self.domains[at].registration_date
                &&& x.auto_renew is None ==> after.domains[at].auto_renew
                    == self.domains[at].auto_renew
            }),
    {
        let x = self.domain_to_commit(id, edited)->0;
        lemma_first_index_is_first(domain_names(self.domains), x.name);
    }

    /// Approving two items for one domain name leaves one row of that name:
    /// the second approval adds no row, and no two rows have the name.
    pub proof fn lemma_same_domain_twice(
        self,
        first: i64,
        first_edited: Option<Seq<char>>,
        first_now: Seq<char>,
        second: i64,
        second_edited: Option<Seq<char>>,
        second_now: Seq<char>,
    )
        requires
            self.wf(),
            self.approved(first, first_edited, first_now) is Ok,
            self.domain_to_commit(first, first_edited) is Some,
            self.approved(first, first_edited, first_now)->Ok_0.approved(
                second,
                second_edited,
                second_now,
            ) is Ok,
            self.approved(first, first_edited, first_now)->Ok_0.domain_to_commit(
                second,
                second_edited,
            ) is Some,
            self.domain_to_commit(first, first_edited)->0.name == self.approved(
                first,
                first_edited,
                first_now,
            )->Ok_0.domain_to_commit(second, second_edited)->0.name,
        ensures
            ({
                let name = self.domain_to_commit(first, first_edited)->0.name;
                let once = self.approved(first, first_edited, first_now)->Ok_0;
                let twice = once.approved(second, second_edited, second_now)->Ok_0;
                &&& once.domain_index(name) is Some
                &&& twice.domains.len() == once.domains.len()
                &&& twice.domain_index(name) == once.domain_index(name)
                &&& forall|i: int, j: int|
                    0 <= i < twice.domains.len() && 0 <= j < twice.domains.len()
                        && twice.domains[i].name == name && twice.domains[j].name == name ==> i
                        == j
            }),
    {
        let x = self.domain_to_commit(first, first_edited)->0;
        let name = x.name;
        let once = self.approved(first, first_edited, first_now)->Ok_0;
        let twice = once.approved(second, second_edited, second_now)->Ok_0;
        self.lemma_approved_wf(first, first_edited, first_now);
        once.lemma_approved_wf(second, second_edited, second_now);
        lemma_first_index_is_first(domain_names(self.domains), name);
        match self.domain_index(name) {
            Some(d) => {
                assert(once.domains[d].name == name);
                lemma_some_first(domain_names(once.domains), name, d);
            },
            None => {
                let d = self.domains.len() as int;
                assert(once.domains[d].name == name);
                lemma_some_first(domain_names(once.domains), name, d);
            },
        }
        once.lemma_approval_merges_domain(second, second_edited, second_now);
        let at = once.domain_index(name)->0;
        lemma_first_index_is_first(domain_names(once.domains), name);
        assert(domain_names(twice.domains) =~= domain_names(once.domains)) by {
            assert forall|i: int| 0 <= i < once.domains.len() implies twice.domains[i].name
                == once.domains[i].name by {
                if i != at {
                    assert(twice.domains[i] == once.domains[i]);
                }
            }
        }
        assert forall|i: int, j: int|
            0 <= i < twice.domains.len() && 0 <= j < twice.domains.len() && twice.domains[i].name
                == name && twice.domains[j].name == name implies i == j by {
            if i < j {
                assert(twice.domains[i].name != twice.domains[j].name);
            } else if j < i {
                assert(twice.domains[j].name != twice.domains[i].name);
            }
        }
    }

    /// A pending item that was just made is among what is read back, once
    /// more than before, under its identifier and with the extracted data
    /// that was given, character by character.
    pub proof fn lemma_created_import_reads_back(
        self,
        subject: Seq<char>,
        from: Seq<char>,
        date: Seq<char>,
        classification: Seq<char>,
        data: Seq<char>,
        confidence: u64,
        now: Seq<char>,
    )
        requires
            self.created_import(subject, from, date, classification, data, confidence, now) is Ok,
        ensures
            ({
                let (after, id) = self.created_import(
                    subject,
                    from,
                    date,
                    classification,
                    data,
                    confidence,
                    now,
                )->Ok_0;
                let read = pending_of(after.pending_imports);
                &&& read.len() == pending_of(self.pending_imports).len() + 1
                &&& read.contains(after.pending_imports.last())
                &&& after.pending_imports.last().id == Some(id)
                &&& after.pending_imports.last().extracted_data == data
                &&& after.pending_imports.last().email_subject == Some(subject)
                &&& after.pending_imports.last().email_from == from
                &&& after.pending_imports.last().status == ImportStatus::Pending
            }),
    {
        let (after, id) = self.created_import(
            subject,
            from,
            date,
            classification,
            data,
            confidence,
            now,
        )->Ok_0;
        assert(after.pending_imports.drop_last() =~= self.pending_imports);
        lemma_place_of(pending_of(self.pending_imports), after.pending_imports.last());
        lemma_pending_row_is_read(after.pending_imports, after.pending_imports.len() - 1);
    }
}

/// Commits a subscription: always a new row, active and without notes.
pub fn create_subscription_from_import(
    store: &mut Store,
    extraction: SubscriptionExtraction,
    now: &str,
) -> (r: AppResult<i64>)
    requires
        old(store)@.wf(),
    ensures
        match old(store)@.put_subscription(extraction@, now@) {
            Ok((s, id)) => r == Ok::<i64, AppError>(id) && final(store)@ == s,
            Err(k) => r is Err && r->Err_0.spec_kind() == k && final(store)@ == old(store)@,
        },
        final(store)@.wf(),
{
    if !store.has_subscription_room() {
        return Err(
            AppError::Internal(String::from_str("No identifier is left for a subscription")),
        );
    }
    Ok(store.insert_subscription(extraction, now))
}

/// Commits a domain: merged into the row of the same name where there is one,
/// a new row otherwise.
pub fn create_domain_from_import(store: &mut Store, extraction: DomainExtraction, now: &str) -> (r:
    AppResult<i64>)
    requires
        old(store)@.wf(),
    ensures
        match old(store)@.put_domain(extraction@, now@) {
            Ok((s, id)) => r == Ok::<i64, AppError>(id) && final(store)@ == s,
            Err(k) => r is Err && r->Err_0.spec_kind() == k && final(store)@ == old(store)@,
        },
        final(store)@.wf(),
{
    match store.find_domain(extraction.name.as_str()) {
        Some(at) => {
            assert(domain_ids(store@.domains)[at as int] is Some);
            let id = store.domain_at(at).id.unwrap();
            store.merge_domain(at, extraction, now);
            Ok(id)
        },
        None => {
            if !store.has_domain_room() {
                return Err(
                    AppError::Internal(String::from_str("No identifier is left for a domain")),
                );
            }
            Ok(store.insert_domain(extraction, now))
        },
    }
}

impl Store {
    /// The index of the receipt that a review item points to, if it points to
    /// one that exists.
    fn find_link(&self, receipt_id: Option<i64>) -> (r: Option<usize>)
        ensures
            match r {
                Some(at) => self@.link_index(receipt_id) == Some(at as int) && at
                    < self@.receipts.len(),
                None => self@.link_index(receipt_id) is None,
            },
    {
        match receipt_id {
            Some(id) => self.find_receipt(id),
            None => None,
        }
    }

    /// Approves the review item `id` at time `now`, with `edited_data` in
    /// place of its own data where given. On any error the store is as it
    /// was.
    pub fn approve(&mut self, id: i64, edited_data: Option<String>, now: &str) -> (r: AppResult<()>)
        requires
            old(self)@.wf(),
        ensures
            match old(self)@.approved(id, edited_data.deep_view(), now@) {
                Ok(s) => r is Ok && final(self)@ == s,
                Err(k) => r is Err && r->Err_0.spec_kind() == k && final(self)@ == old(self)@,
            },
            final(self)@.wf(),
    {
        let at = match self.find_pending_import(id) {
            Some(at) => at,
            None => {
                return Err(AppError::NotFound(String::from_str("No such pending import")));
            },
        };
        let item = self.pending_import_at(at);
        let status = item.status;
        let classification = item.classification;
        let receipt_id = item.receipt_id;
        let payload = match edited_data {
            Some(edited) => edited,
            None => item.extracted_data.clone(),
        };
        if status != ImportStatus::Pending {
            return Err(
                AppError::Validation(String::from_str("The pending import was already decided")),
            );
        }
        let link = self.find_link(receipt_id);
        match classification {
            Some(Classification::Subscription) => {
                let extraction = match parse_subscription(payload.as_str()) {
                    Ok(x) => x,
                    Err(e) => {
                        return Err(e);
                    },
                };
                if let Some(l) = link {
                    if self.receipt_at(l).domain_id.is_some() {
                        return Err(
                            AppError::Validation(
                                String::from_str("The receipt is already linked to a domain"),
                            ),
                        );
                    }
                }
                let entity = match create_subscription_from_import(self, extraction, now) {
                    Ok(entity) => entity,
                    Err(e) => {
                        return Err(e);
                    },
                };
                if let Some(l) = link {
                    self.link_subscription(l, entity);
                }
                self.set_status(at, ImportStatus::Approved);
                Ok(())
            },
            Some(Classification::Domain) => {
                let extraction = match parse_domain(payload.as_str()) {
                    Ok(x) => x,
                    Err(e) => {
                        return Err(e);
                    },
                };
                if let Some(l) = link {
                    if self.receipt_at(l).subscription_id.is_some() {
                        return Err(
                            AppError::Validation(
                                String::from_str("The receipt is already linked to a subscription"),
                            ),
                        );
                    }
                }
                let entity = match create_domain_from_import(self, extraction, now) {
                    Ok(entity) => entity,
                    Err(e) => {
                        return Err(e);
                    },
                };
                if let Some(l) = link {
                    self.link_domain(l, entity);
                }
                self.set_status(at, ImportStatus::Approved);
                Ok(())
            },
            _ => Err(
                AppError::Validation(String::from_str("Invalid classification or junk email")),
            ),
        }
    }

    /// Rejects the review item `id`. On any error the store is as it was.
    pub fn reject(&mut self, id: i64) -> (r: AppResult<()>)
        requires
            old(self)@.wf(),
        ensures
            match old(self)@.rejected(id) {
                Ok(s) => r is Ok && final(self)@ == s,
                Err(k) => r is Err && r->Err_0.spec_kind() == k && final(self)@ == old(self)@,
            },
            final(self)@.wf(),
    {
        let at = match self.find_pending_import(id) {
            Some(at) => at,
            None => {
                return Err(AppError::NotFound(String::from_str("No such pending import")));
            },
        };
        if self.pending_import_at(at).status != ImportStatus::Pending {
            return Err(
                AppError::Validation(String::from_str("The pending import was already decided")),
            );
        }
        self.set_status(at, ImportStatus::Rejected);
        Ok(())
    }
    /// The review items that are still pending, the newest first: by time of
    /// creation, and among items of one time by identifier.
    pub fn pending(&self) -> (r: Vec<PendingImport>)
        ensures
            pending_imports_view(r@) == pending_of(self@.pending_imports),
    {
        let rows = self.pending_imports();
        let ghost all = pending_imports_view(rows@);
        let mut out: Vec<PendingImport> = Vec::new();
        let mut i: usize = 0;
        assert(pending_imports_view(out@) =~= Seq::<PendingImportView>::empty());
        while i < rows.len()
            invariant
                i <= rows.len(),
                all == pending_imports_view(rows@),
                pending_imports_view(out@) == pending_of(all.subrange(0, i as int)),
            decreases rows.len() - i,
        {
            let ghost upto = all.subrange(0, i + 1);
            let ghost before = pending_imports_view(out@);
            assert(upto.last() == rows@[i as int]@);
            assert(upto.drop_last() =~= all.subrange(0, i as int));
            if rows[i].status == ImportStatus::Pending {
                let place = find_place(&out, &rows[i]);
                let row = copy_pending_import(&rows[i]);
                out.insert(place, row);
                assert(pending_imports_view(out@) =~= before.insert(place as int, rows@[i as int]@));
            }
            i += 1;
        }
        assert(all.subrange(0, i as int) =~= all);
        out
    }

    /// Adds a pending item made by hand. On any error the store is as it was.
    pub fn create_import(
        &mut self,
        email_subject: String,
        email_from: String,
        email_date: String,
        classification: String,
        extracted_data: String,
        confidence: u64,
        now: &str,
    ) -> (r: AppResult<i64>)
        requires
            old(self)@.wf(),
        ensures
            match old(self)@.created_import(
                email_subject@,
                email_from@,
                email_date@,
                classification@,
                extracted_data@,
                confidence,
                now@,
            ) {
                Ok((s, id)) => r == Ok::<i64, AppError>(id) && final(self)@ == s,
                Err(k) => r is Err && r->Err_0.spec_kind() == k && final(self)@ == old(self)@,
            },
            final(self)@.wf(),
    {
        let class = match Classification::parse(classification.as_str()) {
            Some(class) => class,
            None => {
                return Err(AppError::Validation(String::from_str("Unknown classification")));
            },
        };
        if !in_unit_interval(confidence) {
            return Err(
                AppError::Validation(String::from_str("The confidence is not between 0 and 1")),
            );
        }
        if !self.has_pending_import_room() {
            return Err(
                AppError::Internal(String::from_str("No identifier is left for a pending import")),
            );
        }
        let row = PendingImport {
            id: None,
            email_subject: Some(email_subject),
            email_from,
            email_date: Some(email_date),
            classification: Some(class),
            confidence: Some(confidence),
            extracted_data,
            receipt_id: None,
            status: ImportStatus::Pending,
            created_at: String::from_str(now),
        };
        Ok(self.insert_pending_import(row))
    }

    /// Approves the items `ids` in their order, each with its own data, and
    /// stops at the first that fails: the items before it stay approved.
    pub fn approve_all(&mut self, ids: &Vec<i64>, now: &str) -> (r: AppResult<()>)
        requires
            old(self)@.wf(),
        ensures
            final(self)@ == old(self)@.approved_all(ids@, now@).0,
            match old(self)@.approved_all(ids@, now@).1 {
                None => r is Ok,
                Some(k) => r is Err && r->Err_0.spec_kind() == k,
            },
            final(self)@.wf(),
    {
        let mut i: usize = 0;
        assert(ids@.subrange(0, ids@.len() as int) =~= ids@);
        while i < ids.len()
            invariant
                i <= ids.len(),
                self@.wf(),
                old(self)@.approved_all(ids@, now@) == self@.approved_all(
                    ids@.subrange(i as int, ids@.len() as int),
                    now@,
                ),
            decreases ids.len() - i,
        {
            let ghost rest = ids@.subrange(i as int, ids@.len() as int);
            assert(rest[0] == ids@[i as int]);
            assert(rest.drop_first() =~= ids@.subrange(i + 1, ids@.len() as int));
            match self.approve(ids[i], None, now) {
                Ok(()) => {},
                Err(e) => {
                    return Err(e);
                },
            }
            i += 1;
        }
        Ok(())
    }

    /// Rejects the items `ids` in their order, and stops at the first that
    /// fails: the items before it stay rejected.
    pub fn reject_all(&mut self, ids: &Vec<i64>) -> (r: AppResult<()>)
        requires
            old(self)@.wf(),
        ensures
            final(self)@ == old(self)@.rejected_all(ids@).0,
            match old(self)@.rejected_all(ids@).1 {
                None => r is Ok,
                Some(k) => r is Err && r->Err_0.spec_kind() == k,
            },
            final(self)@.wf(),
    {
        let mut i: usize = 0;
        assert(ids@.subrange(0, ids@.len() as int) =~= ids@);
        while i < ids.len()
            invariant
                i <= ids.len(),
                self@.wf(),
                old(self)@.rejected_all(ids@) == self@.rejected_all(
                    ids@.subrange(i as int, ids@.len() as int),
                ),
            decreases ids.len() - i,
        {
            let ghost rest = ids@.subrange(i as int, ids@.len() as int);
            assert(rest[0] == ids@[i as int]);
            assert(rest.drop_first() =~= ids@.subrange(i + 1, ids@.len() as int));
            match self.reject(ids[i]) {
                Ok(()) => {},
                Err(e) => {
                    return Err(e);
                },
            }
            i += 1;
        }
        Ok(())
    }
}

/// Whether the review item `x` is read before `y`.
pub fn is_read_before(x: &PendingImport, y: &PendingImport) -> (r: bool)
    ensures
        r == read_before(x@, y@),
{
    if text_before(y.created_at.as_str(), x.created_at.as_str()) {
        true
    } else if text_before(x.created_at.as_str(), y.created_at.as_str()) {
        false
    } else {
        match (x.id, y.id) {
            (Some(a), Some(b)) => a > b,
            (Some(_), None) => true,
            _ => false,
        }
    }
}

/// Where `row` goes among `sorted`.
fn find_place(sorted: &Vec<PendingImport>, row: &PendingImport) -> (place: usize)
    ensures
        place == place_of(pending_imports_view(sorted@), row@),
        place <= sorted.len(),
{
    let ghost all = pending_imports_view(sorted@);
    let mut place: usize = 0;
    assert(all.subrange(0, all.len() as int) =~= all);
    while place < sorted.len()
        invariant
            place <= sorted.len(),
            all == pending_imports_view(sorted@),
            place_of(all, row@) == place + place_of(
                all.subrange(place as int, all.len() as int),
                row@,
            ),
        decreases sorted.len() - place,
    {
        let ghost rest = all.subrange(place as int, all.len() as int);
        assert(rest[0] == sorted@[place as int]@);
        assert(rest.drop_first() =~= all.subrange(place + 1, all.len() as int));
        if is_read_before(row, &sorted[place]) {
            return place;
        }
        place += 1;
    }
    place
}

/// A copy of a review item.
pub fn copy_pending_import(row: &PendingImport) -> (r: PendingImport)
    ensures
        r@ == row@,
{
    PendingImport {
        id: row.id,
        email_subject: copy_text(&row.email_subject),
        email_from: row.email_from.clone(),
        email_date: copy_text(&row.email_date),
        classification: row.classification,
        confidence: row.confidence,
        extracted_data: row.extracted_data.clone(),
        receipt_id: row.receipt_id,
        status: row.status,
        created_at: row.created_at.clone(),
    }
}

} // verus!