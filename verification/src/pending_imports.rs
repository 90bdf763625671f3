//! The operations on the review queue that callers see. Each one works on
//! the test store where `test_mode` is set, on the real one otherwise.
//!
//! An operation that stamps rows comes twice: under its plain name it reads
//! the clock; with `_at` it takes the time from its caller.

use vstd::prelude::*;
use crate::error::{AppError, AppResult, ErrorKind};
use crate::ledger::{Ledger, LedgerView};
use crate::model::{Classification, DatabaseType, PendingImport};
use crate::review::pending_of;
use crate::store::pending_imports_view;
use crate::utils::get_current_timestamp;

verus! {

/// What creating a pending item at time `now` does to a ledger and returns.
pub open spec fn creation(
    before: LedgerView,
    after: LedgerView,
    r: AppResult<i64>,
    email_subject: Seq<char>,
    email_from: Seq<char>,
    email_date: Seq<char>,
    classification: Seq<char>,
    extracted_data: Seq<char>,
    confidence: u64,
    test_mode: bool,
    now: Seq<char>,
) -> bool {
    let db = DatabaseType::of_mode(test_mode);
    match before.store(db).created_import(
        email_subject,
        email_from,
        email_date,
        classification,
        extracted_data,
        confidence,
        now,
    ) {
        Ok((s, id)) => r == Ok::<i64, AppError>(id) && after == before.with_store(db, s),
        Err(k) => r is Err && r->Err_0.spec_kind() == k && after == before,
    }
}

/// What approving the item `id` at time `now` does to a ledger and returns.
pub open spec fn approval(
    before: LedgerView,
    after: LedgerView,
    r: AppResult<()>,
    id: i64,
    edited: Option<Seq<char>>,
    test_mode: bool,
    now: Seq<char>,
) -> bool {
    let db = DatabaseType::of_mode(test_mode);
    match before.store(db).approved(id, edited, now) {
        Ok(s) => r is Ok && after == before.with_store(db, s),
        Err(k) => r is Err && r->Err_0.spec_kind() == k && after == before,
    }
}

/// A pending item that was made with some extracted data is among what is
/// read back, under its identifier and with the same data, character by
/// character: nothing is reformatted or reordered.
pub proof fn lemma_created_data_is_read_back(
    before: LedgerView,
    after: LedgerView,
    r: AppResult<i64>,
    email_subject: Seq<char>,
    email_from: Seq<char>,
    email_date: Seq<char>,
    classification: Seq<char>,
    extracted_data: Seq<char>,
    confidence: u64,
    test_mode: bool,
    now: Seq<char>,
)
    requires
        creation(
            before,
            after,
            r,
            email_subject,
            email_from,
            email_date,
            classification,
            extracted_data,
            confidence,
            test_mode,
            now,
        ),
        r is Ok,
    ensures
        ({
            let read = pending_of(after.store(DatabaseType::of_mode(test_mode)).pending_imports);
            exists|i: int|
                0 <= i < read.len() && read[i].id == Some(r->Ok_0) && read[i].extracted_data
                    == extracted_data
        }),
{
    before.store(DatabaseType::of_mode(test_mode)).lemma_created_import_reads_back(
        email_subject,
        email_from,
        email_date,
        classification,
        extracted_data,
        confidence,
        now,
    );
    let rows = after.store(DatabaseType::of_mode(test_mode)).pending_imports;
    let read = pending_of(rows);
    let i = choose|i: int| 0 <= i < read.len() && read[i] == rows.last();
    assert(read[i].id == Some(r->Ok_0) && read[i].extracted_data == extracted_data);
}

/// What rejecting the item `id` does to a ledger and returns.
pub open spec fn rejection(
    before: LedgerView,
    after: LedgerView,
    r: AppResult<()>,
    id: i64,
    test_mode: bool,
) -> bool {
    let db = DatabaseType::of_mode(test_mode);
    match before.store(db).rejected(id) {
        Ok(s) => r is Ok && after == before.with_store(db, s),
        Err(k) => r is Err && r->Err_0.spec_kind() == k && after == before,
    }
}

/// Approving an item that is classified as junk, or not at all, fails with
/// `Validation` and leaves the ledger as it was: the item stays pending, and
/// no entity is committed.
pub proof fn lemma_junk_approval_changes_nothing(
    before: LedgerView,
    after: LedgerView,
    r: AppResult<()>,
    id: i64,
    edited: Option<Seq<char>>,
    test_mode: bool,
    now: Seq<char>,
)
    requires
        approval(before, after, r, id, edited, test_mode, now),
        before.store(DatabaseType::of_mode(test_mode)).pending_index(id) is Some,
        ({
            let store = before.store(DatabaseType::of_mode(test_mode));
            let class = store.pending_imports[store.pending_index(id)->0].classification;
            class is None || class == Some(Classification::Junk)
        }),
    ensures
        r is Err,
        r->Err_0.spec_kind() == ErrorKind::Validation,
        after == before,
{
    before.store(DatabaseType::of_mode(test_mode)).lemma_junk_is_not_approved(id, edited, now);
}

/// Approving an item after it was rejected fails with `Validation` and
/// leaves the ledger as the rejection left it: no entity is committed.
pub proof fn lemma_approval_after_rejection_changes_nothing(
    before: LedgerView,
    between: LedgerView,
    rejected: AppResult<()>,
    after: LedgerView,
    approved: AppResult<()>,
    id: i64,
    edited: Option<Seq<char>>,
    test_mode: bool,
    now: Seq<char>,
)
    requires
        rejection(before, between, rejected, id, test_mode),
        rejected is Ok,
        approval(between, after, approved, id, edited, test_mode, now),
    ensures
        approved is Err,
        approved->Err_0.spec_kind() == ErrorKind::Validation,
        after == between,
        after.production.subscriptions == before.production.subscriptions,
        after.production.domains == before.production.domains,
        after.test.subscriptions == before.test.subscriptions,
        after.test.domains == before.test.domains,
{
    before.store(DatabaseType::of_mode(test_mode)).lemma_rejected_is_not_approved(id, edited, now);
}

/// What approving the items `ids` at time `now` does to a ledger and returns.
pub open spec fn batch_approval(
    before: LedgerView,
    after: LedgerView,
    r: AppResult<()>,
    ids: Seq<i64>,
    test_mode: bool,
    now: Seq<char>,
) -> bool {
    let db = DatabaseType::of_mode(test_mode);
    let (s, failure) = before.store(db).approved_all(ids, now);
    &&& after == before.with_store(db, s)
    &&& match failure {
        None => r is Ok,
        Some(k) => r is Err && r->Err_0.spec_kind() == k,
    }
}

/// The items of one store that are still pending, the newest first: by time
/// of creation, and among items of one time by identifier.
pub fn get_pending_imports(ledger: &Ledger, test_mode: bool) -> (r: AppResult<Vec<PendingImport>>)
    ensures
        r is Ok,
        pending_imports_view(r->Ok_0@) == pending_of(
            ledger@.store(DatabaseType::of_mode(test_mode)).pending_imports,
        ),
{
    Ok(ledger.store(DatabaseType::for_mode(test_mode)).pending())
}

/// Adds a pending item made by hand, stamped `now`, and returns its
/// identifier. The classification must be one of `subscription`, `domain`,
/// `junk` and the confidence between 0 and 1, else the error is of class
/// `Validation` and nothing is added.
pub fn create_pending_import_at(
    ledger: &mut Ledger,
    email_subject: String,
    email_from: String,
    email_date: String,
    classification: String,
    extracted_data: String,
    confidence: u64,
    test_mode: bool,
    now: &str,
) -> (r: AppResult<i64>)
    requires
        old(ledger)@.wf(),
    ensures
        creation(
            old(ledger)@,
            final(ledger)@,
            r,
            email_subject@,
            email_from@,
            email_date@,
            classification@,
            extracted_data@,
            confidence,
            test_mode,
            now@,
        ),
        final(ledger)@.wf(),
{
    match DatabaseType::for_mode(test_mode) {
        DatabaseType::Production => ledger.production.create_import(
            email_subject,
            email_from,
            email_date,
            classification,
            extracted_data,
            confidence,
            now,
        ),
        DatabaseType::Test => ledger.test.create_import(
            email_subject,
            email_from,
            email_date,
            classification,
            extracted_data,
            confidence,
            now,
        ),
    }
}

/// Adds a pending item made by hand, stamped with the current time.
pub fn create_pending_import(
    ledger: &mut Ledger,
    email_subject: String,
    email_from: String,
    email_date: String,
    classification: String,
    extracted_data: String,
    confidence: u64,
    test_mode: bool,
) -> (r: AppResult<i64>)
    requires
        old(ledger)@.wf(),
    ensures
        exists|now: Seq<char>|
            creation(
                old(ledger)@,
                final(ledger)@,
                r,
                email_subject@,
                email_from@,
                email_date@,
                classification@,
                extracted_data@,
                confidence,
                test_mode,
                now,
            ),
        final(ledger)@.wf(),
{
    let now = get_current_timestamp();
    create_pending_import_at(
        ledger,
        email_subject,
        email_from,
        email_date,
        classification,
        extracted_data,
        confidence,
        test_mode,
        now.as_str(),
    )
}

/// Approves the item `id` at time `now`: commits its subscription or domain,
/// links its receipt, and marks it approved, all or nothing.
pub fn approve_pending_import_at(
    ledger: &mut Ledger,
    id: i64,
    edited_data: Option<String>,
    test_mode: bool,
    now: &str,
) -> (r: AppResult<()>)
    requires
        old(ledger)@.wf(),
    ensures
        approval(old(ledger)@, final(ledger)@, r, id, edited_data.deep_view(), test_mode, now@),
        final(ledger)@.wf(),
{
    match DatabaseType::for_mode(test_mode) {
        DatabaseType::Production => ledger.production.approve(id, edited_data, now),
        DatabaseType::Test => ledger.test.approve(id, edited_data, now),
    }
}

/// Approves the item `id` at the current time.
pub fn approve_pending_import(
    ledger: &mut Ledger,
    id: i64,
    edited_data: Option<String>,
    test_mode: bool,
) -> (r: AppResult<()>)
    requires
        old(ledger)@.wf(),
    ensures
        exists|now: Seq<char>|
            approval(old(ledger)@, final(ledger)@, r, id, edited_data.deep_view(), test_mode, now),
        final(ledger)@.wf(),
{
    let now = get_current_timestamp();
    approve_pending_import_at(ledger, id, edited_data, test_mode, now.as_str())
}

/// Rejects the item `id`: `NotFound` where there is none, `Validation` where
/// it was already decided; on either the ledger is as it was.
pub fn reject_pending_import(ledger: &mut Ledger, id: i64, test_mode: bool) -> (r: AppResult<()>)
    requires
        old(ledger)@.wf(),
    ensures
        rejection(old(ledger)@, final(ledger)@, r, id, test_mode),
        final(ledger)@.wf(),
{
    match DatabaseType::for_mode(test_mode) {
        DatabaseType::Production => ledger.production.reject(id),
        DatabaseType::Test => ledger.test.reject(id),
    }
}

/// Approves the items `ids` at time `now`, in their order, and stops at the
/// first that fails: the items before it stay approved, those after it are
/// not touched.
pub fn batch_approve_pending_imports_at(
    ledger: &mut Ledger,
    ids: Vec<i64>,
    test_mode: bool,
    now: &str,
) -> (r: AppResult<()>)
    requires
        old(ledger)@.wf(),
    ensures
        batch_approval(old(ledger)@, final(ledger)@, r, ids@, test_mode, now@),
        final(ledger)@.wf(),
{
    match DatabaseType::for_mode(test_mode) {
        DatabaseType::Production => ledger.production.approve_all(&ids, now),
        DatabaseType::Test => ledger.test.approve_all(&ids, now),
    }
}

/// Approves the items `ids` at the current time, in their order, and stops
/// at the first that fails.
pub fn batch_approve_pending_imports(ledger: &mut Ledger, ids: Vec<i64>, test_mode: bool) -> (r:
    AppResult<()>)
    requires
        old(ledger)@.wf(),
    ensures
        exists|now: Seq<char>|
            batch_approval(old(ledger)@, final(ledger)@, r, ids@, test_mode, now),
        final(ledger)@.wf(),
{
    let now = get_current_timestamp();
    batch_approve_pending_imports_at(ledger, ids, test_mode, now.as_str())
}

/// Rejects the items `ids` in their order, and stops at the first that
/// fails: the items before it stay rejected, those after it are not touched.
pub fn batch_reject_pending_imports(ledger: &mut Ledger, ids: Vec<i64>, test_mode: bool) -> (r:
    AppResult<()>)
    requires
        old(ledger)@.wf(),
    ensures
        final(ledger)@ == old(ledger)@.with_store(
            DatabaseType::of_mode(test_mode),
            old(ledger)@.store(DatabaseType::of_mode(test_mode)).rejected_all(ids@).0,
        ),
        match old(ledger)@.store(DatabaseType::of_mode(test_mode)).rejected_all(ids@).1 {
            None => r is Ok,
            Some(k) => r is Err && r->Err_0.spec_kind() == k,
        },
        final(ledger)@.wf(),
{
    match DatabaseType::for_mode(test_mode) {
        DatabaseType::Production => ledger.production.reject_all(&ids),
        DatabaseType::Test => ledger.test.reject_all(&ids),
    }
}

} // verus!
