//! The sync orchestrator: one run over the unseen messages, told as a
//! sequence of steps. Each step takes what the outside world answered to the
//! last request and says what to ask for next, so that the caller only
//! fetches, converts and asks the inference service.

use vstd::prelude::*;
use vstd::string::StringExecFns;
use crate::error::{result_view, AppError, AppErrorView, AppResult, ErrorKind};
use crate::imap::{
    all_fetched_view, message_view, messages_of, messages_view, ImapService, ImapServiceView,
};
use crate::ledger::{Ledger, LedgerView};
use crate::model::{
    copy_text, in_unit_interval, is_unit_interval, AppSettings, AppSettingsView,
    Classification, DatabaseType, EmailContent, EmailContentView, ImportStatus, PendingImport,
    PendingImportView, Receipt, ReceiptView, SyncLog, SyncLogView, SyncStatus,
};
use crate::ollama::{
    extraction_of, prompt_for, LlmExtractionResult, LlmExtractionResultView, OllamaRequest,
    OllamaRequestView, OllamaService, OllamaServiceView,
};
use crate::select::{best_content, choose_content, ContentChoice};
use crate::index::lemma_first_index_is_first;
use crate::store::{sync_log_ids, Store, StoreView};
use crate::text::{contains_ignore_case, test_marker};
use crate::utils::{get_current_timestamp, is_test_email};

verus! {

/// The standard base64 encoding of `data`, with padding.
pub uninterp spec fn base64_standard(data: Seq<u8>) -> Seq<char>;

/// Whether the base64 encoding of `len` bytes has a length that fits in a
/// `usize`.
pub open spec fn base64_fits(len: nat) -> bool {
    len / 3 < usize::MAX / 4
}

/// Calls `encode` of the `base64` crate's `STANDARD` engine. The engine
/// panics where the encoded length overflows, which `requires` leaves out.
/// The contract only names the outcome: the same bytes always encode the
/// same way.
#[verifier::external_body]
pub(crate) fn encode_base64(data: &[u8]) -> (r: String)
    requires
        base64_fits(data@.len()),
    ensures
        r@ == base64_standard(data@),
{
    base64::Engine::encode(&base64::engine::general_purpose::STANDARD, data)
}

/// The store that a message is written to: the test store where the whole
/// run is a test or the subject holds the marker `[test]`.
pub open spec fn routed(test_mode: bool, subject: Seq<char>) -> DatabaseType {
    if test_mode || contains_ignore_case(subject, test_marker()) {
        DatabaseType::Test
    } else {
        DatabaseType::Production
    }
}

/// The store that a message is written to.
pub fn route(test_mode: bool, subject: &str) -> (db: DatabaseType)
    ensures
        db == routed(test_mode, subject@),
{
    if test_mode || is_test_email(subject) {
        DatabaseType::Test
    } else {
        DatabaseType::Production
    }
}

/// The receipt of a message, before it has an identifier: not linked, with
/// the chosen attachment's type and base64 data where one was chosen.
pub open spec fn receipt_of(email: EmailContentView, now: Seq<char>) -> ReceiptView {
    let chosen = best_content(email).attachment;
    ReceiptView {
        id: None,
        subscription_id: None,
        domain_id: None,
        email_subject: Some(email.subject),
        email_from: Some(email.from),
        email_date: email.date,
        file_type: match chosen {
            Some(i) => Some(email.attachments[i].content_type),
            None => None,
        },
        file_data: match chosen {
            Some(i) => Some(base64_standard(email.attachments[i].data)),
            None => None,
        },
        raw_email_body: Some(email.body),
        created_at: now,
    }
}

/// The review item of a message, before it has an identifier.
pub open spec fn import_of(
    email: EmailContentView,
    class: Classification,
    x: LlmExtractionResultView,
    receipt: i64,
    now: Seq<char>,
) -> PendingImportView {
    PendingImportView {
        id: None,
        email_subject: Some(email.subject),
        email_from: email.from,
        email_date: Some(email.date),
        classification: Some(class),
        confidence: Some(x.confidence),
        extracted_data: x.data,
        receipt_id: Some(receipt),
        status: ImportStatus::Pending,
        created_at: now,
    }
}

impl StoreView {
    /// The store after a message and its extraction were written to it, and
    /// the identifier of the review item; on an error the store is as it was.
    ///
    /// - `Validation`: the extraction's class is none of the three, or its
    ///   confidence is not between 0 and 1.
    /// - `Internal`: no identifier is left for the receipt or the review
    ///   item, or the chosen attachment is too long to be encoded.
    ///
    /// Each error says which of these it is.
    pub open spec fn with_message(
        self,
        email: EmailContentView,
        x: LlmExtractionResultView,
        now: Seq<char>,
    ) -> (StoreView, Result<i64, AppErrorView>) {
        let chosen = best_content(email).attachment;
        match Classification::named(x.classification) {
            None => (
                self,
                Err(AppErrorView { kind: ErrorKind::Validation, detail: "Unknown classification"@ }),
            ),
            Some(class) => if !is_unit_interval(x.confidence) {
                (
                    self,
                    Err(
                        AppErrorView {
                            kind: ErrorKind::Validation,
                            detail: "The confidence is not between 0 and 1"@,
                        },
                    ),
                )
            } else if !(self.next_receipt_id < i64::MAX && self.next_pending_import_id
                < i64::MAX) {
                (
                    self,
                    Err(
                        AppErrorView {
                            kind: ErrorKind::Internal,
                            detail: "No identifier is left for a receipt"@,
                        },
                    ),
                )
            } else if chosen is Some && !base64_fits(email.attachments[chosen->0].data.len()) {
                (
                    self,
                    Err(
                        AppErrorView {
                            kind: ErrorKind::Internal,
                            detail: "The attachment is too long to be kept"@,
                        },
                    ),
                )
            } else {
                (
                    self.with_receipt(receipt_of(email, now)).with_pending_import(
                        import_of(email, class, x, self.next_receipt_id, now),
                    ),
                    Ok(self.next_pending_import_id),
                )
            },
        }
    }

    /// The store with a sync run that started at `now`.
    pub open spec fn with_started_log(self, now: Seq<char>) -> StoreView {
        self.with_sync_log(
            SyncLogView {
                id: None,
                sync_started_at: now,
                sync_completed_at: None,
                emails_processed: 0,
                emails_imported: 0,
                status: SyncStatus::Running,
                error_message: None,
                created_at: now,
            },
        )
    }

    /// The store with the sync run `log` closed as completed at `now`, with
    /// its counts. A run that has no row changes nothing.
    pub open spec fn with_completed_log(
        self,
        log: Option<i64>,
        processed: nat,
        imported: nat,
        now: Seq<char>,
    ) -> StoreView {
        match log {
            None => self,
            Some(id) => match self.sync_log_index(id) {
                None => self,
                Some(at) => self.with_sync_log_at(
                    at,
                    SyncLogView {
                        sync_completed_at: Some(now),
                        emails_processed: processed,
                        emails_imported: imported,
                        status: SyncStatus::Completed,
                        ..self.sync_log[at]
                    },
                ),
            },
        }
    }

    /// The store with the sync run `log` closed as failed, with the reason
    /// and zero counts. A run that has no row changes nothing.
    pub open spec fn with_failed_log(self, log: Option<i64>, why: Seq<char>) -> StoreView {
        match log {
            None => self,
            Some(id) => match self.sync_log_index(id) {
                None => self,
                Some(at) => self.with_sync_log_at(
                    at,
                    SyncLogView {
                        emails_processed: 0,
                        emails_imported: 0,
                        status: SyncStatus::Failed,
                        error_message: Some(why),
                        ..self.sync_log[at]
                    },
                ),
            },
        }
    }
}

impl Store {
    /// Writes a message and its extraction: the receipt, then the review
    /// item that points to it, both or neither.
    pub fn add_message(
        &mut self,
        email: &EmailContent,
        extraction: LlmExtractionResult,
        now: &str,
    ) -> (r: AppResult<i64>)
        requires
            old(self)@.wf(),
        ensures
            final(self)@ == old(self)@.with_message(email@, extraction@, now@).0,
            result_view(r) == old(self)@.with_message(email@, extraction@, now@).1,
            final(self)@.wf(),
    {
        let class = match Classification::parse(extraction.classification.as_str()) {
            Some(class) => class,
            None => {
                return Err(AppError::Validation(String::from_str("Unknown classification")));
            },
        };
        if !in_unit_interval(extraction.confidence) {
            return Err(
                AppError::Validation(String::from_str("The confidence is not between 0 and 1")),
            );
        }
        if !(self.has_receipt_room() && self.has_pending_import_room()) {
            return Err(AppError::Internal(String::from_str("No identifier is left for a receipt")));
        }
        let choice = choose_content(email);
        let mut file_type: Option<String> = None;
        let mut file_data: Option<String> = None;
        if let Some(i) = choice.attachment {
            let attachment = &email.attachments[i];
            assert(attachment@ == email@.attachments[i as int]);
            if !(attachment.data.len() / 3 < usize::MAX / 4) {
                return Err(
                    AppError::Internal(String::from_str("The attachment is too long to be kept")),
                );
            }
            file_type = Some(attachment.content_type.clone());
            file_data = Some(encode_base64(attachment.data.as_slice()));
        }
        let receipt = Receipt {
            id: None,
            subscription_id: None,
            domain_id: None,
            email_subject: Some(email.subject.clone()),
            email_from: Some(email.from.clone()),
            email_date: email.date.clone(),
            file_type,
            file_data,
            raw_email_body: Some(email.body.clone()),
            created_at: String::from_str(now),
        };
        assert(receipt@ == receipt_of(email@, now@));
        let receipt_id = self.insert_receipt(receipt);
        let item = PendingImport {
            id: None,
            email_subject: Some(email.subject.clone()),
            email_from: email.from.clone(),
            email_date: Some(email.date.clone()),
            classification: Some(class),
            confidence: Some(extraction.confidence),
            extracted_data: extraction.data,
            receipt_id: Some(receipt_id),
            status: ImportStatus::Pending,
            created_at: String::from_str(now),
        };
        Ok(self.insert_pending_import(item))
    }

    /// Adds a sync run that starts at `now`, and returns its identifier.
    pub(crate) fn start_log(&mut self, now: &str) -> (id: i64)
        requires
            old(self)@.wf(),
            old(self)@.next_sync_log_id < i64::MAX,
        ensures
            final(self)@ == old(self)@.with_started_log(now@),
            id == old(self)@.next_sync_log_id,
            final(self)@.wf(),
    {
        self.insert_sync_log(
            SyncLog {
                id: None,
                sync_started_at: String::from_str(now),
                sync_completed_at: None,
                emails_processed: 0,
                emails_imported: 0,
                status: SyncStatus::Running,
                error_message: None,
                created_at: String::from_str(now),
            },
        )
    }

    /// Closes the sync run `log` as completed at `now`, with its counts.
    pub(crate) fn complete_log(
        &mut self,
        log: Option<i64>,
        processed: u64,
        imported: u64,
        now: &str,
    )
        requires
            old(self)@.wf(),
        ensures
            final(self)@ == old(self)@.with_completed_log(
                log,
                processed as nat,
                imported as nat,
                now@,
            ),
            final(self)@.wf(),
    {
        if let Some(id) = log {
            if let Some(at) = self.find_sync_log(id) {
                let row = self.sync_log_at(at);
                let closed = SyncLog {
                    id: row.id,
                    sync_started_at: row.sync_started_at.clone(),
                    sync_completed_at: Some(String::from_str(now)),
                    emails_processed: processed,
                    emails_imported: imported,
                    status: SyncStatus::Completed,
                    error_message: copy_text(&row.error_message),
                    created_at: row.created_at.clone(),
                };
                self.replace_sync_log(at, closed);
            }
        }
    }

    /// Closes the sync run `log` as failed, with the reason.
    pub(crate) fn fail_log(&mut self, log: Option<i64>, why: &str)
        requires
            old(self)@.wf(),
        ensures
            final(self)@ == old(self)@.with_failed_log(log, why@),
            final(self)@.wf(),
    {
        if let Some(id) = log {
            if let Some(at) = self.find_sync_log(id) {
                let row = self.sync_log_at(at);
                let closed = SyncLog {
                    id: row.id,
                    sync_started_at: row.sync_started_at.clone(),
                    sync_completed_at: copy_text(&row.sync_completed_at),
                    emails_processed: 0,
                    emails_imported: 0,
                    status: SyncStatus::Failed,
                    error_message: Some(String::from_str(why)),
                    created_at: row.created_at.clone(),
                };
                self.replace_sync_log(at, closed);
            }
        }
    }
}

/// How one message of a run ended.
#[derive(Clone, Debug, PartialEq, Eq)]
pub enum ItemOutcome {
    /// Written as the review item with this identifier.
    Imported(i64),
    /// Given up for this reason; the run went on.
    Failed(AppError),
}

pub enum ItemOutcomeView {
    Imported(i64),
    Failed(AppErrorView),
}

/// The outcome of a message that was given up for an error of class `kind`
/// that says `detail`.
pub open spec fn failed(kind: ErrorKind, detail: Seq<char>) -> ItemOutcomeView {
    ItemOutcomeView::Failed(AppErrorView { kind, detail })
}

impl View for ItemOutcome {
    type V = ItemOutcomeView;

    open spec fn view(&self) -> ItemOutcomeView {
        match self {
            ItemOutcome::Imported(id) => ItemOutcomeView::Imported(*id),
            ItemOutcome::Failed(e) => ItemOutcomeView::Failed(e@),
        }
    }
}

pub open spec fn outcomes_view(outcomes: Seq<ItemOutcome>) -> Seq<ItemOutcomeView> {
    Seq::new(outcomes.len(), |i: int| outcomes[i]@)
}

/// The outcome of a message that was written, or not.
pub open spec fn outcome_of(written: Result<i64, AppErrorView>) -> ItemOutcomeView {
    match written {
        Ok(id) => ItemOutcomeView::Imported(id),
        Err(e) => ItemOutcomeView::Failed(e),
    }
}

/// How many of the outcomes are imports.
pub open spec fn imported_count(outcomes: Seq<ItemOutcomeView>) -> nat
    decreases outcomes.len(),
{
    if outcomes.len() == 0 {
        0
    } else if outcomes.last() is Imported {
        imported_count(outcomes.drop_last()) + 1
    } else {
        imported_count(outcomes.drop_last())
    }
}

/// What a run reports when it ends.
#[derive(Clone, Debug, PartialEq, Eq)]
pub struct RunSummary {
    /// The run did nothing, because it is not configured.
    pub skipped: bool,
    pub status: SyncStatus,
    pub processed: u64,
    pub imported: u64,
    pub error_message: Option<String>,
}

pub struct RunSummaryView {
    pub skipped: bool,
    pub status: SyncStatus,
    pub processed: nat,
    pub imported: nat,
    pub error_message: Option<Seq<char>>,
}

impl View for RunSummary {
    type V = RunSummaryView;

    open spec fn view(&self) -> RunSummaryView {
        RunSummaryView {
            skipped: self.skipped,
            status: self.status,
            processed: self.processed as nat,
            imported: self.imported as nat,
            error_message: self.error_message.deep_view(),
        }
    }
}

/// The report of a run that went through its messages with these outcomes:
/// completed, every message processed, the imports counted.
pub open spec fn summary_of(outcomes: Seq<ItemOutcomeView>) -> RunSummaryView {
    RunSummaryView {
        skipped: false,
        status: SyncStatus::Completed,
        processed: outcomes.len(),
        imported: imported_count(outcomes),
        error_message: None,
    }
}

/// The report of a run that did nothing, because it is not configured.
pub open spec fn summary_skipped() -> RunSummaryView {
    RunSummaryView {
        skipped: true,
        status: SyncStatus::Completed,
        processed: 0,
        imported: 0,
        error_message: None,
    }
}

/// The report of a run that could not list the unseen messages.
pub open spec fn summary_failed(why: Seq<char>) -> RunSummaryView {
    RunSummaryView {
        skipped: false,
        status: SyncStatus::Failed,
        processed: 0,
        imported: 0,
        error_message: Some(why),
    }
}

/// What a run asks its caller to do next.
#[derive(Clone, Debug, PartialEq, Eq)]
pub enum SyncAction {
    /// Log in, select the inbox, and fetch every unseen message.
    FetchMail(ImapService),
    /// Turn `data` into text; `extension` hints at what it is.
    Convert { data: Vec<u8>, extension: String },
    /// Send the request to the inference service.
    Generate(OllamaRequest),
    /// Nothing more: the run has ended with this report.
    Done(RunSummary),
    /// Nothing: the event was not the answer to what the run asked for.
    Ignored,
}

pub enum SyncActionView {
    FetchMail(ImapServiceView),
    Convert { data: Seq<u8>, extension: Seq<char> },
    Generate(OllamaRequestView),
    Done(RunSummaryView),
    Ignored,
}

impl View for SyncAction {
    type V = SyncActionView;

    open spec fn view(&self) -> SyncActionView {
        match self {
            SyncAction::FetchMail(mail) => SyncActionView::FetchMail(mail@),
            SyncAction::Convert { data, extension } => SyncActionView::Convert {
                data: data@,
                extension: extension@,
            },
            SyncAction::Generate(request) => SyncActionView::Generate(request@),
            SyncAction::Done(summary) => SyncActionView::Done(summary@),
            SyncAction::Ignored => SyncActionView::Ignored,
        }
    }
}

/// What the outside world answered to a request of the run.
#[derive(Debug, PartialEq, Eq)]
pub enum SyncEvent {
    /// The unseen messages, each as its bytes or as the reason why it could
    /// not be fetched; or the reason why they could not be listed at all.
    MailFetched(Result<Vec<Result<Vec<u8>, String>>, String>),
    /// The text of the converted content, or why conversion failed.
    Converted(Result<String, String>),
    /// The text that the inference service generated, or why it did not.
    Generated(Result<String, String>),
}

pub enum SyncEventView {
    MailFetched(Result<Seq<Result<Seq<u8>, Seq<char>>>, Seq<char>>),
    Converted(Result<Seq<char>, Seq<char>>),
    Generated(Result<Seq<char>, Seq<char>>),
}

pub open spec fn text_result_view(r: Result<String, String>) -> Result<Seq<char>, Seq<char>> {
    match r {
        Ok(text) => Ok(text@),
        Err(why) => Err(why@),
    }
}

impl View for SyncEvent {
    type V = SyncEventView;

    open spec fn view(&self) -> SyncEventView {
        match self {
            SyncEvent::MailFetched(Ok(fetched)) => SyncEventView::MailFetched(
                Ok(all_fetched_view(fetched@)),
            ),
            SyncEvent::MailFetched(Err(why)) => SyncEventView::MailFetched(Err(why@)),
            SyncEvent::Converted(r) => SyncEventView::Converted(text_result_view(*r)),
            SyncEvent::Generated(r) => SyncEventView::Generated(text_result_view(*r)),
        }
    }
}

/// What a run is waiting for.
#[derive(Clone, Copy, Debug, PartialEq, Eq, Structural)]
pub enum SyncPhase {
    AwaitingMail,
    AwaitingConversion,
    AwaitingGeneration,
    Finished,
}

/// The state of one run.
pub struct SyncRunView {
    pub test_mode: bool,
    /// The run's row in the sync log, where it has one.
    pub log: Option<i64>,
    pub mail: ImapServiceView,
    pub service: OllamaServiceView,
    pub phase: SyncPhase,
    /// The unseen messages, decomposed, each or the reason why it is not.
    pub messages: Seq<Result<EmailContentView, AppErrorView>>,
    /// The outcomes of the messages that are done, in the messages' order.
    pub outcomes: Seq<ItemOutcomeView>,
}

impl SyncRunView {
    /// While the run waits for a conversion or a generation, the message at
    /// hand is the one after those that are done, and it was decomposed.
    pub open spec fn wf(self) -> bool {
        &&& self.outcomes.len() <= self.messages.len()
        &&& self.phase == SyncPhase::AwaitingMail ==> self.messages.len() == 0
        &&& (self.phase == SyncPhase::AwaitingConversion || self.phase
            == SyncPhase::AwaitingGeneration) ==> self.outcomes.len() < self.messages.len()
            && self.messages[self.outcomes.len() as int] is Ok
    }

    /// The run with the message at hand done.
    pub open spec fn with_outcome(self, outcome: ItemOutcomeView) -> SyncRunView {
        SyncRunView { outcomes: self.outcomes.push(outcome), ..self }
    }

    /// The end of a run that went through its messages: its row in the sync
    /// log of its store is closed as completed, with the counts, and the
    /// caller is handed the report.
    pub open spec fn finished(self, ledger: LedgerView, now: Seq<char>) -> (
        SyncRunView,
        LedgerView,
        SyncActionView,
    ) {
        let summary = summary_of(self.outcomes);
        let db = DatabaseType::of_mode(self.test_mode);
        (
            SyncRunView { phase: SyncPhase::Finished, ..self },
            ledger.with_store(
                db,
                ledger.store(db).with_completed_log(
                    self.log,
                    summary.processed,
                    summary.imported,
                    now,
                ),
            ),
            SyncActionView::Done(summary),
        )
    }

    /// Moves on to the next message: one that was not decomposed is done at
    /// once, as failed; the first that was decomposed is handed to the
    /// converter; where none is left the run ends.
    pub open spec fn advanced(self, ledger: LedgerView, now: Seq<char>) -> (
        SyncRunView,
        LedgerView,
        SyncActionView,
    )
        decreases self.messages.len() - self.outcomes.len(),
    {
        let at = self.outcomes.len() as int;
        if at >= self.messages.len() {
            self.finished(ledger, now)
        } else {
            match self.messages[at] {
                Err(e) => self.with_outcome(ItemOutcomeView::Failed(e)).advanced(ledger, now),
                Ok(email) => (
                    SyncRunView { phase: SyncPhase::AwaitingConversion, ..self },
                    ledger,
                    SyncActionView::Convert {
                        data: best_content(email).data,
                        extension: best_content(email).extension,
                    },
                ),
            }
        }
    }

    /// What a step does: the state after it, the ledger after it, and what
    /// the caller is asked to do next.
    ///
    /// - Waiting for mail: a listing that failed ends the run as failed, its
    ///   row closed with the reason; a listing that came is decomposed
    ///   message by message, and the run moves on to the first.
    /// - Waiting for a conversion: one that failed is the outcome of the
    ///   message at hand, with the reason that was given, and the run moves
    ///   on; one that came is put into the
    ///   prompt, and the caller is asked to send it.
    /// - Waiting for a generation: one that failed, or that holds no
    ///   extraction, is the outcome of the message at hand; else the message
    ///   is written to the store it is routed to, which may fail too. In
    ///   every case the run moves on.
    /// - Any other event is ignored.
    pub open spec fn stepped(self, ledger: LedgerView, event: SyncEventView, now: Seq<char>) -> (
        SyncRunView,
        LedgerView,
        SyncActionView,
    ) {
        let db = DatabaseType::of_mode(self.test_mode);
        let at = self.outcomes.len() as int;
        match (self.phase, event) {
            (SyncPhase::AwaitingMail, SyncEventView::MailFetched(Err(why))) => (
                SyncRunView { phase: SyncPhase::Finished, ..self },
                ledger.with_store(db, ledger.store(db).with_failed_log(self.log, why)),
                SyncActionView::Done(summary_failed(why)),
            ),
            (SyncPhase::AwaitingMail, SyncEventView::MailFetched(Ok(fetched))) => (SyncRunView {
                messages: messages_of(fetched),
                outcomes: Seq::empty(),
                ..self
            }).advanced(ledger, now),
            (SyncPhase::AwaitingConversion, SyncEventView::Converted(Err(why))) => self.with_outcome(
                failed(ErrorKind::Conversion, why),
            ).advanced(ledger, now),
            (SyncPhase::AwaitingConversion, SyncEventView::Converted(Ok(markdown))) => (
                SyncRunView { phase: SyncPhase::AwaitingGeneration, ..self },
                ledger,
                SyncActionView::Generate(self.service.request(prompt_for(markdown))),
            ),
            (SyncPhase::AwaitingGeneration, SyncEventView::Generated(Err(why))) => self.with_outcome(
                failed(ErrorKind::Extraction, why),
            ).advanced(ledger, now),
            (SyncPhase::AwaitingGeneration, SyncEventView::Generated(Ok(answer))) => {
                match extraction_of(answer) {
                    Err(e) => self.with_outcome(ItemOutcomeView::Failed(e)).advanced(ledger, now),
                    Ok(x) => {
                        let email = self.messages[at]->Ok_0;
                        let target = routed(self.test_mode, email.subject);
                        let written = ledger.store(target).with_message(email, x, now);
                        self.with_outcome(outcome_of(written.1)).advanced(
                            ledger.with_store(target, written.0),
                            now,
                        )
                    },
                }
            },
            _ => (self, ledger, SyncActionView::Ignored),
        }
    }
}

/// The port that a setting stands for: itself where it is one, 0 where it
/// is below 0 or above 65535.
pub open spec fn port_of(setting: i32) -> u16 {
    if 0 <= setting <= 65535 {
        setting as u16
    } else {
        0
    }
}

/// The connection that the settings and the password describe.
pub open spec fn mail_of(settings: AppSettingsView, password: Seq<char>) -> ImapServiceView {
    ImapServiceView {
        server: settings.imap_server,
        port: port_of(settings.imap_port),
        username: settings.imap_username,
        password: password,
        use_ssl: settings.imap_use_ssl,
    }
}

/// Whether the settings and the password suffice for a run: the mail
/// server, the user name, the password and the address of the inference
/// service are given, and the port is one.
pub open spec fn is_configured(settings: AppSettingsView, password: Seq<char>) -> bool {
    &&& settings.imap_server.len() > 0
    &&& settings.imap_username.len() > 0
    &&& password.len() > 0
    &&& settings.ollama_endpoint.len() > 0
    &&& 0 <= settings.imap_port <= 65535
}

/// What starting a run does: the state after it, the ledger after it, and
/// what the caller is asked to do first.
///
/// Where the mail server, the user name, the password or the address of
/// the inference service is empty, or the port is none, the run ends at once
/// as skipped and writes nothing. Where no identifier is left
/// for its row in the sync log, it ends at once as failed. Else its row is
/// added to the sync log of its store, as running, and the caller is asked to
/// fetch the unseen messages.
pub open spec fn begun(
    ledger: LedgerView,
    settings: AppSettingsView,
    password: Seq<char>,
    test_mode: bool,
    now: Seq<char>,
) -> (SyncRunView, LedgerView, SyncActionView) {
    let db = DatabaseType::of_mode(test_mode);
    let idle = SyncRunView {
        test_mode: test_mode,
        log: None,
        mail: mail_of(settings, password),
        service: OllamaServiceView {
            endpoint: settings.ollama_endpoint,
            model: settings.ollama_model,
        },
        phase: SyncPhase::Finished,
        messages: Seq::empty(),
        outcomes: Seq::empty(),
    };
    if !is_configured(settings, password) {
        (idle, ledger, SyncActionView::Done(summary_skipped()))
    } else if !(ledger.store(db).next_sync_log_id < i64::MAX) {
        (
            idle,
            ledger,
            SyncActionView::Done(summary_failed("No identifier is left for a sync run"@)),
        )
    } else {
        (
            SyncRunView {
                log: Some(ledger.store(db).next_sync_log_id),
                phase: SyncPhase::AwaitingMail,
                ..idle
            },
            ledger.with_store(db, ledger.store(db).with_started_log(now)),
            SyncActionView::FetchMail(mail_of(settings, password)),
        )
    }
}

/// Where every message but one was imported, the imports are one fewer than
/// the messages.
pub proof fn lemma_one_failure_count(outcomes: Seq<ItemOutcomeView>, failed_at: int)
    requires
        0 <= failed_at < outcomes.len(),
        outcomes[failed_at] is Failed,
        forall|i: int| 0 <= i < outcomes.len() && i != failed_at ==> outcomes[i] is Imported,
    ensures
        imported_count(outcomes) == outcomes.len() - 1,
    decreases outcomes.len(),
{
    let rest = outcomes.drop_last();
    if failed_at == outcomes.len() - 1 {
        lemma_all_imported_count(rest);
    } else {
        lemma_one_failure_count(rest, failed_at);
    }
}

/// Where every message was imported, the imports are as many as the
/// messages.
pub proof fn lemma_all_imported_count(outcomes: Seq<ItemOutcomeView>)
    requires
        forall|i: int| 0 <= i < outcomes.len() ==> outcomes[i] is Imported,
    ensures
        imported_count(outcomes) == outcomes.len(),
    decreases outcomes.len(),
{
    if outcomes.len() > 0 {
        lemma_all_imported_count(outcomes.drop_last());
    }
}

impl SyncRunView {
    /// Moving on keeps the messages and the outcomes so far, adds only
    /// failures of messages that were not decomposed, and either asks for a
    /// conversion or ends the run as completed, with every message processed.
    pub proof fn lemma_advanced(self, ledger: LedgerView, now: Seq<char>)
        requires
            self.outcomes.len() <= self.messages.len(),
        ensures
            ({
                let (run, after, action) = self.advanced(ledger, now);
                &&& run.wf()
                &&& run.messages == self.messages
                &&& run.test_mode == self.test_mode
                &&& run.log == self.log
                &&& self.outcomes.len() <= run.outcomes.len() <= run.messages.len()
                &&& run.outcomes.subrange(0, self.outcomes.len() as int) == self.outcomes
                &&& forall|i: int|
                    self.outcomes.len() <= i < run.outcomes.len() ==> run.outcomes[i] is Failed
                &&& after.production.pending_imports == ledger.production.pending_imports
                &&& after.production.receipts == ledger.production.receipts
                &&& after.test.pending_imports == ledger.test.pending_imports
                &&& after.test.receipts == ledger.test.receipts
                &&& imported_count(run.outcomes) == imported_count(self.outcomes)
                &&& match action {
                    SyncActionView::Done(summary) => run.phase == SyncPhase::Finished
                        && run.outcomes.len() == run.messages.len() && summary == summary_of(
                        run.outcomes,
                    ) && after == ledger.with_store(
                        DatabaseType::of_mode(self.test_mode),
                        ledger.store(DatabaseType::of_mode(self.test_mode)).with_completed_log(
                            self.log,
                            run.messages.len(),
                            imported_count(run.outcomes),
                            now,
                        ),
                    ),
                    SyncActionView::Convert { .. } => run.phase == SyncPhase::AwaitingConversion
                        && after == ledger,
                    _ => false,
                }
            }),
        decreases self.messages.len() - self.outcomes.len(),
    {
        let at = self.outcomes.len() as int;
        if at >= self.messages.len() {
            assert(self.outcomes.subrange(0, at) =~= self.outcomes);
        } else {
            match self.messages[at] {
                Err(e) => {
                    let next = self.with_outcome(ItemOutcomeView::Failed(e));
                    assert(next.outcomes.drop_last() =~= self.outcomes);
                    next.lemma_advanced(ledger, now);
                    let (run, after, action) = next.advanced(ledger, now);
                    assert(run.outcomes.subrange(0, at) =~= next.outcomes.subrange(
                        0,
                        at + 1,
                    ).subrange(0, at));
                    assert(next.outcomes.subrange(0, at) =~= self.outcomes);
                    assert forall|i: int| at <= i < run.outcomes.len() implies run.outcomes[i]
                        is Failed by {
                        if i == at {
                            assert(run.outcomes.subrange(0, at + 1)[at] == next.outcomes[at]);
                        }
                    }
                },
                Ok(email) => {
                    assert(self.outcomes.subrange(0, at) =~= self.outcomes);
                },
            }
        }
    }

    /// A step leaves the run well formed. Once the messages are listed, a
    /// step keeps them and the outcomes so far: it can only add outcomes.
    pub proof fn lemma_stepped(self, ledger: LedgerView, event: SyncEventView, now: Seq<char>)
        requires
            self.wf(),
        ensures
            ({
                let (run, after, action) = self.stepped(ledger, event, now);
                &&& run.wf()
                &&& run.test_mode == self.test_mode
                &&& run.log == self.log
                &&& self.phase != SyncPhase::AwaitingMail ==> run.messages == self.messages
                    && self.outcomes.len() <= run.outcomes.len() && run.outcomes.subrange(
                    0,
                    self.outcomes.len() as int,
                ) == self.outcomes
                &&& action is Ignored ==> run == self && after == ledger
            }),
    {
        let at = self.outcomes.len() as int;
        match (self.phase, event) {
            (SyncPhase::AwaitingMail, SyncEventView::MailFetched(Ok(fetched))) => {
                (SyncRunView {
                    messages: messages_of(fetched),
                    outcomes: Seq::empty(),
                    ..self
                }).lemma_advanced(ledger, now);
            },
            (SyncPhase::AwaitingConversion, SyncEventView::Converted(Err(why))) => {
                let next = self.with_outcome(failed(ErrorKind::Conversion, why));
                next.lemma_advanced(ledger, now);
                let run = next.advanced(ledger, now).0;
                assert(run.outcomes.subrange(0, at) =~= run.outcomes.subrange(0, at + 1).subrange(
                    0,
                    at,
                ));
                assert(next.outcomes.subrange(0, at) =~= self.outcomes);
            },
            (SyncPhase::AwaitingConversion, SyncEventView::Converted(Ok(_))) => {
                assert(self.outcomes.subrange(0, at) =~= self.outcomes);
            },
            (SyncPhase::AwaitingGeneration, SyncEventView::Generated(Err(why))) => {
                let next = self.with_outcome(failed(ErrorKind::Extraction, why));
                next.lemma_advanced(ledger, now);
                let run = next.advanced(ledger, now).0;
                assert(run.outcomes.subrange(0, at) =~= run.outcomes.subrange(0, at + 1).subrange(
                    0,
                    at,
                ));
                assert(next.outcomes.subrange(0, at) =~= self.outcomes);
            },
            (SyncPhase::AwaitingGeneration, SyncEventView::Generated(Ok(answer))) => {
                let (next, written) = match extraction_of(answer) {
                    Err(e) => (self.with_outcome(ItemOutcomeView::Failed(e)), ledger),
                    Ok(x) => {
                        let email = self.messages[at]->Ok_0;
                        let target = routed(self.test_mode, email.subject);
                        let written = ledger.store(target).with_message(email, x, now);
                        (
                            self.with_outcome(outcome_of(written.1)),
                            ledger.with_store(target, written.0),
                        )
                    },
                };
                next.lemma_advanced(written, now);
                let run = next.advanced(written, now).0;
                assert(run.outcomes.subrange(0, at) =~= run.outcomes.subrange(0, at + 1).subrange(
                    0,
                    at,
                ));
                assert(next.outcomes.subrange(0, at) =~= self.outcomes);
            },
            _ => {
                assert(self.outcomes.subrange(0, at) =~= self.outcomes);
            },
        }
    }

    /// A run that lists its messages never ends as failed afterwards: the
    /// step that ends it reports it completed, with every message processed
    /// and the imports counted, whatever failed on the way.
    pub proof fn lemma_run_ends_completed(
        self,
        ledger: LedgerView,
        event: SyncEventView,
        now: Seq<char>,
    )
        requires
            self.wf(),
            self.stepped(ledger, event, now).2 is Done,
            !(self.phase == SyncPhase::AwaitingMail && event is MailFetched
                && event->MailFetched_0 is Err),
        ensures
            ({
                let (run, after, action) = self.stepped(ledger, event, now);
                let summary = action->Done_0;
                &&& run.phase == SyncPhase::Finished
                &&& run.outcomes.len() == run.messages.len()
                &&& summary == summary_of(run.outcomes)
                &&& summary.status == SyncStatus::Completed
                &&& !summary.skipped
                &&& summary.processed == run.messages.len()
                &&& summary.imported == imported_count(run.outcomes)
            }),
    {
        let at = self.outcomes.len() as int;
        match (self.phase, event) {
            (SyncPhase::AwaitingMail, SyncEventView::MailFetched(Ok(fetched))) => {
                (SyncRunView {
                    messages: messages_of(fetched),
                    outcomes: Seq::empty(),
                    ..self
                }).lemma_advanced(ledger, now);
            },
            (SyncPhase::AwaitingConversion, SyncEventView::Converted(Err(why))) => {
                self.with_outcome(failed(ErrorKind::Conversion, why)).lemma_advanced(ledger, now);
            },
            (SyncPhase::AwaitingGeneration, SyncEventView::Generated(Err(why))) => {
                self.with_outcome(failed(ErrorKind::Extraction, why)).lemma_advanced(ledger, now);
            },
            (SyncPhase::AwaitingGeneration, SyncEventView::Generated(Ok(answer))) => {
                match extraction_of(answer) {
                    Err(e) => {
                        self.with_outcome(ItemOutcomeView::Failed(e)).lemma_advanced(ledger, now);
                    },
                    Ok(x) => {
                        let email = self.messages[at]->Ok_0;
                        let target = routed(self.test_mode, email.subject);
                        let written = ledger.store(target).with_message(email, x, now);
                        self.with_outcome(outcome_of(written.1)).lemma_advanced(
                            ledger.with_store(target, written.0),
                            now,
                        );
                    },
                }
            },
            _ => {},
        }
    }

    /// A run in which exactly one of the messages failed, at whatever stage,
    /// reports every message as processed, all but one as imported, and
    /// itself as completed.
    pub proof fn lemma_one_message_fails(
        self,
        ledger: LedgerView,
        event: SyncEventView,
        now: Seq<char>,
        failed_at: int,
    )
        requires
            self.wf(),
            self.stepped(ledger, event, now).2 is Done,
            !(self.phase == SyncPhase::AwaitingMail && event is MailFetched
                && event->MailFetched_0 is Err),
            0 <= failed_at < self.stepped(ledger, event, now).0.outcomes.len(),
            self.stepped(ledger, event, now).0.outcomes[failed_at] is Failed,
            forall|i: int|
                0 <= i < self.stepped(ledger, event, now).0.outcomes.len() && i != failed_at
                    ==> self.stepped(ledger, event, now).0.outcomes[i] is Imported,
        ensures
            ({
                let (run, after, action) = self.stepped(ledger, event, now);
                let summary = action->Done_0;
                &&& summary.status == SyncStatus::Completed
                &&& summary.processed == run.messages.len()
                &&& summary.imported == run.messages.len() - 1
            }),
    {
        self.lemma_run_ends_completed(ledger, event, now);
        lemma_one_failure_count(self.stepped(ledger, event, now).0.outcomes, failed_at);
    }

    /// A failed conversion fails only the message at hand: it is recorded as
    /// that message's outcome, with the reason that was given, nothing is
    /// written, and the run goes on with the messages after it.
    pub proof fn lemma_conversion_failure_is_isolated(
        self,
        ledger: LedgerView,
        why: Seq<char>,
        now: Seq<char>,
    )
        requires
            self.wf(),
            self.phase == SyncPhase::AwaitingConversion,
        ensures
            ({
                let (run, after, action) = self.stepped(
                    ledger,
                    SyncEventView::Converted(Err(why)),
                    now,
                );
                let at = self.outcomes.len() as int;
                &&& run.wf()
                &&& run.messages == self.messages
                &&& run.outcomes.len() > at
                &&& run.outcomes[at] == failed(ErrorKind::Conversion, why)
                &&& run.outcomes.subrange(0, at) == self.outcomes
                &&& after.production.pending_imports == ledger.production.pending_imports
                &&& after.production.receipts == ledger.production.receipts
                &&& after.test.pending_imports == ledger.test.pending_imports
                &&& after.test.receipts == ledger.test.receipts
                &&& action is Done ==> action->Done_0.status == SyncStatus::Completed
            }),
    {
        let at = self.outcomes.len() as int;
        let next = self.with_outcome(failed(ErrorKind::Conversion, why));
        next.lemma_advanced(ledger, now);
        let (run, after, action) = next.advanced(ledger, now);
        assert(run.outcomes.subrange(0, at + 1)[at] == next.outcomes[at]);
        assert(run.outcomes.subrange(0, at) =~= run.outcomes.subrange(0, at + 1).subrange(0, at));
        assert(next.outcomes.subrange(0, at) =~= self.outcomes);
    }

    /// A message whose extraction is read and written is recorded as
    /// imported, under the identifier of its review item, and its receipt
    /// and review item are in the store that the message is routed to.
    pub proof fn lemma_import_is_recorded(
        self,
        ledger: LedgerView,
        answer: Seq<char>,
        now: Seq<char>,
    )
        requires
            self.wf(),
            self.phase == SyncPhase::AwaitingGeneration,
            extraction_of(answer) is Ok,
            ({
                let email = self.messages[self.outcomes.len() as int]->Ok_0;
                ledger.store(routed(self.test_mode, email.subject)).with_message(
                    email,
                    extraction_of(answer)->Ok_0,
                    now,
                ).1 is Ok
            }),
        ensures
            ({
                let at = self.outcomes.len() as int;
                let email = self.messages[at]->Ok_0;
                let target = routed(self.test_mode, email.subject);
                let written = ledger.store(target).with_message(
                    email,
                    extraction_of(answer)->Ok_0,
                    now,
                );
                let (run, after, action) = self.stepped(
                    ledger,
                    SyncEventView::Generated(Ok(answer)),
                    now,
                );
                &&& run.outcomes.len() > at
                &&& run.outcomes[at] == ItemOutcomeView::Imported(written.1->Ok_0)
                &&& after.store(target).receipts == written.0.receipts
                &&& after.store(target).pending_imports == written.0.pending_imports
                &&& written.0.receipts.len() == ledger.store(target).receipts.len() + 1
                &&& written.0.pending_imports.len() == ledger.store(target).pending_imports.len()
                    + 1
                &&& written.0.pending_imports.last().receipt_id == written.0.receipts.last().id
                &&& written.0.pending_imports.last().status == ImportStatus::Pending
            }),
    {
        let at = self.outcomes.len() as int;
        let email = self.messages[at]->Ok_0;
        let target = routed(self.test_mode, email.subject);
        let written = ledger.store(target).with_message(email, extraction_of(answer)->Ok_0, now);
        let next = self.with_outcome(outcome_of(written.1));
        let between = ledger.with_store(target, written.0);
        next.lemma_advanced(between, now);
        let run = next.advanced(between, now).0;
        assert(run.outcomes.subrange(0, at + 1)[at] == next.outcomes[at]);
    }

    /// A run that cannot list the unseen messages, as when the login is
    /// refused, ends as failed with nothing processed and nothing imported;
    /// its row in the sync log says so, with the reason, and no receipt or
    /// review item is written.
    pub proof fn lemma_failed_listing(self, ledger: LedgerView, why: Seq<char>, now: Seq<char>)
        requires
            self.phase == SyncPhase::AwaitingMail,
        ensures
            ({
                let (run, after, action) = self.stepped(
                    ledger,
                    SyncEventView::MailFetched(Err(why)),
                    now,
                );
                let db = DatabaseType::of_mode(self.test_mode);
                &&& run.phase == SyncPhase::Finished
                &&& action == SyncActionView::Done(summary_failed(why))
                &&& action->Done_0.status == SyncStatus::Failed
                &&& action->Done_0.processed == 0
                &&& action->Done_0.imported == 0
                &&& action->Done_0.error_message == Some(why)
                &&& after.store(db).pending_imports == ledger.store(db).pending_imports
                &&& after.store(db).receipts == ledger.store(db).receipts
                &&& after.store(db).sync_log.len() == ledger.store(db).sync_log.len()
                &&& (self.log is Some && ledger.store(db).sync_log_index(self.log->0) is Some) ==> {
                    let row = after.store(db).sync_log[ledger.store(db).sync_log_index(
                        self.log->0,
                    )->0];
                    &&& row.status == SyncStatus::Failed
                    &&& row.emails_processed == 0
                    &&& row.emails_imported == 0
                    &&& row.error_message == Some(why)
                }
            }),
    {
        let db = DatabaseType::of_mode(self.test_mode);
        if self.log is Some {
            lemma_first_index_is_first(sync_log_ids(ledger.store(db).sync_log), Some(self.log->0));
        }
    }
}

/// How many receipts the two stores hold together.
pub open spec fn total_receipts(ledger: LedgerView) -> nat {
    ledger.production.receipts.len() + ledger.test.receipts.len()
}

/// How many review items the two stores hold together.
pub open spec fn total_imports(ledger: LedgerView) -> nat {
    ledger.production.pending_imports.len() + ledger.test.pending_imports.len()
}

/// Whether the rows `j` and `k` of a store are the review item `id` of the
/// message `email` and its receipt: the item is pending, both carry the
/// message's subject, sender and date, and the item points to the receipt.
pub open spec fn is_import_of(
    store: StoreView,
    email: EmailContentView,
    id: i64,
    j: int,
    k: int,
) -> bool {
    &&& 0 <= j < store.pending_imports.len()
    &&& 0 <= k < store.receipts.len()
    &&& store.pending_imports[j].id == Some(id)
    &&& store.pending_imports[j].status == ImportStatus::Pending
    &&& store.pending_imports[j].email_subject == Some(email.subject)
    &&& store.pending_imports[j].email_from == email.from
    &&& store.pending_imports[j].email_date == Some(email.date)
    &&& store.pending_imports[j].receipt_id == store.receipts[k].id
    &&& store.receipts[k].id is Some
    &&& store.receipts[k].email_subject == Some(email.subject)
    &&& store.receipts[k].email_from == Some(email.from)
    &&& store.receipts[k].email_date == email.date
    &&& store.receipts[k].raw_email_body == Some(email.body)
}

/// Whether a store holds the review item `id` of the message `email`, with
/// its receipt.
pub open spec fn holds_import(store: StoreView, email: EmailContentView, id: i64) -> bool {
    exists|j: int, k: int| #[trigger] is_import_of(store, email, id, j, k)
}

/// Whether `after` holds every receipt and review item of `before`, at its
/// place and as it was.
pub open spec fn keeps_rows(before: StoreView, after: StoreView) -> bool {
    &&& before.receipts.len() <= after.receipts.len()
    &&& before.pending_imports.len() <= after.pending_imports.len()
    &&& forall|k: int| 0 <= k < before.receipts.len() ==> after.receipts[k] == before.receipts[k]
    &&& forall|j: int|
        0 <= j < before.pending_imports.len() ==> after.pending_imports[j]
            == before.pending_imports[j]
}

/// An import that a store holds is held by every store that keeps its rows.
pub proof fn lemma_import_is_kept(
    before: StoreView,
    after: StoreView,
    email: EmailContentView,
    id: i64,
)
    requires
        holds_import(before, email, id),
        keeps_rows(before, after),
    ensures
        holds_import(after, email, id),
{
    let (j, k) = choose|j: int, k: int| #[trigger] is_import_of(before, email, id, j, k);
    assert(is_import_of(after, email, id, j, k));
}

/// Writing a message keeps the rows of the store, and where it succeeds the
/// store holds the message's import.
pub proof fn lemma_with_message(
    store: StoreView,
    email: EmailContentView,
    x: LlmExtractionResultView,
    now: Seq<char>,
)
    ensures
        keeps_rows(store, store.with_message(email, x, now).0),
        store.with_message(email, x, now).1 is Ok ==> holds_import(
            store.with_message(email, x, now).0,
            email,
            store.with_message(email, x, now).1->Ok_0,
        ),
{
    let (after, written) = store.with_message(email, x, now);
    if written is Ok {
        assert(is_import_of(
            after,
            email,
            written->Ok_0,
            store.pending_imports.len() as int,
            store.receipts.len() as int,
        ));
    }
}

impl SyncRunView {
    /// Whether the ledger holds the import of every message that the run
    /// has imported, in the store that the message is routed to.
    pub open spec fn imports_kept(self, ledger: LedgerView) -> bool {
        forall|i: int|
            0 <= i < self.outcomes.len() && (#[trigger] self.outcomes[i]) is Imported ==> i
                < self.messages.len() && self.messages[i] is Ok && holds_import(
                ledger.store(routed(self.test_mode, self.messages[i]->Ok_0.subject)),
                self.messages[i]->Ok_0,
                self.outcomes[i]->Imported_0,
            )
    }

    /// Moving on keeps the imports.
    proof fn lemma_advanced_keeps_imports(self, ledger: LedgerView, now: Seq<char>)
        requires
            self.outcomes.len() <= self.messages.len(),
            self.imports_kept(ledger),
        ensures
            self.advanced(ledger, now).0.imports_kept(self.advanced(ledger, now).1),
    {
        self.lemma_advanced(ledger, now);
        let (run, after, action) = self.advanced(ledger, now);
        assert forall|i: int|
            0 <= i < run.outcomes.len() && (#[trigger] run.outcomes[i]) is Imported implies i
                < run.messages.len() && run.messages[i] is Ok && holds_import(
                after.store(routed(run.test_mode, run.messages[i]->Ok_0.subject)),
                run.messages[i]->Ok_0,
                run.outcomes[i]->Imported_0,
            ) by {
            assert(i < self.outcomes.len());
            assert(run.outcomes.subrange(0, self.outcomes.len() as int)[i] == run.outcomes[i]);
            assert(self.outcomes[i] is Imported);
            let target = routed(self.test_mode, self.messages[i]->Ok_0.subject);
            lemma_import_is_kept(
                ledger.store(target),
                after.store(target),
                self.messages[i]->Ok_0,
                self.outcomes[i]->Imported_0,
            );
        }
    }

    /// A step keeps the imports, and adds the import of the message at hand
    /// where it writes it.
    pub proof fn lemma_step_keeps_imports(
        self,
        ledger: LedgerView,
        event: SyncEventView,
        now: Seq<char>,
    )
        requires
            self.wf(),
            self.imports_kept(ledger),
        ensures
            self.stepped(ledger, event, now).0.imports_kept(self.stepped(ledger, event, now).1),
    {
        let at = self.outcomes.len() as int;
        match (self.phase, event) {
            (SyncPhase::AwaitingMail, SyncEventView::MailFetched(Ok(fetched))) => {
                (SyncRunView {
                    messages: messages_of(fetched),
                    outcomes: Seq::empty(),
                    ..self
                }).lemma_advanced_keeps_imports(ledger, now);
            },
            (SyncPhase::AwaitingConversion, SyncEventView::Converted(Err(why))) => {
                self.with_outcome(failed(ErrorKind::Conversion, why)).lemma_advanced_keeps_imports(
                    ledger,
                    now,
                );
            },
            (SyncPhase::AwaitingGeneration, SyncEventView::Generated(Err(why))) => {
                self.with_outcome(failed(ErrorKind::Extraction, why)).lemma_advanced_keeps_imports(
                    ledger,
                    now,
                );
            },
            (SyncPhase::AwaitingGeneration, SyncEventView::Generated(Ok(answer))) => {
                match extraction_of(answer) {
                    Err(e) => {
                        self.with_outcome(ItemOutcomeView::Failed(e)).lemma_advanced_keeps_imports(
                            ledger,
                            now,
                        );
                    },
                    Ok(x) => {
                        let email = self.messages[at]->Ok_0;
                        let target = routed(self.test_mode, email.subject);
                        let written = ledger.store(target).with_message(email, x, now);
                        let next = self.with_outcome(outcome_of(written.1));
                        let between = ledger.with_store(target, written.0);
                        lemma_with_message(ledger.store(target), email, x, now);
                        assert forall|i: int|
                            0 <= i < next.outcomes.len() && (#[trigger] next.outcomes[i])
                                is Imported implies i < next.messages.len() && next.messages[i]
                                is Ok && holds_import(
                                between.store(
                                    routed(next.test_mode, next.messages[i]->Ok_0.subject),
                                ),
                                next.messages[i]->Ok_0,
                                next.outcomes[i]->Imported_0,
                            ) by {
                            if i < at {
                                assert(self.outcomes[i] is Imported);
                                let other = routed(self.test_mode, self.messages[i]->Ok_0.subject);
                                if other == target {
                                    lemma_import_is_kept(
                                        ledger.store(other),
                                        between.store(other),
                                        self.messages[i]->Ok_0,
                                        self.outcomes[i]->Imported_0,
                                    );
                                }
                            }
                        }
                        next.lemma_advanced_keeps_imports(between, now);
                    },
                }
            },
            _ => {},
        }
    }

    /// Any sequence of events keeps the imports.
    pub proof fn lemma_ran_keeps_imports(
        self,
        ledger: LedgerView,
        events: Seq<SyncEventView>,
        times: Seq<Seq<char>>,
    )
        requires
            self.wf(),
            self.imports_kept(ledger),
        ensures
            self.ran(ledger, events, times).0.imports_kept(self.ran(ledger, events, times).1),
        decreases events.len(),
    {
        if events.len() > 0 && times.len() > 0 {
            self.lemma_stepped(ledger, events[0], times[0]);
            self.lemma_step_keeps_imports(ledger, events[0], times[0]);
            let next = self.stepped(ledger, events[0], times[0]);
            next.0.lemma_ran_keeps_imports(next.1, events.drop_first(), times.drop_first());
        }
    }

    /// After any sequence of answers, the ledger holds, for every message
    /// that a run has imported, the message's review item, pending, and its
    /// receipt: both with the message's subject, sender and date, the item
    /// pointing to the receipt, in the store that the message is routed to.
    pub proof fn lemma_whole_run_imports(
        self,
        ledger: LedgerView,
        events: Seq<SyncEventView>,
        times: Seq<Seq<char>>,
    )
        requires
            self.wf(),
            self.phase == SyncPhase::AwaitingMail,
        ensures
            self.ran(ledger, events, times).0.imports_kept(self.ran(ledger, events, times).1),
    {
        self.lemma_ran_keeps_imports(ledger, events, times);
    }

    /// The run and the ledger after a sequence of events, each answered at
    /// its own time.
    pub open spec fn ran(
        self,
        ledger: LedgerView,
        events: Seq<SyncEventView>,
        times: Seq<Seq<char>>,
    ) -> (SyncRunView, LedgerView)
        decreases events.len(),
    {
        if events.len() == 0 || times.len() == 0 {
            (self, ledger)
        } else {
            let next = self.stepped(ledger, events[0], times[0]);
            next.0.ran(next.1, events.drop_first(), times.drop_first())
        }
    }

    /// What holds of a run from the listing of its messages on, against the
    /// ledger `start` that it began with: it goes through `messages`; every
    /// import so far, and nothing else, has added one receipt and one review
    /// item; the sync log is untouched until the run ends, and then differs
    /// from the start in the run's own row, closed as completed with the
    /// number of the messages and of the imports.
    pub open spec fn on_course(
        self,
        start: LedgerView,
        ledger: LedgerView,
        messages: Seq<Result<EmailContentView, AppErrorView>>,
    ) -> bool {
        let db = DatabaseType::of_mode(self.test_mode);
        &&& self.wf()
        &&& self.phase != SyncPhase::AwaitingMail
        &&& self.messages == messages
        &&& total_receipts(ledger) == total_receipts(start) + imported_count(self.outcomes)
        &&& total_imports(ledger) == total_imports(start) + imported_count(self.outcomes)
        &&& self.phase != SyncPhase::Finished ==> ledger.store(db).sync_log == start.store(
            db,
        ).sync_log
        &&& self.phase == SyncPhase::Finished ==> self.outcomes.len() == messages.len()
            && exists|now: Seq<char>|
            ledger.store(db).sync_log == (#[trigger] start.store(db).with_completed_log(
                self.log,
                messages.len(),
                imported_count(self.outcomes),
                now,
            )).sync_log
    }

    /// Moving on keeps a run on course.
    proof fn lemma_advanced_on_course(
        self,
        start: LedgerView,
        ledger: LedgerView,
        now: Seq<char>,
    )
        requires
            self.outcomes.len() <= self.messages.len(),
            total_receipts(ledger) == total_receipts(start) + imported_count(self.outcomes),
            total_imports(ledger) == total_imports(start) + imported_count(self.outcomes),
            ledger.store(DatabaseType::of_mode(self.test_mode)).sync_log == start.store(
                DatabaseType::of_mode(self.test_mode),
            ).sync_log,
        ensures
            self.advanced(ledger, now).0.on_course(
                start,
                self.advanced(ledger, now).1,
                self.messages,
            ),
    {
        self.lemma_advanced(ledger, now);
        let db = DatabaseType::of_mode(self.test_mode);
        let (run, after, action) = self.advanced(ledger, now);
        if action is Done {
            assert(after.store(db).sync_log == start.store(db).with_completed_log(
                self.log,
                run.messages.len(),
                imported_count(run.outcomes),
                now,
            ).sync_log);
        }
    }

    /// A step keeps a run on course.
    pub proof fn lemma_step_on_course(
        self,
        start: LedgerView,
        ledger: LedgerView,
        event: SyncEventView,
        now: Seq<char>,
    )
        requires
            self.on_course(start, ledger, self.messages),
        ensures
            self.stepped(ledger, event, now).0.on_course(
                start,
                self.stepped(ledger, event, now).1,
                self.messages,
            ),
    {
        let at = self.outcomes.len() as int;
        match (self.phase, event) {
            (SyncPhase::AwaitingConversion, SyncEventView::Converted(Err(why))) => {
                let next = self.with_outcome(failed(ErrorKind::Conversion, why));
                assert(next.outcomes.drop_last() =~= self.outcomes);
                next.lemma_advanced_on_course(start, ledger, now);
            },
            (SyncPhase::AwaitingConversion, SyncEventView::Converted(Ok(_))) => {},
            (SyncPhase::AwaitingGeneration, SyncEventView::Generated(Err(why))) => {
                let next = self.with_outcome(failed(ErrorKind::Extraction, why));
                assert(next.outcomes.drop_last() =~= self.outcomes);
                next.lemma_advanced_on_course(start, ledger, now);
            },
            (SyncPhase::AwaitingGeneration, SyncEventView::Generated(Ok(answer))) => {
                match extraction_of(answer) {
                    Err(e) => {
                        let next = self.with_outcome(ItemOutcomeView::Failed(e));
                        assert(next.outcomes.drop_last() =~= self.outcomes);
                        next.lemma_advanced_on_course(start, ledger, now);
                    },
                    Ok(x) => {
                        let email = self.messages[at]->Ok_0;
                        let target = routed(self.test_mode, email.subject);
                        let written = ledger.store(target).with_message(email, x, now);
                        let next = self.with_outcome(outcome_of(written.1));
                        assert(next.outcomes.drop_last() =~= self.outcomes);
                        next.lemma_advanced_on_course(
                            start,
                            ledger.with_store(target, written.0),
                            now,
                        );
                    },
                }
            },
            _ => {},
        }
    }

    /// Any sequence of events keeps a run on course.
    pub proof fn lemma_ran_on_course(
        self,
        start: LedgerView,
        ledger: LedgerView,
        events: Seq<SyncEventView>,
        times: Seq<Seq<char>>,
    )
        requires
            self.on_course(start, ledger, self.messages),
        ensures
            self.ran(ledger, events, times).0.on_course(
                start,
                self.ran(ledger, events, times).1,
                self.messages,
            ),
        decreases events.len(),
    {
        if events.len() > 0 && times.len() > 0 {
            self.lemma_step_on_course(start, ledger, events[0], times[0]);
            let next = self.stepped(ledger, events[0], times[0]);
            next.0.lemma_ran_on_course(start, next.1, events.drop_first(), times.drop_first());
        }
    }

    /// A whole run, from the listing of `fetched` messages through any
    /// sequence of answers: it adds one receipt and one review item for each
    /// message that is imported, and none for any other. Where it has ended,
    /// every message has its outcome, and the run's row in the sync log is
    /// closed as completed, with the time, the number of the messages as
    /// processed, the number of the imports as imported, and no error.
    pub proof fn lemma_whole_run(
        self,
        ledger: LedgerView,
        fetched: Seq<Result<Seq<u8>, Seq<char>>>,
        events: Seq<SyncEventView>,
        times: Seq<Seq<char>>,
    )
        requires
            self.wf(),
            self.phase == SyncPhase::AwaitingMail,
            events.len() > 0,
            times.len() > 0,
            events[0] == SyncEventView::MailFetched(Ok(fetched)),
        ensures
            ({
                let (run, after) = self.ran(ledger, events, times);
                let db = DatabaseType::of_mode(self.test_mode);
                &&& run.messages == messages_of(fetched)
                &&& run.outcomes.len() <= fetched.len()
                &&& total_receipts(after) == total_receipts(ledger) + imported_count(run.outcomes)
                &&& total_imports(after) == total_imports(ledger) + imported_count(run.outcomes)
                &&& run.phase == SyncPhase::Finished ==> {
                    &&& run.outcomes.len() == fetched.len()
                    &&& after.store(db).sync_log.len() == ledger.store(db).sync_log.len()
                    &&& (self.log is Some && ledger.store(db).sync_log_index(self.log->0)
                        is Some) ==> {
                        let at = ledger.store(db).sync_log_index(self.log->0)->0;
                        let row = after.store(db).sync_log[at];
                        &&& row.id == self.log
                        &&& row.status == SyncStatus::Completed
                        &&& row.emails_processed == fetched.len()
                        &&& row.emails_imported == imported_count(run.outcomes)
                        &&& row.sync_completed_at is Some
                        &&& row.error_message == ledger.store(db).sync_log[at].error_message
                        &&& row.sync_started_at == ledger.store(db).sync_log[at].sync_started_at
                    }
                }
            }),
    {
        let db = DatabaseType::of_mode(self.test_mode);
        let listed = SyncRunView { messages: messages_of(fetched), outcomes: Seq::empty(), ..self };
        assert(imported_count(listed.outcomes) == 0);
        listed.lemma_advanced(ledger, times[0]);
        listed.lemma_advanced_on_course(ledger, ledger, times[0]);
        let first = self.stepped(ledger, events[0], times[0]);
        assert(first == listed.advanced(ledger, times[0]));
        assert(first.0.messages == messages_of(fetched));
        first.0.lemma_ran_on_course(ledger, first.1, events.drop_first(), times.drop_first());
        let (run, after) = self.ran(ledger, events, times);
        assert((run, after) == first.0.ran(first.1, events.drop_first(), times.drop_first()));
        assert(run.on_course(ledger, after, messages_of(fetched)));
        assert(run.test_mode == self.test_mode && run.log == self.log) by {
            self.lemma_ran_keeps(ledger, events, times);
        }
        if run.phase == SyncPhase::Finished {
            let now = choose|now: Seq<char>|
                after.store(db).sync_log == (#[trigger] ledger.store(db).with_completed_log(
                    run.log,
                    messages_of(fetched).len(),
                    imported_count(run.outcomes),
                    now,
                )).sync_log;
            if self.log is Some {
                lemma_first_index_is_first(
                    sync_log_ids(ledger.store(db).sync_log),
                    Some(self.log->0),
                );
            }
        }
    }

    /// No sequence of events changes the store that a run logs to, or the
    /// row that it logs in.
    pub proof fn lemma_ran_keeps(
        self,
        ledger: LedgerView,
        events: Seq<SyncEventView>,
        times: Seq<Seq<char>>,
    )
        requires
            self.wf(),
        ensures
            self.ran(ledger, events, times).0.wf(),
            self.ran(ledger, events, times).0.test_mode == self.test_mode,
            self.ran(ledger, events, times).0.log == self.log,
        decreases events.len(),
    {
        if events.len() > 0 && times.len() > 0 {
            self.lemma_stepped(ledger, events[0], times[0]);
            let next = self.stepped(ledger, events[0], times[0]);
            next.0.lemma_ran_keeps(next.1, events.drop_first(), times.drop_first());
        }
    }

    /// A whole run in which exactly one message fails, at whatever stage:
    /// where it has ended, its row in the sync log says completed, all
    /// messages processed and all but one imported, and the stores hold one
    /// new receipt and one new review item for each message but that one.
    pub proof fn lemma_whole_run_with_one_failure(
        self,
        ledger: LedgerView,
        fetched: Seq<Result<Seq<u8>, Seq<char>>>,
        events: Seq<SyncEventView>,
        times: Seq<Seq<char>>,
        failed_at: int,
    )
        requires
            self.wf(),
            self.phase == SyncPhase::AwaitingMail,
            events.len() > 0,
            times.len() > 0,
            events[0] == SyncEventView::MailFetched(Ok(fetched)),
            self.log is Some,
            ledger.store(DatabaseType::of_mode(self.test_mode)).sync_log_index(self.log->0)
                is Some,
            self.ran(ledger, events, times).0.phase == SyncPhase::Finished,
            0 <= failed_at < fetched.len(),
            self.ran(ledger, events, times).0.outcomes[failed_at] is Failed,
            forall|i: int|
                0 <= i < fetched.len() && i != failed_at ==> self.ran(
                    ledger,
                    events,
                    times,
                ).0.outcomes[i] is Imported,
        ensures
            ({
                let (run, after) = self.ran(ledger, events, times);
                let db = DatabaseType::of_mode(self.test_mode);
                let row = after.store(db).sync_log[ledger.store(db).sync_log_index(
                    self.log->0,
                )->0];
                &&& row.status == SyncStatus::Completed
                &&& row.emails_processed == fetched.len()
                &&& row.emails_imported == fetched.len() - 1
                &&& row.sync_completed_at is Some
                &&& total_receipts(after) == total_receipts(ledger) + fetched.len() - 1
                &&& total_imports(after) == total_imports(ledger) + fetched.len() - 1
            }),
    {
        self.lemma_whole_run(ledger, fetched, events, times);
        lemma_one_failure_count(self.ran(ledger, events, times).0.outcomes, failed_at);
    }
}

/// One run over the unseen messages.
#[derive(Debug, PartialEq, Eq)]
pub struct SyncRun {
    test_mode: bool,
    log: Option<i64>,
    mail: ImapService,
    service: OllamaService,
    phase: SyncPhase,
    messages: Vec<Result<EmailContent, AppError>>,
    outcomes: Vec<ItemOutcome>,
}

impl View for SyncRun {
    type V = SyncRunView;

    closed spec fn view(&self) -> SyncRunView {
        SyncRunView {
            test_mode: self.test_mode,
            log: self.log,
            mail: self.mail@,
            service: self.service@,
            phase: self.phase,
            messages: messages_view(self.messages@),
            outcomes: outcomes_view(self.outcomes@),
        }
    }
}

/// How many of the outcomes are imports.
pub fn count_imported(outcomes: &Vec<ItemOutcome>) -> (n: u64)
    ensures
        n == imported_count(outcomes_view(outcomes@)),
        n <= outcomes.len(),
{
    let ghost all = outcomes_view(outcomes@);
    let mut n: u64 = 0;
    let mut i: usize = 0;
    while i < outcomes.len()
        invariant
            i <= outcomes.len(),
            all == outcomes_view(outcomes@),
            n == imported_count(all.subrange(0, i as int)),
            n <= i,
        decreases outcomes.len() - i,
    {
        let ghost upto = all.subrange(0, i + 1);
        assert(upto.last() == outcomes@[i as int]@);
        assert(upto.drop_last() =~= all.subrange(0, i as int));
        match &outcomes[i] {
            ItemOutcome::Imported(_) => {
                n = n + 1;
            },
            ItemOutcome::Failed(_) => {},
        }
        i += 1;
    }
    assert(all.subrange(0, i as int) =~= all);
    n
}

impl SyncRun {
    pub fn test_mode(&self) -> (r: bool)
        ensures
            r == self@.test_mode,
    {
        self.test_mode
    }

    /// The identifier of the run's row in the sync log, where it has one.
    pub fn log_id(&self) -> (r: Option<i64>)
        ensures
            r == self@.log,
    {
        self.log
    }

    pub fn phase(&self) -> (r: SyncPhase)
        ensures
            r == self@.phase,
    {
        self.phase
    }

    /// The outcomes of the messages that are done, in the messages' order.
    pub fn outcomes(&self) -> (r: &Vec<ItemOutcome>)
        ensures
            outcomes_view(r@) == self@.outcomes,
    {
        &self.outcomes
    }

    /// Ends a run that went through its messages.
    fn finish(&mut self, ledger: &mut Ledger, now: &str) -> (action: SyncAction)
        requires
            old(ledger)@.wf(),
        ensures
            (final(self)@, final(ledger)@, action@) == old(self)@.finished(old(ledger)@, now@),
            final(ledger)@.wf(),
    {
        let processed = self.outcomes.len() as u64;
        let imported = count_imported(&self.outcomes);
        match DatabaseType::for_mode(self.test_mode) {
            DatabaseType::Production => ledger.production.complete_log(
                self.log,
                processed,
                imported,
                now,
            ),
            DatabaseType::Test => ledger.test.complete_log(self.log, processed, imported, now),
        }
        self.phase = SyncPhase::Finished;
        SyncAction::Done(
            RunSummary {
                skipped: false,
                status: SyncStatus::Completed,
                processed,
                imported,
                error_message: None,
            },
        )
    }

    /// Moves on to the next message.
    fn advance(&mut self, ledger: &mut Ledger, now: &str) -> (action: SyncAction)
        requires
            old(self)@.outcomes.len() <= old(self)@.messages.len(),
            old(ledger)@.wf(),
        ensures
            (final(self)@, final(ledger)@, action@) == old(self)@.advanced(old(ledger)@, now@),
            final(self)@.wf(),
            final(ledger)@.wf(),
    {
        loop
            invariant
                self@.outcomes.len() <= self@.messages.len(),
                ledger@ == old(ledger)@,
                ledger@.wf(),
                self@.advanced(ledger@, now@) == old(self)@.advanced(old(ledger)@, now@),
            decreases self@.messages.len() - self@.outcomes.len(),
        {
            let at = self.outcomes.len();
            if at >= self.messages.len() {
                return self.finish(ledger, now);
            }
            match &self.messages[at] {
                Err(e) => {
                    let ghost before = self@;
                    let failure = AppError::new(e.kind(), e.message());
                    self.outcomes.push(ItemOutcome::Failed(failure));
                    assert(self@.outcomes =~= before.outcomes.push(ItemOutcomeView::Failed(failure@)));
                    assert(self@ == before.with_outcome(ItemOutcomeView::Failed(e@)));
                },
                Ok(email) => {
                    let choice = choose_content(email);
                    self.phase = SyncPhase::AwaitingConversion;
                    return SyncAction::Convert { data: choice.data, extension: choice.extension };
                },
            }
        }
    }

    /// The message at hand.
    fn current(&self) -> (email: &EmailContent)
        requires
            self@.outcomes.len() < self@.messages.len(),
            self@.messages[self@.outcomes.len() as int] is Ok,
        ensures
            email@ == self@.messages[self@.outcomes.len() as int]->Ok_0,
    {
        let at = self.outcomes.len();
        assert(message_view(self.messages@[at as int]) is Ok);
        match &self.messages[at] {
            Ok(email) => email,
            Err(_) => vstd::pervasive::unreached(),
        }
    }

    /// Records the outcome of the message at hand.
    fn record(&mut self, outcome: ItemOutcome)
        ensures
            final(self)@ == old(self)@.with_outcome(outcome@),
    {
        self.outcomes.push(outcome);
        assert(self@.outcomes =~= old(self)@.outcomes.push(outcome@));
    }

    /// Takes what the outside world answered to the last request, at time
    /// `now`, and says what to ask for next.
    pub fn step_at(&mut self, ledger: &mut Ledger, event: SyncEvent, now: &str) -> (action:
        SyncAction)
        requires
            old(self)@.wf(),
            old(ledger)@.wf(),
        ensures
            (final(self)@, final(ledger)@, action@) == old(self)@.stepped(
                old(ledger)@,
                event@,
                now@,
            ),
            final(self)@.wf(),
            final(ledger)@.wf(),
    {
        match (self.phase, event) {
            (SyncPhase::AwaitingMail, SyncEvent::MailFetched(Err(why))) => {
                match DatabaseType::for_mode(self.test_mode) {
                    DatabaseType::Production => ledger.production.fail_log(self.log, why.as_str()),
                    DatabaseType::Test => ledger.test.fail_log(self.log, why.as_str()),
                }
                self.phase = SyncPhase::Finished;
                SyncAction::Done(
                    RunSummary {
                        skipped: false,
                        status: SyncStatus::Failed,
                        processed: 0,
                        imported: 0,
                        error_message: Some(why),
                    },
                )
            },
            (SyncPhase::AwaitingMail, SyncEvent::MailFetched(Ok(fetched))) => {
                self.messages = self.mail.collect_messages(&fetched);
                self.outcomes = Vec::new();
                assert(self@.outcomes =~= Seq::<ItemOutcomeView>::empty());
                self.advance(ledger, now)
            },
            (SyncPhase::AwaitingConversion, SyncEvent::Converted(Err(why))) => {
                self.record(ItemOutcome::Failed(AppError::Conversion(why)));
                self.advance(ledger, now)
            },
            (SyncPhase::AwaitingConversion, SyncEvent::Converted(Ok(markdown))) => {
                let prompt = OllamaService::build_prompt(markdown.as_str());
                self.phase = SyncPhase::AwaitingGeneration;
                SyncAction::Generate(self.service.request(prompt))
            },
            (SyncPhase::AwaitingGeneration, SyncEvent::Generated(Err(why))) => {
                self.record(ItemOutcome::Failed(AppError::Extraction(why)));
                self.advance(ledger, now)
            },
            (SyncPhase::AwaitingGeneration, SyncEvent::Generated(Ok(answer))) => {
                match OllamaService::extract_receipt_data(answer.as_str()) {
                    Err(e) => {
                        self.record(ItemOutcome::Failed(e));
                        self.advance(ledger, now)
                    },
                    Ok(extraction) => {
                        let written = SyncService::process_email(
                            ledger,
                            self.current(),
                            extraction,
                            self.test_mode,
                            now,
                        );
                        let outcome = match written {
                            Ok(id) => ItemOutcome::Imported(id),
                            Err(e) => ItemOutcome::Failed(e),
                        };
                        self.record(outcome);
                        self.advance(ledger, now)
                    },
                }
            },
            _ => SyncAction::Ignored,
        }
    }

    /// Takes what the outside world answered to the last request, at the
    /// current time, and says what to ask for next.
    pub fn step(&mut self, ledger: &mut Ledger, event: SyncEvent) -> (action: SyncAction)
        requires
            old(self)@.wf(),
            old(ledger)@.wf(),
        ensures
            exists|now: Seq<char>|
                (final(self)@, final(ledger)@, action@) == #[trigger] old(self)@.stepped(
                    old(ledger)@,
                    event@,
                    now,
                ),
            final(self)@.wf(),
            final(ledger)@.wf(),
    {
        let now = get_current_timestamp();
        self.step_at(ledger, event, now.as_str())
    }
}

/// The entry points of a sync run.
pub struct SyncService;

impl SyncService {
    /// Picks what is handed to the converter for `email`.
    pub fn extract_best_content(email: &EmailContent) -> (choice: ContentChoice)
        ensures
            choice@ == best_content(email@),
            choice.attachment is Some ==> choice.attachment->0 < email.attachments.len(),
    {
        choose_content(email)
    }

    /// Writes one message and its extraction, at time `now`, to the store
    /// that the message is routed to: the receipt and the review item that
    /// points to it, both or neither. Returns the review item's identifier.
    pub fn process_email(
        ledger: &mut Ledger,
        email: &EmailContent,
        extraction: LlmExtractionResult,
        test_mode: bool,
        now: &str,
    ) -> (r: AppResult<i64>)
        requires
            old(ledger)@.wf(),
        ensures
            ({
                let target = routed(test_mode, email@.subject);
                let written = old(ledger)@.store(target).with_message(email@, extraction@, now@);
                &&& final(ledger)@ == old(ledger)@.with_store(target, written.0)
                &&& result_view(r) == written.1
            }),
            final(ledger)@.wf(),
    {
        match route(test_mode, email.subject.as_str()) {
            DatabaseType::Production => ledger.production.add_message(email, extraction, now),
            DatabaseType::Test => ledger.test.add_message(email, extraction, now),
        }
    }

    /// Starts a run at time `now`.
    pub fn run_sync_at(
        ledger: &mut Ledger,
        settings: &AppSettings,
        password: &str,
        test_mode: bool,
        now: &str,
    ) -> (r: (SyncRun, SyncAction))
        requires
            old(ledger)@.wf(),
        ensures
            (r.0@, final(ledger)@, r.1@) == begun(
                old(ledger)@,
                settings@,
                password@,
                test_mode,
                now@,
            ),
            r.0@.wf(),
            final(ledger)@.wf(),
    {
        let port_given = 0 <= settings.imap_port && settings.imap_port <= 65535;
        let port: u16 = if port_given {
            settings.imap_port as u16
        } else {
            0
        };
        let mail = ImapService::new(
            settings.imap_server.clone(),
            port,
            settings.imap_username.clone(),
            String::from_str(password),
            settings.imap_use_ssl,
        );
        let service = OllamaService::new(
            settings.ollama_endpoint.clone(),
            settings.ollama_model.clone(),
        );
        let mut run = SyncRun {
            test_mode,
            log: None,
            mail,
            service,
            phase: SyncPhase::Finished,
            messages: Vec::new(),
            outcomes: Vec::new(),
        };
        assert(run@.messages =~= Seq::empty());
        assert(run@.outcomes =~= Seq::empty());
        if settings.imap_server.as_str().is_empty() || settings.imap_username.as_str().is_empty()
            || password.is_empty() || settings.ollama_endpoint.as_str().is_empty() || !port_given {
            let summary = RunSummary {
                skipped: true,
                status: SyncStatus::Completed,
                processed: 0,
                imported: 0,
                error_message: None,
            };
            return (run, SyncAction::Done(summary));
        }
        let room = match DatabaseType::for_mode(test_mode) {
            DatabaseType::Production => ledger.production.has_sync_log_room(),
            DatabaseType::Test => ledger.test.has_sync_log_room(),
        };
        if !room {
            let summary = RunSummary {
                skipped: false,
                status: SyncStatus::Failed,
                processed: 0,
                imported: 0,
                error_message: Some(String::from_str("No identifier is left for a sync run")),
            };
            return (run, SyncAction::Done(summary));
        }
        let id = match DatabaseType::for_mode(test_mode) {
            DatabaseType::Production => ledger.production.start_log(now),
            DatabaseType::Test => ledger.test.start_log(now),
        };
        run.log = Some(id);
        run.phase = SyncPhase::AwaitingMail;
        let first = SyncAction::FetchMail(run.mail.copy());
        (run, first)
    }

    /// Starts a run at the current time.
    pub fn run_sync(
        ledger: &mut Ledger,
        settings: &AppSettings,
        password: &str,
        test_mode: bool,
    ) -> (r: (SyncRun, SyncAction))
        requires
            old(ledger)@.wf(),
        ensures
            exists|now: Seq<char>|
                (r.0@, final(ledger)@, r.1@) == #[trigger] begun(
                    old(ledger)@,
                    settings@,
                    password@,
                    test_mode,
                    now,
                ),
            r.0@.wf(),
            final(ledger)@.wf(),
    {
        let now = get_current_timestamp();
        SyncService::run_sync_at(ledger, settings, password, test_mode, now.as_str())
    }
}

} // verus!
