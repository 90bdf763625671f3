//! The records of the ledger and of the review queue, each with its view.
//!
//! Amounts and confidences are carried as the bits of an IEEE-754 double
//! (`u64`), so that they pass through unchanged.

use vstd::prelude::*;
use crate::text::same_text;

verus! {

/// Which of the two stores an operation works on.
#[derive(Clone, Copy, Debug, PartialEq, Eq, Structural)]
pub enum DatabaseType {
    Production,
    Test,
}

/// The category that extraction gave a message.
#[derive(Clone, Copy, Debug, PartialEq, Eq, Structural)]
pub enum Classification {
    Subscription,
    Domain,
    Junk,
}

/// Where a review item stands: `Pending` moves once, to one of the others.
#[derive(Clone, Copy, Debug, PartialEq, Eq, Structural)]
pub enum ImportStatus {
    Pending,
    Approved,
    Rejected,
}

/// How a sync run stands or ended.
#[derive(Clone, Copy, Debug, PartialEq, Eq, Structural)]
pub enum SyncStatus {
    Running,
    Completed,
    Failed,
}

/// How often a subscription is billed.
#[derive(Clone, Copy, Debug, PartialEq, Eq, Structural)]
pub enum BillingCycle {
    Monthly,
    Yearly,
    OneTime,
}

#[derive(Clone, Copy, Debug, PartialEq, Eq, Structural)]
pub enum SubscriptionStatus {
    Active,
    Paused,
    Cancelled,
}

#[derive(Clone, Copy, Debug, PartialEq, Eq, Structural)]
pub enum DomainStatus {
    Active,
    Expired,
    PendingRenewal,
}

impl Classification {
    pub open spec fn spec_name(self) -> Seq<char> {
        match self {
            Classification::Subscription => "subscription"@,
            Classification::Domain => "domain"@,
            Classification::Junk => "junk"@,
        }
    }

    /// The classification that `s` names, if any.
    pub open spec fn named(s: Seq<char>) -> Option<Classification> {
        if s == "subscription"@ {
            Some(Classification::Subscription)
        } else if s == "domain"@ {
            Some(Classification::Domain)
        } else if s == "junk"@ {
            Some(Classification::Junk)
        } else {
            None
        }
    }

    pub fn name(&self) -> (r: &'static str)
        ensures
            r@ == self.spec_name(),
    {
        match self {
            Classification::Subscription => "subscription",
            Classification::Domain => "domain",
            Classification::Junk => "junk",
        }
    }

    /// Reads one of `subscription`, `domain`, `junk`.
    pub fn parse(s: &str) -> (r: Option<Classification>)
        ensures
            r == Classification::named(s@),
    {
        if same_text(s, "subscription") {
            Some(Classification::Subscription)
        } else if same_text(s, "domain") {
            Some(Classification::Domain)
        } else if same_text(s, "junk") {
            Some(Classification::Junk)
        } else {
            None
        }
    }
}

impl ImportStatus {
    pub open spec fn spec_name(self) -> Seq<char> {
        match self {
            ImportStatus::Pending => "pending"@,
            ImportStatus::Approved => "approved"@,
            ImportStatus::Rejected => "rejected"@,
        }
    }

    pub open spec fn named(s: Seq<char>) -> Option<ImportStatus> {
        if s == "pending"@ {
            Some(ImportStatus::Pending)
        } else if s == "approved"@ {
            Some(ImportStatus::Approved)
        } else if s == "rejected"@ {
            Some(ImportStatus::Rejected)
        } else {
            None
        }
    }

    pub fn name(&self) -> (r: &'static str)
        ensures
            r@ == self.spec_name(),
    {
        match self {
            ImportStatus::Pending => "pending",
            ImportStatus::Approved => "approved",
            ImportStatus::Rejected => "rejected",
        }
    }

    /// Reads one of `pending`, `approved`, `rejected`.
    pub fn parse(s: &str) -> (r: Option<ImportStatus>)
        ensures
            r == ImportStatus::named(s@),
    {
        if same_text(s, "pending") {
            Some(ImportStatus::Pending)
        } else if same_text(s, "approved") {
            Some(ImportStatus::Approved)
        } else if same_text(s, "rejected") {
            Some(ImportStatus::Rejected)
        } else {
            None
        }
    }
}

impl SyncStatus {
    pub open spec fn spec_name(self) -> Seq<char> {
        match self {
            SyncStatus::Running => "running"@,
            SyncStatus::Completed => "completed"@,
            SyncStatus::Failed => "failed"@,
        }
    }

    pub open spec fn named(s: Seq<char>) -> Option<SyncStatus> {
        if s == "running"@ {
            Some(SyncStatus::Running)
        } else if s == "completed"@ {
            Some(SyncStatus::Completed)
        } else if s == "failed"@ {
            Some(SyncStatus::Failed)
        } else {
            None
        }
    }

    pub fn name(&self) -> (r: &'static str)
        ensures
            r@ == self.spec_name(),
    {
        match self {
            SyncStatus::Running => "running",
            SyncStatus::Completed => "completed",
            SyncStatus::Failed => "failed",
        }
    }

    /// Reads one of `running`, `completed`, `failed`.
    pub fn parse(s: &str) -> (r: Option<SyncStatus>)
        ensures
            r == SyncStatus::named(s@),
    {
        if same_text(s, "running") {
            Some(SyncStatus::Running)
        } else if same_text(s, "completed") {
            Some(SyncStatus::Completed)
        } else if same_text(s, "failed") {
            Some(SyncStatus::Failed)
        } else {
            None
        }
    }
}

impl BillingCycle {
    pub open spec fn spec_name(self) -> Seq<char> {
        match self {
            BillingCycle::Monthly => "monthly"@,
            BillingCycle::Yearly => "yearly"@,
            BillingCycle::OneTime => "one-time"@,
        }
    }

    pub open spec fn named(s: Seq<char>) -> Option<BillingCycle> {
        if s == "monthly"@ {
            Some(BillingCycle::Monthly)
        } else if s == "yearly"@ {
            Some(BillingCycle::Yearly)
        } else if s == "one-time"@ {
            Some(BillingCycle::OneTime)
        } else {
            None
        }
    }

    pub fn name(&self) -> (r: &'static str)
        ensures
            r@ == self.spec_name(),
    {
        match self {
            BillingCycle::Monthly => "monthly",
            BillingCycle::Yearly => "yearly",
            BillingCycle::OneTime => "one-time",
        }
    }

    /// Reads one of `monthly`, `yearly`, `one-time`.
    pub fn parse(s: &str) -> (r: Option<BillingCycle>)
        ensures
            r == BillingCycle::named(s@),
    {
        if same_text(s, "monthly") {
            Some(BillingCycle::Monthly)
        } else if same_text(s, "yearly") {
            Some(BillingCycle::Yearly)
        } else if same_text(s, "one-time") {
            Some(BillingCycle::OneTime)
        } else {
            None
        }
    }
}

impl SubscriptionStatus {
    pub open spec fn spec_name(self) -> Seq<char> {
        match self {
            SubscriptionStatus::Active => "active"@,
            SubscriptionStatus::Paused => "paused"@,
            SubscriptionStatus::Cancelled => "cancelled"@,
        }
    }

    pub open spec fn named(s: Seq<char>) -> Option<SubscriptionStatus> {
        if s == "active"@ {
            Some(SubscriptionStatus::Active)
        } else if s == "paused"@ {
            Some(SubscriptionStatus::Paused)
        } else if s == "cancelled"@ {
            Some(SubscriptionStatus::Cancelled)
        } else {
            None
        }
    }

    pub fn name(&self) -> (r: &'static str)
        ensures
            r@ == self.spec_name(),
    {
        match self {
            SubscriptionStatus::Active => "active",
            SubscriptionStatus::Paused => "paused",
            SubscriptionStatus::Cancelled => "cancelled",
        }
    }

    /// Reads one of `active`, `paused`, `cancelled`.
    pub fn parse(s: &str) -> (r: Option<SubscriptionStatus>)
        ensures
            r == SubscriptionStatus::named(s@),
    {
        if same_text(s, "active") {
            Some(SubscriptionStatus::Active)
        } else if same_text(s, "paused") {
            Some(SubscriptionStatus::Paused)
        } else if same_text(s, "cancelled") {
            Some(SubscriptionStatus::Cancelled)
        } else {
            None
        }
    }
}

impl DomainStatus {
    pub open spec fn spec_name(self) -> Seq<char> {
        match self {
            DomainStatus::Active => "active"@,
            DomainStatus::Expired => "expired"@,
            DomainStatus::PendingRenewal => "pending-renewal"@,
        }
    }

    pub open spec fn named(s: Seq<char>) -> Option<DomainStatus> {
        if s == "active"@ {
            Some(DomainStatus::Active)
        } else if s == "expired"@ {
            Some(DomainStatus::Expired)
        } else if s == "pending-renewal"@ {
            Some(DomainStatus::PendingRenewal)
        } else {
            None
        }
    }

    pub fn name(&self) -> (r: &'static str)
        ensures
            r@ == self.spec_name(),
    {
        match self {
            DomainStatus::Active => "active",
            DomainStatus::Expired => "expired",
            DomainStatus::PendingRenewal => "pending-renewal",
        }
    }

    /// Reads one of `active`, `expired`, `pending-renewal`.
    pub fn parse(s: &str) -> (r: Option<DomainStatus>)
        ensures
            r == DomainStatus::named(s@),
    {
        if same_text(s, "active") {
            Some(DomainStatus::Active)
        } else if same_text(s, "expired") {
            Some(DomainStatus::Expired)
        } else if same_text(s, "pending-renewal") {
            Some(DomainStatus::PendingRenewal)
        } else {
            None
        }
    }
}

/// Whether `bits` is a double between 0.0 and 1.0, both included: the
/// doubles from +0.0 up to 1.0 are the bit patterns up to that of 1.0, and
/// -0.0 equals 0.0.
pub open spec fn is_unit_interval(bits: u64) -> bool {
    bits <= 0x3FF0_0000_0000_0000u64 || bits == 0x8000_0000_0000_0000u64
}

/// Whether `bits` is a double between 0.0 and 1.0, both included.
pub fn in_unit_interval(bits: u64) -> (r: bool)
    ensures
        r == is_unit_interval(bits),
{
    bits <= 0x3FF0_0000_0000_0000u64 || bits == 0x8000_0000_0000_0000u64
}

/// A copy of an optional string.
pub fn copy_text(o: &Option<String>) -> (r: Option<String>)
    ensures
        r.deep_view() == o.deep_view(),
{
    match o {
        Some(s) => Some(s.clone()),
        None => None,
    }
}

/// A copy of a byte string.
pub fn copy_bytes(v: &Vec<u8>) -> (r: Vec<u8>)
    ensures
        r@ == v@,
{
    let mut out: Vec<u8> = Vec::new();
    let mut i: usize = 0;
    while i < v.len()
        invariant
            i <= v.len(),
            out@ == v@.subrange(0, i as int),
        decreases v.len() - i,
    {
        out.push(v[i]);
        i += 1;
    }
    assert(out@ =~= v@);
    out
}

/// A file that came with a message.
#[derive(Clone, Debug, PartialEq, Eq)]
pub struct Attachment {
    pub filename: String,
    pub content_type: String,
    pub data: Vec<u8>,
}

pub struct AttachmentView {
    pub filename: Seq<char>,
    pub content_type: Seq<char>,
    pub data: Seq<u8>,
}

impl View for Attachment {
    type V = AttachmentView;

    open spec fn view(&self) -> AttachmentView {
        AttachmentView {
            filename: self.filename@,
            content_type: self.content_type@,
            data: self.data@,
        }
    }
}

pub open spec fn attachments_view(attachments: Seq<Attachment>) -> Seq<AttachmentView> {
    Seq::new(attachments.len(), |i: int| attachments[i]@)
}

/// A message taken apart: its headers of interest, its text, its files.
#[derive(Clone, Debug, PartialEq, Eq)]
pub struct EmailContent {
    pub subject: String,
    pub from: String,
    pub date: String,
    pub body: String,
    pub attachments: Vec<Attachment>,
}

pub struct EmailContentView {
    pub subject: Seq<char>,
    pub from: Seq<char>,
    pub date: Seq<char>,
    pub body: Seq<char>,
    pub attachments: Seq<AttachmentView>,
}

impl View for EmailContent {
    type V = EmailContentView;

    open spec fn view(&self) -> EmailContentView {
        EmailContentView {
            subject: self.subject@,
            from: self.from@,
            date: self.date@,
            body: self.body@,
            attachments: attachments_view(self.attachments@),
        }
    }
}

/// A committed subscription.
#[derive(Clone, Debug, PartialEq, Eq)]
pub struct Subscription {
    pub id: Option<i64>,
    pub name: String,
    pub amount: u64,
    pub currency: String,
    pub periodicity: BillingCycle,
    pub next_date: Option<String>,
    pub category: Option<String>,
    pub status: SubscriptionStatus,
    pub notes: Option<String>,
    pub created_at: String,
    pub updated_at: String,
}

pub struct SubscriptionView {
    pub id: Option<i64>,
    pub name: Seq<char>,
    pub amount: u64,
    pub currency: Seq<char>,
    pub periodicity: BillingCycle,
    pub next_date: Option<Seq<char>>,
    pub category: Option<Seq<char>>,
    pub status: SubscriptionStatus,
    pub notes: Option<Seq<char>>,
    pub created_at: Seq<char>,
    pub updated_at: Seq<char>,
}

impl View for Subscription {
    type V = SubscriptionView;

    open spec fn view(&self) -> SubscriptionView {
        SubscriptionView {
            id: self.id,
            name: self.name@,
            amount: self.amount,
            currency: self.currency@,
            periodicity: self.periodicity,
            next_date: self.next_date.deep_view(),
            category: self.category.deep_view(),
            status: self.status,
            notes: self.notes.deep_view(),
            created_at: self.created_at@,
            updated_at: self.updated_at@,
        }
    }
}

/// The fields of a subscription as extraction or the user gives them.
#[derive(Clone, Debug, PartialEq, Eq)]
pub struct SubscriptionExtraction {
    pub name: String,
    pub amount: u64,
    pub currency: String,
    pub periodicity: BillingCycle,
    pub next_date: Option<String>,
    pub category: Option<String>,
}

pub struct SubscriptionExtractionView {
    pub name: Seq<char>,
    pub amount: u64,
    pub currency: Seq<char>,
    pub periodicity: BillingCycle,
    pub next_date: Option<Seq<char>>,
    pub category: Option<Seq<char>>,
}

impl View for SubscriptionExtraction {
    type V = SubscriptionExtractionView;

    open spec fn view(&self) -> SubscriptionExtractionView {
        SubscriptionExtractionView {
            name: self.name@,
            amount: self.amount,
            currency: self.currency@,
            periodicity: self.periodicity,
            next_date: self.next_date.deep_view(),
            category: self.category.deep_view(),
        }
    }
}

/// The fields of a domain as extraction or the user gives them.
#[derive(Clone, Debug, PartialEq, Eq)]
pub struct DomainExtraction {
    pub name: String,
    pub registrar: Option<String>,
    pub amount: Option<u64>,
    pub currency: Option<String>,
    pub registration_date: Option<String>,
    pub expiry_date: String,
    pub auto_renew: Option<bool>,
}

pub struct DomainExtractionView {
    pub name: Seq<char>,
    pub registrar: Option<Seq<char>>,
    pub amount: Option<u64>,
    pub currency: Option<Seq<char>>,
    pub registration_date: Option<Seq<char>>,
    pub expiry_date: Seq<char>,
    pub auto_renew: Option<bool>,
}

impl View for DomainExtraction {
    type V = DomainExtractionView;

    open spec fn view(&self) -> DomainExtractionView {
        DomainExtractionView {
            name: self.name@,
            registrar: self.registrar.deep_view(),
            amount: self.amount,
            currency: self.currency.deep_view(),
            registration_date: self.registration_date.deep_view(),
            expiry_date: self.expiry_date@,
            auto_renew: self.auto_renew,
        }
    }
}

/// A committed domain registration; its name is its key.
#[derive(Clone, Debug, PartialEq, Eq)]
pub struct Domain {
    pub id: Option<i64>,
    pub name: String,
    pub registrar: Option<String>,
    pub amount: Option<u64>,
    pub currency: Option<String>,
    pub registration_date: Option<String>,
    pub expiry_date: String,
    pub auto_renew: bool,
    pub status: DomainStatus,
    pub notes: Option<String>,
    pub created_at: String,
    pub updated_at: String,
}

pub struct DomainView {
    pub id: Option<i64>,
    pub name: Seq<char>,
    pub registrar: Option<Seq<char>>,
    pub amount: Option<u64>,
    pub currency: Option<Seq<char>>,
    pub registration_date: Option<Seq<char>>,
    pub expiry_date: Seq<char>,
    pub auto_renew: bool,
    pub status: DomainStatus,
    pub notes: Option<Seq<char>>,
    pub created_at: Seq<char>,
    pub updated_at: Seq<char>,
}

impl View for Domain {
    type V = DomainView;

    open spec fn view(&self) -> DomainView {
        DomainView {
            id: self.id,
            name: self.name@,
            registrar: self.registrar.deep_view(),
            amount: self.amount,
            currency: self.currency.deep_view(),
            registration_date: self.registration_date.deep_view(),
            expiry_date: self.expiry_date@,
            auto_renew: self.auto_renew,
            status: self.status,
            notes: self.notes.deep_view(),
            created_at: self.created_at@,
            updated_at: self.updated_at@,
        }
    }
}

/// An item of the review queue.
#[derive(Clone, Debug, PartialEq, Eq)]
pub struct PendingImport {
    pub id: Option<i64>,
    pub email_subject: Option<String>,
    pub email_from: String,
    pub email_date: Option<String>,
    pub classification: Option<Classification>,
    pub confidence: Option<u64>,
    pub extracted_data: String,
    pub receipt_id: Option<i64>,
    pub status: ImportStatus,
    pub created_at: String,
}

pub struct PendingImportView {
    pub id: Option<i64>,
    pub email_subject: Option<Seq<char>>,
    pub email_from: Seq<char>,
    pub email_date: Option<Seq<char>>,
    pub classification: Option<Classification>,
    pub confidence: Option<u64>,
    pub extracted_data: Seq<char>,
    pub receipt_id: Option<i64>,
    pub status: ImportStatus,
    pub created_at: Seq<char>,
}

impl View for PendingImport {
    type V = PendingImportView;

    open spec fn view(&self) -> PendingImportView {
        PendingImportView {
            id: self.id,
            email_subject: self.email_subject.deep_view(),
            email_from: self.email_from@,
            email_date: self.email_date.deep_view(),
            classification: self.classification,
            confidence: self.confidence,
            extracted_data: self.extracted_data@,
            receipt_id: self.receipt_id,
            status: self.status,
            created_at: self.created_at@,
        }
    }
}

/// The record of one processed message.
#[derive(Clone, Debug, PartialEq, Eq)]
pub struct Receipt {
    pub id: Option<i64>,
    pub subscription_id: Option<i64>,
    pub domain_id: Option<i64>,
    pub email_subject: Option<String>,
    pub email_from: Option<String>,
    pub email_date: String,
    pub file_type: Option<String>,
    pub file_data: Option<String>,
    pub raw_email_body: Option<String>,
    pub created_at: String,
}

pub struct ReceiptView {
    pub id: Option<i64>,
    pub subscription_id: Option<i64>,
    pub domain_id: Option<i64>,
    pub email_subject: Option<Seq<char>>,
    pub email_from: Option<Seq<char>>,
    pub email_date: Seq<char>,
    pub file_type: Option<Seq<char>>,
    pub file_data: Option<Seq<char>>,
    pub raw_email_body: Option<Seq<char>>,
    pub created_at: Seq<char>,
}

impl View for Receipt {
    type V = ReceiptView;

    open spec fn view(&self) -> ReceiptView {
        ReceiptView {
            id: self.id,
            subscription_id: self.subscription_id,
            domain_id: self.domain_id,
            email_subject: self.email_subject.deep_view(),
            email_from: self.email_from.deep_view(),
            email_date: self.email_date@,
            file_type: self.file_type.deep_view(),
            file_data: self.file_data.deep_view(),
            raw_email_body: self.raw_email_body.deep_view(),
            created_at: self.created_at@,
        }
    }
}

/// The record of one sync run.
#[derive(Clone, Debug, PartialEq, Eq)]
pub struct SyncLog {
    pub id: Option<i64>,
    pub sync_started_at: String,
    pub sync_completed_at: Option<String>,
    pub emails_processed: u64,
    pub emails_imported: u64,
    pub status: SyncStatus,
    pub error_message: Option<String>,
    pub created_at: String,
}

pub struct SyncLogView {
    pub id: Option<i64>,
    pub sync_started_at: Seq<char>,
    pub sync_completed_at: Option<Seq<char>>,
    pub emails_processed: nat,
    pub emails_imported: nat,
    pub status: SyncStatus,
    pub error_message: Option<Seq<char>>,
    pub created_at: Seq<char>,
}

impl View for SyncLog {
    type V = SyncLogView;

    open spec fn view(&self) -> SyncLogView {
        SyncLogView {
            id: self.id,
            sync_started_at: self.sync_started_at@,
            sync_completed_at: self.sync_completed_at.deep_view(),
            emails_processed: self.emails_processed as nat,
            emails_imported: self.emails_imported as nat,
            status: self.status,
            error_message: self.error_message.deep_view(),
            created_at: self.created_at@,
        }
    }
}

pub struct AppSettingsView {
    pub imap_server: Seq<char>,
    pub imap_port: i32,
    pub imap_username: Seq<char>,
    pub imap_use_ssl: bool,
    pub ollama_endpoint: Seq<char>,
    pub ollama_model: Seq<char>,
    pub default_currency: Seq<char>,
    pub sync_interval_minutes: i32,
    pub theme: Seq<char>,
}

impl View for AppSettings {
    type V = AppSettingsView;

    open spec fn view(&self) -> AppSettingsView {
        AppSettingsView {
            imap_server: self.imap_server@,
            imap_port: self.imap_port,
            imap_username: self.imap_username@,
            imap_use_ssl: self.imap_use_ssl,
            ollama_endpoint: self.ollama_endpoint@,
            ollama_model: self.ollama_model@,
            default_currency: self.default_currency@,
            sync_interval_minutes: self.sync_interval_minutes,
            theme: self.theme@,
        }
    }
}

/// The settings that the user keeps.
#[derive(Clone, Debug, PartialEq, Eq)]
pub struct AppSettings {
    pub imap_server: String,
    pub imap_port: i32,
    pub imap_username: String,
    pub imap_use_ssl: bool,
    pub ollama_endpoint: String,
    pub ollama_model: String,
    pub default_currency: String,
    pub sync_interval_minutes: i32,
    pub theme: String,
}

} // verus!
