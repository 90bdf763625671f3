//! A parsed message as a tree of parts, and the parser that builds it.

use vstd::prelude::*;

verus! {

/// One header line: its name and its decoded value.
#[derive(Clone, Debug, PartialEq, Eq)]
pub struct HeaderField {
    pub key: String,
    pub value: String,
}

pub struct HeaderFieldView {
    pub key: Seq<char>,
    pub value: Seq<char>,
}

impl View for HeaderField {
    type V = HeaderFieldView;

    open spec fn view(&self) -> HeaderFieldView {
        HeaderFieldView { key: self.key@, value: self.value@ }
    }
}

/// How a part is meant to be shown.
#[derive(Clone, Debug, PartialEq, Eq)]
pub enum DispositionKind {
    Inline,
    Attachment,
    FormData,
    /// Any other type, in small letters.
    Extension(String),
}

pub enum DispositionKindView {
    Inline,
    Attachment,
    FormData,
    Extension(Seq<char>),
}

impl View for DispositionKind {
    type V = DispositionKindView;

    open spec fn view(&self) -> DispositionKindView {
        match self {
            DispositionKind::Inline => DispositionKindView::Inline,
            DispositionKind::Attachment => DispositionKindView::Attachment,
            DispositionKind::FormData => DispositionKindView::FormData,
            DispositionKind::Extension(s) => DispositionKindView::Extension(s@),
        }
    }
}

/// A `Content-Disposition` header taken apart: its type and its parameters,
/// each under its name in small letters.
#[derive(Clone, Debug, PartialEq, Eq)]
pub struct Disposition {
    pub kind: DispositionKind,
    pub params: Vec<HeaderField>,
}

pub struct DispositionView {
    pub kind: DispositionKindView,
    pub params: Seq<HeaderFieldView>,
}

impl View for Disposition {
    type V = DispositionView;

    open spec fn view(&self) -> DispositionView {
        DispositionView { kind: self.kind@, params: headers_view(self.params@) }
    }
}

/// One part of a message, with the parts nested in it.
#[derive(Debug, PartialEq, Eq)]
pub struct MimePart {
    pub headers: Vec<HeaderField>,
    /// The body with its transfer encoding undone, or why that failed.
    pub raw_body: Result<Vec<u8>, String>,
    /// The body as text in its declared character set, or why that failed.
    pub text_body: Result<String, String>,
    pub subparts: Vec<MimePart>,
}

pub struct MimePartView {
    pub headers: Seq<HeaderFieldView>,
    pub raw_body: Result<Seq<u8>, Seq<char>>,
    pub text_body: Result<Seq<char>, Seq<char>>,
    pub subparts: Seq<MimePartView>,
}

pub open spec fn headers_view(headers: Seq<HeaderField>) -> Seq<HeaderFieldView> {
    Seq::new(headers.len(), |i: int| headers[i]@)
}

impl MimePart {
    pub open spec fn raw_body_view(&self) -> Result<Seq<u8>, Seq<char>> {
        match self.raw_body {
            Ok(b) => Ok(b@),
            Err(e) => Err(e@),
        }
    }

    pub open spec fn text_body_view(&self) -> Result<Seq<char>, Seq<char>> {
        match self.text_body {
            Ok(t) => Ok(t@),
            Err(e) => Err(e@),
        }
    }
}

/// The view of a part: its own fields, and the views of the parts nested
/// in it.
pub open spec fn part_view(part: MimePart) -> MimePartView
    decreases part,
{
    MimePartView {
        headers: headers_view(part.headers@),
        raw_body: part.raw_body_view(),
        text_body: part.text_body_view(),
        subparts: Seq::new(
            part.subparts@.len(),
            |i: int|
                if 0 <= i < part.subparts@.len() {
                    part_view(part.subparts@[i])
                } else {
                    arbitrary()
                },
        ),
    }
}

impl View for MimePart {
    type V = MimePartView;

    open spec fn view(&self) -> MimePartView {
        part_view(*self)
    }
}

/// The view of a part, one level unfolded.
pub proof fn lemma_part_view(part: &MimePart)
    ensures
        part@.headers == headers_view(part.headers@),
        part@.raw_body == part.raw_body_view(),
        part@.text_body == part.text_body_view(),
        part@.subparts.len() == part.subparts@.len(),
        forall|i: int|
            0 <= i < part.subparts@.len() ==> part@.subparts[i] == (
            #[trigger] part.subparts@[i])@,
{
    assert(part@.subparts.len() == part.subparts@.len());
}

#[verifier::external_type_specification]
#[verifier::external_body]
pub struct ExParsedMail<'a>(mailparse::ParsedMail<'a>);

/// What `mailparse` makes of the bytes of a message: the tree of its parts,
/// or what it says against the bytes where it cannot parse them.
pub uninterp spec fn parsed_message(raw: Seq<u8>) -> Result<MimePartView, Seq<char>>;

pub open spec fn parsed_view(r: Result<MimePart, String>) -> Result<MimePartView, Seq<char>> {
    match r {
        Ok(part) => Ok(part@),
        Err(why) => Err(why@),
    }
}

/// What `mailparse` reads from the value of a `Content-Disposition` header.
pub uninterp spec fn parsed_disposition(header: Seq<char>) -> DispositionView;

/// Copies one parsed part out of `mailparse`: every header with `get_key` and
/// `get_value`, the body with `get_body_raw` and with `get_body`, and each of
/// its `subparts` in the same way.
#[verifier::external_body]
fn part_from(parsed: &mailparse::ParsedMail) -> MimePart {
    MimePart {
        headers: parsed
            .headers
            .iter()
            .map(|h| HeaderField { key: h.get_key(), value: h.get_value() })
            .collect(),
        raw_body: parsed.get_body_raw().map_err(|e| e.to_string()),
        text_body: parsed.get_body().map_err(|e| e.to_string()),
        subparts: parsed.subparts.iter().map(part_from).collect(),
    }
}

/// Calls `mailparse::parse_mail` and copies the tree it returns; an error is
/// handed out as its text. The contract only names the outcome: the same
/// bytes always parse the same way.
#[verifier::external_body]
pub(crate) fn parse_message(raw: &[u8]) -> (r: Result<MimePart, String>)
    ensures
        parsed_view(r) == parsed_message(raw@),
{
    match mailparse::parse_mail(raw) {
        Ok(parsed) => Ok(part_from(&parsed)),
        Err(e) => Err(e.to_string()),
    }
}

/// Calls `mailparse::parse_content_disposition` on a header value and copies
/// what it returns: the disposition type, variant for variant, and the
/// parameters as the map holds them. The contract only names the outcome: the
/// same value always reads the same way.
#[verifier::external_body]
pub(crate) fn read_disposition(header: &str) -> (r: Disposition)
    ensures
        r@ == parsed_disposition(header@),
{
    let parsed = mailparse::parse_content_disposition(header);
    Disposition {
        kind: match parsed.disposition {
            mailparse::DispositionType::Inline => DispositionKind::Inline,
            mailparse::DispositionType::Attachment => DispositionKind::Attachment,
            mailparse::DispositionType::FormData => DispositionKind::FormData,
            mailparse::DispositionType::Extension(s) => DispositionKind::Extension(s),
        },
        params: parsed.params.into_iter().map(|(key, value)| HeaderField { key, value }).collect(),
    }
}

} // verus!
