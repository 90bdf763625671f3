//! The mail fetcher's part that computes: connection parameters, and the
//! decomposition of a fetched message into subject, sender, date, text and
//! attachments.

use vstd::prelude::*;
use vstd::string::StringExecFns;
use crate::error::{AppError, AppErrorView, ErrorKind};
use crate::mime::{
    headers_view, lemma_part_view, parse_message, parsed_disposition, parsed_message,
    read_disposition, DispositionKind, HeaderField, HeaderFieldView, MimePart, MimePartView,
};
use crate::model::{
    attachments_view, copy_bytes, Attachment, AttachmentView, EmailContent, EmailContentView,
};
use crate::text::{contains_text, names_match, same_name, same_text, text_contains};

verus! {

/// The value of the first header called `name`, if there is one.
pub open spec fn first_value(headers: Seq<HeaderFieldView>, name: Seq<char>) -> Option<Seq<char>>
    decreases headers.len(),
{
    if headers.len() == 0 {
        None
    } else if same_name(headers[0].key, name) {
        Some(headers[0].value)
    } else {
        first_value(headers.drop_first(), name)
    }
}

/// The value of the last header called `name`, if there is one.
pub open spec fn last_value(headers: Seq<HeaderFieldView>, name: Seq<char>) -> Option<Seq<char>>
    decreases headers.len(),
{
    if headers.len() == 0 {
        None
    } else if same_name(headers.last().key, name) {
        Some(headers.last().value)
    } else {
        last_value(headers.drop_last(), name)
    }
}

/// The value of the first parameter whose name is exactly `name`, if there
/// is one.
pub open spec fn param_value(params: Seq<HeaderFieldView>, name: Seq<char>) -> Option<Seq<char>>
    decreases params.len(),
{
    if params.len() == 0 {
        None
    } else if params[0].key == name {
        Some(params[0].value)
    } else {
        param_value(params.drop_first(), name)
    }
}

/// Whether a part is marked as an attachment: it has a `Content-Disposition`
/// header, and the type of the first one is `attachment`.
pub open spec fn is_attachment(headers: Seq<HeaderFieldView>) -> bool {
    match first_value(headers, "Content-Disposition"@) {
        Some(value) => parsed_disposition(value).kind is Attachment,
        None => false,
    }
}

/// The name under which an attachment is kept: the `filename` of its
/// disposition, or `unnamed_attachment`.
pub open spec fn attachment_name(headers: Seq<HeaderFieldView>) -> Seq<char> {
    match first_value(headers, "Content-Disposition"@) {
        Some(value) => match param_value(parsed_disposition(value).params, "filename"@) {
            Some(name) => name,
            None => "unnamed_attachment"@,
        },
        None => "unnamed_attachment"@,
    }
}

/// `o`, or the empty text where it is `None`.
pub open spec fn or_empty(o: Option<Seq<char>>) -> Seq<char> {
    match o {
        Some(s) => s,
        None => Seq::empty(),
    }
}

/// The texts and the attachments gathered so far from a message.
pub struct Gathered {
    /// The texts of the `text/plain` parts, one after the other.
    pub plain: Seq<char>,
    /// Whether there was a `text/plain` part.
    pub has_plain: bool,
    /// The text of the `text/html` part that was taken.
    pub html: Seq<char>,
    pub attachments: Seq<AttachmentView>,
}

impl Gathered {
    pub open spec fn empty() -> Gathered {
        Gathered {
            plain: Seq::empty(),
            has_plain: false,
            html: Seq::empty(),
            attachments: Seq::empty(),
        }
    }

    /// The body of the message: the plain text where the message has any,
    /// the HTML as it is otherwise.
    pub open spec fn body(self) -> Seq<char> {
        if self.has_plain {
            self.plain
        } else {
            self.html
        }
    }
}

/// What one part adds by itself, its nested parts left aside.
///
/// A part whose disposition is of type `attachment` is taken as a file,
/// under the `filename` of its disposition or `unnamed_attachment`. Any other part of
/// type `text/plain` adds its text to the plain text. A part of type
/// `text/html` is taken as the HTML while there is neither plain text nor
/// HTML yet. A body that cannot be decoded fails the message, with the reason
/// in the error.
pub open spec fn gather_own(part: MimePartView, acc: Gathered) -> Result<Gathered, Seq<char>> {
    let content_type = or_empty(first_value(part.headers, "Content-Type"@));
    if is_attachment(part.headers) {
        match part.raw_body {
            Ok(data) => Ok(
                Gathered {
                    attachments: acc.attachments.push(
                        AttachmentView {
                            filename: attachment_name(part.headers),
                            content_type: content_type,
                            data: data,
                        },
                    ),
                    ..acc
                },
            ),
            Err(why) => Err("Failed to get attachment body: "@ + why),
        }
    } else if contains_text(content_type, "text/plain"@) {
        match part.text_body {
            Ok(text) => Ok(Gathered { plain: acc.plain + text, has_plain: true, ..acc }),
            Err(why) => Err("Failed to get email body: "@ + why),
        }
    } else if contains_text(content_type, "text/html"@) && !acc.has_plain && acc.html.len() == 0 {
        match part.text_body {
            Ok(text) => Ok(Gathered { html: acc.html + text, ..acc }),
            Err(why) => Err("Failed to get email body: "@ + why),
        }
    } else {
        Ok(acc)
    }
}

/// What a part and all the parts nested in it add, depth first: the part
/// itself, then its nested parts in their order.
pub open spec fn gather_part(part: MimePartView, acc: Gathered) -> Result<Gathered, Seq<char>>
    decreases part, 0nat,
{
    match gather_own(part, acc) {
        Ok(next) => gather_parts(part.subparts, 0, next),
        Err(why) => Err(why),
    }
}

/// What the parts of `parts` from index `from` on add, one after the other.
pub open spec fn gather_parts(parts: Seq<MimePartView>, from: int, acc: Gathered) -> Result<
    Gathered,
    Seq<char>,
>
    decreases parts, parts.len() - from,
{
    if from < 0 || from >= parts.len() {
        Ok(acc)
    } else {
        match gather_part(parts[from], acc) {
            Ok(next) => gather_parts(parts, from + 1, next),
            Err(why) => Err(why),
        }
    }
}

/// The message that a parsed tree stands for: `subject`, `from` and `date`
/// from the last header of each name, empty where there is none, and the
/// attachments and the body gathered from the tree. The body is the plain
/// text where the tree has any, its HTML otherwise.
pub open spec fn decomposed(root: MimePartView) -> Result<EmailContentView, Seq<char>> {
    match gather_part(root, Gathered::empty()) {
        Ok(all) => Ok(
            EmailContentView {
                subject: or_empty(last_value(root.headers, "subject"@)),
                from: or_empty(last_value(root.headers, "from"@)),
                date: or_empty(last_value(root.headers, "date"@)),
                body: all.body(),
                attachments: all.attachments,
            },
        ),
        Err(why) => Err(why),
    }
}

/// What parsing and decomposition make of the bytes of one message: the
/// message, or an error of class `Internal` that says why the bytes do not
/// parse or a body does not decode.
pub open spec fn email_of(raw: Seq<u8>) -> Result<EmailContentView, AppErrorView> {
    match parsed_message(raw) {
        Err(why) => Err(
            AppErrorView { kind: ErrorKind::Internal, detail: "Failed to parse email: "@ + why },
        ),
        Ok(root) => match decomposed(root) {
            Ok(message) => Ok(message),
            Err(why) => Err(AppErrorView { kind: ErrorKind::Internal, detail: why }),
        },
    }
}

/// What decomposition makes of one message as it was fetched: a message that
/// could not be fetched is a failure of class `Transport` that keeps the
/// reason, one that cannot be parsed or decoded a failure of class
/// `Internal`.
pub open spec fn message_of(fetched: Result<Seq<u8>, Seq<char>>) -> Result<
    EmailContentView,
    AppErrorView,
> {
    match fetched {
        Err(why) => Err(
            AppErrorView { kind: ErrorKind::Transport, detail: "Failed to fetch email: "@ + why },
        ),
        Ok(raw) => email_of(raw),
    }
}

pub open spec fn messages_of(fetched: Seq<Result<Seq<u8>, Seq<char>>>) -> Seq<
    Result<EmailContentView, AppErrorView>,
> {
    Seq::new(fetched.len(), |i: int| message_of(fetched[i]))
}

pub open spec fn fetched_view(fetched: Result<Vec<u8>, String>) -> Result<Seq<u8>, Seq<char>> {
    match fetched {
        Ok(raw) => Ok(raw@),
        Err(why) => Err(why@),
    }
}

pub open spec fn all_fetched_view(fetched: Seq<Result<Vec<u8>, String>>) -> Seq<
    Result<Seq<u8>, Seq<char>>,
> {
    Seq::new(fetched.len(), |i: int| fetched_view(fetched[i]))
}

pub open spec fn message_view(message: Result<EmailContent, AppError>) -> Result<
    EmailContentView,
    AppErrorView,
> {
    match message {
        Ok(m) => Ok(m@),
        Err(e) => Err(e@),
    }
}

pub open spec fn messages_view(messages: Seq<Result<EmailContent, AppError>>) -> Seq<
    Result<EmailContentView, AppErrorView>,
> {
    Seq::new(messages.len(), |i: int| message_view(messages[i]))
}

/// The value of the first header called `name`, if there is one.
pub fn first_header_value(headers: &Vec<HeaderField>, name: &str) -> (r: Option<String>)
    ensures
        r.deep_view() == first_value(headers_view(headers@), name@),
{
    let ghost all = headers_view(headers@);
    let mut i: usize = 0;
    assert(all.subrange(0, all.len() as int) =~= all);
    while i < headers.len()
        invariant
            i <= headers.len(),
            all == headers_view(headers@),
            first_value(all, name@) == first_value(all.subrange(i as int, all.len() as int), name@),
        decreases headers.len() - i,
    {
        let ghost rest = all.subrange(i as int, all.len() as int);
        assert(rest[0] == headers@[i as int]@);
        assert(rest.drop_first() =~= all.subrange(i + 1, all.len() as int));
        if names_match(headers[i].key.as_str(), name) {
            return Some(headers[i].value.clone());
        }
        i += 1;
    }
    None
}

/// The value of the first parameter whose name is exactly `name`, if there
/// is one.
pub fn find_param(params: &Vec<HeaderField>, name: &str) -> (r: Option<String>)
    ensures
        r.deep_view() == param_value(headers_view(params@), name@),
{
    let ghost all = headers_view(params@);
    let mut i: usize = 0;
    assert(all.subrange(0, all.len() as int) =~= all);
    while i < params.len()
        invariant
            i <= params.len(),
            all == headers_view(params@),
            param_value(all, name@) == param_value(all.subrange(i as int, all.len() as int), name@),
        decreases params.len() - i,
    {
        let ghost rest = all.subrange(i as int, all.len() as int);
        assert(rest[0] == params@[i as int]@);
        assert(rest.drop_first() =~= all.subrange(i + 1, all.len() as int));
        if same_text(params[i].key.as_str(), name) {
            return Some(params[i].value.clone());
        }
        i += 1;
    }
    None
}

/// The value of the last header called `name`, if there is one.
pub fn last_header_value(headers: &Vec<HeaderField>, name: &str) -> (r: Option<String>)
    ensures
        r.deep_view() == last_value(headers_view(headers@), name@),
{
    let ghost all = headers_view(headers@);
    let mut found: Option<String> = None;
    let mut i: usize = 0;
    while i < headers.len()
        invariant
            i <= headers.len(),
            all == headers_view(headers@),
            found.deep_view() == last_value(all.subrange(0, i as int), name@),
        decreases headers.len() - i,
    {
        let ghost upto = all.subrange(0, i + 1);
        assert(upto.last() == headers@[i as int]@);
        assert(upto.drop_last() =~= all.subrange(0, i as int));
        if names_match(headers[i].key.as_str(), name) {
            found = Some(headers[i].value.clone());
        }
        i += 1;
    }
    assert(all.subrange(0, i as int) =~= all);
    found
}

/// `o`, or the empty string where it is `None`.
fn text_or_empty(o: Option<String>) -> (r: String)
    ensures
        r@ == or_empty(o.deep_view()),
{
    match o {
        Some(s) => s,
        None => String::new(),
    }
}

/// The texts and the attachments gathered so far from a message.
#[derive(Clone, Debug, PartialEq, Eq)]
pub struct Gathering {
    pub plain: String,
    pub has_plain: bool,
    pub html: String,
    pub attachments: Vec<Attachment>,
}

impl View for Gathering {
    type V = Gathered;

    open spec fn view(&self) -> Gathered {
        Gathered {
            plain: self.plain@,
            has_plain: self.has_plain,
            html: self.html@,
            attachments: attachments_view(self.attachments@),
        }
    }
}

impl Gathering {
    pub fn new() -> (acc: Gathering)
        ensures
            acc@ == Gathered::empty(),
    {
        let acc = Gathering {
            plain: String::new(),
            has_plain: false,
            html: String::new(),
            attachments: Vec::new(),
        };
        assert(attachments_view(acc.attachments@) =~= Seq::<AttachmentView>::empty());
        acc
    }
}

/// The parameters of a connection to a mail server.
#[derive(Clone, Debug, PartialEq, Eq)]
pub struct ImapService {
    server: String,
    port: u16,
    username: String,
    password: String,
    use_ssl: bool,
}

pub struct ImapServiceView {
    pub server: Seq<char>,
    pub port: u16,
    pub username: Seq<char>,
    pub password: Seq<char>,
    pub use_ssl: bool,
}

impl View for ImapService {
    type V = ImapServiceView;

    closed spec fn view(&self) -> ImapServiceView {
        ImapServiceView {
            server: self.server@,
            port: self.port,
            username: self.username@,
            password: self.password@,
            use_ssl: self.use_ssl,
        }
    }
}

impl ImapService {
    pub fn new(server: String, port: u16, username: String, password: String, use_ssl: bool) -> (s:
        Self)
        ensures
            s@ == (ImapServiceView {
                server: server@,
                port: port,
                username: username@,
                password: password@,
                use_ssl: use_ssl,
            }),
    {
        Self { server, port, username, password, use_ssl }
    }

    /// A copy of these parameters.
    pub fn copy(&self) -> (r: Self)
        ensures
            r@ == self@,
    {
        Self {
            server: self.server.clone(),
            port: self.port,
            username: self.username.clone(),
            password: self.password.clone(),
            use_ssl: self.use_ssl,
        }
    }

    pub fn server(&self) -> (r: &str)
        ensures
            r@ == self@.server,
    {
        self.server.as_str()
    }

    pub fn port(&self) -> (r: u16)
        ensures
            r == self@.port,
    {
        self.port
    }

    pub fn username(&self) -> (r: &str)
        ensures
            r@ == self@.username,
    {
        self.username.as_str()
    }

    pub fn password(&self) -> (r: &str)
        ensures
            r@ == self@.password,
    {
        self.password.as_str()
    }

    pub fn use_ssl(&self) -> (r: bool)
        ensures
            r == self@.use_ssl,
    {
        self.use_ssl
    }

    /// Adds to `acc` what `part` and the parts nested in it hold, depth
    /// first. On failure `acc` may hold a part of it.
    pub fn extract_parts(&self, part: &MimePart, acc: &mut Gathering) -> (r: Result<(), AppError>)
        ensures
            match gather_part(part@, old(acc)@) {
                Ok(all) => r is Ok && final(acc)@ == all,
                Err(why) => r is Err && r->Err_0.spec_kind() == ErrorKind::Internal
                    && r->Err_0.detail() == why,
            },
        decreases part,
    {
        proof {
            lemma_part_view(part);
        }
        let content_type = text_or_empty(first_header_value(&part.headers, "Content-Type"));
        let disposition = match first_header_value(&part.headers, "Content-Disposition") {
            Some(value) => Some(read_disposition(value.as_str())),
            None => None,
        };
        let marked = match &disposition {
            Some(d) => match &d.kind {
                DispositionKind::Attachment => true,
                _ => false,
            },
            None => false,
        };
        if marked {
            match &part.raw_body {
                Ok(data) => {
                    let filename = match &disposition {
                        Some(d) => match find_param(&d.params, "filename") {
                            Some(name) => name,
                            None => String::from_str("unnamed_attachment"),
                        },
                        None => String::from_str("unnamed_attachment"),
                    };
                    let ghost before = attachments_view(acc.attachments@);
                    let attachment = Attachment { filename, content_type, data: copy_bytes(data) };
                    acc.attachments.push(attachment);
                    assert(attachments_view(acc.attachments@) =~= before.push(attachment@));
                },
                Err(why) => {
                    let message = String::from_str("Failed to get attachment body: ").concat(
                        why.as_str(),
                    );
                    return Err(AppError::Internal(message));
                },
            }
        } else if text_contains(content_type.as_str(), "text/plain") {
            match &part.text_body {
                Ok(text) => {
                    acc.plain.append(text.as_str());
                    acc.has_plain = true;
                },
                Err(why) => {
                    let message = String::from_str("Failed to get email body: ").concat(
                        why.as_str(),
                    );
                    return Err(AppError::Internal(message));
                },
            }
        } else if text_contains(content_type.as_str(), "text/html") && !acc.has_plain
            && acc.html.as_str().is_empty() {
            match &part.text_body {
                Ok(text) => {
                    acc.html.append(text.as_str());
                },
                Err(why) => {
                    let message = String::from_str("Failed to get email body: ").concat(
                        why.as_str(),
                    );
                    return Err(AppError::Internal(message));
                },
            }
        }
        let ghost own = acc@;
        assert(gather_own(part@, old(acc)@) == Ok::<Gathered, Seq<char>>(own));
        let mut i: usize = 0;
        while i < part.subparts.len()
            invariant
                i <= part.subparts.len(),
                gather_own(part@, old(acc)@) == Ok::<Gathered, Seq<char>>(own),
                part@.subparts.len() == part.subparts.len(),
                forall|k: int|
                    0 <= k < part.subparts@.len() ==> part@.subparts[k] == (
                    #[trigger] part.subparts@[k])@,
                gather_parts(part@.subparts, 0, own) == gather_parts(
                    part@.subparts,
                    i as int,
                    acc@,
                ),
            decreases part.subparts.len() - i,
        {
            match self.extract_parts(&part.subparts[i], acc) {
                Ok(()) => {},
                Err(e) => {
                    return Err(e);
                },
            }
            i += 1;
        }
        Ok(())
    }

    /// The message that a parsed tree stands for.
    pub fn decompose(&self, root: &MimePart) -> (r: Result<EmailContent, AppError>)
        ensures
            match decomposed(root@) {
                Ok(message) => r is Ok && r->Ok_0@ == message,
                Err(why) => r is Err && r->Err_0@ == (AppErrorView {
                    kind: ErrorKind::Internal,
                    detail: why,
                }),
            },
    {
        let subject = text_or_empty(last_header_value(&root.headers, "subject"));
        let from = text_or_empty(last_header_value(&root.headers, "from"));
        let date = text_or_empty(last_header_value(&root.headers, "date"));
        let mut acc = Gathering::new();
        match self.extract_parts(root, &mut acc) {
            Ok(()) => {
                let body = if acc.has_plain {
                    acc.plain
                } else {
                    acc.html
                };
                Ok(EmailContent { subject, from, date, body, attachments: acc.attachments })
            },
            Err(e) => Err(e),
        }
    }

    /// Decomposes every message of a listing, each by itself: one that could
    /// not be fetched, parsed or decoded takes its own place as an error and
    /// leaves the others as they are.
    pub fn collect_messages(&self, fetched: &Vec<Result<Vec<u8>, String>>) -> (r: Vec<
        Result<EmailContent, AppError>,
    >)
        ensures
            messages_view(r@) == messages_of(all_fetched_view(fetched@)),
    {
        let mut out: Vec<Result<EmailContent, AppError>> = Vec::new();
        let mut i: usize = 0;
        while i < fetched.len()
            invariant
                i <= fetched.len(),
                out.len() == i,
                forall|k: int|
                    0 <= k < i ==> message_view(#[trigger] out@[k]) == message_of(
                        fetched_view(fetched@[k]),
                    ),
            decreases fetched.len() - i,
        {
            let message = match &fetched[i] {
                Ok(raw) => self.parse_email(raw.as_slice()),
                Err(why) => Err(
                    AppError::Transport(
                        String::from_str("Failed to fetch email: ").concat(why.as_str()),
                    ),
                ),
            };
            out.push(message);
            i += 1;
        }
        assert(messages_view(out@) =~= messages_of(all_fetched_view(fetched@)));
        out
    }

    /// Parses the bytes of one message and decomposes it. Bytes that do not
    /// parse give an error of class `Internal`.
    pub fn parse_email(&self, raw_body: &[u8]) -> (r: Result<EmailContent, AppError>)
        ensures
            message_view(r) == email_of(raw_body@),
    {
        match parse_message(raw_body) {
            Ok(root) => self.decompose(&root),
            Err(why) => {
                let message = String::from_str("Failed to parse email: ").concat(why.as_str());
                Err(AppError::Internal(message))
            },
        }
    }
}

} // verus!
