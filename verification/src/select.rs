//! The content selector: which part of a message is handed to the converter.

use vstd::prelude::*;
use vstd::string::{StrSliceExecFns, StringExecFns};
use vstd::utf8::encode_utf8;
use crate::model::{
    attachments_view, copy_bytes, Attachment, AttachmentView, EmailContent, EmailContentView,
};
use crate::text::{contains_ignore_case, text_contains_ignore_case};

verus! {

/// Whether an attachment declares itself a PDF.
pub open spec fn is_pdf(a: AttachmentView) -> bool {
    contains_ignore_case(a.content_type, "pdf"@)
}

/// Whether an attachment declares itself a JPEG or PNG image.
pub open spec fn is_image(a: AttachmentView) -> bool {
    contains_ignore_case(a.content_type, "image/jpeg"@) || contains_ignore_case(
        a.content_type,
        "image/png"@,
    )
}

/// The extension under which an image is handed to the converter.
pub open spec fn image_extension(a: AttachmentView) -> Seq<char> {
    if contains_ignore_case(a.content_type, "jpeg"@) {
        ".jpg"@
    } else {
        ".png"@
    }
}

/// Whether the attachment at index `i` is the first PDF.
pub open spec fn is_first_pdf(attachments: Seq<AttachmentView>, i: int) -> bool {
    &&& 0 <= i < attachments.len()
    &&& is_pdf(attachments[i])
    &&& forall|j: int| 0 <= j < i ==> !is_pdf(attachments[j])
}

/// Whether the attachment at index `i` is the first image.
pub open spec fn is_first_image(attachments: Seq<AttachmentView>, i: int) -> bool {
    &&& 0 <= i < attachments.len()
    &&& is_image(attachments[i])
    &&& forall|j: int| 0 <= j < i ==> !is_image(attachments[j])
}

/// What is handed to the converter for one message.
#[derive(Clone, Debug, PartialEq, Eq)]
pub struct ContentChoice {
    pub data: Vec<u8>,
    /// A hint of what the data is: `.pdf`, `.jpg`, `.png` or `.html`.
    pub extension: String,
    /// The index of the attachment that was chosen; `None` for the body.
    pub attachment: Option<usize>,
}

pub struct ContentChoiceView {
    pub data: Seq<u8>,
    pub extension: Seq<char>,
    pub attachment: Option<int>,
}

impl View for ContentChoice {
    type V = ContentChoiceView;

    open spec fn view(&self) -> ContentChoiceView {
        ContentChoiceView {
            data: self.data@,
            extension: self.extension@,
            attachment: match self.attachment {
                Some(i) => Some(i as int),
                None => None,
            },
        }
    }
}

/// The index of the first PDF among the attachments, if there is one.
pub open spec fn first_pdf(attachments: Seq<AttachmentView>) -> Option<int> {
    if exists|i: int| is_first_pdf(attachments, i) {
        Some(choose|i: int| is_first_pdf(attachments, i))
    } else {
        None
    }
}

/// The index of the first image among the attachments, if there is one.
pub open spec fn first_image(attachments: Seq<AttachmentView>) -> Option<int> {
    if exists|i: int| is_first_image(attachments, i) {
        Some(choose|i: int| is_first_image(attachments, i))
    } else {
        None
    }
}

/// What is handed to the converter for `email`: the first PDF attachment;
/// where there is none, the first JPEG or PNG attachment; where there is none
/// either, the body, as HTML in UTF-8.
pub open spec fn best_content(email: EmailContentView) -> ContentChoiceView {
    match first_pdf(email.attachments) {
        Some(i) => ContentChoiceView {
            data: email.attachments[i].data,
            extension: ".pdf"@,
            attachment: Some(i),
        },
        None => match first_image(email.attachments) {
            Some(i) => ContentChoiceView {
                data: email.attachments[i].data,
                extension: image_extension(email.attachments[i]),
                attachment: Some(i),
            },
            None => ContentChoiceView {
                data: encode_utf8(email.body),
                extension: ".html"@,
                attachment: None,
            },
        },
    }
}

proof fn lemma_first_pdf(attachments: Seq<AttachmentView>, i: int)
    requires
        is_first_pdf(attachments, i),
    ensures
        first_pdf(attachments) == Some(i),
{
    let k = choose|k: int| is_first_pdf(attachments, k);
    if k < i {
        assert(!is_pdf(attachments[k]));
    } else if i < k {
        assert(!is_pdf(attachments[i]));
    }
}

proof fn lemma_first_image(attachments: Seq<AttachmentView>, i: int)
    requires
        is_first_image(attachments, i),
    ensures
        first_image(attachments) == Some(i),
{
    let k = choose|k: int| is_first_image(attachments, k);
    if k < i {
        assert(!is_image(attachments[k]));
    } else if i < k {
        assert(!is_image(attachments[i]));
    }
}

/// The index of the first PDF among the attachments.
fn find_pdf(attachments: &Vec<Attachment>) -> (r: Option<usize>)
    ensures
        match r {
            Some(i) => first_pdf(attachments_view(attachments@)) == Some(i as int) && i
                < attachments.len(),
            None => first_pdf(attachments_view(attachments@)) is None,
        },
{
    let mut i: usize = 0;
    while i < attachments.len()
        invariant
            i <= attachments.len(),
            forall|j: int| 0 <= j < i ==> !is_pdf(attachments_view(attachments@)[j]),
        decreases attachments.len() - i,
    {
        if text_contains_ignore_case(attachments[i].content_type.as_str(), "pdf") {
            proof {
                lemma_first_pdf(attachments_view(attachments@), i as int);
            }
            return Some(i);
        }
        i += 1;
    }
    None
}

/// The index of the first image among the attachments.
fn find_image(attachments: &Vec<Attachment>) -> (r: Option<usize>)
    ensures
        match r {
            Some(i) => first_image(attachments_view(attachments@)) == Some(i as int) && i
                < attachments.len(),
            None => first_image(attachments_view(attachments@)) is None,
        },
{
    let mut i: usize = 0;
    while i < attachments.len()
        invariant
            i <= attachments.len(),
            forall|j: int| 0 <= j < i ==> !is_image(attachments_view(attachments@)[j]),
        decreases attachments.len() - i,
    {
        let content_type = attachments[i].content_type.as_str();
        if text_contains_ignore_case(content_type, "image/jpeg") || text_contains_ignore_case(
            content_type,
            "image/png",
        ) {
            proof {
                lemma_first_image(attachments_view(attachments@), i as int);
            }
            return Some(i);
        }
        i += 1;
    }
    None
}

/// Picks what is handed to the converter for `email`.
pub fn choose_content(email: &EmailContent) -> (choice: ContentChoice)
    ensures
        choice@ == best_content(email@),
        choice.attachment is Some ==> choice.attachment->0 < email.attachments.len(),
{
    let choice = match find_pdf(&email.attachments) {
        Some(i) => ContentChoice {
            data: copy_bytes(&email.attachments[i].data),
            extension: String::from_str(".pdf"),
            attachment: Some(i),
        },
        None => match find_image(&email.attachments) {
            Some(i) => {
                let extension = if text_contains_ignore_case(
                    email.attachments[i].content_type.as_str(),
                    "jpeg",
                ) {
                    ".jpg"
                } else {
                    ".png"
                };
                ContentChoice {
                    data: copy_bytes(&email.attachments[i].data),
                    extension: String::from_str(extension),
                    attachment: Some(i),
                }
            },
            None => ContentChoice {
                data: email.body.as_str().as_bytes_vec(),
                extension: String::from_str(".html"),
                attachment: None,
            },
        },
    };
    choice
}

} // verus!
