use subscript::error::{AppError, ErrorKind};
use subscript::imap::{
    find_param, first_header_value, last_header_value, Gathering, ImapService,
};
use subscript::mime::{HeaderField, MimePart};
use subscript::model::Attachment;

fn service() -> ImapService {
    ImapService::new("imap.example.com".to_string(), 993, "me".to_string(), "pw".to_string(), true)
}

fn lines(parts: &[&str]) -> String {
    let mut out = String::new();
    for part in parts {
        out.push_str(part);
    }
    out
}

fn header(key: &str, value: &str) -> HeaderField {
    HeaderField { key: key.to_string(), value: value.to_string() }
}

fn leaf(headers: Vec<HeaderField>, text: &str) -> MimePart {
    MimePart {
        headers,
        raw_body: Ok(text.as_bytes().to_vec()),
        text_body: Ok(text.to_string()),
        subparts: vec![],
    }
}

#[test]
fn imap_service_keeps_its_parameters() {
    let s = service();
    assert_eq!(s.server(), "imap.example.com");
    assert_eq!(s.port(), 993);
    assert_eq!(s.username(), "me");
    assert_eq!(s.password(), "pw");
    assert!(s.use_ssl());
    assert_eq!(s.copy(), s);
}

#[test]
fn a_plain_message_is_decomposed() {
    let raw = lines(&[
        "Subject: Your receipt\n",
        "From: Shop <billing@shop.example>\n",
        "Date: Sun, 02 Oct 2016 07:06:22 -0700\n",
        "Content-Type: text/plain\n",
        "\n",
        "Thank you for paying 5 USD."
    ]);
    let m = service().parse_email(raw.as_bytes()).unwrap();
    assert_eq!(m.subject, "Your receipt");
    assert_eq!(m.from, "Shop <billing@shop.example>");
    assert_eq!(m.date, "Sun, 02 Oct 2016 07:06:22 -0700");
    assert_eq!(m.body, "Thank you for paying 5 USD.");
    assert!(m.attachments.is_empty());
}

#[test]
fn header_names_are_matched_without_case_and_the_last_wins() {
    let raw = lines(&["SUBJECT: first\n", "subject: second\n", "X-Other: x\n", "\n", "b"]);
    let m = service().parse_email(raw.as_bytes()).unwrap();
    assert_eq!(m.subject, "second");
    assert_eq!(m.from, "");
    assert_eq!(m.date, "");
}

#[test]
fn encoded_words_and_transfer_encodings_are_decoded() {
    let raw = lines(&[
        "Subject: =?iso-8859-1?Q?=A1Hola,_se=F1or!?=\n",
        "Content-Type: text/plain; charset=utf-8\n",
        "Content-Transfer-Encoding: quoted-printable\n",
        "\n",
        "Proof by Euro: =E2=82=AC"
    ]);
    let m = service().parse_email(raw.as_bytes()).unwrap();
    assert_eq!(m.subject, "\u{a1}Hola, se\u{f1}or!");
    assert_eq!(m.body, "Proof by Euro: \u{20AC}");
}

#[test]
fn plain_text_wins_over_html_in_either_order() {
    let plain_first = lines(&[
        "Subject: a\n",
        "Content-Type: multipart/alternative; boundary=foobar\n",
        "\n",
        "--foobar\n",
        "Content-Type: text/plain; charset=utf-8\n",
        "\n",
        "plain one\n",
        "--foobar\n",
        "Content-Type: text/html\n",
        "\n",
        "<p>html</p>\n",
        "--foobar\n",
        "Content-Type: text/plain\n",
        "\n",
        "plain two\n",
        "--foobar--\n"
    ]);
    let m = service().parse_email(plain_first.as_bytes()).unwrap();
    assert_eq!(m.body, "plain oneplain two");

    let html_first = lines(&[
        "Subject: a\n",
        "Content-Type: multipart/alternative; boundary=foobar\n",
        "\n",
        "--foobar\n",
        "Content-Type: text/html\n",
        "\n",
        "<p>html</p>\n",
        "--foobar\n",
        "Content-Type: text/plain\n",
        "\n",
        "plain\n",
        "--foobar--\n"
    ]);
    let m = service().parse_email(html_first.as_bytes()).unwrap();
    assert_eq!(m.body, "plain");
}

#[test]
fn html_alone_is_the_body_as_it_is() {
    let raw = lines(&[
        "Subject: a\n",
        "Content-Type: multipart/mixed; boundary=foobar\n",
        "\n",
        "--foobar\n",
        "Content-Type: text/html\n",
        "\n",
        "<p>first &amp; only</p>\n",
        "--foobar\n",
        "Content-Type: text/html\n",
        "\n",
        "<p>second</p>\n",
        "--foobar--\n"
    ]);
    let m = service().parse_email(raw.as_bytes()).unwrap();
    assert_eq!(m.body, "<p>first &amp; only</p>");
}

#[test]
fn attachments_are_taken_in_depth_first_order() {
    let raw = lines(&[
        "Subject: files\n",
        "Content-Type: multipart/mixed; boundary=outer\n",
        "\n",
        "--outer\n",
        "Content-Type: multipart/mixed; boundary=inner\n",
        "\n",
        "--inner\n",
        "Content-Type: application/pdf\n",
        "Content-Disposition: attachment; filename=\"invoice one.pdf\"\n",
        "Content-Transfer-Encoding: base64\n",
        "\n",
        "aGVsbG8=\n",
        "--inner\n",
        "Content-Type: text/plain\n",
        "\n",
        "inner text\n",
        "--inner--\n",
        "--outer\n",
        "Content-Type: image/png\n",
        "Content-Disposition: attachment\n",
        "\n",
        "PNGDATA\n",
        "--outer\n",
        "Content-Type: text/plain\n",
        "Content-Disposition: attachment; filename=notes.txt\n",
        "\n",
        "not part of the body\n",
        "--outer--\n"
    ]);
    let m = service().parse_email(raw.as_bytes()).unwrap();
    assert_eq!(m.body, "inner text");
    assert_eq!(
        m.attachments,
        vec![
            Attachment {
                filename: "invoice one.pdf".to_string(),
                content_type: "application/pdf".to_string(),
                data: b"hello".to_vec(),
            },
            Attachment {
                filename: "unnamed_attachment".to_string(),
                content_type: "image/png".to_string(),
                data: b"PNGDATA".to_vec(),
            },
            Attachment {
                filename: "notes.txt".to_string(),
                content_type: "text/plain".to_string(),
                data: b"not part of the body".to_vec(),
            },
        ]
    );
}

#[test]
fn the_type_of_the_disposition_marks_an_attachment() {
    let inline = lines(&[
        "Subject: files\n",
        "Content-Type: text/plain\n",
        "Content-Disposition: inline; filename=\"my attachment.txt\"\n",
        "\n",
        "shown in place",
    ]);
    let m = service().parse_email(inline.as_bytes()).unwrap();
    assert_eq!(m.body, "shown in place");
    assert!(m.attachments.is_empty());

    let capitals = lines(&[
        "Subject: files\n",
        "Content-Type: application/pdf\n",
        "Content-Disposition: ATTACHMENT; FileName=a.pdf\n",
        "\n",
        "PDF",
    ]);
    let m = service().parse_email(capitals.as_bytes()).unwrap();
    assert_eq!(m.body, "");
    assert_eq!(m.attachments.len(), 1);
    assert_eq!(m.attachments[0].filename, "a.pdf");
    assert_eq!(m.attachments[0].data, b"PDF".to_vec());

    let other = lines(&[
        "Subject: files\n",
        "Content-Type: text/plain\n",
        "Content-Disposition: form-data; name=attachment\n",
        "\n",
        "a field",
    ]);
    let m = service().parse_email(other.as_bytes()).unwrap();
    assert_eq!(m.body, "a field");
    assert!(m.attachments.is_empty());
}

#[test]
fn an_attachment_that_cannot_be_decoded_fails_the_message() {
    let raw = lines(&[
        "Subject: files\n",
        "Content-Type: application/pdf\n",
        "Content-Disposition: attachment; filename=a.pdf\n",
        "Content-Transfer-Encoding: base64\n",
        "\n",
        "!!!!\n"
    ]);
    let e = service().parse_email(raw.as_bytes()).unwrap_err();
    assert_eq!(e.kind(), ErrorKind::Internal);
    assert!(e.message().starts_with("Failed to get attachment body: "));
}

#[test]
fn bytes_that_do_not_parse_give_an_internal_error() {
    let e = service().parse_email(b" x: y\n\nbody").unwrap_err();
    assert!(matches!(e, AppError::Internal(_)));
    assert!(e.message().starts_with("Failed to parse email: "));
}

#[test]
fn a_part_that_declares_no_type_adds_nothing() {
    let m = service().parse_email(b"Subject: bare\n\nsome text").unwrap();
    assert_eq!(m.subject, "bare");
    assert_eq!(m.body, "");
}

#[test]
fn an_empty_message_has_empty_fields() {
    let m = service().parse_email(b"").unwrap();
    assert_eq!(m.subject, "");
    assert_eq!(m.body, "");
    assert!(m.attachments.is_empty());
}

#[test]
fn a_listing_is_decomposed_message_by_message() {
    let fetched = vec![
        Ok(b"Subject: one\n\nfirst".to_vec()),
        Err("connection reset".to_string()),
        Ok(b" broken".to_vec()),
        Ok(b"Subject: four\nContent-Type: text/plain\n\nfourth".to_vec()),
    ];
    let messages = service().collect_messages(&fetched);
    assert_eq!(messages.len(), 4);
    assert_eq!(messages[0].as_ref().unwrap().subject, "one");
    assert_eq!(messages[1].as_ref().unwrap_err().kind(), ErrorKind::Transport);
    assert_eq!(
        messages[1].as_ref().unwrap_err().message(),
        "Failed to fetch email: connection reset"
    );
    assert_eq!(messages[2].as_ref().unwrap_err().kind(), ErrorKind::Internal);
    assert_eq!(messages[3].as_ref().unwrap().body, "fourth");
    assert!(service().collect_messages(&vec![]).is_empty());
}

#[test]
fn header_lookups_pick_the_first_and_the_last() {
    let headers = vec![header("A", "1"), header("b", "2"), header("a", "3"), header("B", "4")];
    assert_eq!(first_header_value(&headers, "a"), Some("1".to_string()));
    assert_eq!(last_header_value(&headers, "A"), Some("3".to_string()));
    assert_eq!(first_header_value(&headers, "B"), Some("2".to_string()));
    assert_eq!(last_header_value(&headers, "b"), Some("4".to_string()));
    assert_eq!(first_header_value(&headers, "c"), None);
    assert_eq!(last_header_value(&vec![], "a"), None);
}

#[test]
fn a_parameter_is_found_by_its_exact_name() {
    let params = vec![header("filename", "a.pdf"), header("size", "3")];
    assert_eq!(find_param(&params, "filename"), Some("a.pdf".to_string()));
    assert_eq!(find_param(&params, "size"), Some("3".to_string()));
    assert_eq!(find_param(&params, "Filename"), None);
    assert_eq!(find_param(&vec![], "filename"), None);
}

#[test]
fn a_tree_is_walked_depth_first() {
    let tree = MimePart {
        headers: vec![header("Content-Type", "multipart/mixed")],
        raw_body: Ok(vec![]),
        text_body: Ok(String::new()),
        subparts: vec![
            MimePart {
                headers: vec![header("content-type", "multipart/alternative")],
                raw_body: Ok(vec![]),
                text_body: Ok(String::new()),
                subparts: vec![
                    leaf(vec![header("Content-Type", "text/html")], "<b>h</b>"),
                    leaf(vec![header("Content-Type", "text/plain; charset=utf-8")], "one "),
                ],
            },
            leaf(vec![header("Content-Type", "text/plain")], "two"),
            leaf(
                vec![
                    header("Content-Type", "application/pdf"),
                    header("Content-Disposition", "attachment; filename=\"a.pdf\""),
                ],
                "PDF",
            ),
            leaf(vec![header("Content-Type", "text/html")], "<i>late</i>"),
        ],
    };
    let mut acc = Gathering::new();
    service().extract_parts(&tree, &mut acc).unwrap();
    assert_eq!(acc.html, "<b>h</b>");
    assert_eq!(acc.plain, "one two");
    assert!(acc.has_plain);
    assert_eq!(acc.attachments.len(), 1);
    assert_eq!(acc.attachments[0].filename, "a.pdf");
    assert_eq!(acc.attachments[0].data, b"PDF".to_vec());

    let m = service().decompose(&tree).unwrap();
    assert_eq!(m.body, "one two");
    assert_eq!(m.subject, "");
}

#[test]
fn a_text_part_that_cannot_be_decoded_fails_the_walk() {
    let tree = MimePart {
        headers: vec![header("Content-Type", "text/plain")],
        raw_body: Ok(vec![]),
        text_body: Err("bad charset".to_string()),
        subparts: vec![],
    };
    let e = service().decompose(&tree).unwrap_err();
    assert_eq!(e.kind(), ErrorKind::Internal);
    assert_eq!(e.message(), "Failed to get email body: bad charset");

    let skipped = MimePart {
        headers: vec![header("Content-Type", "application/octet-stream")],
        raw_body: Err("x".to_string()),
        text_body: Err("y".to_string()),
        subparts: vec![],
    };
    assert_eq!(service().decompose(&skipped).unwrap().body, "");
}
