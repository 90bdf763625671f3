use subscript::markitdown::MarkItDownService;
use subscript::error::ErrorKind;
use subscript::model::{Attachment, EmailContent};
use subscript::select::choose_content;
use subscript::sync::SyncService;

fn attachment(name: &str, content_type: &str, data: &[u8]) -> Attachment {
    Attachment {
        filename: name.to_string(),
        content_type: content_type.to_string(),
        data: data.to_vec(),
    }
}

fn email(body: &str, attachments: Vec<Attachment>) -> EmailContent {
    EmailContent {
        subject: "s".to_string(),
        from: "f".to_string(),
        date: "d".to_string(),
        body: body.to_string(),
        attachments,
    }
}

#[test]
fn the_first_pdf_is_chosen_before_any_image() {
    let m = email(
        "<p>body</p>",
        vec![
            attachment("a.png", "image/png", b"png"),
            attachment("b.txt", "text/plain", b"txt"),
            attachment("c.pdf", "Application/PDF; name=c.pdf", b"first pdf"),
            attachment("d.pdf", "application/pdf", b"second pdf"),
        ],
    );
    let choice = choose_content(&m);
    assert_eq!(choice.data, b"first pdf".to_vec());
    assert_eq!(choice.extension, ".pdf");
    assert_eq!(choice.attachment, Some(2));
    assert_eq!(SyncService::extract_best_content(&m), choice);
}

#[test]
fn the_first_image_is_chosen_where_there_is_no_pdf() {
    let m = email(
        "body",
        vec![
            attachment("a.gif", "image/gif", b"gif"),
            attachment("b.png", "IMAGE/PNG", b"png"),
            attachment("c.jpg", "image/jpeg", b"jpg"),
        ],
    );
    let choice = choose_content(&m);
    assert_eq!(choice.data, b"png".to_vec());
    assert_eq!(choice.extension, ".png");
    assert_eq!(choice.attachment, Some(1));

    let m = email("body", vec![attachment("c", "image/JPEG", b"jpg")]);
    let choice = choose_content(&m);
    assert_eq!(choice.extension, ".jpg");
    assert_eq!(choice.attachment, Some(0));

    let m = email("body", vec![attachment("c", "image/png; name=\"photo.jpeg\"", b"x")]);
    assert_eq!(choose_content(&m).extension, ".jpg");
}

#[test]
fn the_body_is_chosen_where_no_attachment_fits() {
    let m = email("<p>caf\u{e9}</p>", vec![attachment("a.gif", "image/gif", b"gif")]);
    let choice = choose_content(&m);
    assert_eq!(choice.data, "<p>caf\u{e9}</p>".as_bytes().to_vec());
    assert_eq!(choice.extension, ".html");
    assert_eq!(choice.attachment, None);

    let choice = choose_content(&email("", vec![]));
    assert_eq!(choice.data, Vec::<u8>::new());
    assert_eq!(choice.extension, ".html");
}

#[test]
fn the_converter_is_run_as_a_python_module() {
    assert_eq!(MarkItDownService::program(), "python3");
    assert_eq!(MarkItDownService::version_args(), vec!["-m", "markitdown", "--version"]);
    assert_eq!(MarkItDownService::install_args(), vec!["-m", "pip", "install", "markitdown"]);
    assert_eq!(
        MarkItDownService::convert_args("/tmp/x y.pdf"),
        vec!["-m", "markitdown", "/tmp/x y.pdf"]
    );
}

#[test]
fn a_run_of_the_converter_is_read_by_its_exit() {
    assert_eq!(
        MarkItDownService::read_conversion(true, "# Title\n".to_string(), "warning").unwrap(),
        "# Title\n"
    );
    let e = MarkItDownService::read_conversion(false, "partial".to_string(), "no such file")
        .unwrap_err();
    assert_eq!(e.kind(), ErrorKind::Conversion);
    assert_eq!(e.message(), "MarkItDown failed: no such file");
    assert!(MarkItDownService::read_install(true, "noise").is_ok());
    let e = MarkItDownService::read_install(false, "no network").unwrap_err();
    assert_eq!(e.kind(), ErrorKind::Conversion);
    assert_eq!(e.message(), "Failed to install markitdown: no network");
}
