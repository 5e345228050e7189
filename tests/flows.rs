use book_pages::catalog::{
    import_document, metadata_url, search_language, search_url, select_text_url,
    summarize_books, BookSummary, CatalogBook, FormatLink,
};
use book_pages::error::IngestError;
use book_pages::text::{concat_str, push_decimal};
use book_pages::translate::{
    first_translation, listen_address, plan_translation, translate_url, Config, TranslateQuery,
};
use book_pages::upload::{part_kind, upload_document, PartKind, UploadPart, UploadState};

fn book(formats: &[(&str, &str)]) -> CatalogBook {
    CatalogBook {
        id: 7,
        title: "Faust".to_string(),
        authors: vec!["Goethe, Johann Wolfgang von".to_string()],
        formats: formats
            .iter()
            .map(|(m, u)| FormatLink { mime: m.to_string(), url: u.to_string() })
            .collect(),
        download_count: 42,
    }
}

/// A one-page PDF that shows `text` in Helvetica.
fn tiny_pdf(text: &str) -> Vec<u8> {
    let content = format!("BT /F1 12 Tf 72 720 Td ({}) Tj ET", text);
    let objects = vec![
        "<< /Type /Catalog /Pages 2 0 R >>".to_string(),
        "<< /Type /Pages /Kids [3 0 R] /Count 1 >>".to_string(),
        "<< /Type /Page /Parent 2 0 R /MediaBox [0 0 612 792] /Contents 4 0 R /Resources << /Font << /F1 5 0 R >> >> >>".to_string(),
        format!("<< /Length {} >>\nstream\n{}\nendstream", content.len(), content),
        "<< /Type /Font /Subtype /Type1 /BaseFont /Helvetica /Encoding /WinAnsiEncoding >>".to_string(),
    ];
    let mut out = b"%PDF-1.4\n".to_vec();
    let mut offsets = Vec::new();
    for (i, o) in objects.iter().enumerate() {
        offsets.push(out.len());
        out.extend_from_slice(format!("{} 0 obj\n{}\nendobj\n", i + 1, o).as_bytes());
    }
    let xref = out.len();
    out.extend_from_slice(format!("xref\n0 {}\n0000000000 65535 f \n", objects.len() + 1).as_bytes());
    for off in offsets {
        out.extend_from_slice(format!("{:010} 00000 n \n", off).as_bytes());
    }
    out.extend_from_slice(
        format!("trailer\n<< /Size {} /Root 1 0 R >>\nstartxref\n{}\n%%EOF\n", objects.len() + 1, xref)
            .as_bytes(),
    );
    out
}

#[test]
fn html_only_book_has_no_text_to_fetch() {
    let b = book(&[("text/html", "https://example.org/faust.html")]);
    match select_text_url(&b) {
        Err(e) => {
            assert!(matches!(e, IngestError::NoPlainTextFormat));
            assert_eq!(e.message(), "No plain text format available for this book");
        }
        Ok(u) => panic!("unexpected url {}", u),
    }
}

#[test]
fn utf8_text_is_preferred() {
    let b = book(&[
        ("text/plain", "https://example.org/plain.txt"),
        ("text/html", "https://example.org/faust.html"),
        ("text/plain; charset=utf-8", "https://example.org/utf8.txt"),
    ]);
    assert_eq!(select_text_url(&b).unwrap(), "https://example.org/utf8.txt");
}

#[test]
fn plain_text_is_the_fallback() {
    let b = book(&[
        ("application/epub+zip", "https://example.org/faust.epub"),
        ("text/plain", "https://example.org/plain.txt"),
    ]);
    assert_eq!(select_text_url(&b).unwrap(), "https://example.org/plain.txt");
    let empty = book(&[]);
    assert!(matches!(select_text_url(&empty), Err(IngestError::NoPlainTextFormat)));
}

#[test]
fn upload_with_title_only_has_no_pages() {
    let mut st = UploadState::new();
    assert_eq!(part_kind(&"title".to_string()), PartKind::Title);
    st.on_title("Mein Buch".to_string());
    let doc = st.finish();
    assert_eq!(doc.title, "Mein Buch");
    assert!(doc.pages.is_empty());
}

#[test]
fn upload_without_parts_is_untitled() {
    let doc = UploadState::new().finish();
    assert_eq!(doc.title, "Untitled");
    assert!(doc.pages.is_empty());
}

#[test]
fn part_names_decide_their_role() {
    assert_eq!(part_kind(&"file".to_string()), PartKind::File);
    assert_eq!(part_kind(&"title".to_string()), PartKind::Title);
    assert_eq!(part_kind(&"Title".to_string()), PartKind::Other);
    assert_eq!(part_kind(&"".to_string()), PartKind::Other);
}

#[test]
fn upload_text_is_paginated() {
    let mut st = UploadState::new();
    st.on_text("eins  zwei\ndrei");
    st.on_title("Zahlen".to_string());
    let doc = st.finish();
    assert_eq!(doc.title, "Zahlen");
    assert_eq!(doc.pages, vec!["eins zwei drei"]);
}

#[test]
fn unreadable_file_is_an_extraction_error() {
    let mut st = UploadState::new();
    st.on_text("kept");
    let r = st.on_part(&UploadPart::File(Err("bad header".to_string())));
    match r {
        Err(IngestError::Extraction(m)) => assert_eq!(m, "bad header"),
        _ => panic!("expected an extraction error"),
    }
    assert_eq!(st.pages, vec!["kept"]);
    let r = upload_document(&vec![
        UploadPart::Title("T".to_string()),
        UploadPart::File(Err("broken".to_string())),
        UploadPart::File(Ok("later text".to_string())),
    ]);
    assert!(matches!(r, Err(IngestError::Extraction(m)) if m == "broken"));
}

#[test]
fn pdf_file_is_extracted_and_paginated() {
    let pdf = tiny_pdf("Hello paged world");
    let text = pdf_extract::extract_text_from_mem(&pdf).unwrap();
    assert!(text.contains("Hello"));
    let mut st = UploadState::new();
    st.on_part(&UploadPart::File(Ok(text))).unwrap();
    let doc = st.finish();
    assert_eq!(doc.pages, vec!["Hello paged world"]);
}

#[test]
fn upload_of_title_parts_only_keeps_the_last_title() {
    let doc = upload_document(&vec![
        UploadPart::Title("first".to_string()),
        UploadPart::Other,
        UploadPart::Title("second".to_string()),
    ])
    .unwrap();
    assert_eq!(doc.title, "second");
    assert!(doc.pages.is_empty());
}

#[test]
fn upload_parts_in_any_order() {
    let doc = upload_document(&vec![
        UploadPart::File(Ok("one two	three".to_string())),
        UploadPart::Title("Numbers".to_string()),
    ])
    .unwrap();
    assert_eq!(doc.title, "Numbers");
    assert_eq!(doc.pages, vec!["one two three"]);
    let doc = upload_document(&vec![]).unwrap();
    assert_eq!(doc.title, "Untitled");
    assert!(doc.pages.is_empty());
    let doc = upload_document(&vec![
        UploadPart::File(Ok("old".to_string())),
        UploadPart::File(Ok("   ".to_string())),
    ])
    .unwrap();
    assert!(doc.pages.is_empty());
}

#[test]
fn translation_without_credential_fails() {
    let config = Config { translation_key: None, port: None };
    let q = TranslateQuery { word: "Haus".to_string(), target_lang: None };
    match plan_translation(&config, q) {
        Err(e) => {
            assert!(matches!(e, IngestError::Configuration));
            assert_eq!(e.message(), "DEEPL_API_KEY not set");
        }
        Ok(_) => panic!("a call was planned without a credential"),
    }
}

#[test]
fn translation_call_carries_key_and_language() {
    let config = Config { translation_key: Some("k-123".to_string()), port: None };
    let call = plan_translation(&config, TranslateQuery { word: "Haus".to_string(), target_lang: None }).unwrap();
    assert_eq!(call.auth_header, "DeepL-Auth-Key k-123");
    assert_eq!(call.word, "Haus");
    assert_eq!(call.target_lang, "EN");
    let call = plan_translation(
        &config,
        TranslateQuery { word: "house".to_string(), target_lang: Some("DE".to_string()) },
    )
    .unwrap();
    assert_eq!(call.target_lang, "DE");
    assert_eq!(translate_url(), "https://api-free.deepl.com/v2/translate");
}

#[test]
fn first_translation_or_empty() {
    assert_eq!(first_translation(vec![]), "");
    assert_eq!(first_translation(vec!["house".to_string(), "home".to_string()]), "house");
}

#[test]
fn addresses_are_built() {
    assert_eq!(metadata_url(1342), "https://gutendex.com/books/1342");
    assert_eq!(metadata_url(0), "https://gutendex.com/books/0");
    assert_eq!(metadata_url(u64::MAX), format!("https://gutendex.com/books/{}", u64::MAX));
    assert_eq!(search_url(), "https://gutendex.com/books/");
    assert_eq!(listen_address(&Config { translation_key: None, port: None }), "0.0.0.0:3000");
    assert_eq!(
        listen_address(&Config { translation_key: None, port: Some("8080".to_string()) }),
        "0.0.0.0:8080"
    );
    let mut s = "n=".to_string();
    push_decimal(&mut s, 90210);
    assert_eq!(s, "n=90210");
    assert_eq!(concat_str("ab", "cd"), "abcd");
}

#[test]
fn search_language_defaults_to_german() {
    assert_eq!(search_language(None), "de");
    assert_eq!(search_language(Some("en".to_string())), "en");
}

#[test]
fn search_results_are_summarized_in_order() {
    let mut b2 = book(&[]);
    b2.id = 8;
    b2.title = "Werther".to_string();
    b2.authors = vec![];
    let s: Vec<BookSummary> = summarize_books(vec![book(&[("text/plain", "u")]), b2]);
    assert_eq!(s.len(), 2);
    assert_eq!(s[0].id, 7);
    assert_eq!(s[0].title, "Faust");
    assert_eq!(s[0].authors, vec!["Goethe, Johann Wolfgang von"]);
    assert_eq!(s[0].download_count, 42);
    assert_eq!(s[1].id, 8);
    assert!(s[1].authors.is_empty());
}

#[test]
fn imported_book_keeps_its_title() {
    let doc = import_document(book(&[]), "Habe nun, ach!\nPhilosophie,\n");
    assert_eq!(doc.title, "Faust");
    assert_eq!(doc.pages, vec!["Habe nun, ach! Philosophie,"]);
}

#[test]
fn error_messages_are_flat() {
    assert_eq!(IngestError::Extraction("bad xref".to_string()).message(), "bad xref");
    assert_eq!(IngestError::Multipart("framing".to_string()).message(), "framing");
    assert_eq!(IngestError::CatalogLookup("404".to_string()).message(), "404");
    assert_eq!(IngestError::RemoteFetch("timeout".to_string()).message(), "timeout");
}
