use docconv::pdf::{pdf_markdown_from_text, pdf_to_markdown};
use docconv::shell::{add_recent_file, get_label, language_from_lowered, normalize_language};
use docconv::ConversionError;

#[test]
fn pdf_text_follows_the_notice() {
    assert_eq!(
        pdf_markdown_from_text("Hello"),
        "> **Import Notice**: This PDF was imported as plain text.\n> Images, tables, and complex formatting have been removed.\n\nHello"
    );
}

#[test]
fn unreadable_pdf_is_an_error() {
    let err = pdf_to_markdown(Err("not a PDF".to_string())).unwrap_err();
    assert_eq!(err.message(), "Failed to extract PDF text: not a PDF");
    let ok = pdf_to_markdown(Ok("Body".to_string())).unwrap();
    assert!(ok.starts_with("> **Import Notice**") && ok.ends_with("\n\nBody"));
}

#[test]
fn labels_in_both_languages() {
    assert_eq!(get_label("en", "file_open"), "Open...");
    assert_eq!(get_label("zh", "file_open"), "開啟...");
    assert_eq!(get_label("fr", "view_theme"), "Theme");
    assert_eq!(get_label("zh", "unknown_key"), "unknown_key");
}

#[test]
fn languages_normalise_to_supported_ones() {
    assert_eq!(normalize_language("zh-TW"), "zh");
    assert_eq!(normalize_language("ZH"), "zh");
    assert_eq!(normalize_language("en-US"), "en");
    assert_eq!(normalize_language("fr"), "en");
    assert_eq!(language_from_lowered("zh-hant-tw"), "zh");
    assert_eq!(language_from_lowered("zhx"), "en");
}

#[test]
fn recent_files_move_to_front_and_cap_at_ten() {
    let list: Vec<String> = (0..10).map(|i| format!("f{}", i)).collect();
    let r = add_recent_file(&list, "f5");
    assert_eq!(r.len(), 10);
    assert_eq!(r[0], "f5");
    assert_eq!(r.iter().filter(|p| p.as_str() == "f5").count(), 1);
    let r = add_recent_file(&list, "new");
    assert_eq!(r.len(), 10);
    assert_eq!(r[0], "new");
    assert_eq!(r[9], "f8");
}

#[test]
fn conversion_error_messages() {
    let e = ConversionError::with_cause("Failed to read file", "missing");
    assert_eq!(e.message(), "Failed to read file: missing");
    let e: ConversionError = "plain".into();
    let s: String = e.into();
    assert_eq!(s, "plain");
    let e = ConversionError::from("owned".to_string());
    assert_eq!(e.0, "owned");
}
