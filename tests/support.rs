use proofread::engine::{calculate_char_offset_to_byte, get_harper_category, map_harper_lint_kind, LintKind};
use proofread::error::{file_not_found, invalid_file_format, service_unavailable, validation_failed, tauri_result, AppError, ErrorCode, ToTauriResult};
use proofread::extensions::{FileType, SupportedExtensions};
use proofread::finding::{ErrorType, Severity};
use proofread::records::{clean_for_csv, BatchState, CSVExporterService, ExportOptions, PreprocessingOptions};
use proofread::sizes::format_file_size;
use proofread::stats::language_stats;

#[test]
fn language_stats_example() {
    let s = language_stats("Hello world. Bye!");
    assert_eq!(s.words, 3);
    assert_eq!(s.sentences, 2);
    assert!(s.characters_no_spaces >= 14);
    assert_eq!(s.characters_no_spaces, 15);
    assert_eq!(s.characters, 17);
    assert_eq!(s.paragraphs, 1);
    assert_eq!(s.reading_time_minutes, 1);
}

#[test]
fn language_stats_edges() {
    let e = language_stats("");
    assert_eq!((e.words, e.characters, e.sentences, e.paragraphs, e.reading_time_minutes), (0, 0, 0, 0, 0));
    let p = language_stats("a\n\nb\n\n\n\nc \u{a0}d");
    assert_eq!(p.paragraphs, 3);
    assert_eq!(p.words, 4);
    assert_eq!(p.characters, 12);
    let long = "w ".repeat(201);
    assert_eq!(language_stats(&long).reading_time_minutes, 2);
    assert_eq!(language_stats(&"w ".repeat(200)).reading_time_minutes, 1);
    assert_eq!(language_stats("...!? a").sentences, 1);
}

#[test]
fn char_index_to_byte_offset() {
    let b = "h\u{e9}llo".as_bytes().to_vec();
    assert_eq!(calculate_char_offset_to_byte(&b, 0), 0);
    assert_eq!(calculate_char_offset_to_byte(&b, 2), 3);
    assert_eq!(calculate_char_offset_to_byte(&b, 5), 6);
    assert_eq!(calculate_char_offset_to_byte(&b, 9), 6);
}

#[test]
fn lint_kind_table() {
    assert_eq!(map_harper_lint_kind(LintKind::Spelling), (ErrorType::Spelling, Severity::Error, 90));
    assert_eq!(map_harper_lint_kind(LintKind::Readability), (ErrorType::Clarity, Severity::Info, 60));
    assert_eq!(map_harper_lint_kind(LintKind::Unknown), (ErrorType::Other, Severity::Info, 50));
    assert_eq!(get_harper_category(LintKind::Miscellaneous), "Grammar");
    assert_eq!(get_harper_category(LintKind::BoundaryError), "Formatting");
}

#[test]
fn error_constructors() {
    let e = file_not_found("/x.png");
    assert_eq!(e.code, ErrorCode::FileNotFound);
    assert_eq!(e.message, "File not found: /x.png");
    assert_eq!(e.to_tauri_error(), "File not found: /x.png");
    let f = invalid_file_format("a.bin", "png");
    assert_eq!(f.to_tauri_error(), "Invalid file format for: a.bin: Expected: png");
    assert_eq!(service_unavailable("OCR").message, "OCR service is currently unavailable");
    let v = validation_failed("name", "empty");
    assert_eq!(v.code, ErrorCode::DataValidation);
    assert_eq!(v.details, Some("empty".to_string()));
    let w = AppError::with_details(ErrorCode::CsvExport, "bad", "why");
    assert_eq!(w.to_tauri_error(), "bad: why");
    assert_eq!(AppError::new(ErrorCode::InternalError, "m").details, None);
    let r: Result<u8, AppError> = Err(AppError::new(ErrorCode::InvalidInput, "no"));
    assert_eq!(r.to_tauri_result(), Err("no".to_string()));
    assert_eq!(tauri_result::<u8>(Ok(4)), Ok(4));
}

#[test]
fn extension_checks() {
    assert!(SupportedExtensions::is_image("photo.PNG"));
    assert!(SupportedExtensions::is_image("dir.v2/shot.jpeg"));
    assert!(!SupportedExtensions::is_image(".png"));
    assert!(!SupportedExtensions::is_image("png"));
    assert!(SupportedExtensions::is_video("clip.3gp"));
    assert!(SupportedExtensions::is_document("notes.txt/"));
    assert!(SupportedExtensions::is_image("foo.png/."));
    assert!(SupportedExtensions::is_image("dir/foo.png/./"));
    assert!(!SupportedExtensions::is_image("a.png/.."));
    assert!(!SupportedExtensions::is_image("./"));
    assert!(SupportedExtensions::is_pdf("a.tar.pdf"));
    assert!(!SupportedExtensions::is_pdf("a.pdf.gz"));
    assert_eq!(SupportedExtensions::get_all().len(), 24);
    let (i, v, d, p) = SupportedExtensions::get_by_category();
    assert_eq!((i.len(), v.len(), d.len(), p), (8, 10, 5, vec!["pdf".to_string()]));
    assert_eq!(SupportedExtensions::determine_file_type("mkv"), FileType::Video);
    assert_eq!(SupportedExtensions::determine_file_type("MKV"), FileType::Unknown);
    assert_eq!(SupportedExtensions::determine_file_type("pdf"), FileType::Pdf);
}

#[test]
fn csv_cleanup() {
    assert_eq!(clean_for_csv("a\"b\nc\td", 100), "a'b c d");
    assert_eq!(clean_for_csv("abcdefghij", 5), "ab...");
    assert_eq!(clean_for_csv("abcde", 5), "abcde");
    assert_eq!(clean_for_csv("\u{e9}\u{e9}\u{e9}", 5), "\u{e9}...");
    assert_eq!(CSVExporterService::clean_text_for_csv("  a \n\t b  ", 100), "a b");
    assert_eq!(CSVExporterService::clean_text_for_csv("abcdef", 3), "abc...");
    assert_eq!(CSVExporterService::clean_text_for_csv("", 3), "");
    assert_eq!(CSVExporterService::clean_text_for_csv("say \"hi\"", 50), "say \"hi\"");
}

#[test]
fn record_defaults() {
    let o = ExportOptions::default();
    assert_eq!((o.append_mode, o.include_headers, o.max_text_length), (true, true, 1000));
    let p = PreprocessingOptions::default();
    assert_eq!(p.threshold_method, "adaptive_gaussian");
    assert!(p.enhance_contrast && p.denoise && p.apply_morphology);
    let b = BatchState::default();
    assert!(!b.is_processing);
    assert_eq!(b.total_files, 0);
    let _ = CSVExporterService::new();
}

#[test]
fn file_sizes() {
    assert_eq!(format_file_size(0), "0 B");
    assert_eq!(format_file_size(512), "512 B");
    assert_eq!(format_file_size(1023), "1023 B");
    assert_eq!(format_file_size(1024), "1.0 KB");
    assert_eq!(format_file_size(1536), "1.5 KB");
    assert_eq!(format_file_size(1280), "1.2 KB");
    assert_eq!(format_file_size(1048576), "1.0 MB");
    assert_eq!(format_file_size(5 * 1073741824 + 536870912), "5.5 GB");
    assert_eq!(format_file_size(1099511627776 * 2048), "2048.0 TB");
    assert_eq!(format_file_size(u64::MAX), "16777216.0 TB");
}
