use light_translator::gateway::CommandOutcome;
use light_translator::probe::{
    dependency_status, first_line, install_ocr_dependencies, install_prompt_message,
    lines_after_header,
};

fn launched(exit_success: bool, stdout: &str) -> CommandOutcome {
    CommandOutcome::Launched {
        exit_success,
        stdout: stdout.to_string(),
        stderr: String::new(),
    }
}

fn not_found(tool: &str) -> CommandOutcome {
    CommandOutcome::LaunchFailed { message: format!("{} not found", tool) }
}

#[test]
fn first_line_reads_the_version_header() {
    assert_eq!(first_line("tesseract 5.3.0\nleptonica-1.82.0\n"), "tesseract 5.3.0");
    assert_eq!(first_line("single"), "single");
    assert_eq!(first_line(""), "");
}

#[test]
fn language_list_skips_the_header_line() {
    let langs = lines_after_header("List of available languages (3):\nchi_sim\neng\njpn\n");
    assert_eq!(langs, vec!["chi_sim", "eng", "jpn"]);
    assert_eq!(lines_after_header("header only\n"), Vec::<String>::new());
    assert_eq!(lines_after_header(""), Vec::<String>::new());
}

#[test]
fn missing_tooling_degrades_to_empty_status() {
    let status = dependency_status(
        &not_found("tesseract"),
        &not_found("tesseract"),
        &not_found("gnome-screenshot"),
    );
    assert!(!status.tesseract_installed);
    assert_eq!(status.tesseract_version, None);
    assert!(status.languages.is_empty());
    assert!(!status.gnome_screenshot_installed);
}

#[test]
fn installed_tooling_reports_version_and_languages() {
    let status = dependency_status(
        &launched(true, "tesseract 5.3.0\nleptonica-1.82.0\n"),
        &launched(true, "List of available languages (2):\neng\njpn\n"),
        &launched(true, "/usr/bin/gnome-screenshot\n"),
    );
    assert!(status.tesseract_installed);
    assert_eq!(status.tesseract_version.as_deref(), Some("tesseract 5.3.0"));
    assert_eq!(status.languages, vec!["eng", "jpn"]);
    assert!(status.gnome_screenshot_installed);
}

#[test]
fn failed_language_query_degrades_to_empty_list() {
    let status = dependency_status(
        &launched(true, "tesseract 5.3.0\n"),
        &launched(false, ""),
        &launched(false, ""),
    );
    assert!(status.tesseract_installed);
    assert!(status.languages.is_empty());
    assert!(!status.gnome_screenshot_installed);
}

#[test]
fn install_is_always_a_manual_instruction() {
    let err = install_ocr_dependencies().unwrap_err();
    assert!(err.starts_with("Please install OCR dependencies manually:"));
    assert!(err.contains("tesseract-ocr"));
    assert!(err.contains("gnome-screenshot"));
}

#[test]
fn prompt_message_appends_the_question() {
    assert_eq!(
        install_prompt_message("Tesseract is missing."),
        "Tesseract is missing.\n\nWould you like to install OCR dependencies?"
    );
}
