use light_translator::gateway::CommandOutcome;
use light_translator::ocr::{
    capture_outcome, data_url_of, ocr_outcome, prepare_image, strip_data_url,
};
use light_translator::text::clean_text;

fn launched(exit_success: bool, stdout: &str, stderr: &str) -> CommandOutcome {
    CommandOutcome::Launched {
        exit_success,
        stdout: stdout.to_string(),
        stderr: stderr.to_string(),
    }
}

#[test]
fn strip_removes_everything_up_to_first_comma() {
    assert_eq!(strip_data_url("data:image/png;base64,aGVsbG8="), "aGVsbG8=");
    assert_eq!(strip_data_url("aGVsbG8="), "aGVsbG8=");
    assert_eq!(strip_data_url("a,b,c"), "b,c");
    assert_eq!(strip_data_url(""), "");
}

#[test]
fn wrapped_and_raw_payloads_decode_identically() {
    let raw = prepare_image("aGVsbG8=").expect("raw payload decodes");
    let wrapped = prepare_image("data:image/png;base64,aGVsbG8=").expect("data URL decodes");
    assert_eq!(raw, b"hello".to_vec());
    assert_eq!(raw, wrapped);
}

#[test]
fn malformed_base64_is_an_error() {
    assert!(prepare_image("!!!not base64!!!").is_err());
    assert!(prepare_image("data:image/png;base64,???").is_err());
}

#[test]
fn data_url_wraps_encoded_bytes() {
    let url = data_url_of(&b"hello".to_vec());
    assert_eq!(url, "data:image/png;base64,aGVsbG8=");
    let bytes = prepare_image(&url).expect("round trip decodes");
    assert_eq!(bytes, b"hello".to_vec());
}

#[test]
fn clean_text_drops_blank_lines_and_joins_with_spaces() {
    assert_eq!(clean_text("line1\n\nline2\n"), "line1 line2");
    assert_eq!(clean_text("a\n \t \nb\n\n\nc"), "a b c");
    assert_eq!(clean_text(""), "");
    assert_eq!(clean_text("\n\n \n"), "");
    assert_eq!(clean_text("solo"), "solo");
    assert_eq!(clean_text("a\r\nb"), "a b");
}

#[test]
fn successful_engine_run_yields_normalized_text() {
    let r = ocr_outcome(&launched(true, "Hello\n\nWorld\n", "")).expect("launched run settles");
    assert!(r.success);
    assert_eq!(r.text.as_deref(), Some("Hello World"));
    assert!(r.error.is_none());
}

#[test]
fn failed_engine_run_reports_stderr_verbatim() {
    let r = ocr_outcome(&launched(false, "", "no such language")).expect("launched run settles");
    assert!(!r.success);
    assert!(r.text.is_none());
    assert_eq!(r.error.as_deref(), Some("no such language"));
}

#[test]
fn unlaunchable_engine_is_a_command_error() {
    let r = ocr_outcome(&CommandOutcome::LaunchFailed {
        message: "Failed to run tesseract: not found".to_string(),
    });
    assert_eq!(r.unwrap_err(), "Failed to run tesseract: not found");
}

#[test]
fn cancelled_screenshot_is_absence_not_error() {
    let r = capture_outcome(&launched(false, "", ""), None);
    assert_eq!(r.expect("cancellation settles"), None);
}

#[test]
fn screenshot_without_output_file_is_absence() {
    let r = capture_outcome(&launched(true, "", ""), None);
    assert_eq!(r.expect("missing file settles"), None);
}

#[test]
fn captured_bytes_come_back_as_a_data_url() {
    let r = capture_outcome(&launched(true, "", ""), Some(b"hello".to_vec()));
    assert_eq!(r.expect("capture settles").as_deref(), Some("data:image/png;base64,aGVsbG8="));
}

#[test]
fn unlaunchable_screenshot_tool_is_a_command_error() {
    let r = capture_outcome(
        &CommandOutcome::LaunchFailed { message: "Failed to run gnome-screenshot".to_string() },
        None,
    );
    assert_eq!(r.unwrap_err(), "Failed to run gnome-screenshot");
}
