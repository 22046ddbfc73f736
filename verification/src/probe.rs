//! The dependency-health probe: turns the OCR engine's version and
//! language queries and the screenshot-tool presence check into a
//! structured status.  Every sub-probe failure degrades to "not installed"
//! or an empty list; probing never fails.

use vstd::prelude::*;
use crate::text::{lines_of, lines_vec};
use crate::gateway::CommandOutcome;

verus! {

/// What the dependency probe reports.
#[derive(Debug)]
pub struct OcrDependencyStatus {
    pub tesseract_installed: bool,
    pub tesseract_version: Option<String>,
    pub languages: Vec<String>,
    pub gnome_screenshot_installed: bool,
}

/// The first line of `v`, or nothing for an empty output.
pub open spec fn first_line_of(v: Seq<char>) -> Seq<char> {
    if lines_of(v).len() == 0 {
        Seq::empty()
    } else {
        lines_of(v)[0]
    }
}

/// The first line of a string slice, empty when there is none.
pub fn first_line(s: &str) -> (r: String)
    ensures
        r@ == first_line_of(s@),
{
    let ls = lines_vec(s);
    if ls.len() == 0 {
        String::new()
    } else {
        ls[0].clone()
    }
}

/// Every line of `v` after the first: the language codes of a
/// `--list-langs` output, whose first line is a fixed header.
pub open spec fn language_lines(v: Seq<char>) -> Seq<Seq<char>> {
    if lines_of(v).len() == 0 {
        Seq::empty()
    } else {
        lines_of(v).skip(1)
    }
}

/// Copies out every line after the first header line.
pub fn lines_after_header(s: &str) -> (r: Vec<String>)
    ensures
        r@.len() == language_lines(s@).len(),
        forall|i: int| 0 <= i < r@.len() ==> r@[i]@ == language_lines(s@)[i],
{
    let ls = lines_vec(s);
    let mut r: Vec<String> = Vec::new();
    if ls.len() == 0 {
        return r;
    }
    let mut i: usize = 1;
    while i < ls.len()
        invariant
            1 <= i <= ls@.len(),
            ls@.len() == lines_of(s@).len(),
            forall|k: int| 0 <= k < ls@.len() ==> ls@[k]@ == lines_of(s@)[k],
            r@.len() == i - 1,
            forall|k: int| 0 <= k < r@.len() ==> r@[k]@ == lines_of(s@)[k + 1],
        decreases ls@.len() - i,
    {
        r.push(ls[i].clone());
        i += 1;
    }
    r
}

/// Combines the three sub-probes into the dependency status: the engine is
/// installed exactly when its version query ran and succeeded, its version
/// is that query's first output line, the language list is read only when
/// the engine is installed and its language query succeeded, and the
/// screenshot tool is present exactly when its presence check succeeded.
pub fn dependency_status(
    version_probe: &CommandOutcome,
    langs_probe: &CommandOutcome,
    screenshot_probe: &CommandOutcome,
) -> (r: OcrDependencyStatus)
    ensures
        r.tesseract_installed == version_probe.succeeded(),
        version_probe.succeeded() ==> (r.tesseract_version matches Some(v) && v@ == first_line_of(
            version_probe.stdout_of(),
        )),
        !version_probe.succeeded() ==> r.tesseract_version is None,
        version_probe.succeeded() && langs_probe.succeeded() ==> r.languages@.len()
            == language_lines(langs_probe.stdout_of()).len() && (forall|i: int|
            0 <= i < r.languages@.len() ==> r.languages@[i]@ == language_lines(
                langs_probe.stdout_of(),
            )[i]),
        !(version_probe.succeeded() && langs_probe.succeeded()) ==> r.languages@.len() == 0,
        r.gnome_screenshot_installed == screenshot_probe.succeeded(),
{
    let (tesseract_installed, tesseract_version) = match version_probe {
        CommandOutcome::Launched { exit_success: true, stdout, .. } => (
            true,
            Some(first_line(stdout.as_str())),
        ),
        _ => (false, None),
    };
    let languages: Vec<String> = if tesseract_installed {
        match langs_probe {
            CommandOutcome::Launched { exit_success: true, stdout, .. } => lines_after_header(
                stdout.as_str(),
            ),
            _ => Vec::new(),
        }
    } else {
        Vec::new()
    };
    let gnome_screenshot_installed = match screenshot_probe {
        CommandOutcome::Launched { exit_success: true, .. } => true,
        _ => false,
    };
    OcrDependencyStatus {
        tesseract_installed,
        tesseract_version,
        languages,
        gnome_screenshot_installed,
    }
}

/// Installing the OCR tooling needs system privileges, so the answer is
/// always the manual instruction.
pub fn install_ocr_dependencies() -> (r: Result<bool, String>)
    ensures
        (r matches Err(m) && m@
            == "Please install OCR dependencies manually: sudo apt install tesseract-ocr tesseract-ocr-chi-sim tesseract-ocr-chi-tra tesseract-ocr-eng tesseract-ocr-jpn tesseract-ocr-kor gnome-screenshot xdotool"@),
{
    Err(
        "Please install OCR dependencies manually: sudo apt install tesseract-ocr tesseract-ocr-chi-sim tesseract-ocr-chi-tra tesseract-ocr-eng tesseract-ocr-jpn tesseract-ocr-kor gnome-screenshot xdotool".to_owned(),
    )
}

/// The text of the prompt that offers to install the OCR dependencies.
pub fn install_prompt_message(message: &str) -> (r: String)
    ensures
        r@ == message@ + "\n\nWould you like to install OCR dependencies?"@,
{
    let mut r = message.to_owned();
    r.append("\n\nWould you like to install OCR dependencies?");
    r
}

} // verus!
