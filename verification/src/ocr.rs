//! The OCR pipeline's pure half: payload unwrapping, base64 transport, and
//! the normalization of engine output into a structured outcome.

use vstd::prelude::*;
use crate::text::{
    first_index_of, lemma_first_index_of_is, lemma_first_index_of_le, is_blank, cleaned,
    clean_text, lines_of, nonblank_lines, join_spaced, chop_cr,
};
use crate::gateway::CommandOutcome;

verus! {

/// The structured outcome of one OCR run.
#[derive(Debug)]
pub struct OcrResult {
    pub success: bool,
    pub text: Option<String>,
    pub error: Option<String>,
}

/// `v` without a leading data-URL wrapper: everything after the first
/// comma, or `v` itself when there is none.
pub open spec fn stripped(v: Seq<char>) -> Seq<char> {
    let i = first_index_of(v, ',') as int;
    if i < v.len() {
        v.subrange(i + 1, v.len() as int)
    } else {
        v
    }
}

/// Drops a leading data-URL prefix: the payload after the first comma, or
/// the whole string when no comma occurs, so both data URLs and bare
/// base64 pass through.
pub fn strip_data_url(s: &str) -> (r: &str)
    ensures
        r@ == stripped(s@),
{
    let n = s.unicode_len();
    let mut i: usize = 0;
    while i < n && s.get_char(i) != ','
        invariant
            0 <= i <= n,
            n == s@.len(),
            forall|k: int| 0 <= k < i ==> s@[k] != ',',
        decreases n - i,
    {
        i += 1;
    }
    proof {
        lemma_first_index_of_is(s@, ',', i as int);
    }
    if i < n {
        s.substring_char(i + 1, n)
    } else {
        s
    }
}

/// What base64's standard-alphabet decoding yields for a character
/// sequence: the decoded bytes, or nothing when the input is not
/// well-formed base64.
pub uninterp spec fn base64_decoding(s: Seq<char>) -> Option<Seq<u8>>;

/// What base64's standard-alphabet encoding yields for a byte sequence.
pub uninterp spec fn base64_encoding(b: Seq<u8>) -> Seq<char>;

/// Relies on base64's `Engine::decode` on the `STANDARD` engine: the result
/// is a function of the input characters alone, `Ok` exactly on well-formed
/// standard-alphabet base64.
#[verifier::external_body]
fn b64_decode(s: &str) -> (r: Result<Vec<u8>, String>)
    ensures
        r is Ok <==> base64_decoding(s@) is Some,
        (r matches Ok(v) ==> base64_decoding(s@) == Some(v@)),
{
    match base64::Engine::decode(&base64::engine::general_purpose::STANDARD, s) {
        Ok(v) => Ok(v),
        Err(e) => Err(format!("Failed to decode base64: {}", e)),
    }
}

/// Relies on base64's `Engine::encode` on the `STANDARD` engine: the result
/// is a function of the input bytes alone, drawn from the standard alphabet
/// plus `'='` padding — which holds no comma — and decoding it with the
/// same engine gives the input bytes back (RFC 4648).
#[verifier::external_body]
fn b64_encode(b: &Vec<u8>) -> (r: String)
    requires
        b@.len() <= 0x1000_0000_0000_0000,
    ensures
        r@ == base64_encoding(b@),
        forall|k: int| 0 <= k < r@.len() ==> r@[k] != ',',
        base64_decoding(r@) == Some(b@),
{
    base64::Engine::encode(&base64::engine::general_purpose::STANDARD, b)
}

/// Recovers the raw image bytes from either a data-URL-wrapped or a bare
/// base64 payload; `Err` exactly when the unwrapped payload is not
/// well-formed base64.
pub fn prepare_image(payload: &str) -> (r: Result<Vec<u8>, String>)
    ensures
        r is Ok <==> base64_decoding(stripped(payload@)) is Some,
        (r matches Ok(v) ==> base64_decoding(stripped(payload@)) == Some(v@)),
{
    let data = strip_data_url(payload);
    b64_decode(data)
}

/// Wraps captured image bytes as a PNG data URL.
pub fn data_url_of(image: &Vec<u8>) -> (r: String)
    requires
        image@.len() <= 0x1000_0000_0000_0000,
    ensures
        r@ == "data:image/png;base64,"@ + base64_encoding(image@),
{
    let mut r = "data:image/png;base64,".to_owned();
    let encoded = b64_encode(image);
    r.append(encoded.as_str());
    r
}

/// A data-URL-wrapped payload and the bare payload itself strip to the
/// same characters — so the OCR pipeline resolves both to the same bytes
/// and the same outcome.  The premise holds of every base64 payload, whose
/// alphabet has no comma.
pub proof fn lemma_data_url_equivalence(p: Seq<char>)
    requires
        forall|k: int| 0 <= k < p.len() ==> p[k] != ',',
    ensures
        stripped("data:image/png;base64,"@ + p) == p,
        stripped(p) == p,
        base64_decoding(stripped("data:image/png;base64,"@ + p)) == base64_decoding(
            stripped(p),
        ),
{
    reveal_strlit("data:image/png;base64,");
    let w = "data:image/png;base64,"@ + p;
    assert(w.len() == 22 + p.len());
    assert forall|k: int| 0 <= k < 21 implies w[k] != ',' by {
        assert(w[k] == "data:image/png;base64,"@[k]);
    }
    assert(w[21] == ',');
    lemma_first_index_of_is(w, ',', 21);
    assert(w.subrange(22, w.len() as int) =~= p);
    lemma_first_index_of_is(p, ',', p.len() as int);
}

/// Settles one OCR engine run: on success the engine's stdout with blank
/// lines dropped and the rest joined by single spaces, on engine failure
/// the stderr verbatim, and the launch-failure message when the engine
/// could not run at all.
pub fn ocr_outcome(run: &CommandOutcome) -> (r: Result<OcrResult, String>)
    ensures
        (run matches CommandOutcome::Launched { exit_success: true, stdout, .. } ==> (r matches Ok(
            o,
        ) && o.success == true && (o.text matches Some(t) && t@ == cleaned(stdout@))
            && o.error is None)),
        (run matches CommandOutcome::Launched { exit_success: false, stderr, .. } ==> (r matches Ok(
            o,
        ) && o.success == false && o.text is None && (o.error matches Some(e) && e == stderr))),
        (run matches CommandOutcome::LaunchFailed { message } ==> (r matches Err(m) && m
            == message)),
{
    match run {
        CommandOutcome::Launched { exit_success, stdout, stderr } => {
            if *exit_success {
                Ok(
                    OcrResult {
                        success: true,
                        text: Some(clean_text(stdout.as_str())),
                        error: None,
                    },
                )
            } else {
                Ok(OcrResult { success: false, text: None, error: Some(stderr.clone()) })
            }
        },
        CommandOutcome::LaunchFailed { message } => Err(message.clone()),
    }
}

/// Resolves a screenshot attempt: a tool that could not launch is an error,
/// a run that exited non-zero (the user cancelled) or left no file behind
/// is a normal absence, and captured bytes come back as a PNG data URL.
pub fn capture_outcome(shot: &CommandOutcome, image: Option<Vec<u8>>) -> (r: Result<
    Option<String>,
    String,
>)
    requires
        image matches Some(b) ==> b@.len() <= 0x1000_0000_0000_0000,
    ensures
        (shot matches CommandOutcome::LaunchFailed { message } ==> (r matches Err(m) && m
            == message)),
        (shot matches CommandOutcome::Launched { exit_success: false, .. } ==> r matches Ok(
            None,
        )),
        shot.succeeded() && image is None ==> r matches Ok(None),
        (shot.succeeded() && image is Some ==> (r matches Ok(Some(u)) && u@
            == "data:image/png;base64,"@ + base64_encoding(image->Some_0@))),
{
    match shot {
        CommandOutcome::LaunchFailed { message } => Err(message.clone()),
        CommandOutcome::Launched { exit_success, .. } => {
            if !*exit_success {
                Ok(None)
            } else {
                match image {
                    None => Ok(None),
                    Some(b) => Ok(Some(data_url_of(&b))),
                }
            }
        },
    }
}

proof fn lemma_lines_no_newline(v: Seq<char>)
    ensures
        forall|i: int, k: int|
            0 <= i < lines_of(v).len() && 0 <= k < lines_of(v)[i].len() ==> lines_of(v)[i][k]
                != '\n',
    decreases v.len(),
{
    lemma_first_index_of_le(v, '\n');
    if v.len() == 0 {
    } else {
        let j = first_index_of(v, '\n') as int;
        if j == v.len() {
        } else {
            let head = v.subrange(0, j);
            let rest = v.subrange(j + 1, v.len() as int);
            lemma_lines_no_newline(rest);
            assert forall|i: int, k: int|
                0 <= i < lines_of(v).len() && 0 <= k < lines_of(v)[i].len() implies lines_of(
                v,
            )[i][k] != '\n' by {
                if i == 0 {
                    assert(lines_of(v)[0] == chop_cr(head));
                    assert(chop_cr(head)[k] == head[k]);
                } else {
                    assert(lines_of(v)[i] == lines_of(rest)[i - 1]);
                }
            }
        }
    }
}

proof fn lemma_filter_keeps_no_newline(ls: Seq<Seq<char>>, pred: spec_fn(Seq<char>) -> bool)
    requires
        forall|i: int, k: int| 0 <= i < ls.len() && 0 <= k < ls[i].len() ==> ls[i][k] != '\n',
    ensures
        forall|i: int, k: int|
            0 <= i < ls.filter(pred).len() && 0 <= k < ls.filter(pred)[i].len() ==> ls.filter(
                pred,
            )[i][k] != '\n',
    decreases ls.len(),
{
    reveal(Seq::filter);
    if ls.len() > 0 {
        let w = ls.drop_last();
        lemma_filter_keeps_no_newline(w, pred);
        assert forall|i: int, k: int|
            0 <= i < ls.filter(pred).len() && 0 <= k < ls.filter(pred)[i].len() implies ls.filter(
            pred,
        )[i][k] != '\n' by {
            if pred(ls.last()) && i == ls.filter(pred).len() - 1 {
                assert(ls.filter(pred)[i] == ls.last());
                assert(ls.last() == ls[ls.len() - 1]);
            } else {
                assert(ls.filter(pred)[i] == w.filter(pred)[i]);
            }
        }
    }
}

proof fn lemma_join_no_newline(ls: Seq<Seq<char>>)
    requires
        forall|i: int, k: int| 0 <= i < ls.len() && 0 <= k < ls[i].len() ==> ls[i][k] != '\n',
    ensures
        forall|k: int| 0 <= k < join_spaced(ls).len() ==> join_spaced(ls)[k] != '\n',
    decreases ls.len(),
{
    if ls.len() <= 1 {
    } else {
        let w = ls.drop_last();
        assert(forall|i: int, k: int|
            0 <= i < w.len() && 0 <= k < w[i].len() ==> w[i][k] != '\n');
        lemma_join_no_newline(w);
        assert forall|k: int| 0 <= k < join_spaced(ls).len() implies join_spaced(ls)[k] != '\n' by {
            let j = join_spaced(w);
            if k < j.len() {
                assert(join_spaced(ls)[k] == j[k]);
            } else if k == j.len() {
                assert(join_spaced(ls)[k] == ' ');
            } else {
                assert(join_spaced(ls)[k] == ls.last()[k - j.len() - 1]);
                assert(ls.last() == ls[ls.len() - 1]);
            }
        }
    }
}

/// Normalized OCR text is a single line: no line break survives the
/// dropping of blank lines and the joining with single spaces.
pub proof fn lemma_cleaned_single_line(v: Seq<char>)
    ensures
        forall|k: int| 0 <= k < cleaned(v).len() ==> cleaned(v)[k] != '\n',
{
    lemma_lines_no_newline(v);
    lemma_filter_keeps_no_newline(lines_of(v), |l: Seq<char>| !is_blank(l));
    lemma_join_no_newline(nonblank_lines(v));
}

} // verus!
