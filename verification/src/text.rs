use vstd::prelude::*;

verus! {

/// Relies on str's `PartialEq`: two string slices are equal exactly when
/// their character sequences are equal.
#[verifier::external_body]
pub fn str_eq(a: &str, b: &str) -> (r: bool)
    ensures
        r == (a@ == b@),
{
    a == b
}

/// What `str::trim` returns, as a function of the characters alone.
pub uninterp spec fn trim_of(s: Seq<char>) -> Seq<char>;

/// The whitespace characters of the ASCII range, as std documents them:
/// within ASCII these are exactly the characters `str::trim` strips.
pub open spec fn ascii_whitespace(c: char) -> bool {
    c == ' ' || c == '\t' || c == '\n' || c == '\r' || c == '\u{b}' || c == '\u{c}'
}

/// Relies on str::trim: the trimmed text depends on the characters alone;
/// trimming the empty string yields the empty string; and an ASCII string
/// whose first and last characters are not whitespace trims to itself.
#[verifier::external_body]
pub fn trimmed(s: &str) -> (r: String)
    ensures
        r@ == trim_of(s@),
        s@.len() == 0 ==> r@.len() == 0,
        (vstd::string::is_ascii(s) && s@.len() > 0 && !ascii_whitespace(s@[0])
            && !ascii_whitespace(s@[s@.len() - 1])) ==> r@ == s@,
{
    s.trim().to_string()
}

/// The one-line summary of a finished action batch, as rendered text.
pub uninterp spec fn summary_of(actions: int, failures: int) -> Seq<char>;

/// Relies on `format!`: renders the count of executed actions and failures.
#[verifier::external_body]
pub fn summary_text(actions: usize, failures: usize) -> (r: String)
    ensures
        r@ == summary_of(actions as int, failures as int),
{
    format!("executed {} action(s) with {} failure(s)", actions, failures)
}

/// The user-role prompt handed to the planning model, as rendered text.
pub uninterp spec fn user_prompt_of(
    task: Seq<char>,
    step: int,
    summary: Seq<char>,
    data: Seq<char>,
) -> Seq<char>;

/// Relies on `format!`: renders the task, step index and last observation
/// into the user-role prompt.
#[verifier::external_body]
pub fn user_message_text(task: &str, step: u32, summary: &str, data: &str) -> (r: String)
    ensures
        r@ == user_prompt_of(task@, step as int, summary@, data@),
{
    format!(
        "Task: {task}\nCurrent step #: {}\nLast observation summary: {}\nObservation data: {}",
        step, summary, data,
    )
}

/// The bootstrap summary text for the first observation of a run.
pub uninterp spec fn bootstrap_summary_of(step: int) -> Seq<char>;

/// Relies on `format!`: renders the bootstrap summary for a step index.
#[verifier::external_body]
pub fn bootstrap_summary(step: u32) -> (r: String)
    ensures
        r@ == bootstrap_summary_of(step as int),
{
    format!("host bootstrap step {}", step)
}

/// What base64's standard alphabet encodes a byte string to.
pub uninterp spec fn base64_of(bytes: Seq<u8>) -> Seq<char>;

/// Relies on base64's STANDARD engine: the encoding of a byte string depends
/// on the bytes alone, and the empty input encodes to the empty string.
#[verifier::external_body]
pub fn base64_encode(bytes: &[u8]) -> (r: String)
    ensures
        r@ == base64_of(bytes@),
        bytes@.len() == 0 ==> r@.len() == 0,
{
    base64::Engine::encode(&base64::engine::general_purpose::STANDARD, bytes)
}

/// What String::from_utf8_lossy makes of a byte string: the decoded text,
/// with each invalid sequence replaced; a function of the bytes alone.
pub uninterp spec fn utf8_lossy_of(bytes: Seq<u8>) -> Seq<char>;

/// Relies on String::from_utf8_lossy: decodes bytes as UTF-8, replacing
/// invalid sequences, and decodes valid UTF-8 exactly.
#[verifier::external_body]
pub fn utf8_lossy_text(bytes: &Vec<u8>) -> (r: String)
    ensures
        r@ == utf8_lossy_of(bytes@),
        vstd::utf8::valid_utf8(bytes@) ==> r@ == vstd::utf8::decode_utf8(bytes@),
{
    String::from_utf8_lossy(bytes).into_owned()
}

/// Relies on String::from_utf8: succeeds exactly on valid UTF-8 input, and
/// then decodes it to the character sequence the bytes encode.
#[verifier::external_body]
pub fn utf8_to_string(bytes: Vec<u8>) -> (r: Option<String>)
    ensures
        r is Some <==> vstd::utf8::valid_utf8(bytes@),
        r is Some ==> r.unwrap()@ == vstd::utf8::decode_utf8(bytes@),
{
    match String::from_utf8(bytes) {
        Ok(s) => Some(s),
        Err(_) => None,
    }
}

} // verus!
