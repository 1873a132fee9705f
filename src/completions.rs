use vstd::prelude::*;
use crate::languages::{filtered, remove_stop_words};
use std::time::{SystemTime, SystemTimeError, UNIX_EPOCH};
use core::time::Duration;

verus! {

/// Largest number of tokens the engine may decode for one completion.
pub const MAX_DECODING_LENGTH: usize = 64;

/// Sampling temperature, in hundredths (20 stands for 0.2).
pub const SAMPLING_TEMPERATURE_HUNDREDTHS: u32 = 20;

/// A request for one completion of `prompt`.
pub struct CompletionRequest {
    /// A VS Code language identifier; `None` stands for "unknown".
    pub language: Option<String>,
    pub prompt: String,
}

/// One generated completion.
pub struct Choice {
    pub index: u32,
    pub text: String,
}

/// What the completion endpoint answers.
pub struct CompletionResponse {
    pub id: String,
    pub created: u64,
    pub choices: Vec<Choice>,
}

/// The decoding options handed to the engine with every prompt.
#[derive(Clone, Copy, Debug, PartialEq, Eq, Structural)]
pub struct DecodingOptions {
    pub max_decoding_length: usize,
    pub sampling_temperature_hundredths: u32,
}

/// The language a request is filtered for.
pub open spec fn effective_language(language: Option<String>) -> Seq<char> {
    match language {
        Some(l) => l@,
        None => "unknown"@,
    }
}

/// The completion id built around a UUID text.
pub open spec fn id_of(uuid: Seq<char>) -> Seq<char> {
    "cmpl-"@ + uuid
}

/// `c` is a lower-case hexadecimal digit.
pub open spec fn is_lower_hex(c: char) -> bool {
    ('0' <= c && c <= '9') || ('a' <= c && c <= 'f')
}

/// `u` is a version-4 UUID written in lower-case hyphenated form: 8-4-4-4-12
/// hex digits, version digit `4`, variant digit one of `8`, `9`, `a`, `b`.
pub open spec fn is_v4_text(u: Seq<char>) -> bool {
    &&& u.len() == 36
    &&& forall|i: int|
        0 <= i < 36 ==> if i == 8 || i == 13 || i == 18 || i == 23 {
            #[trigger] u[i] == '-'
        } else {
            is_lower_hex(u[i])
        }
    &&& u[14] == '4'
    &&& (u[19] == '8' || u[19] == '9' || u[19] == 'a' || u[19] == 'b')
}

/// The seconds reported for a clock reading: the whole seconds elapsed since
/// the Unix epoch, or 0 for a reading before it.
pub open spec fn epoch_seconds_of(elapsed: Option<u64>) -> u64 {
    match elapsed {
        Some(s) => s,
        None => 0,
    }
}

/// The response carries exactly one choice, at index 0, whose text is
/// `generated` filtered for the request's language.
pub open spec fn single_filtered_choice(
    r: CompletionResponse,
    language: Option<String>,
    generated: Seq<char>,
) -> bool {
    &&& r.choices@.len() == 1
    &&& r.choices@[0].index == 0
    &&& r.choices@[0].text@ == filtered(effective_language(language), generated)
}

impl CompletionRequest {
    pub fn new(language: Option<String>, prompt: String) -> (r: CompletionRequest)
        ensures
            r.language == language,
            r.prompt == prompt,
    {
        CompletionRequest { language, prompt }
    }
}

/// The fixed decoding options: at most 64 tokens, temperature 0.2.
pub fn decoding_options() -> (r: DecodingOptions)
    ensures
        r.max_decoding_length == 64,
        r.sampling_temperature_hundredths == 20,
{
    DecodingOptions {
        max_decoding_length: MAX_DECODING_LENGTH,
        sampling_temperature_hundredths: SAMPLING_TEMPERATURE_HUNDREDTHS,
    }
}

/// The request's language, or "unknown" when it names none.
pub fn language_of(request: &CompletionRequest) -> (r: &str)
    ensures
        r@ == effective_language(request.language),
{
    match &request.language {
        Some(l) => l.as_str(),
        None => "unknown",
    }
}

/// `cmpl-` followed by `uuid`.
pub fn completion_id(uuid: &str) -> (r: String)
    ensures
        r@ == id_of(uuid@),
{
    let prefix = String::from_str("cmpl-");
    prefix.concat(uuid)
}

/// Relies on uuid::Uuid::new_v4 and its Display impl: a random version-4 UUID
/// (version and variant bits set by `new_v4`), written by `LowerHex` as 36
/// lower-case characters in hyphenated form.
#[verifier::external_body]
fn random_uuid() -> (r: String)
    ensures
        is_v4_text(r@),
{
    uuid::Uuid::new_v4().to_string()
}

/// A fresh completion id: `cmpl-` and a random version-4 UUID.
pub fn new_completion_id() -> (r: String)
    ensures
        r@.len() == 41,
        r@.subrange(0, 5) == "cmpl-"@,
        is_v4_text(r@.subrange(5, 41)),
{
    let uuid = random_uuid();
    let r = completion_id(uuid.as_str());
    proof {
        reveal_strlit("cmpl-");
        assert(r@.subrange(0, 5) =~= "cmpl-"@);
        assert(r@.subrange(5, 41) =~= uuid@);
    }
    r
}

#[verifier::external_type_specification]
#[verifier::external_body]
pub struct ExSystemTime(SystemTime);

#[verifier::external_type_specification]
#[verifier::external_body]
pub struct ExSystemTimeError(SystemTimeError);

/// Relies on SystemTime::now: the current wall-clock time, of which nothing is promised.
#[verifier::external_body]
fn now() -> (r: SystemTime) {
    SystemTime::now()
}

/// Relies on SystemTime::duration_since, measured from UNIX_EPOCH: an error when
/// `t` lies before the epoch.
#[verifier::external_body]
fn since_epoch(t: &SystemTime) -> (r: Result<Duration, SystemTimeError>) {
    t.duration_since(UNIX_EPOCH)
}

/// Relies on Duration::as_secs: the whole seconds of a duration.
pub assume_specification[ Duration::as_secs ](d: &Duration) -> u64;

/// The seconds reported for a clock reading: `elapsed` whole seconds since the
/// Unix epoch, or 0 when the clock read a time before the epoch (`None`).
pub fn epoch_seconds(elapsed: Option<u64>) -> (r: u64)
    ensures
        r == epoch_seconds_of(elapsed),
{
    match elapsed {
        Some(s) => s,
        None => 0,
    }
}

/// Seconds since the Unix epoch by the wall clock, as `epoch_seconds` reports
/// the current reading. The clock alone decides the value.
pub fn timestamp() -> (r: u64) {
    let t = now();
    let elapsed = match since_epoch(&t) {
        Ok(d) => Some(d.as_secs()),
        Err(_) => None,
    };
    epoch_seconds(elapsed)
}

/// The response to `request`, given what the engine generated for its prompt,
/// the response id and its creation time.
pub fn build_response(
    request: &CompletionRequest,
    generated: &str,
    id: String,
    created: u64,
) -> (r: CompletionResponse)
    ensures
        r.id == id,
        r.created == created,
        single_filtered_choice(r, request.language, generated@),
{
    let language = language_of(request);
    let text = remove_stop_words(language, generated);
    let mut choices: Vec<Choice> = Vec::new();
    choices.push(Choice { index: 0, text: String::from_str(text) });
    CompletionResponse { id, created, choices }
}

/// Answers `request` with the text the engine generated for its prompt: one
/// choice holding that text filtered for the request's language, a fresh
/// `cmpl-` id and the current time.
pub fn completion(request: &CompletionRequest, generated: &str) -> (r: CompletionResponse)
    ensures
        r.id@.len() == 41,
        r.id@.subrange(0, 5) == "cmpl-"@,
        is_v4_text(r.id@.subrange(5, 41)),
        single_filtered_choice(r, request.language, generated@),
{
    let id = new_completion_id();
    let created = timestamp();
    build_response(request, generated, id, created)
}

} // verus!
