use vstd::prelude::*;
use crate::error::VideoError;
use crate::json::{Json, JsonValue, elements_of, lemma_items_value};
use crate::text::{ascii_lower, contains, contains_text, decimal, decimal_text, lowercase_ascii};
use crate::threading::CONGESTION_TEXT;

verus! {

/// Attempts at one file transfer before it fails for good.
pub const MAX_ATTEMPTS_DATA: u32 = 7;

/// Attempts at one remote call before it fails for good.
pub const MAX_ATTEMPTS_ALGO: u32 = 5;

/// The back-off unit: the wait before a retry is this many milliseconds per
/// attempt already made.
pub const BACKOFF_MS: u64 = 1000;

pub const ABORTED_EARLY: &'static str = "already receieved an error.";

pub const NO_DEFAULT_TRANSFORM: &'static str =
    "No default algorithm definition, advanced_input required.";

pub const NO_DEFAULT_EXTRACT: &'static str = "not implemented.";

pub const BAD_RESPONSE: &'static str =
    "algorithm failed, ending early:\n algorithm response did not parse as valid json.";

pub const DEEP_FILTER_NAME: &'static str = "deepfilter";

pub const SALNET_NAME: &'static str = "salnet";

pub const COLORIZATION_NAME: &'static str = "colorfulimagecolorization";

pub const NUDITY_NAME: &'static str = "nuditydetection";

pub const TAGGER_NAME: &'static str = "illustrationtagger";

/// What to do after a failed remote operation.
#[derive(PartialEq, Eq, Structural)]
pub enum RetryStep {
    /// Wait this many milliseconds, then try again.
    RetryAfterMs(u64),
    /// Stop trying: the operation has failed.
    GiveUp,
}

/// Whether a remote-call error is the service's congestion report.
pub open spec fn is_congestion(message: Seq<char>) -> bool {
    contains_text(message, CONGESTION_TEXT@)
}

/// Whether an error message reports congestion of the remote service.
pub fn congestion(message: &str) -> (r: bool)
    ensures
        r == is_congestion(message@),
{
    contains(message, CONGESTION_TEXT)
}

/// The step after remote call attempt number `attempts` (from zero) failed
/// with `message`: congestion is never retried here (the batch level
/// handles it); other failures are retried with a linear back-off until
/// `MAX_ATTEMPTS_ALGO` attempts have been retried.
pub fn algo_call_step(attempts: u32, message: &str) -> (r: RetryStep)
    ensures
        r == if attempts < MAX_ATTEMPTS_ALGO && !is_congestion(message@) {
            RetryStep::RetryAfterMs((BACKOFF_MS * attempts) as u64)
        } else {
            RetryStep::GiveUp
        },
{
    if attempts < MAX_ATTEMPTS_ALGO && !congestion(message) {
        RetryStep::RetryAfterMs(BACKOFF_MS * (attempts as u64))
    } else {
        RetryStep::GiveUp
    }
}

/// The step after file transfer attempt number `attempts` (from zero)
/// failed: retried with a linear back-off until it has failed more than
/// `MAX_ATTEMPTS_DATA` times.
pub fn transfer_step(attempts: u32) -> (r: RetryStep)
    ensures
        r == if attempts > MAX_ATTEMPTS_DATA {
            RetryStep::GiveUp
        } else {
            RetryStep::RetryAfterMs((BACKOFF_MS * attempts) as u64)
        },
{
    if attempts > MAX_ATTEMPTS_DATA {
        RetryStep::GiveUp
    } else {
        RetryStep::RetryAfterMs(BACKOFF_MS * (attempts as u64))
    }
}

/// The error of a remote call that failed for good.
pub fn algo_failure(algorithm: &str, message: &str) -> (e: VideoError)
    ensures
        e@ == "algorithm "@ + algorithm@ + " failed: \n"@ + message@,
{
    let mut text = String::from_str("algorithm ");
    text.append(algorithm);
    text.append(" failed: \n");
    text.append(message);
    VideoError::MsgError(text)
}

/// The error of a file transfer that failed for good after `attempts`
/// tries; `verb` is `download` or `upload`.
pub fn transfer_failure(attempts: u32, verb: &str, file: &str, message: &str) -> (e: VideoError)
    ensures
        e@ == "failed "@ + decimal(attempts as nat) + " times to "@ + verb@ + " file "@ + file@
            + " : \n"@ + message@,
{
    let mut text = String::from_str("failed ");
    text.append(decimal_text(attempts as u128).as_str());
    text.append(" times to ");
    text.append(verb);
    text.append(" file ");
    text.append(file);
    text.append(" : \n");
    text.append(message);
    VideoError::MsgError(text)
}

/// The built-in payload shapes of transforming algorithms.
#[derive(PartialEq, Eq, Structural)]
pub enum DefaultTransform {
    DeepFilter,
    Salnet,
    ColorfulColorization,
}

/// The built-in payload shapes of extracting algorithms.
#[derive(PartialEq, Eq, Structural)]
pub enum DefaultExtract {
    NudityDetection,
    IllustrationTagger,
}

/// Whether the algorithm's name, in ASCII lower case, contains `name`.
pub open spec fn names(algorithm: Seq<char>, name: Seq<char>) -> bool {
    contains_text(algorithm.map_values(|c: char| ascii_lower(c)), name)
}

/// The built-in payload for a transforming algorithm without a template,
/// picked by a case-insensitive match on its name.
pub fn select_default_transform(algorithm: &str) -> (r: Result<DefaultTransform, VideoError>)
    ensures
        names(algorithm@, DEEP_FILTER_NAME@) ==> r == Ok::<DefaultTransform, VideoError>(
            DefaultTransform::DeepFilter,
        ),
        !names(algorithm@, DEEP_FILTER_NAME@) && names(algorithm@, SALNET_NAME@) ==> r == Ok::<
            DefaultTransform,
            VideoError,
        >(DefaultTransform::Salnet),
        !names(algorithm@, DEEP_FILTER_NAME@) && !names(algorithm@, SALNET_NAME@) && names(
            algorithm@,
            COLORIZATION_NAME@,
        ) ==> r == Ok::<DefaultTransform, VideoError>(DefaultTransform::ColorfulColorization),
        !names(algorithm@, DEEP_FILTER_NAME@) && !names(algorithm@, SALNET_NAME@) && !names(
            algorithm@,
            COLORIZATION_NAME@,
        ) ==> (r matches Err(e) && e@ == NO_DEFAULT_TRANSFORM@),
{
    let lower = lowercase_ascii(algorithm);
    if contains(lower.as_str(), DEEP_FILTER_NAME) {
        Ok(DefaultTransform::DeepFilter)
    } else if contains(lower.as_str(), SALNET_NAME) {
        Ok(DefaultTransform::Salnet)
    } else if contains(lower.as_str(), COLORIZATION_NAME) {
        Ok(DefaultTransform::ColorfulColorization)
    } else {
        Err(VideoError::msg(NO_DEFAULT_TRANSFORM))
    }
}

/// The built-in payload for an extracting algorithm without a template,
/// picked by a case-insensitive match on its name.
pub fn select_default_extract(algorithm: &str) -> (r: Result<DefaultExtract, VideoError>)
    ensures
        names(algorithm@, NUDITY_NAME@) ==> r == Ok::<DefaultExtract, VideoError>(
            DefaultExtract::NudityDetection,
        ),
        !names(algorithm@, NUDITY_NAME@) && names(algorithm@, TAGGER_NAME@) ==> r == Ok::<
            DefaultExtract,
            VideoError,
        >(DefaultExtract::IllustrationTagger),
        !names(algorithm@, NUDITY_NAME@) && !names(algorithm@, TAGGER_NAME@) ==> (r matches Err(e)
            && e@ == NO_DEFAULT_EXTRACT@),
{
    let lower = lowercase_ascii(algorithm);
    if contains(lower.as_str(), NUDITY_NAME) {
        Ok(DefaultExtract::NudityDetection)
    } else if contains(lower.as_str(), TAGGER_NAME) {
        Ok(DefaultExtract::IllustrationTagger)
    } else {
        Err(VideoError::msg(NO_DEFAULT_EXTRACT))
    }
}

/// A list of file names as a JSON array of strings.
pub open spec fn names_value(files: Seq<String>) -> JsonValue {
    JsonValue::Array(files.map_values(|s: String| JsonValue::Str(s@)))
}

/// A JSON array of the given file names.
pub fn string_list(files: &Vec<String>) -> (r: Json)
    ensures
        r@ == names_value(files@),
{
    let mut items: Vec<Json> = Vec::new();
    let mut i: usize = 0;
    while i < files.len()
        invariant
            i <= files.len(),
            items.len() == i,
            forall|k: int| 0 <= k < i ==> #[trigger] items[k]@ == JsonValue::Str(files@[k]@),
        decreases files.len() - i,
    {
        items.push(Json::Str(files[i].clone()));
        i = i + 1;
    }
    proof {
        lemma_items_value(items, items.len() as int);
        assert forall|k: int| 0 <= k < items.len() implies elements_of(&items)[k]
            == files@.map_values(|s: String| JsonValue::Str(s@))[k] by {
            assert(items[k]@ == JsonValue::Str(files@[k]@));
        }
        assert(elements_of(&items) =~= files@.map_values(|s: String| JsonValue::Str(s@)));
    }
    Json::Array(items)
}

/// An object with the given members, in order.
fn object_of(members: Vec<(String, Json)>) -> (r: Json)
    ensures
        r@ == JsonValue::Object(members@.map_values(|m: (String, Json)| (m.0@, m.1@))),
{
    proof {
        crate::json::lemma_entries_value(members, members.len() as int);
        assert(crate::json::members_of(&members) =~= members@.map_values(
            |m: (String, Json)| (m.0@, m.1@),
        ));
    }
    Json::Object(members)
}

/// The payload of the built-in deep filter call on a batch.
pub fn deep_filter_payload(inputs: &Vec<String>, outputs: &Vec<String>) -> (r: Json)
    ensures
        r@ == JsonValue::Object(
            seq![
                ("images"@, names_value(inputs@)),
                ("savePaths"@, names_value(outputs@)),
                ("filterName"@, JsonValue::Str("gan_vogh"@)),
            ],
        ),
{
    let mut members: Vec<(String, Json)> = Vec::new();
    members.push((String::from_str("images"), string_list(inputs)));
    members.push((String::from_str("savePaths"), string_list(outputs)));
    members.push((String::from_str("filterName"), Json::Str(String::from_str("gan_vogh"))));
    let r = object_of(members);
    assert(members@.map_values(|m: (String, Json)| (m.0@, m.1@)) =~= seq![
        ("images"@, names_value(inputs@)),
        ("savePaths"@, names_value(outputs@)),
        ("filterName"@, JsonValue::Str("gan_vogh"@)),
    ]);
    r
}

/// The payload of the built-in saliency call on one frame.
pub fn salnet_payload(input: &str, output: &str) -> (r: Json)
    ensures
        r@ == JsonValue::Object(
            seq![("image"@, JsonValue::Str(input@)), ("location"@, JsonValue::Str(output@))],
        ),
{
    let mut members: Vec<(String, Json)> = Vec::new();
    members.push((String::from_str("image"), Json::Str(String::from_str(input))));
    members.push((String::from_str("location"), Json::Str(String::from_str(output))));
    let r = object_of(members);
    assert(members@.map_values(|m: (String, Json)| (m.0@, m.1@)) =~= seq![
        ("image"@, JsonValue::Str(input@)),
        ("location"@, JsonValue::Str(output@)),
    ]);
    r
}

/// The payload of the built-in colorization call on a batch.
pub fn colorization_payload(inputs: &Vec<String>, outputs: &Vec<String>) -> (r: Json)
    ensures
        r@ == JsonValue::Object(
            seq![("image"@, names_value(inputs@)), ("location"@, names_value(outputs@))],
        ),
{
    let mut members: Vec<(String, Json)> = Vec::new();
    members.push((String::from_str("image"), string_list(inputs)));
    members.push((String::from_str("location"), string_list(outputs)));
    let r = object_of(members);
    assert(members@.map_values(|m: (String, Json)| (m.0@, m.1@)) =~= seq![
        ("image"@, names_value(inputs@)),
        ("location"@, names_value(outputs@)),
    ]);
    r
}

/// The payload of the built-in image-tagging calls on a batch: the list of
/// images.
pub fn image_list_payload(inputs: &Vec<String>) -> (r: Json)
    ensures
        r@ == JsonValue::Object(seq![("image"@, names_value(inputs@))]),
{
    let mut members: Vec<(String, Json)> = Vec::new();
    members.push((String::from_str("image"), string_list(inputs)));
    let r = object_of(members);
    assert(members@.map_values(|m: (String, Json)| (m.0@, m.1@)) =~= seq![
        ("image"@, names_value(inputs@)),
    ]);
    r
}

} // verus!
