use vstd::prelude::*;
use crate::error::VideoError;
use crate::text::{
    decimal, decimal_text, digit_value, is_digit, push_char, replace_all, replace_text, zero_pad,
    zero_padded,
};

verus! {

/// The regular expression of the width placeholder in a file-name pattern:
/// `%` and `d` around a two-digit width, as in `%07d`.
pub const WIDTH_PLACEHOLDER_REGEX: &'static str = "%([0-9][0-9])d";

pub const NO_PLACEHOLDER: &'static str =
    "file name pattern holds no placeholder of the form %NNd.";

/// Whether a width placeholder starts at position `i` of `s`.
pub open spec fn placeholder_at(s: Seq<char>, i: int) -> bool {
    0 <= i && i + 4 <= s.len() && s[i] == '%' && is_digit(s[i + 1]) && is_digit(s[i + 2]) && s[i + 3]
        == 'd'
}

/// The first position at or after `i` where a width placeholder starts.
pub open spec fn placeholder_from(s: Seq<char>, i: int) -> Option<nat>
    decreases s.len() - i,
{
    if i < 0 || i + 4 > s.len() {
        None
    } else if placeholder_at(s, i) {
        Some(i as nat)
    } else {
        placeholder_from(s, i + 1)
    }
}

/// The file name of frame `index` under `pattern`: the width `w` is read
/// from the first placeholder, and every `%0<w>d` in the pattern is replaced
/// by the index, zero-padded to `w` digits. `None` when the pattern holds no
/// placeholder.
pub open spec fn address_name(pattern: Seq<char>, index: nat) -> Option<Seq<char>> {
    match placeholder_from(pattern, 0) {
        None => None,
        Some(i) => {
            let w = digit_value(pattern[i as int + 1]) * 10 + digit_value(pattern[i as int + 2]);
            Some(
                replace_all(
                    pattern,
                    seq!['%', '0'] + decimal(w) + seq!['d'],
                    zero_padded(decimal(index), w),
                ),
            )
        },
    }
}

/// Relies on `regex::Regex::new` and `regex::Regex::captures`: for the
/// placeholder expression the regex is valid, and `captures` reports the
/// leftmost match, whose group 1 is the two width digits.
#[verifier::external_body]
fn first_capture(pattern: &str, text: &str) -> (r: Option<String>)
    ensures
        pattern@ == WIDTH_PLACEHOLDER_REGEX@ ==> match placeholder_from(text@, 0) {
            None => r is None,
            Some(i) => r matches Some(d) && d@ == text@.subrange(i as int + 1, i as int + 3),
        },
{
    match regex::Regex::new(pattern) {
        Ok(re) => match re.captures(text) {
            Some(c) => c.get(1).map(|m| m.as_str().to_string()),
            None => None,
        },
        Err(_) => None,
    }
}

pub proof fn lemma_placeholder_from(s: Seq<char>, i: int)
    ensures
        placeholder_from(s, i) matches Some(p) ==> i <= p && placeholder_at(s, p as int),
    decreases s.len() - i,
{
    if !(i < 0 || i + 4 > s.len()) && !placeholder_at(s, i) {
        lemma_placeholder_from(s, i + 1);
    }
}

/// The value of a decimal digit character.
fn digit_of_char(c: char) -> (d: u32)
    requires
        is_digit(c),
    ensures
        d == digit_value(c),
        d < 10,
{
    (c as u32) - ('0' as u32)
}

/// The file name of frame `iter` under the pattern `regex`; see
/// `address_name`.
pub fn from_regex(regex: &str, iter: usize) -> (r: Result<String, VideoError>)
    ensures
        match address_name(regex@, iter as nat) {
            Some(name) => r matches Ok(s) && s@ == name,
            None => r matches Err(e) && e@ == NO_PLACEHOLDER@,
        },
{
    let digits = match first_capture(WIDTH_PLACEHOLDER_REGEX, regex) {
        Some(d) => d,
        None => {
            return Err(VideoError::msg(NO_PLACEHOLDER));
        },
    };
    let ghost i = placeholder_from(regex@, 0)->Some_0;
    proof {
        lemma_placeholder_from(regex@, 0);
    }
    let tens = digit_of_char(digits.as_str().get_char(0));
    let ones = digit_of_char(digits.as_str().get_char(1));
    let width = (tens * 10 + ones) as usize;
    let width_text = decimal_text(width as u128);
    let mut needle = String::new();
    push_char(&mut needle, '%');
    push_char(&mut needle, '0');
    needle.append(width_text.as_str());
    push_char(&mut needle, 'd');
    assert(needle@ =~= seq!['%', '0'] + decimal(width as nat) + seq!['d']);
    let padded = zero_pad(decimal_text(iter as u128).as_str(), width);
    Ok(replace_text(regex, needle.as_str(), padded.as_str()))
}

/// The path of a frame file: the directory, `/`, and the file name.
pub open spec fn frame_path(directory: Seq<char>, name: Seq<char>) -> Seq<char> {
    directory + seq!['/'] + name
}

/// The paths, in `directory`, of the frame files of a batch under the
/// pattern `regex`, in batch order.
pub fn batch_file_path(batch: &Vec<usize>, regex: &str, directory: &str) -> (r: Result<
    Vec<String>,
    VideoError,
>)
    ensures
        batch@.len() == 0 ==> (r matches Ok(v) && v@.len() == 0),
        batch@.len() > 0 && address_name(regex@, 0) is None ==> (r matches Err(e) && e@
            == NO_PLACEHOLDER@),
        batch@.len() > 0 && address_name(regex@, 0) is Some ==> (r matches Ok(v) && v@.len()
            == batch@.len() && forall|k: int|
            0 <= k < batch@.len() ==> #[trigger] v@[k]@ == frame_path(
                directory@,
                address_name(regex@, batch@[k] as nat)->Some_0,
            )),
{
    let mut out: Vec<String> = Vec::new();
    let mut k: usize = 0;
    while k < batch.len()
        invariant
            k <= batch@.len(),
            out@.len() == k,
            k > 0 ==> address_name(regex@, 0) is Some,
            forall|j: int|
                0 <= j < k ==> #[trigger] out@[j]@ == frame_path(
                    directory@,
                    address_name(regex@, batch@[j] as nat)->Some_0,
                ),
        decreases batch@.len() - k,
    {
        let name = match from_regex(regex, batch[k]) {
            Ok(n) => n,
            Err(e) => {
                return Err(e);
            },
        };
        let mut path = String::from_str(directory);
        push_char(&mut path, '/');
        path.append(name.as_str());
        out.push(path);
        k = k + 1;
    }
    Ok(out)
}

} // verus!
