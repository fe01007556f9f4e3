//! Datasets: where the dataset of a given size is stored, and how its stored
//! form, a JSON array of integers, is decoded.

use crate::error::BenchError;
use vstd::prelude::*;
use vstd::string::*;

verus! {

/// serde_json's error type, carried from the parser to the place that maps it.
#[verifier::external_type_specification]
#[verifier::external_body]
pub struct ExJsonError(serde_json::Error);

/// What serde_json makes of `bytes` when asked for a `Vec<i32>`: the decoded
/// integers, or `None` where it fails.
pub uninterp spec fn json_i32_array(bytes: Seq<u8>) -> Option<Seq<i32>>;

/// Calls `serde_json::from_slice::<Vec<i32>>`. Trusted: the parser's answer
/// depends on the bytes alone, so the result is `json_i32_array` of them; no
/// more is claimed of it.
#[verifier::external_body]
fn parse_json_i32_array(bytes: &[u8]) -> (r: Result<Vec<i32>, serde_json::Error>)
    ensures
        match r {
            Ok(values) => json_i32_array(bytes@) == Some(values@),
            Err(_) => json_i32_array(bytes@).is_none(),
        },
{
    serde_json::from_slice::<Vec<i32>>(bytes)
}

/// Decodes the stored form of a dataset. Succeeds exactly on the documents
/// that serde_json reads as an array of `i32`, with the integers in document
/// order; every other document is a setup failure.
pub fn decode_dataset(bytes: &[u8]) -> (r: Result<Vec<i32>, BenchError>)
    ensures
        match r {
            Ok(values) => json_i32_array(bytes@) == Some(values@),
            Err(e) => json_i32_array(bytes@).is_none() && e == BenchError::SetupFailure,
        },
{
    match parse_json_i32_array(bytes) {
        Ok(values) => Ok(values),
        Err(_) => Err(BenchError::SetupFailure),
    }
}

/// The character of a decimal digit.
pub open spec fn digit_char(d: nat) -> char {
    if d == 0 {
        '0'
    } else if d == 1 {
        '1'
    } else if d == 2 {
        '2'
    } else if d == 3 {
        '3'
    } else if d == 4 {
        '4'
    } else if d == 5 {
        '5'
    } else if d == 6 {
        '6'
    } else if d == 7 {
        '7'
    } else if d == 8 {
        '8'
    } else {
        '9'
    }
}

/// The decimal numeral of `n`, without sign or leading zeros.
pub open spec fn decimal(n: nat) -> Seq<char>
    decreases n,
{
    if n < 10 {
        seq![digit_char(n)]
    } else {
        decimal(n / 10).push(digit_char(n % 10))
    }
}

/// The path of the dataset of `size` elements.
pub open spec fn dataset_path_text(size: nat) -> Seq<char> {
    "data/test/test_data_"@ + decimal(size) + ".json"@
}

/// The one-character string of a decimal digit.
fn digit_str(d: usize) -> (r: &'static str)
    requires
        d < 10,
    ensures
        r@ == seq![digit_char(d as nat)],
{
    proof {
        reveal_strlit("0");
        reveal_strlit("1");
        reveal_strlit("2");
        reveal_strlit("3");
        reveal_strlit("4");
        reveal_strlit("5");
        reveal_strlit("6");
        reveal_strlit("7");
        reveal_strlit("8");
        reveal_strlit("9");
    }
    let r = if d == 0 {
        "0"
    } else if d == 1 {
        "1"
    } else if d == 2 {
        "2"
    } else if d == 3 {
        "3"
    } else if d == 4 {
        "4"
    } else if d == 5 {
        "5"
    } else if d == 6 {
        "6"
    } else if d == 7 {
        "7"
    } else if d == 8 {
        "8"
    } else {
        "9"
    };
    assert(r@ =~= seq![digit_char(d as nat)]);
    r
}

/// Appends the decimal numeral of `n` to `text`.
fn append_decimal(text: &mut String, n: usize)
    ensures
        final(text)@ == old(text)@ + decimal(n as nat),
    decreases n,
{
    if n >= 10 {
        append_decimal(text, n / 10);
    }
    text.append(digit_str(n % 10));
    assert(text@ =~= old(text)@ + decimal(n as nat));
}

/// Names the file that holds the dataset of `size` elements:
/// `data/test/test_data_` followed by the size in decimal and `.json`.
pub fn dataset_path(size: usize) -> (path: String)
    ensures
        path@ == dataset_path_text(size as nat),
{
    let mut path = String::from_str("data/test/test_data_");
    append_decimal(&mut path, size);
    path.append(".json");
    path
}

} // verus!
