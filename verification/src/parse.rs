//! Reading regions, visibilities and game modes from the words of a command
//! line, without regard to letter case.

use crate::lobby::{GameMode, Region, Visibility};
use vstd::prelude::*;
use vstd::string::StringExecFns;

verus! {

/// The upper-case form that the standard library gives a text.
pub uninterp spec fn uppercase_of(text: Seq<char>) -> Seq<char>;

/// The lower-case form that the standard library gives a text.
pub uninterp spec fn lowercase_of(text: Seq<char>) -> Seq<char>;

/// `str::to_uppercase`: the upper-case form of `input`.
#[verifier::external_body]
fn to_upper(input: &str) -> (r: String)
    ensures
        r@ == uppercase_of(input@),
{
    input.to_uppercase()
}

/// `str::to_lowercase`: the lower-case form of `input`.
#[verifier::external_body]
fn to_lower(input: &str) -> (r: String)
    ensures
        r@ == lowercase_of(input@),
{
    input.to_lowercase()
}

/// Whether two texts hold the same characters.
pub fn same_text(a: &str, b: &str) -> (r: bool)
    ensures
        r == (a@ == b@),
{
    let x = String::from_str(a);
    let y = String::from_str(b);
    x == y
}

/// The region that an upper-case word names.
pub open spec fn region_named(upper: Seq<char>) -> Option<Region> {
    if upper == "NA"@ {
        Some(Region::NA)
    } else if upper == "EU"@ {
        Some(Region::EU)
    } else if upper == "SA"@ {
        Some(Region::SA)
    } else if upper == "MEA"@ {
        Some(Region::MEA)
    } else if upper == "AS"@ {
        Some(Region::AS)
    } else if upper == "AU"@ {
        Some(Region::AU)
    } else {
        None
    }
}

/// The visibility that a lower-case word names.
pub open spec fn visibility_named(lower: Seq<char>) -> Option<Visibility> {
    if lower == "private"@ {
        Some(Visibility::Private)
    } else if lower == "public"@ {
        Some(Visibility::Public)
    } else {
        None
    }
}

/// The game mode that a lower-case word names.
pub open spec fn mode_named(lower: Seq<char>) -> Option<GameMode> {
    if lower == "casual"@ {
        Some(GameMode::Casual)
    } else if lower == "competitive"@ {
        Some(GameMode::Competitive)
    } else {
        None
    }
}

/// The complaint about a word that names nothing of the wanted kind.
pub open spec fn invalid_word(input: Seq<char>, tail: Seq<char>) -> Seq<char> {
    "'"@ + input + tail
}

/// Builds the complaint about `input`; `tail` says what was wanted.
fn complain(input: &str, tail: &str) -> (r: String)
    ensures
        r@ == invalid_word(input@, tail@),
{
    String::from_str("'").concat(input).concat(tail)
}

/// The region named by `upper`, the upper-case form of `input`; the complaint
/// quotes `input` as it was typed.
pub fn region_from_upper(upper: &str, input: &str) -> (r: Result<Region, String>)
    ensures
        match region_named(upper@) {
            Some(region) => r == Ok::<Region, String>(region),
            None => r is Err && r->Err_0@ == invalid_word(input@, "' is not a valid Region"@),
        },
{
    if same_text(upper, "NA") {
        Ok(Region::NA)
    } else if same_text(upper, "EU") {
        Ok(Region::EU)
    } else if same_text(upper, "SA") {
        Ok(Region::SA)
    } else if same_text(upper, "MEA") {
        Ok(Region::MEA)
    } else if same_text(upper, "AS") {
        Ok(Region::AS)
    } else if same_text(upper, "AU") {
        Ok(Region::AU)
    } else {
        Err(complain(input, "' is not a valid Region"))
    }
}

/// The visibility named by `lower`, the lower-case form of `input`.
pub fn visibility_from_lower(lower: &str, input: &str) -> (r: Result<Visibility, String>)
    ensures
        match visibility_named(lower@) {
            Some(visibility) => r == Ok::<Visibility, String>(visibility),
            None => r is Err && r->Err_0@ == invalid_word(input@, "' is not a valid Visibility"@),
        },
{
    if same_text(lower, "private") {
        Ok(Visibility::Private)
    } else if same_text(lower, "public") {
        Ok(Visibility::Public)
    } else {
        Err(complain(input, "' is not a valid Visibility"))
    }
}

/// The game mode named by `lower`, the lower-case form of `input`.
pub fn mode_from_lower(lower: &str, input: &str) -> (r: Result<GameMode, String>)
    ensures
        match mode_named(lower@) {
            Some(mode) => r == Ok::<GameMode, String>(mode),
            None => r is Err && r->Err_0@ == invalid_word(input@, "' is not a valid GameMode"@),
        },
{
    if same_text(lower, "casual") {
        Ok(GameMode::Casual)
    } else if same_text(lower, "competitive") {
        Ok(GameMode::Competitive)
    } else {
        Err(complain(input, "' is not a valid GameMode"))
    }
}

/// Reads a region, whatever the case of its letters.
pub fn parse_region(input: &str) -> (r: Result<Region, String>)
    ensures
        match region_named(uppercase_of(input@)) {
            Some(region) => r == Ok::<Region, String>(region),
            None => r is Err && r->Err_0@ == invalid_word(input@, "' is not a valid Region"@),
        },
{
    let upper = to_upper(input);
    region_from_upper(upper.as_str(), input)
}

/// Reads a visibility, whatever the case of its letters.
pub fn parse_visibility(input: &str) -> (r: Result<Visibility, String>)
    ensures
        match visibility_named(lowercase_of(input@)) {
            Some(visibility) => r == Ok::<Visibility, String>(visibility),
            None => r is Err && r->Err_0@ == invalid_word(input@, "' is not a valid Visibility"@),
        },
{
    let lower = to_lower(input);
    visibility_from_lower(lower.as_str(), input)
}

/// Reads a game mode, whatever the case of its letters.
pub fn parse_mode(input: &str) -> (r: Result<GameMode, String>)
    ensures
        match mode_named(lowercase_of(input@)) {
            Some(mode) => r == Ok::<GameMode, String>(mode),
            None => r is Err && r->Err_0@ == invalid_word(input@, "' is not a valid GameMode"@),
        },
{
    let lower = to_lower(input);
    mode_from_lower(lower.as_str(), input)
}

} // verus!
