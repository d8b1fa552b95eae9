//! The alias table: the catalog's static mapping from short language codes
//! to display names. Lookup is case-sensitive on the stored key.

use vstd::prelude::*;
use vstd::string::StringExecFns;
use crate::text::str_eq;

verus! {

/// The display name registered for a code, if any.
pub open spec fn alias_spec(c: Seq<char>) -> Option<Seq<char>> {
    if alias_spec_a(c) is Some {
        alias_spec_a(c)
    } else if alias_spec_b(c) is Some {
        alias_spec_b(c)
    } else if alias_spec_c(c) is Some {
        alias_spec_c(c)
    } else {
        alias_spec_d(c)
    }
}

pub open spec fn alias_spec_a(c: Seq<char>) -> Option<Seq<char>> {
    if c == "af"@ {
        Some("Afrikaans"@)
    } else if c == "pa"@ {
        Some("Punjabi"@)
    } else if c == "an"@ {
        Some("Aragonese"@)
    } else if c == "br"@ {
        Some("Breton"@)
    } else if c == "fa-ir"@ {
        Some("Persian"@)
    } else if c == "lo"@ {
        Some("Laotian"@)
    } else if c == "eo"@ {
        Some("esperanto"@)
    } else if c == "ca"@ {
        Some("Catalan"@)
    } else if c == "ca-valencia"@ {
        Some("Valencian"@)
    } else if c == "en "@ {
        Some("English"@)
    } else if c == "en"@ {
        Some("English"@)
    } else if c == "gug"@ {
        Some("Guarani"@)
    } else if c == "is"@ {
        Some("Icelandic"@)
    } else if c == "fa"@ {
        Some("Persian"@)
    } else if c == "mn"@ {
        Some("Mongolian"@)
    } else if c == "ku"@ {
        Some("Kurdish"@)
    } else if c == "lt"@ {
        Some("Lithuanian"@)
    } else if c == "lv"@ {
        Some("Latvian"@)
    } else if c == "md"@ {
        Some("Mapudüngun"@)
    } else {
        None
    }
}

pub open spec fn alias_spec_b(c: Seq<char>) -> Option<Seq<char>> {
    if c == "mr"@ {
        Some("Marathi"@)
    } else if c == "tr"@ {
        Some("Turkish"@)
    } else if c == "as"@ {
        Some("Assamese"@)
    } else if c == "sq"@ {
        Some("Albanian"@)
    } else if c == "bo"@ {
        Some("Tibetan"@)
    } else if c == "nl"@ {
        Some("Dutch"@)
    } else if c == "ne"@ {
        Some("Nepali"@)
    } else if c == "kn"@ {
        Some("Kannada"@)
    } else if c == "gu"@ {
        Some("Bengali"@)
    } else if c == "bn"@ {
        Some("Nepali"@)
    } else if c == "da"@ {
        Some("Danish"@)
    } else if c == "hr"@ {
        Some("Croatian"@)
    } else if c == "hi"@ {
        Some("Hindi"@)
    } else if c == "bg"@ {
        Some("Bulgarian"@)
    } else if c == "no"@ {
        Some("Norwegian"@)
    } else if c == "nn"@ {
        Some("Norwegian"@)
    } else if c == "nb"@ {
        Some("Norwegian"@)
    } else if c == "si"@ {
        Some("Sinhala"@)
    } else if c == "ru"@ {
        Some("Russian"@)
    } else {
        None
    }
}

pub open spec fn alias_spec_c(c: Seq<char>) -> Option<Seq<char>> {
    if c == "oc"@ {
        Some("Occitan"@)
    } else if c == "es"@ {
        Some("Spanish"@)
    } else if c == "in"@ {
        Some("Indonesian"@)
    } else if c == "it"@ {
        Some("Italian"@)
    } else if c == "fr"@ {
        Some("French"@)
    } else if c == "gd"@ {
        Some("Scottish Gaelic"@)
    } else if c == "hu"@ {
        Some("Hungarian"@)
    } else if c == "sw"@ {
        Some("Swahili"@)
    } else if c == "be"@ {
        Some("Belarusian"@)
    } else if c == "be-official"@ {
        Some("Belarusian"@)
    } else if c == "pl"@ {
        Some("Polish"@)
    } else if c == "sk"@ {
        Some("Slovak"@)
    } else if c == "ar"@ {
        Some("Arabic"@)
    } else if c == "sa"@ {
        Some("Sanskrit"@)
    } else if c == "de"@ {
        Some("German"@)
    } else if c == "pt"@ {
        Some("Portuguese"@)
    } else if c == "ro"@ {
        Some("Romanian"@)
    } else if c == "bs"@ {
        Some("Bosnian"@)
    } else if c == "gl"@ {
        Some("Galician"@)
    } else {
        None
    }
}

pub open spec fn alias_spec_d(c: Seq<char>) -> Option<Seq<char>> {
    if c == "he"@ {
        Some("Hebrew"@)
    } else if c == "cs"@ {
        Some("Czech"@)
    } else if c == "el"@ {
        Some("Greek"@)
    } else if c == "id"@ {
        Some("Indonesian"@)
    } else if c == "ko"@ {
        Some("Korean"@)
    } else if c == "et"@ {
        Some("Estonian"@)
    } else if c == "or"@ {
        Some("Oriya"@)
    } else if c == "sl"@ {
        Some("Slovenian"@)
    } else if c == "uk"@ {
        Some("Ukrainian"@)
    } else if c == "ta"@ {
        Some("Tamil"@)
    } else if c == "kmr"@ {
        Some("Kurdish"@)
    } else if c == "sv"@ {
        Some("Swedish"@)
    } else if c == "th"@ {
        Some("Thai"@)
    } else if c == "hyph"@ {
        Some("Oops"@)
    } else if c == "vi"@ {
        Some("Vietnamese"@)
    } else if c == "sr"@ {
        Some("Serbian"@)
    } else if c == "sr-latn"@ {
        Some("Serbian"@)
    } else if c == "ckb"@ {
        Some("Kurdish"@)
    } else if c == "te"@ {
        Some("Telugu"@)
    } else {
        None
    }
}

/// Looks a language code up in the alias table.
pub fn alias_lookup(code: &str) -> (r: Option<String>)
    ensures
        r is Some <==> alias_spec(code@) is Some,
        r matches Some(n) ==> alias_spec(code@) == Some(n@),
{
    let r = alias_lookup_a(code);
    if r.is_some() {
        return r;
    }
    let r = alias_lookup_b(code);
    if r.is_some() {
        return r;
    }
    let r = alias_lookup_c(code);
    if r.is_some() {
        return r;
    }
    alias_lookup_d(code)
}

fn alias_lookup_a(code: &str) -> (r: Option<String>)
    ensures
        r is Some <==> alias_spec_a(code@) is Some,
        r matches Some(n) ==> alias_spec_a(code@) == Some(n@),
{
    if str_eq(code, "af") {
        Some(String::from_str("Afrikaans"))
    } else if str_eq(code, "pa") {
        Some(String::from_str("Punjabi"))
    } else if str_eq(code, "an") {
        Some(String::from_str("Aragonese"))
    } else if str_eq(code, "br") {
        Some(String::from_str("Breton"))
    } else if str_eq(code, "fa-ir") {
        Some(String::from_str("Persian"))
    } else if str_eq(code, "lo") {
        Some(String::from_str("Laotian"))
    } else if str_eq(code, "eo") {
        Some(String::from_str("esperanto"))
    } else if str_eq(code, "ca") {
        Some(String::from_str("Catalan"))
    } else if str_eq(code, "ca-valencia") {
        Some(String::from_str("Valencian"))
    } else if str_eq(code, "en ") {
        Some(String::from_str("English"))
    } else if str_eq(code, "en") {
        Some(String::from_str("English"))
    } else if str_eq(code, "gug") {
        Some(String::from_str("Guarani"))
    } else if str_eq(code, "is") {
        Some(String::from_str("Icelandic"))
    } else if str_eq(code, "fa") {
        Some(String::from_str("Persian"))
    } else if str_eq(code, "mn") {
        Some(String::from_str("Mongolian"))
    } else if str_eq(code, "ku") {
        Some(String::from_str("Kurdish"))
    } else if str_eq(code, "lt") {
        Some(String::from_str("Lithuanian"))
    } else if str_eq(code, "lv") {
        Some(String::from_str("Latvian"))
    } else if str_eq(code, "md") {
        Some(String::from_str("Mapudüngun"))
    } else {
        None
    }
}

fn alias_lookup_b(code: &str) -> (r: Option<String>)
    ensures
        r is Some <==> alias_spec_b(code@) is Some,
        r matches Some(n) ==> alias_spec_b(code@) == Some(n@),
{
    if str_eq(code, "mr") {
        Some(String::from_str("Marathi"))
    } else if str_eq(code, "tr") {
        Some(String::from_str("Turkish"))
    } else if str_eq(code, "as") {
        Some(String::from_str("Assamese"))
    } else if str_eq(code, "sq") {
        Some(String::from_str("Albanian"))
    } else if str_eq(code, "bo") {
        Some(String::from_str("Tibetan"))
    } else if str_eq(code, "nl") {
        Some(String::from_str("Dutch"))
    } else if str_eq(code, "ne") {
        Some(String::from_str("Nepali"))
    } else if str_eq(code, "kn") {
        Some(String::from_str("Kannada"))
    } else if str_eq(code, "gu") {
        Some(String::from_str("Bengali"))
    } else if str_eq(code, "bn") {
        Some(String::from_str("Nepali"))
    } else if str_eq(code, "da") {
        Some(String::from_str("Danish"))
    } else if str_eq(code, "hr") {
        Some(String::from_str("Croatian"))
    } else if str_eq(code, "hi") {
        Some(String::from_str("Hindi"))
    } else if str_eq(code, "bg") {
        Some(String::from_str("Bulgarian"))
    } else if str_eq(code, "no") {
        Some(String::from_str("Norwegian"))
    } else if str_eq(code, "nn") {
        Some(String::from_str("Norwegian"))
    } else if str_eq(code, "nb") {
        Some(String::from_str("Norwegian"))
    } else if str_eq(code, "si") {
        Some(String::from_str("Sinhala"))
    } else if str_eq(code, "ru") {
        Some(String::from_str("Russian"))
    } else {
        None
    }
}

fn alias_lookup_c(code: &str) -> (r: Option<String>)
    ensures
        r is Some <==> alias_spec_c(code@) is Some,
        r matches Some(n) ==> alias_spec_c(code@) == Some(n@),
{
    if str_eq(code, "oc") {
        Some(String::from_str("Occitan"))
    } else if str_eq(code, "es") {
        Some(String::from_str("Spanish"))
    } else if str_eq(code, "in") {
        Some(String::from_str("Indonesian"))
    } else if str_eq(code, "it") {
        Some(String::from_str("Italian"))
    } else if str_eq(code, "fr") {
        Some(String::from_str("French"))
    } else if str_eq(code, "gd") {
        Some(String::from_str("Scottish Gaelic"))
    } else if str_eq(code, "hu") {
        Some(String::from_str("Hungarian"))
    } else if str_eq(code, "sw") {
        Some(String::from_str("Swahili"))
    } else if str_eq(code, "be") {
        Some(String::from_str("Belarusian"))
    } else if str_eq(code, "be-official") {
        Some(String::from_str("Belarusian"))
    } else if str_eq(code, "pl") {
        Some(String::from_str("Polish"))
    } else if str_eq(code, "sk") {
        Some(String::from_str("Slovak"))
    } else if str_eq(code, "ar") {
        Some(String::from_str("Arabic"))
    } else if str_eq(code, "sa") {
        Some(String::from_str("Sanskrit"))
    } else if str_eq(code, "de") {
        Some(String::from_str("German"))
    } else if str_eq(code, "pt") {
        Some(String::from_str("Portuguese"))
    } else if str_eq(code, "ro") {
        Some(String::from_str("Romanian"))
    } else if str_eq(code, "bs") {
        Some(String::from_str("Bosnian"))
    } else if str_eq(code, "gl") {
        Some(String::from_str("Galician"))
    } else {
        None
    }
}

fn alias_lookup_d(code: &str) -> (r: Option<String>)
    ensures
        r is Some <==> alias_spec_d(code@) is Some,
        r matches Some(n) ==> alias_spec_d(code@) == Some(n@),
{
    if str_eq(code, "he") {
        Some(String::from_str("Hebrew"))
    } else if str_eq(code, "cs") {
        Some(String::from_str("Czech"))
    } else if str_eq(code, "el") {
        Some(String::from_str("Greek"))
    } else if str_eq(code, "id") {
        Some(String::from_str("Indonesian"))
    } else if str_eq(code, "ko") {
        Some(String::from_str("Korean"))
    } else if str_eq(code, "et") {
        Some(String::from_str("Estonian"))
    } else if str_eq(code, "or") {
        Some(String::from_str("Oriya"))
    } else if str_eq(code, "sl") {
        Some(String::from_str("Slovenian"))
    } else if str_eq(code, "uk") {
        Some(String::from_str("Ukrainian"))
    } else if str_eq(code, "ta") {
        Some(String::from_str("Tamil"))
    } else if str_eq(code, "kmr") {
        Some(String::from_str("Kurdish"))
    } else if str_eq(code, "sv") {
        Some(String::from_str("Swedish"))
    } else if str_eq(code, "th") {
        Some(String::from_str("Thai"))
    } else if str_eq(code, "hyph") {
        Some(String::from_str("Oops"))
    } else if str_eq(code, "vi") {
        Some(String::from_str("Vietnamese"))
    } else if str_eq(code, "sr") {
        Some(String::from_str("Serbian"))
    } else if str_eq(code, "sr-latn") {
        Some(String::from_str("Serbian"))
    } else if str_eq(code, "ckb") {
        Some(String::from_str("Kurdish"))
    } else if str_eq(code, "te") {
        Some(String::from_str("Telugu"))
    } else {
        None
    }
}

} // verus!
