//! Kana conversion of typed readings.
use vstd::prelude::*;
use wana_kana::ConvertJapanese;
use crate::text::{chars_of, trim, trimmed};

verus! {

/// What `wana_kana` converts a text to when asked for hiragana.
pub uninterp spec fn hiragana(text: Seq<char>) -> Seq<char>;

/// The halfwidth voicing mark U+FF9E and semi-voicing mark U+FF9F.
pub open spec fn is_voicing_mark(c: char) -> bool {
    c == '\u{FF9E}' || c == '\u{FF9F}'
}

/// Whether the halfwidth kana `base` combines with the halfwidth `mark` that
/// follows it: ｳ, ｶ to ﾄ and ﾊ to ﾎ take the voicing mark, ﾊ to ﾎ also the
/// semi-voicing mark.
pub open spec fn takes_mark(base: char, mark: char) -> bool {
    let b = base as u32;
    if mark == '\u{FF9E}' {
        b == 0xFF73 || (0xFF76 <= b <= 0xFF84) || (0xFF8A <= b <= 0xFF8E)
    } else if mark == '\u{FF9F}' {
        0xFF8A <= b <= 0xFF8E
    } else {
        false
    }
}

/// The character at `i` is a halfwidth mark that no kana before it takes.
pub open spec fn stray_mark_at(s: Seq<char>, i: int) -> bool {
    is_voicing_mark(s[i]) && !(i > 0 && takes_mark(s[i - 1], s[i]))
}

/// Hiragana (with both prolonged sound marks) or katakana, as `wana_kana`
/// counts them when it tells mixed text.
pub open spec fn is_kana_char(c: char) -> bool {
    let v = c as u32;
    ||| 0x3041 <= v <= 0x3096
    ||| 0x30A1 <= v <= 0x30FC
    ||| v == 0xFF70
}

/// Basic Latin and the Hepburn long vowels, `wana_kana`'s romaji.
pub open spec fn is_romaji_char(c: char) -> bool {
    let v = c as u32;
    ||| v <= 0x7F
    ||| 0x100 <= v <= 0x101
    ||| 0x112 <= v <= 0x113
    ||| 0x12A <= v <= 0x12B
    ||| 0x14C <= v <= 0x14D
    ||| 0x16A <= v <= 0x16B
}

/// `wana_kana`'s English punctuation, including the smart quotes.
pub open spec fn is_english_punctuation(c: char) -> bool {
    let v = c as u32;
    ||| 0x20 <= v <= 0x2F
    ||| 0x3A <= v <= 0x3F
    ||| 0x5B <= v <= 0x60
    ||| 0x7B <= v <= 0x7E
    ||| 0x2018 <= v <= 0x2019
    ||| 0x201C <= v <= 0x201D
}

pub open spec fn has_stray_mark(s: Seq<char>) -> bool {
    exists|i: int| 0 <= i < s.len() && #[trigger] stray_mark_at(s, i)
}

pub open spec fn has_kana(s: Seq<char>) -> bool {
    exists|i: int| 0 <= i < s.len() && #[trigger] is_kana_char(s[i])
}

pub open spec fn has_romaji(s: Seq<char>) -> bool {
    exists|i: int| 0 <= i < s.len() && #[trigger] is_romaji_char(s[i])
}

/// The texts that `wana_kana` converts to hiragana. It reads a text as
/// katakana unless the text is romaji only, or starts with English
/// punctuation without mixing romaji and kana; reading as katakana, it fails
/// (panics, or never returns) on a halfwidth mark that no kana before it
/// takes.
pub open spec fn hiragana_convertible(s: Seq<char>) -> bool {
    has_stray_mark(s) ==> !(has_kana(s) && has_romaji(s)) && s.len() > 0 && is_english_punctuation(s[0])
}

/// Calls `wana_kana::ConvertJapanese::to_hiragana` on a string slice, on
/// the texts it converts; the contract names the result and claims only that
/// it depends on the text alone.
#[verifier::external_body]
pub(crate) fn to_hiragana(text: &str) -> (converted: String)
    requires
        hiragana_convertible(text@),
    ensures
        converted@ == hiragana(text@),
{
    text.to_hiragana()
}

fn is_voicing_mark_char(c: char) -> (b: bool)
    ensures
        b == is_voicing_mark(c),
{
    c == '\u{FF9E}' || c == '\u{FF9F}'
}

fn takes_mark_char(base: char, mark: char) -> (b: bool)
    ensures
        b == takes_mark(base, mark),
{
    let v = base as u32;
    if mark == '\u{FF9E}' {
        v == 0xFF73 || (0xFF76 <= v && v <= 0xFF84) || (0xFF8A <= v && v <= 0xFF8E)
    } else if mark == '\u{FF9F}' {
        0xFF8A <= v && v <= 0xFF8E
    } else {
        false
    }
}

fn is_kana_char_exec(c: char) -> (b: bool)
    ensures
        b == is_kana_char(c),
{
    let v = c as u32;
    (0x3041 <= v && v <= 0x3096) || (0x30A1 <= v && v <= 0x30FC) || v == 0xFF70
}

fn is_romaji_char_exec(c: char) -> (b: bool)
    ensures
        b == is_romaji_char(c),
{
    let v = c as u32;
    v <= 0x7F || (0x100 <= v && v <= 0x101) || (0x112 <= v && v <= 0x113) || (0x12A <= v && v <= 0x12B)
        || (0x14C <= v && v <= 0x14D) || (0x16A <= v && v <= 0x16B)
}

fn is_english_punctuation_exec(c: char) -> (b: bool)
    ensures
        b == is_english_punctuation(c),
{
    let v = c as u32;
    (0x20 <= v && v <= 0x2F) || (0x3A <= v && v <= 0x3F) || (0x5B <= v && v <= 0x60) || (0x7B <= v && v <= 0x7E)
        || (0x2018 <= v && v <= 0x2019) || (0x201C <= v && v <= 0x201D)
}

/// Whether `wana_kana` converts `text` to hiragana (see
/// `hiragana_convertible`).
pub fn is_hiragana_convertible(text: &str) -> (ok: bool)
    ensures
        ok == hiragana_convertible(text@),
{
    let chars = chars_of(text);
    let mut stray = false;
    let mut kana = false;
    let mut romaji = false;
    let mut i: usize = 0;
    while i < chars.len()
        invariant
            i <= chars@.len(),
            chars@ == text@,
            stray == exists|k: int| 0 <= k < i && #[trigger] stray_mark_at(chars@, k),
            kana == exists|k: int| 0 <= k < i && #[trigger] is_kana_char(chars@[k]),
            romaji == exists|k: int| 0 <= k < i && #[trigger] is_romaji_char(chars@[k]),
        decreases chars@.len() - i,
    {
        let c = chars[i];
        if is_voicing_mark_char(c) {
            let taken = i > 0 && takes_mark_char(chars[i - 1], c);
            if !taken {
                stray = true;
            }
        }
        assert(stray_mark_at(chars@, i as int) == (is_voicing_mark(c) && !(i > 0 && takes_mark(chars@[i - 1], c))));
        if is_kana_char_exec(c) {
            kana = true;
        }
        if is_romaji_char_exec(c) {
            romaji = true;
        }
        i += 1;
    }
    if !stray {
        return true;
    }
    !(kana && romaji) && chars.len() > 0 && is_english_punctuation_exec(chars[0])
}

/// A typed reading as it is graded: trimmed, then converted to hiragana, so
/// that romaji input is compared as kana.
pub fn reading_as_hiragana(answer: &str) -> (converted: String)
    requires
        hiragana_convertible(trimmed(answer@)),
    ensures
        converted@ == hiragana(trimmed(answer@)),
{
    to_hiragana(trim(answer))
}

} // verus!
