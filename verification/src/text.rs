//! Character-level text handling: trimming, answer normalisation, joining
//! and the plain-text rendering of mnemonic markup.
use vstd::prelude::*;

verus! {

/// The Unicode `White_Space` property, the set of characters that
/// `char::is_whitespace` and `str::trim` treat as whitespace.
pub open spec fn is_white_space(c: char) -> bool {
    let v = c as u32;
    ||| 0x09 <= v <= 0x0D
    ||| v == 0x20
    ||| v == 0x85
    ||| v == 0xA0
    ||| v == 0x1680
    ||| 0x2000 <= v <= 0x200A
    ||| v == 0x2028
    ||| v == 0x2029
    ||| v == 0x202F
    ||| v == 0x205F
    ||| v == 0x3000
}

/// `s` without its leading whitespace.
pub open spec fn trim_start(s: Seq<char>) -> Seq<char>
    decreases s.len(),
{
    if s.len() > 0 && is_white_space(s[0]) {
        trim_start(s.drop_first())
    } else {
        s
    }
}

/// `s` without its trailing whitespace.
pub open spec fn trim_end(s: Seq<char>) -> Seq<char>
    decreases s.len(),
{
    if s.len() > 0 && is_white_space(s.last()) {
        trim_end(s.drop_last())
    } else {
        s
    }
}

/// `s` without leading and trailing whitespace.
pub open spec fn trimmed(s: Seq<char>) -> Seq<char> {
    trim_end(trim_start(s))
}

/// What `str::to_lowercase` returns for a string with the given characters.
pub uninterp spec fn lowercase(s: Seq<char>) -> Seq<char>;

/// Every character is ASCII.
pub open spec fn is_ascii_text(s: Seq<char>) -> bool {
    forall|i: int| 0 <= i < s.len() ==> (#[trigger] s[i] as u32) < 128
}

/// `A` to `Z` as `a` to `z`; every other character as it is.
pub open spec fn ascii_lower_char(c: char) -> char {
    if 'A' <= c <= 'Z' {
        ((c as u32) + 32) as char
    } else {
        c
    }
}

/// The text with its ASCII capitals lowercased.
pub open spec fn ascii_lowered(s: Seq<char>) -> Seq<char> {
    s.map_values(|c: char| ascii_lower_char(c))
}

/// The lowercase form of a text: for ASCII text, its letters lowercased one
/// by one; otherwise what `str::to_lowercase` gives.
pub open spec fn folded(s: Seq<char>) -> Seq<char> {
    if is_ascii_text(s) {
        ascii_lowered(s)
    } else {
        lowercase(s)
    }
}

/// Calls `char::is_whitespace`; its documentation defines whitespace as the
/// Unicode `White_Space` property, which `is_white_space` lists.
#[verifier::external_body]
pub(crate) fn is_whitespace(c: char) -> (b: bool)
    ensures
        b == is_white_space(c),
{
    c.is_whitespace()
}

/// Calls `str::trim`, which removes the leading and trailing characters with
/// the Unicode `White_Space` property.
#[verifier::external_body]
pub(crate) fn trim(s: &str) -> (t: &str)
    ensures
        t@ == trimmed(s@),
{
    s.trim()
}

/// Calls `str::to_lowercase`; the contract names its result (`lowercase`),
/// which depends on the characters of `s` alone, and states that ASCII text
/// has its letters `A` to `Z` lowercased and keeps every other character,
/// which the Unicode lowercase mapping that the documentation names does to
/// ASCII (its example turns "HELLO" into "hello").
#[verifier::external_body]
pub(crate) fn to_lowercase(s: &str) -> (l: String)
    ensures
        l@ == lowercase(s@),
        is_ascii_text(s@) ==> l@ == ascii_lowered(s@),
{
    s.to_lowercase()
}

/// Calls `String::push`, which appends one character.
#[verifier::external_body]
pub(crate) fn push_char(s: &mut String, c: char)
    ensures
        final(s)@ == old(s)@.push(c),
{
    s.push(c)
}

/// Calls `Iterator::count` on `str::chars`, the number of characters of `s`.
/// The bound holds because Rust never lets a value, and so a string, exceed
/// `isize::MAX` bytes, and every character takes at least one byte.
#[verifier::external_body]
pub(crate) fn char_count(s: &str) -> (n: usize)
    ensures
        n == s@.len(),
        n <= isize::MAX,
{
    s.chars().count()
}

/// Collects the characters of `s` into a vector.
pub fn chars_of(s: &str) -> (out: Vec<char>)
    ensures
        out@ == s@,
{
    let mut out: Vec<char> = Vec::new();
    for c in it: s.chars()
        invariant
            out@ == it.seq().take(it.index()),
            it.seq() == s@,
    {
        out.push(c);
    }
    out
}

/// Builds a string from a sequence of characters.
pub fn string_from_chars(chars: &Vec<char>) -> (out: String)
    ensures
        out@ == chars@,
{
    let mut out = String::new();
    let mut i: usize = 0;
    while i < chars.len()
        invariant
            i <= chars.len(),
            out@ == chars@.take(i as int),
        decreases chars.len() - i,
    {
        push_char(&mut out, chars[i]);
        i += 1;
        assert(chars@.take(i as int) == chars@.take((i - 1) as int).push(chars@[i - 1]));
    }
    assert(chars@.take(chars.len() as int) == chars@);
    out
}

/// A character that answer comparison ignores: whitespace, hyphens and
/// underscores.
pub open spec fn is_ignored_in_answers(c: char) -> bool {
    is_white_space(c) || c == '-' || c == '_'
}

/// The characters of `s` that answer comparison keeps, in order.
pub open spec fn without_ignored(s: Seq<char>) -> Seq<char>
    decreases s.len(),
{
    if s.len() == 0 {
        s
    } else if is_ignored_in_answers(s.last()) {
        without_ignored(s.drop_last())
    } else {
        without_ignored(s.drop_last()).push(s.last())
    }
}

/// The canonical form under which answers are compared: trimmed, lowercased,
/// with whitespace, hyphens and underscores removed.
pub open spec fn normalized(s: Seq<char>) -> Seq<char> {
    without_ignored(folded(trimmed(s)))
}

proof fn lemma_lowering_keeps_whitespace(c: char)
    ensures
        is_white_space(ascii_lower_char(c)) == is_white_space(c),
{
    if 'A' <= c <= 'Z' {
        assert(0x61 <= ascii_lower_char(c) as u32 <= 0x7A);
    }
}

proof fn lemma_trim_start_ascii(s: Seq<char>)
    ensures
        ascii_lowered(trim_start(s)) == trim_start(ascii_lowered(s)),
        is_ascii_text(s) ==> is_ascii_text(trim_start(s)),
    decreases s.len(),
{
    if s.len() > 0 {
        lemma_lowering_keeps_whitespace(s[0]);
        assert(ascii_lowered(s)[0] == ascii_lower_char(s[0]));
        if is_white_space(s[0]) {
            assert(ascii_lowered(s).drop_first() =~= ascii_lowered(s.drop_first()));
            lemma_trim_start_ascii(s.drop_first());
            if is_ascii_text(s) {
                assert forall|i: int| 0 <= i < s.drop_first().len() implies (#[trigger] s.drop_first()[i] as u32) < 128 by {
                    assert(s.drop_first()[i] == s[i + 1]);
                }
            }
        }
    } else {
        assert(ascii_lowered(s) =~= s);
    }
}

proof fn lemma_trim_end_ascii(s: Seq<char>)
    ensures
        ascii_lowered(trim_end(s)) == trim_end(ascii_lowered(s)),
        is_ascii_text(s) ==> is_ascii_text(trim_end(s)),
    decreases s.len(),
{
    if s.len() > 0 {
        lemma_lowering_keeps_whitespace(s.last());
        assert(ascii_lowered(s).last() == ascii_lower_char(s.last()));
        if is_white_space(s.last()) {
            assert(ascii_lowered(s).drop_last() =~= ascii_lowered(s.drop_last()));
            lemma_trim_end_ascii(s.drop_last());
            if is_ascii_text(s) {
                assert forall|i: int| 0 <= i < s.drop_last().len() implies (#[trigger] s.drop_last()[i] as u32) < 128 by {
                    assert(s.drop_last()[i] == s[i]);
                }
            }
        }
    } else {
        assert(ascii_lowered(s) =~= s);
    }
}

/// ASCII answers that differ only in the case of their letters normalise
/// alike.
pub proof fn lemma_ascii_case_normalizes_alike(a: Seq<char>, b: Seq<char>)
    requires
        is_ascii_text(a),
        is_ascii_text(b),
        ascii_lowered(a) == ascii_lowered(b),
    ensures
        normalized(a) == normalized(b),
{
    lemma_trim_start_ascii(a);
    lemma_trim_end_ascii(trim_start(a));
    lemma_trim_start_ascii(b);
    lemma_trim_end_ascii(trim_start(b));
}

/// Normalises an answer for comparison (see `normalized`).
pub fn normalize_answer(answer: &str) -> (out: String)
    ensures
        out@ == normalized(answer@),
{
    let lower = to_lowercase(trim(answer));
    let mut out = String::new();
    for c in it: lower.as_str().chars()
        invariant
            it.seq() == lower@,
            lower@ == folded(trimmed(answer@)),
            out@ == without_ignored(it.seq().take(it.index())),
    {
        let ghost taken = it.seq().take(it.index());
        assert(it.seq().take(it.index() + 1).drop_last() == taken);
        if !(is_whitespace(c) || c == '-' || c == '_') {
            push_char(&mut out, c);
        }
    }
    assert(lower@.take(lower@.len() as int) == lower@);
    out
}


/// The texts of a sequence of strings.
pub open spec fn texts(strings: Seq<String>) -> Seq<Seq<char>>
    decreases strings.len(),
{
    if strings.len() == 0 {
        Seq::empty()
    } else {
        texts(strings.drop_last()).push(strings.last()@)
    }
}

/// The texts of a sequence of strings are the views of its strings.
pub proof fn lemma_texts_index(strings: Seq<String>)
    ensures
        texts(strings).len() == strings.len(),
        forall|k: int| 0 <= k < strings.len() ==> #[trigger] texts(strings)[k] == strings[k]@,
    decreases strings.len(),
{
    if strings.len() > 0 {
        lemma_texts_index(strings.drop_last());
    }
}

/// The parts joined with `separator` between each two of them.
pub open spec fn joined(parts: Seq<Seq<char>>, separator: Seq<char>) -> Seq<char>
    decreases parts.len(),
{
    if parts.len() == 0 {
        Seq::empty()
    } else if parts.len() == 1 {
        parts[0]
    } else {
        joined(parts.drop_last(), separator) + separator + parts.last()
    }
}

/// Appends the characters of `tail` to `s`.
pub fn push_text(s: &mut String, tail: &str)
    ensures
        final(s)@ == old(s)@ + tail@,
{
    s.append(tail);
}

/// Joins the strings with `separator` between each two of them.
pub fn join_texts(parts: &[String], separator: &str) -> (out: String)
    ensures
        out@ == joined(texts(parts@), separator@),
{
    let mut out = String::new();
    let mut i: usize = 0;
    while i < parts.len()
        invariant
            i <= parts@.len(),
            out@ == joined(texts(parts@.take(i as int)), separator@),
        decreases parts@.len() - i,
    {
        let ghost done = parts@.take(i as int);
        assert(parts@.take(i + 1).drop_last() == done);
        assert(texts(parts@.take(i + 1)).drop_last() == texts(done));
        if i > 0 {
            push_text(&mut out, separator);
        } else {
            assert(texts(parts@.take(1)) == seq![parts@[0]@]);
        }
        push_text(&mut out, parts[i].as_str());
        i += 1;
    }
    assert(parts@.take(parts@.len() as int) == parts@);
    out
}

/// The decimal digit for `d`, which is below ten.
pub open spec fn digit(d: nat) -> char {
    (48 + d) as char
}

/// The decimal numeral of `n`, without leading zeros.
pub open spec fn decimal(n: nat) -> Seq<char>
    decreases n,
{
    if n < 10 {
        seq![digit(n)]
    } else {
        decimal(n / 10).push(digit(n % 10))
    }
}

/// Calls `ToString::to_string` on a `u64`, which writes it in decimal.
#[verifier::external_body]
pub(crate) fn u64_to_string(n: u64) -> (s: String)
    ensures
        s@ == decimal(n as nat),
{
    n.to_string()
}

/// The decimal numerals of the numbers, in order.
pub open spec fn decimals(ns: Seq<u64>) -> Seq<Seq<char>>
    decreases ns.len(),
{
    if ns.len() == 0 {
        Seq::empty()
    } else {
        decimals(ns.drop_last()).push(decimal(ns.last() as nat))
    }
}

/// The decimal numerals of the ids, separated by commas.
pub fn join_ids(ids: &[u64]) -> (out: String)
    ensures
        out@ == joined(decimals(ids@), ","@),
{
    let mut numerals: Vec<String> = Vec::new();
    let mut i: usize = 0;
    while i < ids.len()
        invariant
            i <= ids@.len(),
            texts(numerals@) == decimals(ids@.take(i as int)),
        decreases ids@.len() - i,
    {
        let ghost before = numerals@;
        assert(ids@.take(i + 1).drop_last() == ids@.take(i as int));
        numerals.push(u64_to_string(ids[i]));
        assert(numerals@.drop_last() == before);
        i += 1;
    }
    assert(ids@.take(ids@.len() as int) == ids@);
    join_texts(numerals.as_slice(), ",")
}

/// The values joined with ", ", or "none" when there are none.
pub open spec fn listing(values: Seq<String>) -> Seq<char> {
    if values.len() == 0 {
        "none"@
    } else {
        joined(texts(values), ", "@)
    }
}

/// Lists the values, or says "none" when there are none.
pub fn optional_join(values: Vec<String>) -> (out: String)
    ensures
        out@ == listing(values@),
{
    if values.len() == 0 {
        String::from_str("none")
    } else {
        join_texts(values.as_slice(), ", ")
    }
}

/// `s` with every occurrence of `pattern`, scanned from the left without
/// overlaps, replaced by `replacement`.
pub open spec fn replace_all(s: Seq<char>, pattern: Seq<char>, replacement: Seq<char>) -> Seq<char>
    decreases s.len(),
{
    if s.len() == 0 {
        s
    } else if 0 < pattern.len() <= s.len() && s.take(pattern.len() as int) == pattern {
        replacement + replace_all(s.skip(pattern.len() as int), pattern, replacement)
    } else {
        seq![s[0]] + replace_all(s.skip(1), pattern, replacement)
    }
}

/// Whether `pattern` occurs in `s` at position `at`.
fn occurs_at(s: &Vec<char>, at: usize, pattern: &Vec<char>) -> (found: bool)
    requires
        at <= s@.len(),
    ensures
        found == (pattern@.len() <= s@.len() - at && s@.skip(at as int).take(pattern@.len() as int) == pattern@),
{
    if pattern.len() > s.len() - at {
        return false;
    }
    let mut k: usize = 0;
    while k < pattern.len()
        invariant
            at + pattern@.len() <= s@.len(),
            k <= pattern@.len(),
            forall|m: int| 0 <= m < k ==> s@[at + m] == pattern@[m],
        decreases pattern@.len() - k,
    {
        assert(at + k < s.len());
        if s[at + k] != pattern[k] {
            assert(s@.skip(at as int).take(pattern@.len() as int)[k as int] != pattern@[k as int]);
            return false;
        }
        k += 1;
    }
    assert(s@.skip(at as int).take(pattern@.len() as int) =~= pattern@);
    true
}

/// Replaces every occurrence of a non-empty `pattern` (see `replace_all`).
fn replace_chars(s: &Vec<char>, pattern: &Vec<char>, replacement: &Vec<char>) -> (out: Vec<char>)
    requires
        pattern@.len() > 0,
    ensures
        out@ == replace_all(s@, pattern@, replacement@),
{
    let mut out: Vec<char> = Vec::new();
    let mut i: usize = 0;
    assert(s@.skip(0) == s@);
    assert(out@ + s@ == s@);
    while i < s.len()
        invariant
            i <= s@.len(),
            pattern@.len() > 0,
            out@ + replace_all(s@.skip(i as int), pattern@, replacement@) == replace_all(s@, pattern@, replacement@),
        decreases s@.len() - i,
    {
        let ghost rest = s@.skip(i as int);
        if occurs_at(s, i, pattern) {
            let ghost out_before = out@;
            let mut k: usize = 0;
            while k < replacement.len()
                invariant
                    k <= replacement@.len(),
                    out@ == out_before + replacement@.take(k as int),
                decreases replacement@.len() - k,
            {
                out.push(replacement[k]);
                k += 1;
                assert(out@ == out_before + replacement@.take(k as int));
            }
            assert(replacement@.take(replacement@.len() as int) == replacement@);
            assert(rest.skip(pattern@.len() as int) == s@.skip(i + pattern@.len()));
            assert(out_before + (replacement@ + replace_all(rest.skip(pattern@.len() as int), pattern@, replacement@)) == out@ + replace_all(s@.skip(i + pattern@.len()), pattern@, replacement@));
            i += pattern.len();
        } else {
            let ghost out_before = out@;
            out.push(s[i]);
            assert(rest.skip(1) == s@.skip(i + 1));
            assert(out_before + (seq![rest[0]] + replace_all(rest.skip(1), pattern@, replacement@)) == out@ + replace_all(s@.skip(i + 1), pattern@, replacement@));
            i += 1;
        }
    }
    assert(s@.skip(s@.len() as int) == Seq::<char>::empty());
    assert(out@ + Seq::<char>::empty() == out@);
    out
}

/// What remains of markup text outside its tags, and whether the text ends
/// inside a tag.
pub open spec fn outside_tags(s: Seq<char>) -> (Seq<char>, bool)
    decreases s.len(),
{
    if s.len() == 0 {
        (Seq::empty(), false)
    } else {
        let (kept, in_tag) = outside_tags(s.drop_last());
        let c = s.last();
        if c == '<' {
            (kept, true)
        } else if c == '>' {
            (kept, false)
        } else if !in_tag {
            (kept.push(c), in_tag)
        } else {
            (kept, in_tag)
        }
    }
}

/// Markup as plain text: tags dropped, then the entities for quotes,
/// apostrophes, ampersands and angle brackets decoded, in that order.
pub open spec fn plain_text(s: Seq<char>) -> Seq<char> {
    let text = outside_tags(s).0;
    replace_all(
        replace_all(
            replace_all(
                replace_all(replace_all(text, "&quot;"@, "\""@), "&apos;"@, "'"@),
                "&amp;"@,
                "&"@,
            ),
            "&lt;"@,
            "<"@,
        ),
        "&gt;"@,
        ">"@,
    )
}

/// Renders mnemonic markup as plain text (see `plain_text`).
pub fn strip_html(input: &str) -> (out: String)
    ensures
        out@ == plain_text(input@),
{
    let mut text: Vec<char> = Vec::new();
    let mut in_tag = false;
    for c in it: input.chars()
        invariant
            it.seq() == input@,
            (text@, in_tag) == outside_tags(it.seq().take(it.index())),
    {
        assert(it.seq().take(it.index() + 1).drop_last() == it.seq().take(it.index()));
        if c == '<' {
            in_tag = true;
        } else if c == '>' {
            in_tag = false;
        } else if !in_tag {
            text.push(c);
        }
    }
    assert(input@.take(input@.len() as int) == input@);
    proof {
        reveal_strlit("&quot;");
        reveal_strlit("&apos;");
        reveal_strlit("&amp;");
        reveal_strlit("&lt;");
        reveal_strlit("&gt;");
    }
    let text = replace_chars(&text, &chars_of("&quot;"), &chars_of("\""));
    let text = replace_chars(&text, &chars_of("&apos;"), &chars_of("'"));
    let text = replace_chars(&text, &chars_of("&amp;"), &chars_of("&"));
    let text = replace_chars(&text, &chars_of("&lt;"), &chars_of("<"));
    let text = replace_chars(&text, &chars_of("&gt;"), &chars_of(">"));
    string_from_chars(&text)
}


/// Whether `c` is one of the ASCII digits '0' to '9'.
pub open spec fn is_ascii_digit(c: char) -> bool {
    '0' <= c <= '9'
}

/// The numeric value of a sequence of ASCII digits.
pub open spec fn digits_value(s: Seq<char>) -> nat
    decreases s.len(),
{
    if s.len() == 0 {
        0
    } else {
        digits_value(s.drop_last()) * 10 + ((s.last() as u32) - 48) as nat
    }
}

/// What `str::parse::<usize>` accepts: an optional '+', then one or more
/// ASCII digits whose value fits in a `usize`.
pub open spec fn parsed_usize(s: Seq<char>) -> Option<usize> {
    let digits = if s.len() > 0 && s[0] == '+' { s.drop_first() } else { s };
    if digits.len() > 0 && (forall|k: int| 0 <= k < digits.len() ==> is_ascii_digit(#[trigger] digits[k]))
        && digits_value(digits) <= usize::MAX {
        Some(digits_value(digits) as usize)
    } else {
        None
    }
}

/// Calls `str::parse::<usize>`, which reads an optional '+' followed by
/// decimal digits and fails on anything else or on overflow.
#[verifier::external_body]
pub(crate) fn parse_usize(s: &str) -> (n: Option<usize>)
    ensures
        n == parsed_usize(s@),
{
    s.parse::<usize>().ok()
}

/// Calls `String::pop`, which removes the last character if there is one.
#[verifier::external_body]
pub(crate) fn pop_char(s: &mut String)
    ensures
        final(s)@ == if old(s)@.len() > 0 { old(s)@.drop_last() } else { old(s)@ },
{
    s.pop();
}

/// The ASCII digits of `s`, in order.
pub open spec fn ascii_digits(s: Seq<char>) -> Seq<char>
    decreases s.len(),
{
    if s.len() == 0 {
        s
    } else if is_ascii_digit(s.last()) {
        ascii_digits(s.drop_last()).push(s.last())
    } else {
        ascii_digits(s.drop_last())
    }
}

/// Appends the ASCII digits of `text` to `s`.
pub fn push_ascii_digits(s: &mut String, text: &str)
    ensures
        final(s)@ == old(s)@ + ascii_digits(text@),
{
    let ghost start = s@;
    for c in it: text.chars()
        invariant
            it.seq() == text@,
            s@ == start + ascii_digits(it.seq().take(it.index())),
    {
        assert(it.seq().take(it.index() + 1).drop_last() == it.seq().take(it.index()));
        if '0' <= c && c <= '9' {
            push_char(s, c);
        }
    }
    assert(text@.take(text@.len() as int) == text@);
}

} // verus!
