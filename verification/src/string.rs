//! String manipulation functionality.

use core::cmp::Ordering;
use vstd::prelude::*;

verus! {

/// Placeholder used in `Debug` output to redact secret fields.
pub const REDACTED: &'static str = "<redacted>";

/// Returns the characters of `s` as a vector.
#[verifier::external_body]
pub(crate) fn chars_of(s: &str) -> (v: Vec<char>)
    ensures
        v@ == s@,
{
    s.chars().collect()
}

/// Builds a `String` from a vector of characters.
#[verifier::external_body]
pub(crate) fn string_from_chars(v: &Vec<char>) -> (s: String)
    ensures
        s@ == v@,
{
    v.iter().collect()
}

/// The masked form of an API key: asterisks for short keys, else the first and
/// last four characters around `...`.
pub open spec fn spec_mask_api_key(key: Seq<char>) -> Seq<char> {
    if key.len() <= 8 {
        Seq::new(key.len(), |i: int| '*')
    } else {
        key.take(4) + seq!['.', '.', '.'] + key.skip(key.len() - 4)
    }
}

/// Masks an API key by showing only the first and last 4 characters.
///
/// For keys 8 characters or shorter, returns asterisks only.
pub fn mask_api_key(key: &str) -> (masked: String)
    ensures
        masked@ == spec_mask_api_key(key@),
{
    let chars = chars_of(key);
    let len = chars.len();
    let mut out: Vec<char> = Vec::new();
    if len <= 8 {
        let mut i: usize = 0;
        while i < len
            invariant
                i <= len,
                out@ == Seq::new(i as nat, |j: int| '*'),
            decreases len - i,
        {
            out.push('*');
            i += 1;
        }
    } else {
        let mut i: usize = 0;
        while i < 4
            invariant
                i <= 4 < len,
                chars@ == key@,
                len == chars@.len(),
                out@ == chars@.take(i as int),
            decreases 4 - i,
        {
            out.push(chars[i]);
            i += 1;
        }
        out.push('.');
        out.push('.');
        out.push('.');
        let mut j: usize = len - 4;
        while j < len
            invariant
                4 < len - 4 <= j <= len,
                chars@ == key@,
                len == chars@.len(),
                out@ == chars@.take(4) + seq!['.', '.', '.'] + chars@.subrange(len - 4, j as int),
            decreases len - j,
        {
            out.push(chars[j]);
            j += 1;
        }
    }
    string_from_chars(&out)
}


/// Which character classification a snake-case conversion uses.
pub enum CharRules {
    /// ASCII classification (`is_ascii_alphanumeric` and friends).
    Ascii,
    /// Unicode classification (`char::is_alphanumeric` and friends).
    Unicode,
}

/// `char::is_alphanumeric`.
pub uninterp spec fn unicode_is_alphanumeric(c: char) -> bool;

/// `char::is_lowercase`.
pub uninterp spec fn unicode_is_lowercase(c: char) -> bool;

/// `char::is_uppercase`.
pub uninterp spec fn unicode_is_uppercase(c: char) -> bool;

/// The characters that `char::to_lowercase` yields.
pub uninterp spec fn unicode_to_lowercase(c: char) -> Seq<char>;

/// Calls `char::is_alphanumeric`.
#[verifier::external_body]
fn char_is_alphanumeric(c: char) -> (b: bool)
    ensures
        b == unicode_is_alphanumeric(c),
{
    c.is_alphanumeric()
}

/// Calls `char::is_lowercase`.
#[verifier::external_body]
fn char_is_lowercase(c: char) -> (b: bool)
    ensures
        b == unicode_is_lowercase(c),
{
    c.is_lowercase()
}

/// Calls `char::is_uppercase`.
#[verifier::external_body]
fn char_is_uppercase(c: char) -> (b: bool)
    ensures
        b == unicode_is_uppercase(c),
{
    c.is_uppercase()
}

/// Collects the characters of `char::to_lowercase`.
#[verifier::external_body]
fn char_to_lowercase(c: char) -> (v: Vec<char>)
    ensures
        v@ == unicode_to_lowercase(c),
{
    c.to_lowercase().collect()
}

pub open spec fn ascii_digit(c: char) -> bool {
    '0' <= c <= '9'
}

pub open spec fn ascii_lower(c: char) -> bool {
    'a' <= c <= 'z'
}

pub open spec fn ascii_upper(c: char) -> bool {
    'A' <= c <= 'Z'
}

pub open spec fn ascii_alnum(c: char) -> bool {
    ascii_digit(c) || ascii_lower(c) || ascii_upper(c)
}

/// ASCII lowercase mapping: upper-case letters move down by 32, all else stays.
pub open spec fn ascii_to_lower(c: char) -> char {
    if ascii_upper(c) {
        ((c as u32) + 32) as char
    } else {
        c
    }
}

pub open spec fn is_alnum(r: CharRules, c: char) -> bool {
    match r {
        CharRules::Ascii => ascii_alnum(c),
        CharRules::Unicode => unicode_is_alphanumeric(c),
    }
}

pub open spec fn is_lower(r: CharRules, c: char) -> bool {
    match r {
        CharRules::Ascii => ascii_lower(c),
        CharRules::Unicode => unicode_is_lowercase(c),
    }
}

pub open spec fn is_upper(r: CharRules, c: char) -> bool {
    match r {
        CharRules::Ascii => ascii_upper(c),
        CharRules::Unicode => unicode_is_uppercase(c),
    }
}

pub open spec fn lowered(r: CharRules, c: char) -> Seq<char> {
    match r {
        CharRules::Ascii => seq![ascii_to_lower(c)],
        CharRules::Unicode => unicode_to_lowercase(c),
    }
}

/// Case modes: 0 at a boundary, 1 after a lower-case letter, 2 after an upper-case letter.
pub open spec fn next_mode(r: CharRules, c: char, mode: u8) -> u8 {
    if is_lower(r, c) {
        1
    } else if is_upper(r, c) {
        2
    } else {
        mode
    }
}

/// A word ends after `c` when `c` closes a lower-case stretch and `next` is upper case
/// (`camelCase`).
pub open spec fn rule_lower_upper(r: CharRules, c: char, next: char, mode: u8) -> bool {
    next_mode(r, c, mode) == 1 && is_upper(r, next)
}

/// A word starts at `c` when `c` ends a run of upper-case letters and `next` is lower case
/// (`XMLParser`).
pub open spec fn rule_upper_run(r: CharRules, c: char, next: char, mode: u8) -> bool {
    !rule_lower_upper(r, c, next, mode) && mode == 2 && is_upper(r, c) && is_lower(r, next)
}

/// The case mode on reaching `s[i]`: the case of the last cased character of the current
/// word piece, reset at every word boundary.
pub open spec fn mode_at(r: CharRules, s: Seq<char>, i: int) -> u8
    decreases i,
{
    if i <= 0 || i > s.len() || !is_alnum(r, s[i - 1]) {
        0
    } else {
        let m = mode_at(r, s, i - 1);
        if rule_lower_upper(r, s[i - 1], s[i], m) || rule_upper_run(r, s[i - 1], s[i], m) {
            0
        } else {
            next_mode(r, s[i - 1], m)
        }
    }
}

/// Inside an alphanumeric run, a new word starts at `i`.
pub open spec fn splits_before(r: CharRules, s: Seq<char>, i: int) -> bool {
    ||| rule_lower_upper(r, s[i - 1], s[i], mode_at(r, s, i - 1))
    ||| (i + 1 < s.len() && is_alnum(r, s[i + 1]) && rule_upper_run(
        r,
        s[i],
        s[i + 1],
        mode_at(r, s, i),
    ))
}

/// `s[i]` is the first character of a word of the output.
pub open spec fn starts_word(r: CharRules, s: Seq<char>, i: int) -> bool {
    &&& is_alnum(r, s[i])
    &&& (i == 0 || !is_alnum(r, s[i - 1]) || splits_before(r, s, i))
}

/// Some character before `i` is alphanumeric.
pub open spec fn any_alnum_before(r: CharRules, s: Seq<char>, i: int) -> bool
    decreases i,
{
    if i <= 0 {
        false
    } else {
        is_alnum(r, s[i - 1]) || any_alnum_before(r, s, i - 1)
    }
}

/// What `s[i]` contributes to the output: nothing for a separator, else its lower-case
/// form, preceded by `_` when it starts a word that is not the first.
pub open spec fn emit(r: CharRules, s: Seq<char>, i: int) -> Seq<char> {
    if !is_alnum(r, s[i]) {
        Seq::empty()
    } else if starts_word(r, s, i) && any_alnum_before(r, s, i) {
        seq!['_'] + lowered(r, s[i])
    } else {
        lowered(r, s[i])
    }
}

/// The output for the first `n` characters of `s`.
pub open spec fn snake_prefix(r: CharRules, s: Seq<char>, n: int) -> Seq<char>
    decreases n,
{
    if n <= 0 {
        Seq::empty()
    } else {
        snake_prefix(r, s, n - 1) + emit(r, s, n - 1)
    }
}

/// The `snake_case` form of `s` under the classification `r`.
pub open spec fn spec_to_snake_case(r: CharRules, s: Seq<char>) -> Seq<char> {
    snake_prefix(r, s, s.len() as int)
}

/// The lower-case forms of `s[a..b]`, concatenated.
pub open spec fn lowered_run(r: CharRules, s: Seq<char>, a: int, b: int) -> Seq<char>
    decreases b - a,
{
    if b <= a {
        Seq::empty()
    } else {
        lowered_run(r, s, a, b - 1) + lowered(r, s[b - 1])
    }
}

/// Emitting a whole word piece at once gives the same output as emitting it character
/// by character.
proof fn lemma_emit_piece(r: CharRules, s: Seq<char>, ws: int, x: int)
    requires
        0 <= ws < x <= s.len(),
        forall|k: int| ws <= k < x ==> is_alnum(r, #[trigger] s[k]),
        starts_word(r, s, ws),
        forall|k: int| ws < k < x ==> !#[trigger] starts_word(r, s, k),
    ensures
        snake_prefix(r, s, x) == snake_prefix(r, s, ws) + (if any_alnum_before(r, s, ws) {
            seq!['_']
        } else {
            Seq::<char>::empty()
        }) + lowered_run(r, s, ws, x),
        any_alnum_before(r, s, x),
    decreases x - ws,
{
    if x == ws + 1 {
        assert(lowered_run(r, s, ws, x) == lowered_run(r, s, ws, ws) + lowered(r, s[ws]));
        assert(lowered_run(r, s, ws, ws) =~= Seq::<char>::empty());
        assert(snake_prefix(r, s, x) == snake_prefix(r, s, ws) + emit(r, s, ws));
        if any_alnum_before(r, s, ws) {
            assert(snake_prefix(r, s, x) =~= snake_prefix(r, s, ws) + seq!['_'] + lowered_run(r, s, ws, x));
        } else {
            assert(snake_prefix(r, s, x) =~= snake_prefix(r, s, ws) + Seq::<char>::empty() + lowered_run(r, s, ws, x));
        }
    } else {
        lemma_emit_piece(r, s, ws, x - 1);
        assert(is_alnum(r, s[x - 1]));
        assert(!starts_word(r, s, x - 1));
        assert(emit(r, s, x - 1) == lowered(r, s[x - 1]));
        assert(snake_prefix(r, s, x) == snake_prefix(r, s, x - 1) + emit(r, s, x - 1));
        assert(lowered_run(r, s, ws, x) == lowered_run(r, s, ws, x - 1) + lowered(r, s[x - 1]));
        assert(snake_prefix(r, s, x) =~= snake_prefix(r, s, ws) + (if any_alnum_before(r, s, ws) {
            seq!['_']
        } else {
            Seq::<char>::empty()
        }) + lowered_run(r, s, ws, x));
    }
}

fn is_ascii_alnum(c: char) -> (b: bool)
    ensures
        b == ascii_alnum(c),
{
    ('0' <= c && c <= '9') || ('a' <= c && c <= 'z') || ('A' <= c && c <= 'Z')
}

fn is_ascii_lower(c: char) -> (b: bool)
    ensures
        b == ascii_lower(c),
{
    'a' <= c && c <= 'z'
}

fn is_ascii_upper(c: char) -> (b: bool)
    ensures
        b == ascii_upper(c),
{
    'A' <= c && c <= 'Z'
}

fn to_ascii_lower(c: char) -> (l: char)
    ensures
        l == ascii_to_lower(c),
{
    if 'A' <= c && c <= 'Z' {
        let u: u32 = (c as u32) + 32;
        assert(u < 128);
        (u as u8) as char
    } else {
        c
    }
}

/// Appends the lower-case form of the word `chars[start..end]`, preceded by `_` unless it
/// is the first word.
fn push_lower_ascii(
    result: &mut Vec<char>,
    chars: &Vec<char>,
    start: usize,
    end: usize,
    first_word: &mut bool,
)
    requires
        start <= end <= chars.len(),
    ensures
        start == end ==> final(result)@ == old(result)@,
        start < end ==> final(result)@ == old(result)@ + (if *old(first_word) {
            Seq::<char>::empty()
        } else {
            seq!['_']
        }) + lowered_run(CharRules::Ascii, chars@, start as int, end as int),
        *final(first_word) == false,
{
    if start == end {
        *first_word = false;
        return;
    }
    if !*first_word {
        result.push('_');
    }
    *first_word = false;
    let ghost base = result@;
    let mut k = start;
    while k < end
        invariant
            start <= k <= end <= chars.len(),
            result@ == base + lowered_run(CharRules::Ascii, chars@, start as int, k as int),
        decreases end - k,
    {
        result.push(to_ascii_lower(chars[k]));
        proof {
            assert(lowered_run(CharRules::Ascii, chars@, start as int, k + 1) == lowered_run(
                CharRules::Ascii,
                chars@,
                start as int,
                k as int,
            ) + lowered(CharRules::Ascii, chars@[k as int]));
        }
        k += 1;
    }
}


/// Converts an ASCII string, given as its characters, to `snake_case` in a single pass.
/// The mode tracks the case of the last cased character within the current
/// alphanumeric run.
fn to_snake_case_ascii(chars: &Vec<char>) -> (out: String)
    ensures
        out@ == spec_to_snake_case(CharRules::Ascii, chars@),
{
    let ghost r = CharRules::Ascii;
    let ghost s = chars@;
    let len = chars.len();
    let mut result: Vec<char> = Vec::new();
    let mut first_word = true;
    let mut mode: u8 = 0;
    let mut word_start: usize = 0;
    let mut i: usize = 0;

    while i < len
        invariant
            len == s.len(),
            s == chars@,
            r == CharRules::Ascii,
            word_start <= i <= len,
            result@ == snake_prefix(r, s, word_start as int),
            first_word == !any_alnum_before(r, s, word_start as int),
            forall|k: int| word_start <= k < i ==> is_alnum(r, #[trigger] s[k]),
            word_start < i ==> starts_word(r, s, word_start as int),
            word_start == i && i < len && is_alnum(r, s[i as int]) ==> starts_word(r, s, i as int),
            forall|k: int| word_start < k < i ==> !#[trigger] starts_word(r, s, k),
            i < len && is_alnum(r, s[i as int]) ==> mode == mode_at(r, s, i as int),
            0 < i < len && word_start < i && is_alnum(r, s[i as int]) ==> !rule_lower_upper(
                r,
                s[i - 1],
                s[i as int],
                mode_at(r, s, i - 1),
            ),
        decreases len - i,
    {
        let b = chars[i];

        if !is_ascii_alnum(b) {
            if word_start < i {
                proof {
                    lemma_emit_piece(r, s, word_start as int, i as int);
                }
                push_lower_ascii(&mut result, chars, word_start, i, &mut first_word);
            }
            proof {
                assert(snake_prefix(r, s, i + 1) == snake_prefix(r, s, i as int) + emit(r, s, i as int));
                assert(emit(r, s, i as int) =~= Seq::<char>::empty());
                assert(any_alnum_before(r, s, i + 1) == any_alnum_before(r, s, i as int));
                if i + 1 < len {
                    assert(mode_at(r, s, i + 1) == 0);
                }
            }
            word_start = i + 1;
            mode = 0;
            i += 1;
            continue;
        }

        let next_mode_v: u8 = if is_ascii_lower(b) {
            1
        } else if is_ascii_upper(b) {
            2
        } else {
            mode
        };
        proof {
            assert(next_mode_v == next_mode(r, b, mode_at(r, s, i as int)));
        }

        if i + 1 < len && is_ascii_alnum(chars[i + 1]) {
            let next = chars[i + 1];
            if next_mode_v == 1 && is_ascii_upper(next) {
                proof {
                    assert(rule_lower_upper(r, s[i as int], s[i + 1], mode_at(r, s, i as int)));
                    assert(mode_at(r, s, i + 1) == 0);
                    if word_start < i {
                        assert(!starts_word(r, s, i as int)) by {
                            assert(!rule_upper_run(r, s[i as int], s[i + 1], mode_at(r, s, i as int)));
                        }
                    }
                    assert forall|k: int| word_start < k < i + 1 implies !#[trigger] starts_word(r, s, k) by {
                        if k == i {
                            assert(!rule_upper_run(r, s[i as int], s[i + 1], mode_at(r, s, i as int)));
                        }
                    }
                    lemma_emit_piece(r, s, word_start as int, i + 1);
                    assert(starts_word(r, s, i + 1));
                }
                push_lower_ascii(&mut result, chars, word_start, i + 1, &mut first_word);
                word_start = i + 1;
                mode = 0;
            } else if mode == 2 && is_ascii_upper(b) && is_ascii_lower(next) {
                proof {
                    assert(rule_upper_run(r, s[i as int], s[i + 1], mode_at(r, s, i as int)));
                    assert(starts_word(r, s, i as int));
                    assert(mode_at(r, s, i + 1) == 0);
                }
                if word_start < i {
                    proof {
                        lemma_emit_piece(r, s, word_start as int, i as int);
                    }
                    push_lower_ascii(&mut result, chars, word_start, i, &mut first_word);
                }
                word_start = i;
                mode = 0;
            } else {
                proof {
                    assert(!rule_upper_run(r, s[i as int], s[i + 1], mode_at(r, s, i as int)));
                    assert(!rule_lower_upper(r, s[i as int], s[i + 1], mode_at(r, s, i as int)));
                    assert(mode_at(r, s, i + 1) == next_mode_v);
                    if word_start < i {
                        assert(!starts_word(r, s, i as int));
                    }
                }
                mode = next_mode_v;
            }
        } else {
            proof {
                if word_start < i {
                    assert(!starts_word(r, s, i as int));
                }
            }
        }

        i += 1;
    }

    if word_start < len && is_ascii_alnum(chars[word_start]) {
        proof {
            lemma_emit_piece(r, s, word_start as int, len as int);
        }
        push_lower_ascii(&mut result, chars, word_start, len, &mut first_word);
    }
    string_from_chars(&result)
}


/// Appends the lower-case form of the word `chars[start..end]` under Unicode rules,
/// preceded by `_` unless it is the first word.
fn push_lower_unicode(
    result: &mut Vec<char>,
    chars: &Vec<char>,
    start: usize,
    end: usize,
    first_word: &mut bool,
)
    requires
        start <= end <= chars.len(),
    ensures
        start == end ==> final(result)@ == old(result)@,
        start < end ==> final(result)@ == old(result)@ + (if *old(first_word) {
            Seq::<char>::empty()
        } else {
            seq!['_']
        }) + lowered_run(CharRules::Unicode, chars@, start as int, end as int),
        *final(first_word) == false,
{
    if start == end {
        *first_word = false;
        return;
    }
    if !*first_word {
        result.push('_');
    }
    *first_word = false;
    let ghost base = result@;
    let mut k = start;
    while k < end
        invariant
            start <= k <= end <= chars.len(),
            result@ == base + lowered_run(CharRules::Unicode, chars@, start as int, k as int),
        decreases end - k,
    {
        let lower = char_to_lowercase(chars[k]);
        let ghost before = result@;
        let mut j: usize = 0;
        while j < lower.len()
            invariant
                j <= lower.len(),
                result@ == before + lower@.take(j as int),
            decreases lower.len() - j,
        {
            result.push(lower[j]);
            proof {
                assert(lower@.take(j + 1) == lower@.take(j as int).push(lower@[j as int]));
            }
            j += 1;
        }
        proof {
            assert(lower@.take(lower.len() as int) == lower@);
            assert(lowered_run(CharRules::Unicode, chars@, start as int, k + 1) == lowered_run(
                CharRules::Unicode,
                chars@,
                start as int,
                k as int,
            ) + lowered(CharRules::Unicode, chars@[k as int]));
        }
        k += 1;
    }
}

/// Converts a string to `snake_case` under Unicode rules: the string is split into
/// alphanumeric words, and each word is cut further at case transitions.
fn to_snake_case_unicode(chars: &Vec<char>) -> (out: String)
    ensures
        out@ == spec_to_snake_case(CharRules::Unicode, chars@),
{
    let ghost r = CharRules::Unicode;
    let ghost s = chars@;
    let len = chars.len();
    let mut result: Vec<char> = Vec::new();
    let mut first_word = true;
    let mut pos: usize = 0;

    // Each pass handles the word `chars[pos..end]`, where `end` is the next separator.
    while pos <= len
        invariant
            len == s.len(),
            s == chars@,
            r == CharRules::Unicode,
            result@ == snake_prefix(r, s, pos as int),
            first_word == !any_alnum_before(r, s, pos as int),
            pos < len ==> (pos == 0 || !is_alnum(r, s[pos - 1])),
            pos <= len,
        decreases len + 1 - pos,
    {
        let mut end = pos;
        while end < len && char_is_alphanumeric(chars[end])
            invariant
                pos <= end <= len,
                len == chars@.len(),
                forall|k: int| pos <= k < end ==> is_alnum(r, #[trigger] s[k]),
                s == chars@,
                r == CharRules::Unicode,
            decreases len - end,
        {
            end += 1;
        }

        let mut init = pos;
        let mut mode: u8 = 0;
        let mut i = pos;
        proof {
            if pos < end {
                assert(mode_at(r, s, pos as int) == 0);
                assert(starts_word(r, s, pos as int));
            }
        }
        while i < end
            invariant
                len == s.len(),
                s == chars@,
                r == CharRules::Unicode,
                pos <= init <= i <= end <= len,
                end < len ==> !is_alnum(r, s[end as int]),
                forall|k: int| pos <= k < end ==> is_alnum(r, #[trigger] s[k]),
                result@ == snake_prefix(r, s, init as int),
                first_word == !any_alnum_before(r, s, init as int),
                init < end ==> starts_word(r, s, init as int),
                forall|k: int| init < k < i ==> !#[trigger] starts_word(r, s, k),
                i < end ==> mode == mode_at(r, s, i as int),
                init == i && i < end ==> mode == 0,
                i == end ==> init == end,
                0 < i < end && init < i ==> !rule_lower_upper(
                    r,
                    s[i - 1],
                    s[i as int],
                    mode_at(r, s, i - 1),
                ),
            decreases end - i,
        {
            let c = chars[i];
            if i + 1 < end {
                let next = chars[i + 1];
                let next_mode_v: u8 = if char_is_lowercase(c) {
                    1
                } else if char_is_uppercase(c) {
                    2
                } else {
                    mode
                };
                proof {
                    assert(next_mode_v == next_mode(r, c, mode_at(r, s, i as int)));
                    assert(is_alnum(r, s[i + 1]));
                }
                if next_mode_v == 1 && char_is_uppercase(next) {
                    proof {
                        assert(rule_lower_upper(r, s[i as int], s[i + 1], mode_at(r, s, i as int)));
                        assert(mode_at(r, s, i + 1) == 0);
                        assert forall|k: int| init < k < i + 1 implies !#[trigger] starts_word(r, s, k) by {
                            if k == i {
                                assert(!rule_upper_run(r, s[i as int], s[i + 1], mode_at(r, s, i as int)));
                            }
                        }
                        lemma_emit_piece(r, s, init as int, i + 1);
                        assert(starts_word(r, s, i + 1));
                    }
                    push_lower_unicode(&mut result, chars, init, i + 1, &mut first_word);
                    init = i + 1;
                    mode = 0;
                } else if mode == 2 && char_is_uppercase(c) && char_is_lowercase(next) {
                    proof {
                        assert(rule_upper_run(r, s[i as int], s[i + 1], mode_at(r, s, i as int)));
                        assert(starts_word(r, s, i as int));
                        assert(mode_at(r, s, i + 1) == 0);
                        assert(init < i);
                        lemma_emit_piece(r, s, init as int, i as int);
                    }
                    push_lower_unicode(&mut result, chars, init, i, &mut first_word);
                    init = i;
                    mode = 0;
                } else {
                    proof {
                        assert(!rule_upper_run(r, s[i as int], s[i + 1], mode_at(r, s, i as int)));
                        assert(!rule_lower_upper(r, s[i as int], s[i + 1], mode_at(r, s, i as int)));
                        assert(mode_at(r, s, i + 1) == next_mode_v);
                        if init < i {
                            assert(!starts_word(r, s, i as int));
                        }
                    }
                    mode = next_mode_v;
                }
                i += 1;
            } else {
                proof {
                    if init < i {
                        assert(!starts_word(r, s, i as int));
                    }
                    assert(forall|k: int| init < k < end ==> !#[trigger] starts_word(r, s, k));
                    lemma_emit_piece(r, s, init as int, end as int);
                }
                push_lower_unicode(&mut result, chars, init, end, &mut first_word);
                init = end;
                i = end;
            }
        }
        if end == len {
            proof {
                assert(result@ == snake_prefix(r, s, len as int));
            }
            return string_from_chars(&result);
        }
        proof {
            assert(snake_prefix(r, s, end + 1) == snake_prefix(r, s, end as int) + emit(r, s, end as int));
            assert(emit(r, s, end as int) =~= Seq::<char>::empty());
            assert(any_alnum_before(r, s, end + 1) == any_alnum_before(r, s, end as int));
        }
        pos = end + 1;
    }
    string_from_chars(&result)
}

/// The `snake_case` form of `s`: under the ASCII rules when every character of `s` is
/// ASCII, else under the Unicode rules.
pub open spec fn snake_case_of(s: Seq<char>) -> Seq<char> {
    spec_to_snake_case(
        if vstd::utf8::is_ascii_chars(s) {
            CharRules::Ascii
        } else {
            CharRules::Unicode
        },
        s,
    )
}

/// A character that may stand in `snake_case` text: a lower-case ASCII letter, an ASCII
/// digit, or `_`.
pub open spec fn snake_char(c: char) -> bool {
    ascii_lower(c) || ascii_digit(c) || c == '_'
}

/// `t` is in `snake_case` shape: it holds only lower-case ASCII letters, ASCII digits and
/// underscores, and an underscore stands only between two other characters, never next to
/// another underscore.
pub open spec fn snake_shaped(t: Seq<char>) -> bool {
    &&& forall|i: int| 0 <= i < t.len() ==> snake_char(#[trigger] t[i])
    &&& t.len() > 0 ==> t[0] != '_' && t.last() != '_'
    &&& forall|i: int| 0 < i < t.len() && #[trigger] t[i] == '_' ==> t[i - 1] != '_'
}

proof fn lemma_snake_prefix_shaped(s: Seq<char>, n: int)
    requires
        0 <= n <= s.len(),
    ensures
        snake_shaped(snake_prefix(CharRules::Ascii, s, n)),
        snake_prefix(CharRules::Ascii, s, n).len() > 0 <==> any_alnum_before(CharRules::Ascii, s, n),
    decreases n,
{
    let r = CharRules::Ascii;
    if n > 0 {
        lemma_snake_prefix_shaped(s, n - 1);
        let p = snake_prefix(r, s, n - 1);
        let c = s[n - 1];
        let q = snake_prefix(r, s, n);
        assert(q == p + emit(r, s, n - 1));
        if ascii_alnum(c) {
            let l = ascii_to_lower(c);
            assert(ascii_lower(l) || ascii_digit(l));
            assert(lowered(r, c) == seq![l]);
            if starts_word(r, s, n - 1) && any_alnum_before(r, s, n - 1) {
                assert(q =~= p + seq!['_', l]);
                assert(p.len() > 0);
                assert(q[p.len() as int] == '_');
                assert(q[p.len() - 1] == p.last());
            } else {
                assert(q =~= p.push(l));
            }
            assert forall|i: int| 0 <= i < q.len() implies snake_char(#[trigger] q[i]) by {
                if i < p.len() {
                    assert(q[i] == p[i]);
                }
            }
            assert forall|i: int| 0 < i < q.len() && #[trigger] q[i] == '_' implies q[i - 1] != '_' by {
                if i < p.len() {
                    assert(q[i] == p[i]);
                    assert(q[i - 1] == p[i - 1]);
                }
            }
            if p.len() > 0 {
                assert(q[0] == p[0]);
            }
        } else {
            assert(q =~= p);
        }
    }
}

proof fn lemma_snake_prefix_of_shaped(t: Seq<char>, n: int)
    requires
        snake_shaped(t),
        0 <= n <= t.len(),
    ensures
        snake_prefix(CharRules::Ascii, t, n) == (if n > 0 && t[n - 1] == '_' {
            t.take(n - 1)
        } else {
            t.take(n)
        }),
        n > 0 ==> any_alnum_before(CharRules::Ascii, t, n),
    decreases n,
{
    let r = CharRules::Ascii;
    if n > 0 {
        lemma_snake_prefix_of_shaped(t, n - 1);
        let c = t[n - 1];
        assert(snake_char(c));
        assert(snake_prefix(r, t, n) == snake_prefix(r, t, n - 1) + emit(r, t, n - 1));
        if c == '_' {
            assert(t[0] != '_');
            assert(t[n - 2] != '_');
            assert(emit(r, t, n - 1) =~= Seq::<char>::empty());
            assert(snake_prefix(r, t, n) =~= t.take(n - 1));
        } else {
            assert(ascii_to_lower(c) == c);
            assert(!is_upper(r, c));
            if n == 1 {
                assert(emit(r, t, 0) == seq![c]);
                assert(snake_prefix(r, t, n) =~= t.take(n));
            } else {
                let b = t[n - 2];
                assert(snake_char(b));
                assert(!is_upper(r, b));
                assert(!splits_before(r, t, n - 1));
                if b == '_' {
                    assert(starts_word(r, t, n - 1));
                    assert(emit(r, t, n - 1) == seq!['_'] + seq![c]);
                    assert(snake_prefix(r, t, n) =~= t.take(n));
                } else {
                    assert(!starts_word(r, t, n - 1));
                    assert(emit(r, t, n - 1) == seq![c]);
                    assert(snake_prefix(r, t, n) =~= t.take(n));
                }
            }
        }
    }
}

/// Under the ASCII rules the `snake_case` form of any text is in `snake_case` shape, and
/// converting it again gives it back unchanged.
pub proof fn lemma_snake_case_ascii_idempotent(s: Seq<char>)
    ensures
        snake_shaped(spec_to_snake_case(CharRules::Ascii, s)),
        spec_to_snake_case(CharRules::Ascii, spec_to_snake_case(CharRules::Ascii, s))
            == spec_to_snake_case(CharRules::Ascii, s),
{
    let t = spec_to_snake_case(CharRules::Ascii, s);
    lemma_snake_prefix_shaped(s, s.len() as int);
    lemma_snake_prefix_of_shaped(t, t.len() as int);
    assert(t.take(t.len() as int) =~= t);
}

/// For ASCII text, `to_snake_case` gives ASCII text in `snake_case` shape, and applying it
/// again gives the same text.
pub proof fn lemma_to_snake_case_idempotent(s: Seq<char>)
    requires
        vstd::utf8::is_ascii_chars(s),
    ensures
        vstd::utf8::is_ascii_chars(snake_case_of(s)),
        snake_shaped(snake_case_of(s)),
        snake_case_of(snake_case_of(s)) == snake_case_of(s),
{
    lemma_snake_case_ascii_idempotent(s);
    let t = snake_case_of(s);
    assert forall|i: int| 0 <= i < t.len() implies '\0' <= #[trigger] t[i] <= '\u{7f}' by {
        assert(snake_char(t[i]));
    }
}

/// The ASCII and the Unicode classification agree on `c`: alphanumeric, lower case, upper
/// case and lower-case mapping.
pub open spec fn rules_agree_at(c: char) -> bool {
    &&& is_alnum(CharRules::Ascii, c) == is_alnum(CharRules::Unicode, c)
    &&& is_lower(CharRules::Ascii, c) == is_lower(CharRules::Unicode, c)
    &&& is_upper(CharRules::Ascii, c) == is_upper(CharRules::Unicode, c)
    &&& lowered(CharRules::Ascii, c) == lowered(CharRules::Unicode, c)
}

proof fn lemma_rules_agree_prefix(s: Seq<char>, i: int)
    requires
        forall|k: int| 0 <= k < s.len() ==> rules_agree_at(#[trigger] s[k]),
        0 <= i <= s.len(),
    ensures
        any_alnum_before(CharRules::Ascii, s, i) == any_alnum_before(CharRules::Unicode, s, i),
        i < s.len() ==> mode_at(CharRules::Ascii, s, i) == mode_at(CharRules::Unicode, s, i),
        snake_prefix(CharRules::Ascii, s, i) == snake_prefix(CharRules::Unicode, s, i),
    decreases i,
{
    let a = CharRules::Ascii;
    let u = CharRules::Unicode;
    if i > 0 {
        lemma_rules_agree_prefix(s, i - 1);
        assert(rules_agree_at(s[i - 1]));
        if i < s.len() {
            assert(rules_agree_at(s[i]));
        }
        if i - 1 > 0 {
            lemma_rules_agree_prefix(s, i - 2);
            assert(rules_agree_at(s[i - 2]));
        }
        assert(starts_word(a, s, i - 1) == starts_word(u, s, i - 1));
        assert(emit(a, s, i - 1) == emit(u, s, i - 1));
    }
}

/// Where the ASCII and the Unicode classification agree on every character of `s`, both
/// rules give the same `snake_case` form.
pub proof fn lemma_snake_rules_agree(s: Seq<char>)
    requires
        forall|k: int| 0 <= k < s.len() ==> rules_agree_at(#[trigger] s[k]),
    ensures
        spec_to_snake_case(CharRules::Ascii, s) == spec_to_snake_case(CharRules::Unicode, s),
{
    lemma_rules_agree_prefix(s, s.len() as int);
}

proof fn lemma_snake_prefix_grows(r: CharRules, s: Seq<char>, n: int, m: int)
    requires
        0 <= n <= m,
    ensures
        snake_prefix(r, s, n).len() <= snake_prefix(r, s, m).len(),
        snake_prefix(r, s, m).take(snake_prefix(r, s, n).len() as int) == snake_prefix(r, s, n),
    decreases m - n,
{
    if n < m {
        lemma_snake_prefix_grows(r, s, n, m - 1);
        let a = snake_prefix(r, s, n);
        let b = snake_prefix(r, s, m - 1);
        assert(snake_prefix(r, s, m) == b + emit(r, s, m - 1));
        assert((b + emit(r, s, m - 1)).take(a.len() as int) =~= b.take(a.len() as int));
    }
}

proof fn lemma_lower_upper_boundary(r: CharRules, s: Seq<char>, i: int)
    requires
        0 <= i,
        i + 1 < s.len(),
        is_alnum(r, s[i]),
        is_lower(r, s[i]),
        is_alnum(r, s[i + 1]),
        is_upper(r, s[i + 1]),
    ensures
        snake_prefix(r, s, i + 2) == snake_prefix(r, s, i + 1) + seq!['_'] + lowered(r, s[i + 1]),
        spec_to_snake_case(r, s).take(snake_prefix(r, s, i + 2).len() as int) == snake_prefix(
            r,
            s,
            i + 2,
        ),
{
    assert(rule_lower_upper(r, s[i], s[i + 1], mode_at(r, s, i)));
    assert(splits_before(r, s, i + 1));
    assert(starts_word(r, s, i + 1));
    assert(any_alnum_before(r, s, i + 1));
    assert(emit(r, s, i + 1) == seq!['_'] + lowered(r, s[i + 1]));
    assert(snake_prefix(r, s, i + 2) =~= snake_prefix(r, s, i + 1) + seq!['_'] + lowered(r, s[i + 1]));
    lemma_snake_prefix_grows(r, s, i + 2, s.len() as int);
}

/// Under the Unicode rules a word boundary falls between an alphanumeric character that
/// `char::is_lowercase` accepts and a following alphanumeric one that `char::is_uppercase`
/// accepts, whatever the characters are: what the first `i + 2` characters contribute to
/// the output is what the first `i + 1` contribute, then `_`, then the `char::to_lowercase`
/// form of `s[i + 1]`, and the whole output begins with it.
pub proof fn lemma_unicode_lower_upper_boundary(s: Seq<char>, i: int)
    requires
        0 <= i,
        i + 1 < s.len(),
        unicode_is_alphanumeric(s[i]),
        unicode_is_lowercase(s[i]),
        unicode_is_alphanumeric(s[i + 1]),
        unicode_is_uppercase(s[i + 1]),
    ensures
        snake_prefix(CharRules::Unicode, s, i + 2) == snake_prefix(CharRules::Unicode, s, i + 1)
            + seq!['_'] + unicode_to_lowercase(s[i + 1]),
        spec_to_snake_case(CharRules::Unicode, s).take(
            snake_prefix(CharRules::Unicode, s, i + 2).len() as int,
        ) == snake_prefix(CharRules::Unicode, s, i + 2),
{
    lemma_lower_upper_boundary(CharRules::Unicode, s, i);
}

/// Under the ASCII rules a word boundary falls between a letter `a`-`z` and a following
/// letter `A`-`Z`: what the first `i + 2` characters contribute to the output is what the
/// first `i + 1` contribute, then `_`, then `s[i + 1]` moved to lower case.
pub proof fn lemma_ascii_lower_upper_boundary(s: Seq<char>, i: int)
    requires
        0 <= i,
        i + 1 < s.len(),
        'a' <= s[i] <= 'z',
        'A' <= s[i + 1] <= 'Z',
    ensures
        snake_prefix(CharRules::Ascii, s, i + 2) == snake_prefix(CharRules::Ascii, s, i + 1)
            + seq!['_', ((s[i + 1] as u32) + 32) as char],
        spec_to_snake_case(CharRules::Ascii, s).take(
            snake_prefix(CharRules::Ascii, s, i + 2).len() as int,
        ) == snake_prefix(CharRules::Ascii, s, i + 2),
{
    lemma_lower_upper_boundary(CharRules::Ascii, s, i);
    assert(seq!['_'] + lowered(CharRules::Ascii, s[i + 1]) =~= seq!['_', ((s[i + 1] as u32) + 32) as char]);
    assert(snake_prefix(CharRules::Ascii, s, i + 1) + seq!['_'] + lowered(CharRules::Ascii, s[i + 1])
        =~= snake_prefix(CharRules::Ascii, s, i + 1) + (seq!['_'] + lowered(CharRules::Ascii, s[i + 1])));
}

proof fn lemma_upper_run_boundary(r: CharRules, s: Seq<char>, i: int)
    requires
        1 <= i,
        i + 1 < s.len(),
        is_alnum(r, s[i - 1]),
        is_upper(r, s[i - 1]),
        !is_lower(r, s[i - 1]),
        is_alnum(r, s[i]),
        is_upper(r, s[i]),
        !is_lower(r, s[i]),
        is_alnum(r, s[i + 1]),
        is_lower(r, s[i + 1]),
    ensures
        snake_prefix(r, s, i + 1) == snake_prefix(r, s, i) + seq!['_'] + lowered(r, s[i]),
        spec_to_snake_case(r, s).take(snake_prefix(r, s, i + 1).len() as int) == snake_prefix(
            r,
            s,
            i + 1,
        ),
{
    assert(mode_at(r, s, i) == 2);
    assert(rule_upper_run(r, s[i], s[i + 1], mode_at(r, s, i)));
    assert(splits_before(r, s, i));
    assert(starts_word(r, s, i));
    assert(any_alnum_before(r, s, i));
    assert(emit(r, s, i) == seq!['_'] + lowered(r, s[i]));
    assert(snake_prefix(r, s, i + 1) =~= snake_prefix(r, s, i) + seq!['_'] + lowered(r, s[i]));
    lemma_snake_prefix_grows(r, s, i + 1, s.len() as int);
}

/// Under the Unicode rules a run of upper-case letters followed by a lower-case one ends a
/// word before its last upper-case letter (`XMLParser`): where `s[i - 1]` and `s[i]` are
/// upper case and not lower case, and `s[i + 1]` is lower case (all alphanumeric), what
/// the first `i + 1` characters contribute is what the first `i` contribute, then `_`,
/// then the `char::to_lowercase` form of `s[i]`.
pub proof fn lemma_unicode_upper_run_boundary(s: Seq<char>, i: int)
    requires
        1 <= i,
        i + 1 < s.len(),
        unicode_is_alphanumeric(s[i - 1]),
        unicode_is_uppercase(s[i - 1]),
        !unicode_is_lowercase(s[i - 1]),
        unicode_is_alphanumeric(s[i]),
        unicode_is_uppercase(s[i]),
        !unicode_is_lowercase(s[i]),
        unicode_is_alphanumeric(s[i + 1]),
        unicode_is_lowercase(s[i + 1]),
    ensures
        snake_prefix(CharRules::Unicode, s, i + 1) == snake_prefix(CharRules::Unicode, s, i)
            + seq!['_'] + unicode_to_lowercase(s[i]),
        spec_to_snake_case(CharRules::Unicode, s).take(
            snake_prefix(CharRules::Unicode, s, i + 1).len() as int,
        ) == snake_prefix(CharRules::Unicode, s, i + 1),
{
    lemma_upper_run_boundary(CharRules::Unicode, s, i);
}

/// Under the ASCII rules a run of letters `A`-`Z` followed by a letter `a`-`z` ends a word
/// before its last upper-case letter (`XMLParser`).
pub proof fn lemma_ascii_upper_run_boundary(s: Seq<char>, i: int)
    requires
        1 <= i,
        i + 1 < s.len(),
        'A' <= s[i - 1] <= 'Z',
        'A' <= s[i] <= 'Z',
        'a' <= s[i + 1] <= 'z',
    ensures
        snake_prefix(CharRules::Ascii, s, i + 1) == snake_prefix(CharRules::Ascii, s, i)
            + seq!['_', ((s[i] as u32) + 32) as char],
        spec_to_snake_case(CharRules::Ascii, s).take(
            snake_prefix(CharRules::Ascii, s, i + 1).len() as int,
        ) == snake_prefix(CharRules::Ascii, s, i + 1),
{
    lemma_upper_run_boundary(CharRules::Ascii, s, i);
    assert(snake_prefix(CharRules::Ascii, s, i) + seq!['_'] + lowered(CharRules::Ascii, s[i])
        =~= snake_prefix(CharRules::Ascii, s, i) + seq!['_', ((s[i] as u32) + 32) as char]);
}

/// Converts a string from any common case to `snake_case`.
///
/// Word boundaries are detected at:
/// - Non-alphanumeric characters (spaces, hyphens, underscores, colons, etc.)
/// - Transitions from lowercase or digit to uppercase (`camelCase` -> `camel_case`)
/// - Within consecutive uppercase letters, before the last if followed by lowercase
///   (`XMLParser` -> `xml_parser`)
pub fn to_snake_case(s: &str) -> (out: String)
    ensures
        out@ == snake_case_of(s@),
{
    let chars = chars_of(s);
    if s.is_ascii() {
        to_snake_case_ascii(&chars)
    } else {
        to_snake_case_unicode(&chars)
    }
}

/// Value of an ASCII digit.
pub open spec fn digit_value(c: char) -> int {
    (c as int) - ('0' as int)
}

/// The ASCII digit of `d < 10`.
pub open spec fn digit_char(d: int) -> char {
    (d + ('0' as int)) as char
}

pub open spec fn all_digits(s: Seq<char>) -> bool {
    forall|i: int| 0 <= i < s.len() ==> ascii_digit(#[trigger] s[i])
}

/// The number that a string of decimal digits denotes.
pub open spec fn digits_value(s: Seq<char>) -> nat
    decreases s.len(),
{
    if s.len() == 0 {
        0
    } else {
        (digits_value(s.drop_last()) * 10 + digit_value(s.last())) as nat
    }
}

/// What `u64::from_str` accepts: an optional `+`, then one or more decimal digits whose
/// value fits in a `u64`.
pub open spec fn spec_parse_u64(s: Seq<char>) -> Option<u64> {
    let d = if s.len() > 0 && s[0] == '+' {
        s.drop_first()
    } else {
        s
    };
    if d.len() > 0 && all_digits(d) && digits_value(d) <= u64::MAX {
        Some(digits_value(d) as u64)
    } else {
        None
    }
}

proof fn lemma_digits_value_monotone(s: Seq<char>, k: int)
    requires
        0 <= k <= s.len(),
        all_digits(s),
    ensures
        digits_value(s.take(k)) <= digits_value(s),
    decreases s.len() - k,
{
    if k < s.len() {
        lemma_digits_value_monotone(s, k + 1);
        assert(s.take(k + 1).drop_last() =~= s.take(k));
        assert(ascii_digit(s[k]));
    } else {
        assert(s.take(k) =~= s);
    }
}

/// Parses `chars[start..end]` as a `u64` the way `u64::from_str` does.
fn parse_u64_range(chars: &Vec<char>, start: usize, end: usize) -> (r: Option<u64>)
    requires
        start <= end <= chars.len(),
    ensures
        r == spec_parse_u64(chars@.subrange(start as int, end as int)),
{
    let ghost s = chars@.subrange(start as int, end as int);
    let mut i = start;
    if i < end && chars[i] == '+' {
        i += 1;
    }
    let ghost d = chars@.subrange(i as int, end as int);
    proof {
        if s.len() > 0 && s[0] == '+' {
            assert(d =~= s.drop_first());
        } else {
            assert(d =~= s);
        }
    }
    if i == end {
        return None;
    }
    let digits_start = i;
    let mut acc: u64 = 0;
    while i < end
        invariant
            start <= digits_start <= i <= end <= chars.len(),
            d == chars@.subrange(digits_start as int, end as int),
            d.len() > 0,
            spec_parse_u64(chars@.subrange(start as int, end as int)) == (if all_digits(d)
                && digits_value(d) <= u64::MAX {
                Some(digits_value(d) as u64)
            } else {
                None
            }),
            forall|k: int| digits_start <= k < i ==> ascii_digit(#[trigger] chars@[k]),
            acc == digits_value(chars@.subrange(digits_start as int, i as int)),
        decreases end - i,
    {
        let c = chars[i];
        if !('0' <= c && c <= '9') {
            proof {
                assert(d[i - digits_start] == c);
                assert(!ascii_digit(d[i - digits_start]));
            }
            return None;
        }
        let dv: u64 = ((c as u32) - ('0' as u32)) as u64;
        let ghost prefix = chars@.subrange(digits_start as int, i + 1);
        proof {
            assert(prefix.drop_last() =~= chars@.subrange(digits_start as int, i as int));
            assert(digits_value(prefix) == acc * 10 + dv);
        }
        if acc > (u64::MAX - dv) / 10 {
            proof {
                assert(acc * 10 + dv > u64::MAX) by (nonlinear_arith)
                    requires
                        acc > (u64::MAX - dv) / 10,
                        dv <= 9,
                ;
                // The rest of the string is digits or not: either way the result is None.
                if all_digits(d) {
                    assert(prefix =~= d.take(i + 1 - digits_start));
                    lemma_digits_value_monotone(d, i + 1 - digits_start);
                }
            }
            return None;
        }
        acc = acc * 10 + dv;
        i += 1;
    }
    proof {
        assert(all_digits(d));
        assert(chars@.subrange(digits_start as int, i as int) == d);
    }
    Some(acc)
}

/// Error from parsing a semantic version: a component is not a `u64`.
#[derive(Debug, Clone, Copy, PartialEq, Eq)]
pub enum SemVerParseError {
    /// A component is empty, holds a non-digit, or overflows a `u64`.
    InvalidComponent,
}

/// Parsed semantic version with major, minor, and patch components.
///
/// Supports parsing `"X.Y.Z"` strings and lexicographic comparison
/// (major, then minor, then patch).
#[derive(Debug, Clone, Copy, PartialEq, Eq, Structural, Ord)]
pub struct SemVer {
    /// Major version number.
    pub major: u64,
    /// Minor version number.
    pub minor: u64,
    /// Patch version number.
    pub patch: u64,
}

/// Index of the first `'.'` in `s`, or its length when there is none.
pub open spec fn first_dot(s: Seq<char>) -> int
    decreases s.len(),
{
    if s.len() == 0 {
        0
    } else if s[0] == '.' {
        0
    } else {
        1 + first_dot(s.drop_first())
    }
}

/// The first piece of `s.split('.')`.
pub open spec fn first_piece(s: Seq<char>) -> Seq<char> {
    s.take(first_dot(s))
}

/// What follows the first `'.'`, if there is one: the rest of `s.split('.')`.
pub open spec fn after_dot(s: Seq<char>) -> Option<Seq<char>> {
    if first_dot(s) < s.len() {
        Some(s.skip(first_dot(s) + 1))
    } else {
        None
    }
}

/// A component: the first piece of the remaining text parsed as a `u64`, or zero when
/// `s.split('.')` has no more pieces.
pub open spec fn component(rest: Option<Seq<char>>) -> Result<u64, SemVerParseError> {
    match rest {
        None => Ok(0),
        Some(t) => match spec_parse_u64(first_piece(t)) {
            Some(v) => Ok(v),
            None => Err(SemVerParseError::InvalidComponent),
        },
    }
}

/// The remaining text after the component that `rest` starts with.
pub open spec fn next_rest(rest: Option<Seq<char>>) -> Option<Seq<char>> {
    match rest {
        None => None,
        Some(t) => after_dot(t),
    }
}

/// A measure of the remaining text, for recursion over the pieces.
pub open spec fn rest_measure(rest: Option<Seq<char>>) -> nat {
    match rest {
        None => 0,
        Some(t) => t.len() + 1,
    }
}

/// Every remaining piece of `s.split('.')` parses as a `u64`.
pub open spec fn pieces_valid(rest: Option<Seq<char>>) -> bool
    decreases rest_measure(rest),
{
    match rest {
        None => true,
        Some(t) => {
            proof {
                lemma_first_dot(t);
            }
            component(Some(t)) is Ok && pieces_valid(after_dot(t))
        },
    }
}

/// `SemVer::parse`: the first three pieces of `s.split('.')` as `u64`s, missing ones
/// zero; it fails when any piece, those beyond the third included, is not a `u64`.
pub open spec fn spec_semver_parse(s: Seq<char>) -> Result<SemVer, SemVerParseError> {
    let r0 = Some(s);
    let r1 = next_rest(r0);
    let r2 = next_rest(r1);
    let r3 = next_rest(r2);
    match (component(r0), component(r1), component(r2)) {
        (Ok(major), Ok(minor), Ok(patch)) => if pieces_valid(r3) {
            Ok(SemVer { major, minor, patch })
        } else {
            Err(SemVerParseError::InvalidComponent)
        },
        _ => Err(SemVerParseError::InvalidComponent),
    }
}

pub proof fn lemma_first_dot(s: Seq<char>)
    ensures
        0 <= first_dot(s) <= s.len(),
        first_dot(s) < s.len() ==> s[first_dot(s)] == '.',
        forall|k: int| 0 <= k < first_dot(s) ==> s[k] != '.',
    decreases s.len(),
{
    if s.len() > 0 && s[0] != '.' {
        lemma_first_dot(s.drop_first());
        assert forall|k: int| 0 <= k < first_dot(s) implies s[k] != '.' by {
            if k > 0 {
                assert(s[k] == s.drop_first()[k - 1]);
            }
        }
    }
}

proof fn lemma_first_dot_at(s: Seq<char>, k: int)
    requires
        0 <= k <= s.len(),
        k < s.len() ==> s[k] == '.',
        forall|j: int| 0 <= j < k ==> s[j] != '.',
    ensures
        first_dot(s) == k,
{
    lemma_first_dot(s);
    if first_dot(s) < k {
        assert(s[first_dot(s)] == '.');
    }
    if k < first_dot(s) {
        assert(s[k] != '.');
    }
}

/// Finds the first `'.'` in `chars[start..]`, or the end.
fn find_dot(chars: &Vec<char>, start: usize) -> (k: usize)
    requires
        start <= chars.len(),
    ensures
        start <= k <= chars.len(),
        k - start == first_dot(chars@.skip(start as int)),
{
    let mut k = start;
    while k < chars.len() && chars[k] != '.'
        invariant
            start <= k <= chars.len(),
            forall|j: int| start <= j < k ==> chars@[j] != '.',
        decreases chars.len() - k,
    {
        k += 1;
    }
    proof {
        let t = chars@.skip(start as int);
        lemma_first_dot_at(t, k - start);
    }
    k
}

/// Parses the component that starts at `start`, and returns where the next one starts.
fn parse_component(chars: &Vec<char>, start: Option<usize>) -> (r: (
    Result<u64, SemVerParseError>,
    Option<usize>,
))
    requires
        start matches Some(p) ==> p <= chars.len(),
    ensures
        r.0 == component(
            match start {
                Some(p) => Some(chars@.skip(p as int)),
                None => None,
            },
        ),
        r.1 matches Some(q) ==> q <= chars.len(),
        r.1 matches Some(q) ==> (start matches Some(p) && p < q),
        start is None ==> r.1 is None,
        match r.1 {
            Some(q) => Some(chars@.skip(q as int)),
            None => None,
        } == next_rest(
            match start {
                Some(p) => Some(chars@.skip(p as int)),
                None => None,
            },
        ),
{
    match start {
        None => (Ok(0), None),
        Some(p) => {
            let k = find_dot(chars, p);
            let ghost t = chars@.skip(p as int);
            proof {
                assert(first_piece(t) =~= chars@.subrange(p as int, k as int));
            }
            let v = parse_u64_range(chars, p, k);
            let next = if k < chars.len() {
                proof {
                    assert(t.skip(first_dot(t) + 1) =~= chars@.skip(k + 1));
                }
                Some(k + 1)
            } else {
                None
            };
            match v {
                Some(x) => (Ok(x), next),
                None => (Err(SemVerParseError::InvalidComponent), next),
            }
        },
    }
}

impl SemVer {
    /// Parses a `"major.minor.patch"` string into a [`SemVer`].
    ///
    /// Missing components default to zero.
    ///
    /// # Errors
    ///
    /// Returns an error if any component of `s` fails to parse as a [`u64`].
    pub fn parse(s: &str) -> (r: Result<Self, SemVerParseError>)
        ensures
            r == spec_semver_parse(s@),
    {
        let chars = chars_of(s);
        proof {
            assert(chars@.skip(0) =~= chars@);
        }
        let (major, next) = parse_component(&chars, Some(0));
        let major = major?;
        let (minor, next) = parse_component(&chars, next);
        let minor = minor?;
        let (patch, next) = parse_component(&chars, next);
        let patch = patch?;
        let ghost r3 = match next {
            Some(q) => Some(chars@.skip(q as int)),
            None => None,
        };
        let mut rest = next;
        let ghost outcome = if pieces_valid(r3) {
            Ok::<SemVer, SemVerParseError>(SemVer { major, minor, patch })
        } else {
            Err::<SemVer, SemVerParseError>(SemVerParseError::InvalidComponent)
        };
        assert(spec_semver_parse(s@) == outcome);
        while rest.is_some()
            invariant
                spec_semver_parse(s@) == outcome,
                outcome == (if pieces_valid(r3) {
                    Ok::<SemVer, SemVerParseError>(SemVer { major, minor, patch })
                } else {
                    Err::<SemVer, SemVerParseError>(SemVerParseError::InvalidComponent)
                }),
                rest matches Some(q) ==> q <= chars.len(),
                pieces_valid(r3) == pieces_valid(
                    match rest {
                        Some(q) => Some(chars@.skip(q as int)),
                        None => None,
                    },
                ),
            decreases rest_measure(
                match rest {
                    Some(q) => Some(chars@.skip(q as int)),
                    None => None,
                },
            ),
        {
            let q = rest.unwrap();
            let (piece, after) = parse_component(&chars, Some(q));
            proof {
                lemma_first_dot(chars@.skip(q as int));
            }
            if piece.is_err() {
                return Err(SemVerParseError::InvalidComponent);
            }
            rest = after;
        }
        Ok(SemVer { major, minor, patch })
    }
}

/// Decimal digits of `n`, without leading zeros.
pub open spec fn decimal_digits(n: nat) -> Seq<char>
    decreases n,
{
    if n < 10 {
        seq![digit_char(n as int)]
    } else {
        decimal_digits(n / 10) + seq![digit_char((n % 10) as int)]
    }
}

/// The `"major.minor.patch"` rendering of a version.
pub open spec fn spec_semver_string(v: SemVer) -> Seq<char> {
    decimal_digits(v.major as nat) + seq!['.'] + decimal_digits(v.minor as nat) + seq!['.']
        + decimal_digits(v.patch as nat)
}

proof fn lemma_decimal_digits(n: nat)
    ensures
        decimal_digits(n).len() > 0,
        all_digits(decimal_digits(n)),
        digits_value(decimal_digits(n)) == n,
    decreases n,
{
    if n >= 10 {
        lemma_decimal_digits(n / 10);
        let d = decimal_digits(n);
        assert(d.drop_last() =~= decimal_digits(n / 10));
        assert(forall|i: int| 0 <= i < d.len() - 1 ==> d[i] == decimal_digits(n / 10)[i]);
        assert(d.last() == digit_char((n % 10) as int));
        assert(digit_value(d.last()) == n % 10);
        assert((n / 10) * 10 + n % 10 == n);
        assert(digits_value(d) == digits_value(d.drop_last()) * 10 + digit_value(d.last()));
    } else {
        let d = decimal_digits(n);
        assert(digit_value(digit_char(n as int)) == n);
        assert(d.drop_last() =~= Seq::<char>::empty());
        assert(digits_value(d) == digits_value(d.drop_last()) * 10 + digit_value(d.last()));
    }
}

/// Appends the decimal digits of `n`.
pub(crate) fn push_decimal(out: &mut Vec<char>, n: u64)
    ensures
        final(out)@ == old(out)@ + decimal_digits(n as nat),
    decreases n,
{
    if n >= 10 {
        push_decimal(out, n / 10);
    }
    let d: u8 = (n % 10) as u8;
    let c: char = (d + 48) as char;
    proof {
        assert(c == digit_char((n % 10) as int));
    }
    out.push(c);
    proof {
        if n < 10 {
            assert(old(out)@ + decimal_digits(n as nat) =~= old(out)@.push(c));
        }
    }
}

/// A number rendered in decimal parses back to itself.
proof fn lemma_parse_decimal(n: u64)
    ensures
        spec_parse_u64(decimal_digits(n as nat)) == Some(n),
        first_dot(decimal_digits(n as nat)) == decimal_digits(n as nat).len(),
{
    lemma_decimal_digits(n as nat);
    let d = decimal_digits(n as nat);
    assert(ascii_digit(d[0]));
    lemma_first_dot_at(d, d.len() as int);
}

impl SemVer {
    /// Renders the version as `"major.minor.patch"`.
    pub fn to_string(&self) -> (s: String)
        ensures
            s@ == spec_semver_string(*self),
    {
        let mut out: Vec<char> = Vec::new();
        push_decimal(&mut out, self.major);
        out.push('.');
        push_decimal(&mut out, self.minor);
        out.push('.');
        push_decimal(&mut out, self.patch);
        proof {
            assert(out@ =~= spec_semver_string(*self));
        }
        string_from_chars(&out)
    }
}

/// Rendering a version and parsing it back gives the same version.
pub proof fn lemma_semver_string_parse_roundtrip(v: SemVer)
    ensures
        spec_semver_parse(spec_semver_string(v)) == Ok::<SemVer, SemVerParseError>(v),
{
    let a = decimal_digits(v.major as nat);
    let b = decimal_digits(v.minor as nat);
    let c = decimal_digits(v.patch as nat);
    lemma_parse_decimal(v.major);
    lemma_parse_decimal(v.minor);
    lemma_parse_decimal(v.patch);
    lemma_first_dot(a);
    lemma_first_dot(b);
    let s = spec_semver_string(v);
    let t1 = b + seq!['.'] + c;
    lemma_first_dot_at(s, a.len() as int);
    assert(first_piece(s) =~= a);
    assert(s.skip(a.len() as int + 1) =~= t1);
    lemma_first_dot_at(t1, b.len() as int);
    assert(first_piece(t1) =~= b);
    assert(t1.skip(b.len() as int + 1) =~= c);
    assert(first_piece(c) =~= c);
    assert(after_dot(c) is None);
}

/// Lexicographic order on versions: major, then minor, then patch.
pub open spec fn semver_order(a: SemVer, b: SemVer) -> Ordering {
    if a.major < b.major {
        Ordering::Less
    } else if a.major > b.major {
        Ordering::Greater
    } else if a.minor < b.minor {
        Ordering::Less
    } else if a.minor > b.minor {
        Ordering::Greater
    } else if a.patch < b.patch {
        Ordering::Less
    } else if a.patch > b.patch {
        Ordering::Greater
    } else {
        Ordering::Equal
    }
}

impl PartialOrd for SemVer {
    fn partial_cmp(&self, other: &Self) -> (r: Option<Ordering>) {
        if self.major != other.major {
            if self.major < other.major {
                Some(Ordering::Less)
            } else {
                Some(Ordering::Greater)
            }
        } else if self.minor != other.minor {
            if self.minor < other.minor {
                Some(Ordering::Less)
            } else {
                Some(Ordering::Greater)
            }
        } else if self.patch < other.patch {
            Some(Ordering::Less)
        } else if self.patch > other.patch {
            Some(Ordering::Greater)
        } else {
            Some(Ordering::Equal)
        }
    }
}

impl vstd::std_specs::cmp::PartialOrdSpecImpl for SemVer {
    open spec fn obeys_partial_cmp_spec() -> bool {
        true
    }

    open spec fn partial_cmp_spec(&self, other: &Self) -> Option<Ordering> {
        Some(semver_order(*self, *other))
    }
}

/// Parses `s` the way `u64::from_str` does.
pub(crate) fn parse_u64(s: &str) -> (r: Option<u64>)
    ensures
        r == spec_parse_u64(s@),
{
    let chars = chars_of(s);
    proof {
        assert(chars@.subrange(0, chars@.len() as int) =~= s@);
    }
    parse_u64_range(&chars, 0, chars.len())
}

/// `needle` occurs in `hay` at position `i`.
pub open spec fn occurs_at(hay: Seq<char>, needle: Seq<char>, i: int) -> bool {
    0 <= i && i + needle.len() <= hay.len() && hay.subrange(i, i + needle.len()) == needle
}

/// `needle` occurs somewhere in `hay`.
pub open spec fn seq_contains(hay: Seq<char>, needle: Seq<char>) -> bool {
    exists|i: int| occurs_at(hay, needle, i)
}

/// Whether `needle` occurs in `hay`, as `str::contains` answers.
pub(crate) fn str_contains(hay: &str, needle: &str) -> (b: bool)
    ensures
        b == seq_contains(hay@, needle@),
{
    let h = chars_of(hay);
    let n = chars_of(needle);
    if n.len() > h.len() {
        proof {
            assert forall|i: int| !occurs_at(hay@, needle@, i) by {}
        }
        return false;
    }
    let mut i: usize = 0;
    while i <= h.len() - n.len()
        invariant
            h@ == hay@,
            n@ == needle@,
            n.len() <= h.len(),
            i <= h.len() - n.len() + 1,
            forall|k: int| 0 <= k < i ==> !occurs_at(hay@, needle@, k),
        decreases h.len() - i,
    {
        let mut j: usize = 0;
        while j < n.len() && h[i + j] == n[j]
            invariant
                i + n.len() <= h.len(),
                j <= n.len(),
                forall|k: int| 0 <= k < j ==> h@[i + k] == n@[k],
            decreases n.len() - j,
        {
            j += 1;
        }
        if j == n.len() {
            proof {
                assert(h@.subrange(i as int, i + n.len()) =~= n@);
                assert(occurs_at(hay@, needle@, i as int));
            }
            return true;
        }
        proof {
            assert(h@.subrange(i as int, i + n.len())[j as int] != n@[j as int]);
        }
        i += 1;
    }
    proof {
        assert forall|k: int| !occurs_at(hay@, needle@, k) by {
            if 0 <= k && k < i {
            }
        }
    }
    false
}

/// `char::is_whitespace`.
pub uninterp spec fn unicode_is_whitespace(c: char) -> bool;

/// Calls `char::is_whitespace`.
#[verifier::external_body]
pub(crate) fn char_is_whitespace(c: char) -> (b: bool)
    ensures
        b == unicode_is_whitespace(c),
{
    c.is_whitespace()
}

/// All characters of `s` are whitespace (so `s.trim()` is empty).
pub open spec fn all_whitespace(s: Seq<char>) -> bool {
    forall|i: int| 0 <= i < s.len() ==> unicode_is_whitespace(#[trigger] s[i])
}

/// Whether `s.trim().is_empty()`.
pub(crate) fn trims_to_empty(s: &str) -> (b: bool)
    ensures
        b == all_whitespace(s@),
{
    let chars = chars_of(s);
    let mut i: usize = 0;
    while i < chars.len()
        invariant
            chars@ == s@,
            i <= chars.len(),
            forall|k: int| 0 <= k < i ==> unicode_is_whitespace(#[trigger] chars@[k]),
        decreases chars.len() - i,
    {
        if !char_is_whitespace(chars[i]) {
            return false;
        }
        i += 1;
    }
    true
}

/// Index of the first non-whitespace character at or after `i`.
pub open spec fn skip_ws(s: Seq<char>, i: int) -> int
    decreases s.len() - i,
{
    if i >= s.len() || !unicode_is_whitespace(s[i]) {
        i
    } else {
        skip_ws(s, i + 1)
    }
}

/// Index of the first whitespace character at or after `i`.
pub open spec fn skip_word(s: Seq<char>, i: int) -> int
    decreases s.len() - i,
{
    if i >= s.len() || unicode_is_whitespace(s[i]) {
        i
    } else {
        skip_word(s, i + 1)
    }
}

/// The first item of `s.split_whitespace()`.
pub open spec fn first_word(s: Seq<char>) -> Option<Seq<char>> {
    let a = skip_ws(s, 0);
    if a >= s.len() {
        None
    } else {
        Some(s.subrange(a, skip_word(s, a)))
    }
}

/// The first whitespace-separated word of `s`, if any.
pub(crate) fn first_whitespace_word(s: &str) -> (r: Option<String>)
    ensures
        r matches Some(w) ==> first_word(s@) == Some(w@),
        r is None ==> first_word(s@) is None,
{
    let chars = chars_of(s);
    let mut a: usize = 0;
    while a < chars.len() && char_is_whitespace(chars[a])
        invariant
            chars@ == s@,
            a <= chars.len(),
            skip_ws(s@, 0) == skip_ws(s@, a as int),
        decreases chars.len() - a,
    {
        a += 1;
    }
    if a >= chars.len() {
        return None;
    }
    let mut b: usize = a;
    while b < chars.len() && !char_is_whitespace(chars[b])
        invariant
            chars@ == s@,
            a <= b <= chars.len(),
            skip_word(s@, a as int) == skip_word(s@, b as int),
        decreases chars.len() - b,
    {
        b += 1;
    }
    let mut word: Vec<char> = Vec::new();
    let mut k: usize = a;
    while k < b
        invariant
            chars@ == s@,
            a <= k <= b <= chars.len(),
            word@ == chars@.subrange(a as int, k as int),
        decreases b - k,
    {
        word.push(chars[k]);
        proof {
            assert(chars@.subrange(a as int, k + 1) =~= chars@.subrange(a as int, k as int).push(chars@[k as int]));
        }
        k += 1;
    }
    Some(string_from_chars(&word))
}

/// Whether two strings are equal.
pub(crate) fn str_eq(a: &str, b: &str) -> (r: bool)
    ensures
        r == (a@ == b@),
{
    let x = chars_of(a);
    let y = chars_of(b);
    if x.len() != y.len() {
        return false;
    }
    let mut i: usize = 0;
    while i < x.len()
        invariant
            x@ == a@,
            y@ == b@,
            x.len() == y.len(),
            i <= x.len(),
            forall|k: int| 0 <= k < i ==> x@[k] == y@[k],
        decreases x.len() - i,
    {
        if x[i] != y[i] {
            return false;
        }
        i += 1;
    }
    proof {
        assert(a@ =~= b@);
    }
    true
}


/// Appends the characters of `s`.
pub(crate) fn push_str(out: &mut Vec<char>, s: &str)
    ensures
        final(out)@ == old(out)@ + s@,
{
    let chars = chars_of(s);
    let ghost start = out@;
    let mut i: usize = 0;
    while i < chars.len()
        invariant
            chars@ == s@,
            i <= chars.len(),
            out@ == start + chars@.take(i as int),
            start == old(out)@,
        decreases chars.len() - i,
    {
        out.push(chars[i]);
        proof {
            assert(out@ =~= start + chars@.take(i + 1));
        }
        i += 1;
    }
    proof {
        assert(chars@.take(chars@.len() as int) =~= chars@);
    }
}

/// Index just past the last non-whitespace character before `j`.
pub open spec fn rskip_ws(s: Seq<char>, j: int) -> int
    decreases j,
{
    if j <= 0 || !unicode_is_whitespace(s[j - 1]) {
        j
    } else {
        rskip_ws(s, j - 1)
    }
}

/// `s` without its leading and trailing whitespace (what `str::trim` gives).
pub open spec fn spec_trim(s: Seq<char>) -> Seq<char> {
    let a = skip_ws(s, 0);
    if a >= s.len() {
        Seq::empty()
    } else {
        s.subrange(a, rskip_ws(s, s.len() as int))
    }
}

proof fn lemma_skip_ws_bounds(s: Seq<char>, i: int)
    requires
        0 <= i <= s.len(),
    ensures
        i <= skip_ws(s, i) <= s.len(),
        skip_ws(s, i) < s.len() ==> !unicode_is_whitespace(s[skip_ws(s, i)]),
    decreases s.len() - i,
{
    if i < s.len() && unicode_is_whitespace(s[i]) {
        lemma_skip_ws_bounds(s, i + 1);
    }
}

proof fn lemma_rskip_ws_bounds(s: Seq<char>, j: int, k: int)
    requires
        0 <= k < j <= s.len(),
        !unicode_is_whitespace(s[k]),
    ensures
        k < rskip_ws(s, j) <= j,
    decreases j,
{
    if j > 0 && unicode_is_whitespace(s[j - 1]) {
        lemma_rskip_ws_bounds(s, j - 1, k);
    }
}

proof fn lemma_rskip_ws_le(s: Seq<char>, j: int)
    ensures
        rskip_ws(s, j) <= j,
    decreases j,
{
    if j > 0 && unicode_is_whitespace(s[j - 1]) {
        lemma_rskip_ws_le(s, j - 1);
    }
}

/// `s` without its leading and trailing whitespace.
pub(crate) fn trimmed(s: &str) -> (r: String)
    ensures
        r@ == spec_trim(s@),
{
    let chars = chars_of(s);
    let n = chars.len();
    let mut a: usize = 0;
    while a < n && char_is_whitespace(chars[a])
        invariant
            chars@ == s@,
            n == chars.len(),
            a <= n,
            skip_ws(s@, 0) == skip_ws(s@, a as int),
        decreases n - a,
    {
        a += 1;
    }
    if a >= n {
        let empty: Vec<char> = Vec::new();
        proof {
            assert(empty@ =~= spec_trim(s@));
        }
        return string_from_chars(&empty);
    }
    let mut b: usize = n;
    proof {
        lemma_skip_ws_bounds(s@, a as int);
        lemma_rskip_ws_bounds(s@, n as int, a as int);
    }
    let ghost t = rskip_ws(s@, n as int);
    let mut done = false;
    while !done
        invariant
            chars@ == s@,
            n == chars.len(),
            a < t <= b <= n,
            skip_ws(s@, 0) == a,
            t == rskip_ws(s@, n as int),
            rskip_ws(s@, b as int) == t,
            done ==> t == b,
        decreases b + (if done { 0int } else { 1int }),
    {
        if char_is_whitespace(chars[b - 1]) {
            proof {
                lemma_rskip_ws_le(s@, b - 1);
            }
            b -= 1;
        } else {
            done = true;
        }
    }
    let mut out: Vec<char> = Vec::new();
    let mut k: usize = a;
    while k < b
        invariant
            chars@ == s@,
            a <= k <= b <= n,
            n == chars.len(),
            out@ == chars@.subrange(a as int, k as int),
        decreases b - k,
    {
        out.push(chars[k]);
        proof {
            assert(chars@.subrange(a as int, k + 1) =~= chars@.subrange(a as int, k as int).push(chars@[k as int]));
        }
        k += 1;
    }
    string_from_chars(&out)
}

} // verus!

