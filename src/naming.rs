//! Naming rules shared by the metadata processor and the renamer: case
//! correction, path-safe names, and the text of folder and file names.
use vstd::prelude::*;
use crate::text::{
    alphanumeric, append_chars, capitalize_first_alpha, cap_first_alpha, chars_of, decimal,
    decimal2, decimal2_chars, decimal_chars, equal_chars, find_chars, find_from, is_alphanumeric,
    join_space, join_with_space, lemma_views_push, lower_of, replace_all, replace_chars, slice_chars,
    split_words_of, string_of, to_lower, to_upper, trim, trim_chars, upper_of, views, words_of,
};

verus! {

/// Roman numerals that are always written in upper case.
pub const ROMAN_NUMERALS: &'static str = "I II III IV V VI VII VIII IX X XI XII XIII XIV XV XVI XVII XVIII XIX XX XXI XXII XXIII XXIV XXV XXX XL L LX LXX LXXX XC C CC CCC CD D DC DCC DCCC CM M";

/// Abbreviations that are always written in upper case.
pub const ABBREVIATIONS: &'static str = "USA UK US DJ MC NYC LA SF DC CD DVD TV FM PM BC AD CEO FBI CIA NASA BBC CNN ESPN MTV VHS GPS WWW HTTP FTP";

/// What `sanitize_filename::sanitize_with_options` returns for these
/// characters with the Unix rules: no replacement text, names truncated.
pub uninterp spec fn sanitized_of(s: Seq<char>) -> Seq<char>;

/// Relies on `sanitize_filename::sanitize_with_options`: the name with the
/// characters that paths forbid removed, by the same rules on every
/// platform; the result depends on the characters alone.
#[verifier::external_body]
fn sanitize_name(s: &str) -> (r: String)
    ensures
        r@ == sanitized_of(s@),
{
    let options = sanitize_filename::Options { windows: false, truncate: true, replacement: "" };
    sanitize_filename::sanitize_with_options(s, options)
}

/// Whether `w` is one of the space-separated words of `list`.
pub open spec fn listed(list: Seq<char>, w: Seq<char>) -> bool {
    words_of(list).contains(w)
}

pub fn is_listed(list: &str, w: &Vec<char>) -> (r: bool)
    ensures
        r == listed(list@, w@),
{
    let entries = split_words_of(&chars_of(list));
    let mut i: usize = 0;
    while i < entries.len()
        invariant
            i <= entries.len(),
            views(entries@) == words_of(list@),
            forall|k: int| 0 <= k < i ==> views(entries@)[k] != w@,
        decreases entries.len() - i,
    {
        if equal_chars(&entries[i], w) {
            assert(views(entries@)[i as int] == w@);
            return true;
        }
        i = i + 1;
    }
    proof {
        if words_of(list@).contains(w@) {
            let k = choose|k: int| 0 <= k < words_of(list@).len() && words_of(list@)[k] == w@;
            assert(views(entries@)[k] == w@);
        }
    }
    false
}

/// The characters that paths forbid, replaced by look-alikes before
/// sanitising.
pub open spec fn path_safe_char(c: char) -> char {
    if c == '/' || c == '\\' || c == '|' || c == ':' {
        '-'
    } else if c == '<' {
        '('
    } else if c == '>' {
        ')'
    } else if c == '"' {
        '\''
    } else {
        c
    }
}

pub open spec fn path_component(name: Seq<char>) -> Seq<char> {
    sanitized_of(name.map_values(|c: char| path_safe_char(c)))
}

/// `name` made safe as one component of a path.
pub fn sanitize_path_component(name: &str) -> (r: String)
    ensures
        r@ == path_component(name@),
{
    let cs = chars_of(name);
    let mut out: Vec<char> = Vec::new();
    let mut i: usize = 0;
    while i < cs.len()
        invariant
            i <= cs.len(),
            out@ == cs@.subrange(0, i as int).map_values(|c: char| path_safe_char(c)),
        decreases cs.len() - i,
    {
        let c = cs[i];
        let d = if c == '/' || c == '\\' || c == '|' || c == ':' {
            '-'
        } else if c == '<' {
            '('
        } else if c == '>' {
            ')'
        } else if c == '"' {
            '\''
        } else {
            c
        };
        out.push(d);
        i = i + 1;
        assert(out@ =~= cs@.subrange(0, i as int).map_values(|c: char| path_safe_char(c)));
    }
    assert(cs@.subrange(0, cs.len() as int) =~= cs@);
    sanitize_name(string_of(&out).as_str())
}

/// First character in upper case, the rest in lower case.
pub open spec fn sentence_case(text: Seq<char>) -> Seq<char> {
    upper_of(seq![text[0]]) + lower_of(text.drop_first())
}

/// `sc` with the first occurrence of `le` in `lower_sc` (the lower case of
/// `sc`) replaced by `exception`, when that occurrence lies within `sc`.
pub open spec fn exception_restored(
    sc: Seq<char>,
    lower_sc: Seq<char>,
    le: Seq<char>,
    exception: Seq<char>,
) -> Seq<char> {
    match find_from(lower_sc, le, 0) {
        Some(k) => if k + le.len() <= sc.len() {
            sc.subrange(0, k as int) + exception + sc.subrange((k + le.len()) as int, sc.len() as int)
        } else {
            sc
        },
        None => sc,
    }
}

/// `text` in sentence case, with the first case-insensitive occurrence of
/// `exception` written as `exception` is.
pub open spec fn sentence_case_except(text: Seq<char>, exception: Seq<char>) -> Seq<char> {
    if text.len() == 0 {
        Seq::empty()
    } else if exception.len() == 0 {
        sentence_case(text)
    } else {
        let sc = sentence_case(text);
        exception_restored(sc, lower_of(sc), lower_of(exception), exception)
    }
}

pub fn restore_exception(
    sc: &Vec<char>,
    lower_sc: &Vec<char>,
    le: &Vec<char>,
    exception: &Vec<char>,
) -> (r: Vec<char>)
    ensures
        r@ == exception_restored(sc@, lower_sc@, le@, exception@),
{
    match find_chars(lower_sc, le) {
        Some(k) => {
            if le.len() <= sc.len() && k <= sc.len() - le.len() {
                let mut out = slice_chars(sc, 0, k);
                append_chars(&mut out, exception);
                let after = slice_chars(sc, k + le.len(), sc.len());
                append_chars(&mut out, &after);
                out
            } else {
                slice_chars(sc, 0, sc.len())
            }
        },
        None => slice_chars(sc, 0, sc.len()),
    }
}

pub fn apply_sentence_case_with_exception(text: &str, exception: &str) -> (r: String)
    ensures
        r@ == sentence_case_except(text@, exception@),
{
    let tc = chars_of(text);
    if tc.len() == 0 {
        return string_of(&Vec::new());
    }
    let first = vec![tc[0]];
    assert(first@ =~= seq![text@[0]]);
    let upper_first = chars_of(to_upper(string_of(&first).as_str()).as_str());
    let rest = slice_chars(&tc, 1, tc.len());
    assert(rest@ =~= text@.drop_first());
    let lower_rest = chars_of(to_lower(string_of(&rest).as_str()).as_str());
    let mut sc = upper_first;
    append_chars(&mut sc, &lower_rest);
    let ec = chars_of(exception);
    if ec.len() == 0 {
        return string_of(&sc);
    }
    let lower_text = chars_of(to_lower(string_of(&sc).as_str()).as_str());
    let lower_exception = chars_of(to_lower(exception).as_str());
    string_of(&restore_exception(&sc, &lower_text, &lower_exception, &ec))
}

/// "(year) " for a year after zero, else nothing.
pub open spec fn year_prefix(year: Option<u32>) -> Seq<char> {
    match year {
        Some(y) => if y > 0 {
            seq!['('] + decimal(y as nat) + seq![')', ' ']
        } else {
            Seq::empty()
        },
        None => Seq::empty(),
    }
}

/// "(min) " for one year, "(min-yy) " for a range, with the last two digits
/// of the later year.
pub open spec fn year_range_prefix(min: Option<u32>, max: Option<u32>) -> Seq<char> {
    match (min, max) {
        (Some(a), Some(b)) => if a == b {
            seq!['('] + decimal(a as nat) + seq![')', ' ']
        } else {
            seq!['('] + decimal(a as nat) + seq!['-'] + decimal2((b % 100) as nat) + seq![')', ' ']
        },
        (Some(y), None) => seq!['('] + decimal(y as nat) + seq![')', ' '],
        (None, Some(y)) => seq!['('] + decimal(y as nat) + seq![')', ' '],
        (None, None) => Seq::empty(),
    }
}

fn year_text(y: u32) -> (r: Vec<char>)
    ensures
        r@ == seq!['('] + decimal(y as nat) + seq![')', ' '],
{
    let mut v = vec!['('];
    append_chars(&mut v, &decimal_chars(y as u64));
    v.push(')');
    v.push(' ');
    assert(v@ =~= seq!['('] + decimal(y as nat) + seq![')', ' ']);
    v
}

pub fn year_prefix_chars(year: Option<u32>) -> (r: Vec<char>)
    ensures
        r@ == year_prefix(year),
{
    match year {
        Some(y) => if y > 0 {
            year_text(y)
        } else {
            Vec::new()
        },
        None => Vec::new(),
    }
}

pub fn year_range_prefix_chars(min: Option<u32>, max: Option<u32>) -> (r: Vec<char>)
    ensures
        r@ == year_range_prefix(min, max),
{
    match (min, max) {
        (Some(a), Some(b)) => if a == b {
            year_text(a)
        } else {
            let mut v = vec!['('];
            append_chars(&mut v, &decimal_chars(a as u64));
            v.push('-');
            append_chars(&mut v, &decimal2_chars((b % 100) as u64));
            v.push(')');
            v.push(' ');
            assert(v@ =~= seq!['('] + decimal(a as nat) + seq!['-'] + decimal2((b % 100) as nat)
                + seq![')', ' ']);
            v
        },
        (Some(y), None) => year_text(y),
        (None, Some(y)) => year_text(y),
        (None, None) => Vec::new(),
    }
}

/// A folder name: the sanitised year prefix and sanitised sentence-cased
/// title, trimmed.
pub open spec fn folder_name(prefix: Seq<char>, artist: Seq<char>, album: Seq<char>) -> Seq<
    char,
> {
    trim(path_component(prefix) + path_component(sentence_case_except(album, artist)))
}

pub fn folder_name_from(prefix: &Vec<char>, artist: &str, album: &str) -> (r: String)
    ensures
        r@ == folder_name(prefix@, artist@, album@),
{
    let title = apply_sentence_case_with_exception(album, artist);
    let safe_title = sanitize_path_component(title.as_str());
    let safe_year = sanitize_path_component(string_of(prefix).as_str());
    let mut joined = chars_of(safe_year.as_str());
    append_chars(&mut joined, &chars_of(safe_title.as_str()));
    string_of(&trim_chars(&joined))
}

/// A track number in two digits at least, "00" when there is none.
pub open spec fn track_number_text(n: Option<u32>) -> Seq<char> {
    match n {
        Some(x) => decimal2(x as nat),
        None => seq!['0', '0'],
    }
}

/// `s` without its leading dots.
pub open spec fn trim_leading_dots(s: Seq<char>) -> Seq<char>
    decreases s.len(),
{
    if s.len() > 0 && s[0] == '.' {
        trim_leading_dots(s.drop_first())
    } else {
        s
    }
}

/// A track's file name: number, separator, sanitised trimmed title, a dot and
/// the extension without its leading dots.
pub open spec fn track_file_name(
    n: Option<u32>,
    sep: Seq<char>,
    title: Seq<char>,
    ext: Seq<char>,
) -> Seq<char> {
    track_number_text(n) + sep + trim(path_component(title)) + seq!['.'] + trim_leading_dots(ext)
}

pub fn track_file_name_from(n: Option<u32>, sep: &Vec<char>, title: &str, ext: &str) -> (r:
    String)
    ensures
        r@ == track_file_name(n, sep@, title@, ext@),
{
    let mut out = match n {
        Some(x) => decimal2_chars(x as u64),
        None => vec!['0', '0'],
    };
    append_chars(&mut out, sep);
    let safe_title = sanitize_path_component(title);
    append_chars(&mut out, &trim_chars(&chars_of(safe_title.as_str())));
    out.push('.');
    let ec = chars_of(ext);
    let mut i: usize = 0;
    assert(ec@.subrange(0, ec.len() as int) =~= ec@);
    while i < ec.len() && ec[i] == '.'
        invariant
            i <= ec.len(),
            trim_leading_dots(ec@) == trim_leading_dots(ec@.subrange(i as int, ec.len() as int)),
        decreases ec.len() - i,
    {
        assert(ec@.subrange(i as int, ec.len() as int).drop_first() =~= ec@.subrange(
            i + 1,
            ec.len() as int,
        ));
        i = i + 1;
    }
    append_chars(&mut out, &slice_chars(&ec, i, ec.len()));
    string_of(&out)
}

/// The alphanumeric characters of `w`, in order.
pub open spec fn alnum_only(w: Seq<char>) -> Seq<char>
    decreases w.len(),
{
    if w.len() == 0 {
        w
    } else {
        let front = alnum_only(w.drop_last());
        if alphanumeric(w.last()) {
            front.push(w.last())
        } else {
            front
        }
    }
}

fn alnum_chars(w: &Vec<char>) -> (r: Vec<char>)
    ensures
        r@ == alnum_only(w@),
{
    let mut out: Vec<char> = Vec::new();
    let mut i: usize = 0;
    while i < w.len()
        invariant
            i <= w.len(),
            out@ == alnum_only(w@.subrange(0, i as int)),
        decreases w.len() - i,
    {
        assert(w@.subrange(0, i + 1).drop_last() =~= w@.subrange(0, i as int));
        if is_alphanumeric(w[i]) {
            out.push(w[i]);
        }
        i = i + 1;
    }
    assert(w@.subrange(0, w.len() as int) =~= w@);
    out
}

/// Punctuation after which the next word starts a sentence.
pub open spec fn strong_punct(c: char) -> bool {
    c == '.' || c == ':' || c == '?' || c == '!' || c == '-'
}

/// Word `i` of `words` in sentence case: Roman numerals and abbreviations in
/// upper case, a lone "i" as "I", a word that starts the text or follows
/// strong punctuation capitalised, any other word in lower case.
pub open spec fn recased_word(words: Seq<Seq<char>>, i: int) -> Seq<char> {
    let word = words[i];
    let clean = alnum_only(word);
    let upper_clean = upper_of(clean);
    if listed(ROMAN_NUMERALS@, upper_clean) || listed(ABBREVIATIONS@, upper_clean) {
        if clean.len() > 0 {
            replace_all(word, lower_of(clean), upper_clean)
        } else {
            lower_of(word)
        }
    } else if lower_of(clean) == seq!['i'] {
        replace_all(word, seq!['i'], seq!['I'])
    } else if i == 0 || (words[i - 1].len() > 0 && strong_punct(words[i - 1].last())) {
        cap_first_alpha(lower_of(word))
    } else {
        lower_of(word)
    }
}

/// The text's words in sentence case, joined by single spaces; nothing for a
/// text of whitespace only.
pub open spec fn case_corrected(text: Seq<char>) -> Seq<char> {
    let words = words_of(text);
    if trim(text).len() == 0 {
        Seq::empty()
    } else {
        join_space(Seq::new(words.len(), |i: int| recased_word(words, i)))
    }
}

fn lower_chars(w: &Vec<char>) -> (r: Vec<char>)
    ensures
        r@ == lower_of(w@),
{
    chars_of(to_lower(string_of(w).as_str()).as_str())
}

fn upper_chars(w: &Vec<char>) -> (r: Vec<char>)
    ensures
        r@ == upper_of(w@),
{
    chars_of(to_upper(string_of(w).as_str()).as_str())
}

fn recase_word(words: &Vec<Vec<char>>, i: usize) -> (r: Vec<char>)
    requires
        i < words.len(),
    ensures
        r@ == recased_word(views(words@), i as int),
{
    let word = &words[i];
    assert(views(words@)[i as int] == word@);
    let clean = alnum_chars(word);
    let upper_clean = upper_chars(&clean);
    let small = vec!['i'];
    assert(small@ =~= seq!['i']);
    if is_listed(ROMAN_NUMERALS, &upper_clean) || is_listed(ABBREVIATIONS, &upper_clean) {
        if clean.len() > 0 {
            let pat = lower_chars(&clean);
            if pat.len() > 0 {
                replace_chars(word, &pat, &upper_clean)
            } else {
                slice_chars(word, 0, word.len())
            }
        } else {
            lower_chars(word)
        }
    } else if equal_chars(&lower_chars(&clean), &small) {
        let big = vec!['I'];
        assert(big@ =~= seq!['I']);
        replace_chars(word, &small, &big)
    } else {
        let capitalize = if i == 0 {
            true
        } else {
            let prev = &words[i - 1];
            assert(views(words@)[i - 1] == prev@);
            prev.len() > 0 && {
                let c = prev[prev.len() - 1];
                c == '.' || c == ':' || c == '?' || c == '!' || c == '-'
            }
        };
        let lowered = lower_chars(word);
        if capitalize {
            capitalize_first_alpha(&lowered)
        } else {
            lowered
        }
    }
}

/// Sentence case with the exceptions for Roman numerals, abbreviations and a
/// lone "I".
pub fn correct_case(text: &str) -> (r: String)
    ensures
        r@ == case_corrected(text@),
{
    let tc = chars_of(text);
    if trim_chars(&tc).len() == 0 {
        return string_of(&Vec::new());
    }
    let words = split_words_of(&tc);
    let mut out: Vec<Vec<char>> = Vec::new();
    let mut i: usize = 0;
    while i < words.len()
        invariant
            i <= words.len(),
            views(words@) == words_of(text@),
            views(out@) == Seq::new(i as nat, |k: int| recased_word(views(words@), k)),
        decreases words.len() - i,
    {
        let w = recase_word(&words, i);
        let ghost before = out@;
        out.push(w);
        assert(views(out@) =~= Seq::new((i + 1) as nat, |k: int| recased_word(views(words@), k)))
            by {
            assert(out@ =~= before.push(w));
            lemma_views_push(before, w);
        }
        i = i + 1;
    }
    string_of(&join_with_space(&out))
}

/// Every word with its first letter in upper case, joined by single spaces.
pub open spec fn title_cased(text: Seq<char>) -> Seq<char> {
    join_space(words_of(text).map_values(|w: Seq<char>| cap_first_alpha(w)))
}

pub fn title_case(text: &str) -> (r: String)
    ensures
        r@ == title_cased(text@),
{
    let words = split_words_of(&chars_of(text));
    let mut out: Vec<Vec<char>> = Vec::new();
    let mut i: usize = 0;
    while i < words.len()
        invariant
            i <= words.len(),
            views(words@) == words_of(text@),
            views(out@) == views(words@).subrange(0, i as int).map_values(
                |w: Seq<char>| cap_first_alpha(w),
            ),
        decreases words.len() - i,
    {
        let w = capitalize_first_alpha(&words[i]);
        let ghost before = out@;
        out.push(w);
        assert(views(out@) =~= views(words@).subrange(0, i + 1).map_values(
            |w: Seq<char>| cap_first_alpha(w),
        )) by {
            assert(out@ =~= before.push(w));
            lemma_views_push(before, w);
            assert(views(words@)[i as int] == words[i as int]@);
        }
        i = i + 1;
    }
    assert(views(words@).subrange(0, words.len() as int) =~= views(words@));
    string_of(&join_with_space(&out))
}

pub open spec fn is_digit(c: char) -> bool {
    '0' <= c && c <= '9'
}

pub open spec fn digit_value(c: char) -> nat {
    (c as u32 - '0' as u32) as nat
}

/// The number that a run of decimal digits writes.
pub open spec fn digits_value(s: Seq<char>) -> nat
    decreases s.len(),
{
    if s.len() == 0 {
        0
    } else {
        digits_value(s.drop_last()) * 10 + digit_value(s.last())
    }
}

pub open spec fn all_digits(d: Seq<char>) -> bool {
    forall|i: int| 0 <= i < d.len() ==> is_digit(#[trigger] d[i])
}

/// `s` without the one '+' that may lead it.
pub open spec fn unsigned_digits(s: Seq<char>) -> Seq<char> {
    if s.len() > 0 && s[0] == '+' {
        s.drop_first()
    } else {
        s
    }
}

/// What `str::parse::<u32>` accepts: an optional '+', then one digit or more
/// whose value fits in 32 bits.
pub open spec fn parse_u32(s: Seq<char>) -> Option<nat> {
    let d = unsigned_digits(s);
    if d.len() > 0 && all_digits(d) && digits_value(d) <= u32::MAX {
        Some(digits_value(d))
    } else {
        None
    }
}

proof fn lemma_digits_value_grows(s: Seq<char>, i: int)
    requires
        0 <= i <= s.len(),
        forall|k: int| 0 <= k < s.len() ==> is_digit(#[trigger] s[k]),
    ensures
        digits_value(s.subrange(0, i)) <= digits_value(s),
    decreases s.len() - i,
{
    if i < s.len() {
        lemma_digits_value_grows(s, i + 1);
        assert(s.subrange(0, i + 1).drop_last() =~= s.subrange(0, i));
    } else {
        assert(s.subrange(0, i) =~= s);
    }
}

pub fn parse_track_number(s: &Vec<char>) -> (r: Option<u32>)
    ensures
        r matches Some(v) ==> parse_u32(s@) == Some(v as nat),
        r is None ==> parse_u32(s@) is None,
{
    let start: usize = if s.len() > 0 && s[0] == '+' {
        1
    } else {
        0
    };
    let ghost d = unsigned_digits(s@);
    assert(d =~= s@.subrange(start as int, s.len() as int));
    if start == s.len() {
        assert(d.len() == 0);
        return None;
    }
    let mut value: u64 = 0;
    let mut fits = true;
    let mut i: usize = start;
    while i < s.len()
        invariant
            start <= i <= s.len(),
            d =~= s@.subrange(start as int, s.len() as int),
            d == unsigned_digits(s@),
            forall|k: int| start <= k < i ==> is_digit(#[trigger] s@[k]),
            fits ==> value as nat == digits_value(s@.subrange(start as int, i as int)),
            fits ==> value <= u32::MAX,
            !fits ==> digits_value(s@.subrange(start as int, i as int)) > u32::MAX,
        decreases s.len() - i,
    {
        let c = s[i];
        if !('0' <= c && c <= '9') {
            assert(!is_digit(d[i - start]));
            assert(!all_digits(d));
            return None;
        }
        assert(s@.subrange(start as int, i + 1).drop_last() =~= s@.subrange(start as int, i as int));
        if fits {
            let next = value * 10 + (c as u32 - '0' as u32) as u64;
            if next > u32::MAX as u64 {
                fits = false;
            } else {
                value = next;
            }
        } else {
            assert(digits_value(s@.subrange(start as int, i + 1)) >= digits_value(
                s@.subrange(start as int, i as int),
            ) * 10);
        }
        i = i + 1;
    }
    assert forall|k: int| 0 <= k < d.len() implies is_digit(#[trigger] d[k]) by {
        assert(d[k] == s@[start + k]);
    }
    if fits {
        Some(value as u32)
    } else {
        None
    }
}

/// A track number in two digits at least when it reads as a number, else
/// the text as it is.
pub open spec fn track_number_formatted(track: Seq<char>) -> Seq<char> {
    match parse_u32(track) {
        Some(n) => decimal2(n),
        None => track,
    }
}

pub fn format_track_number_text(track: &str) -> (r: String)
    ensures
        r@ == track_number_formatted(track@),
{
    let tc = chars_of(track);
    match parse_track_number(&tc) {
        Some(n) => string_of(&decimal2_chars(n as u64)),
        None => string_of(&tc),
    }
}

/// The characters that file systems refuse in names.
pub open spec fn forbidden_in_name(c: char) -> bool {
    c == '/' || c == '\\' || c == ':' || c == '*' || c == '?' || c == '"' || c == '<' || c == '>'
        || c == '|'
}

/// `name` with every character that file systems refuse replaced by '_'.
pub fn sanitize_filename(name: &str) -> (r: String)
    ensures
        r@ == name@.map_values(|c: char| if forbidden_in_name(c) { '_' } else { c }),
{
    let cs = chars_of(name);
    let mut out: Vec<char> = Vec::new();
    let mut i: usize = 0;
    while i < cs.len()
        invariant
            i <= cs.len(),
            out@ == cs@.subrange(0, i as int).map_values(
                |c: char| if forbidden_in_name(c) { '_' } else { c },
            ),
        decreases cs.len() - i,
    {
        let c = cs[i];
        if c == '/' || c == '\\' || c == ':' || c == '*' || c == '?' || c == '"' || c == '<' || c
            == '>' || c == '|' {
            out.push('_');
        } else {
            out.push(c);
        }
        i = i + 1;
        assert(out@ =~= cs@.subrange(0, i as int).map_values(
            |c: char| if forbidden_in_name(c) { '_' } else { c },
        ));
    }
    assert(cs@.subrange(0, cs.len() as int) =~= cs@);
    string_of(&out)
}

} // verus!
