use crate::models::Episode;
use crate::text::{chars_of, decimal, digits, is_digit, push_decimal, push_str, string_of};
use vstd::prelude::*;

verus! {

/// What `str::to_lowercase` returns for a string.
pub uninterp spec fn lower_of(s: Seq<char>) -> Seq<char>;

/// What `unidecode::unidecode` returns for a string.
pub uninterp spec fn unidecode_of(s: Seq<char>) -> Seq<char>;

/// Relies on `str::to_lowercase`: the Unicode lowercase form of the string,
/// which depends on its characters alone.
#[verifier::external_body]
fn lowercase(s: &str) -> (r: String)
    ensures
        r@ == lower_of(s@),
{
    s.to_lowercase()
}

/// Relies on `unidecode::unidecode`: an ASCII transliteration that depends on
/// the characters alone.
#[verifier::external_body]
fn transliterate(s: &str) -> (r: String)
    ensures
        r@ == unidecode_of(s@),
{
    unidecode::unidecode(s)
}

/// A whitespace character: the Unicode `White_Space` property.
pub open spec fn is_space(c: char) -> bool {
    c == ' ' || ('\t' <= c <= '\r') || c == '\u{85}' || c == '\u{a0}' || c == '\u{1680}' || (
    '\u{2000}' <= c <= '\u{200a}') || c == '\u{2028}' || c == '\u{2029}' || c == '\u{202f}'
        || c == '\u{205f}' || c == '\u{3000}'
}

/// A character that a cleaned title keeps as it is.
pub open spec fn is_word_char(c: char) -> bool {
    ('a' <= c <= 'z') || is_digit(c)
}

/// A character that separates words of a title.
pub open spec fn is_separator(c: char) -> bool {
    is_space(c) || c == '-'
}

/// A title read left to right: lowercase ASCII letters and digits are kept,
/// each run of separators becomes one underscore (none at the start), and
/// every other character is dropped without breaking a run.
pub open spec fn squash(s: Seq<char>) -> Seq<char>
    decreases s.len(),
{
    if s.len() == 0 {
        seq![]
    } else {
        let r = squash(s.drop_last());
        let c = s.last();
        if is_word_char(c) {
            r.push(c)
        } else if is_separator(c) && r.len() > 0 && r.last() != '_' {
            r.push('_')
        } else {
            r
        }
    }
}

/// The sequence without a trailing underscore.
pub open spec fn trim_end(s: Seq<char>) -> Seq<char> {
    if s.len() > 0 && s.last() == '_' {
        s.drop_last()
    } else {
        s
    }
}

pub open spec fn marker_word() -> Seq<char> {
    seq!['c', 'a', 'p', 'i', 't', 'o', 'l', '_']
}

/// The number of digits in `t` from position `i` on, up to the first non-digit.
pub open spec fn digit_run(t: Seq<char>, i: int) -> int
    decreases t.len() - i,
{
    if 0 <= i < t.len() && is_digit(t[i]) {
        1 + digit_run(t, i + 1)
    } else {
        0
    }
}

/// The length of the leading episode marker of a cleaned title: `capitol_`,
/// then any digits, then one underscore if one follows; zero without `capitol_`.
pub open spec fn marker_len(t: Seq<char>) -> int {
    if t.len() >= 8 && t.take(8) == marker_word() {
        let d = digit_run(t, 8);
        if 8 + d < t.len() && t[8 + d] == '_' {
            9 + d
        } else {
            8 + d
        }
    } else {
        0
    }
}

/// The cleaned form of an already transliterated title.
pub open spec fn clean_title(t: Seq<char>) -> Seq<char> {
    let s = trim_end(squash(t));
    s.skip(marker_len(s))
}

/// The show name holds `ova` in any mix of cases.
pub open spec fn has_ova_marker(show: Seq<char>) -> bool {
    exists|i: int|
        0 <= i && i + 3 <= show.len() && (#[trigger] show[i] == 'o' || show[i] == 'O') && (show[i
            + 1] == 'v' || show[i + 1] == 'V') && (show[i + 2] == 'a' || show[i + 2] == 'A')
}

pub open spec fn ova_prefix(show: Seq<char>) -> Seq<char> {
    if has_ova_marker(show) {
        seq!['o', 'v', 'a', '_']
    } else {
        seq![]
    }
}

/// The file name for an episode whose title is already lowercased and
/// transliterated: `[ova_]<number>_<cleaned title>.<extension>`.
pub open spec fn file_name(title: Seq<char>, number: i32, show: Seq<char>, ext: Seq<char>) -> Seq<
    char,
> {
    ova_prefix(show) + decimal(number as int) + seq!['_'] + clean_title(title) + seq!['.'] + ext
}

/// The file name for an episode, from its raw metadata.
pub open spec fn episode_file_name(e: Episode, ext: Seq<char>) -> Seq<char> {
    file_name(unidecode_of(lower_of(e.title@)), e.episode_number, e.tv_show_name@, ext)
}

fn is_space_char(c: char) -> (r: bool)
    ensures
        r == is_space(c),
{
    c == ' ' || ('\t' <= c && c <= '\r') || c == '\u{85}' || c == '\u{a0}' || c == '\u{1680}' || (
    '\u{2000}' <= c && c <= '\u{200a}') || c == '\u{2028}' || c == '\u{2029}' || c == '\u{202f}'
        || c == '\u{205f}' || c == '\u{3000}'
}

/// Keeps letters and digits and turns separator runs into single underscores.
fn squash_chars(t: &Vec<char>) -> (r: Vec<char>)
    ensures
        r@ == squash(t@),
{
    let mut r: Vec<char> = Vec::new();
    let mut i: usize = 0;
    while i < t.len()
        invariant
            i <= t.len(),
            r@ == squash(t@.take(i as int)),
        decreases t.len() - i,
    {
        let c = t[i];
        assert(t@.take(i as int + 1).drop_last() =~= t@.take(i as int));
        if ('a' <= c && c <= 'z') || ('0' <= c && c <= '9') {
            r.push(c);
        } else if (is_space_char(c) || c == '-') && r.len() > 0 && r[r.len() - 1] != '_' {
            r.push('_');
        }
        i = i + 1;
    }
    assert(t@.take(t.len() as int) =~= t@);
    r
}

/// Whether the show name holds `ova` in any mix of cases.
pub fn is_ova_show(show: &Vec<char>) -> (r: bool)
    ensures
        r == has_ova_marker(show@),
{
    let mut i: usize = 0;
    while i < show.len() && show.len() - i >= 3
        invariant
            forall|j: int|
                0 <= j < i ==> !(#[trigger] show@[j] == 'o' || show@[j] == 'O') || !(show@[j
                    + 1] == 'v' || show@[j + 1] == 'V') || !(show@[j + 2] == 'a' || show@[j + 2]
                    == 'A'),
        decreases show.len() - i,
    {
        let a = show[i];
        let b = show[i + 1];
        let c = show[i + 2];
        if (a == 'o' || a == 'O') && (b == 'v' || b == 'V') && (c == 'a' || c == 'A') {
            assert(show@[i as int] == a && show@[i + 1] == b && show@[i + 2] == c);
            return true;
        }
        i = i + 1;
    }
    proof {
        assert forall|j: int|
            0 <= j && j + 3 <= show@.len() implies !((#[trigger] show@[j] == 'o' || show@[j]
            == 'O') && (show@[j + 1] == 'v' || show@[j + 1] == 'V') && (show@[j + 2] == 'a'
            || show@[j + 2] == 'A')) by {
            assert(j < i);
        }
    }
    false
}

/// The cleaned form of an already lowercased and transliterated title.
pub fn clean_title_chars(t: &Vec<char>) -> (r: Vec<char>)
    ensures
        r@ == clean_title(t@),
{
    let mut s = squash_chars(t);
    if s.len() > 0 && s[s.len() - 1] == '_' {
        s.pop();
        assert(s@ =~= squash(t@).drop_last());
    }
    let ghost st = s@;
    let mut skip: usize = 0;
    if s.len() >= 8 && s[0] == 'c' && s[1] == 'a' && s[2] == 'p' && s[3] == 'i' && s[4] == 't'
        && s[5] == 'o' && s[6] == 'l' && s[7] == '_' {
        assert(st.take(8) =~= marker_word());
        let mut j: usize = 8;
        while j < s.len() && '0' <= s[j] && s[j] <= '9'
            invariant
                8 <= j <= s.len(),
                s@ == st,
                digit_run(st, 8) == (j - 8) + digit_run(st, j as int),
            decreases s.len() - j,
        {
            j = j + 1;
        }
        if j < s.len() && s[j] == '_' {
            j = j + 1;
        }
        skip = j;
    } else {
        proof {
            if st.len() >= 8 {
                assert(st.take(8)[0] == st[0] && st.take(8)[1] == st[1] && st.take(8)[2] == st[2]
                    && st.take(8)[3] == st[3] && st.take(8)[4] == st[4] && st.take(8)[5] == st[5]
                    && st.take(8)[6] == st[6] && st.take(8)[7] == st[7]);
            }
        }
    }
    let mut r: Vec<char> = Vec::new();
    let mut k: usize = skip;
    while k < s.len()
        invariant
            skip <= k <= s.len(),
            r@ == s@.subrange(skip as int, k as int),
        decreases s.len() - k,
    {
        r.push(s[k]);
        assert(s@.subrange(skip as int, k + 1) =~= s@.subrange(skip as int, k as int).push(
            s@[k as int],
        ));
        k = k + 1;
    }
    assert(r@ =~= st.skip(marker_len(st)));
    r
}

/// The file name for an episode whose title is already lowercased and
/// transliterated.
pub fn compose_filename(title: &str, episode_number: i32, show_name: &str, extension: &str) -> (r:
    String)
    ensures
        r@ == file_name(title@, episode_number, show_name@, extension@),
{
    let show = chars_of(show_name);
    let mut out: Vec<char> = Vec::new();
    if is_ova_show(&show) {
        out.push('o');
        out.push('v');
        out.push('a');
        out.push('_');
    }
    assert(out@ =~= ova_prefix(show_name@));
    push_decimal(&mut out, episode_number);
    out.push('_');
    let cleaned = clean_title_chars(&chars_of(title));
    let mut i: usize = 0;
    let ghost base = out@;
    while i < cleaned.len()
        invariant
            i <= cleaned.len(),
            out@ == base + cleaned@.take(i as int),
        decreases cleaned.len() - i,
    {
        out.push(cleaned[i]);
        assert(cleaned@.take(i + 1) =~= cleaned@.take(i as int).push(cleaned@[i as int]));
        i = i + 1;
    }
    assert(cleaned@.take(cleaned.len() as int) =~= cleaned@);
    out.push('.');
    push_str(&mut out, extension);
    assert(out@ =~= file_name(title@, episode_number, show_name@, extension@));
    string_of(&out)
}

impl Episode {
    /// The file name that this episode is stored under, with the given extension.
    pub fn filename(&self, extension: &str) -> (r: String)
        ensures
            r@ == episode_file_name(*self, extension@),
    {
        let lowered = lowercase(self.title.as_str());
        let ascii = transliterate(lowered.as_str());
        compose_filename(ascii.as_str(), self.episode_number, self.tv_show_name.as_str(), extension)
    }
}

} // verus!

verus! {

/// A cleaned-title character: a lowercase ASCII letter, a digit or an underscore.
pub open spec fn is_slug_char(c: char) -> bool {
    is_word_char(c) || c == '_'
}

/// A well-formed cleaned title: letters, digits and single underscores, with
/// no underscore at either end.
pub open spec fn is_slug(t: Seq<char>) -> bool {
    &&& forall|i: int| 0 <= i < t.len() ==> is_slug_char(#[trigger] t[i])
    &&& t.len() > 0 ==> t[0] != '_' && t.last() != '_'
}

proof fn lemma_squash_shape(s: Seq<char>)
    ensures
        forall|i: int| 0 <= i < squash(s).len() ==> is_slug_char(#[trigger] squash(s)[i]),
        squash(s).len() > 0 ==> squash(s)[0] != '_',
        forall|i: int|
            0 <= i && i + 1 < squash(s).len() ==> !(#[trigger] squash(s)[i] == '_' && squash(
                s,
            )[i + 1] == '_'),
    decreases s.len(),
{
    if s.len() > 0 {
        lemma_squash_shape(s.drop_last());
    }
}

proof fn lemma_clean_title_is_slug(title: Seq<char>)
    ensures
        is_slug(clean_title(title)),
{
    let q = squash(title);
    lemma_squash_shape(title);
    let s = trim_end(q);
    assert(forall|i: int| 0 <= i < s.len() ==> s[i] == q[i]);
    let m = marker_len(s);
    let t = s.skip(m);
    assert(0 <= m <= s.len()) by {
        if s.len() >= 8 && s.take(8) == marker_word() {
            lemma_digit_run_bounds(s, 8);
        }
    }
    if t.len() > 0 {
        assert(t[0] == s[m]);
        if m > 0 {
            assert(s.take(8)[7] == s[7]);
            let d = digit_run(s, 8);
            lemma_digit_run_bounds(s, 8);
            if 8 + d < s.len() && s[8 + d] == '_' {
                assert(s[m - 1] == '_');
            } else {
                if d == 0 {
                    assert(s[7] == '_');
                } else {
                    assert(!is_digit(s[m]) || m >= s.len()) by {
                        lemma_digit_run_stops(s, 8);
                    }
                }
            }
        }
        assert(t.last() == s.last());
    }
}

proof fn lemma_digit_run_bounds(t: Seq<char>, i: int)
    requires
        0 <= i <= t.len(),
    ensures
        0 <= digit_run(t, i) <= t.len() - i,
    decreases t.len() - i,
{
    if i < t.len() && is_digit(t[i]) {
        lemma_digit_run_bounds(t, i + 1);
    }
}

proof fn lemma_digit_run_stops(t: Seq<char>, i: int)
    requires
        0 <= i <= t.len(),
    ensures
        i + digit_run(t, i) < t.len() ==> !is_digit(t[i + digit_run(t, i)]),
    decreases t.len() - i,
{
    if i < t.len() && is_digit(t[i]) {
        lemma_digit_run_stops(t, i + 1);
    }
}

/// For a positive episode number and an extension of lowercase letters and
/// digits, every file name is `[ova_]<digits>_<title>.<extension>`, where the
/// title holds only lowercase letters, digits and underscores and neither
/// starts nor ends with an underscore; so the name holds no uppercase letter
/// and no character outside `a-z`, `0-9`, `_` and `.`.
pub proof fn lemma_file_name_shape(title: Seq<char>, number: i32, show: Seq<char>, ext: Seq<char>)
    requires
        number > 0,
        ext.len() > 0,
        forall|i: int| 0 <= i < ext.len() ==> is_word_char(#[trigger] ext[i]),
    ensures
        file_name(title, number, show, ext) == ova_prefix(show) + digits(number as nat) + seq![
            '_',
        ] + clean_title(title) + seq!['.'] + ext,
        ova_prefix(show) == seq!['o', 'v', 'a', '_'] || ova_prefix(show) == Seq::<char>::empty(),
        digits(number as nat).len() > 0,
        forall|i: int|
            0 <= i < digits(number as nat).len() ==> is_digit(#[trigger] digits(number as nat)[i]),
        is_slug(clean_title(title)),
        forall|i: int|
            0 <= i < file_name(title, number, show, ext).len() ==> ({
                let c = #[trigger] file_name(title, number, show, ext)[i];
                is_slug_char(c) || c == '.'
            }),
{
    crate::text::lemma_digits_are_digits(number as nat);
    lemma_clean_title_is_slug(title);
    let p = ova_prefix(show);
    let d = digits(number as nat);
    let t = clean_title(title);
    let f = file_name(title, number, show, ext);
    assert forall|i: int| 0 <= i < f.len() implies is_slug_char(#[trigger] f[i]) || f[i]
        == '.' by {
        let a = p.len() as int;
        let b = a + d.len();
        let c = b + 1 + t.len();
        if i < a {
            assert(f[i] == p[i]);
        } else if i < b {
            assert(f[i] == d[i - a]);
        } else if i == b {
            assert(f[i] == '_');
        } else if i < c {
            assert(f[i] == t[i - b - 1]);
        } else if i == c {
            assert(f[i] == '.');
        } else {
            assert(f[i] == ext[i - c - 1]);
        }
    }
}

/// A show name that holds `ova` in any mix of cases (`OVA`, `ova`, `OvA`, ...)
/// gives names that start with `ova_`; for a non-negative episode number, any
/// other show name gives a name that starts with a digit, so without `ova_`.
pub proof fn lemma_ova_prefix(title: Seq<char>, number: i32, show: Seq<char>, ext: Seq<char>)
    ensures
        has_ova_marker(show) ==> file_name(title, number, show, ext).take(4) == seq![
            'o',
            'v',
            'a',
            '_',
        ],
        !has_ova_marker(show) && number >= 0 ==> is_digit(file_name(title, number, show, ext)[0]),
{
    let f = file_name(title, number, show, ext);
    if has_ova_marker(show) {
        assert(f.take(4) =~= seq!['o', 'v', 'a', '_']);
    }
    if !has_ova_marker(show) && number >= 0 {
        crate::text::lemma_digits_are_digits(number as nat);
        assert(f[0] == digits(number as nat)[0]);
    }
}

} // verus!
