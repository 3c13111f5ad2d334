//! Table names as Splitgraph's Socrata loader derives them from dataset names.
use vstd::prelude::*;

use crate::text::{chars_of, string_of_chars};

verus! {

/// Whether `c` has the Unicode `White_Space` property, the whitespace of
/// `char::is_whitespace` and `str::split_whitespace`.
pub open spec fn is_white_space(c: char) -> bool {
    let u = c as int;
    ||| 0x09 <= u <= 0x0D
    ||| u == 0x20
    ||| u == 0x85
    ||| u == 0xA0
    ||| u == 0x1680
    ||| 0x2000 <= u <= 0x200A
    ||| u == 0x2028
    ||| u == 0x2029
    ||| u == 0x202F
    ||| u == 0x205F
    ||| u == 0x3000
}

/// Whether `c` has the Unicode `White_Space` property.
pub fn is_white_space_char(c: char) -> (r: bool)
    ensures
        r == is_white_space(c),
{
    let u = c as u32;
    (0x09 <= u && u <= 0x0D) || u == 0x20 || u == 0x85 || u == 0xA0 || u == 0x1680 || (0x2000
        <= u && u <= 0x200A) || u == 0x2028 || u == 0x2029 || u == 0x202F || u == 0x205F || u
        == 0x3000
}

/// Scanning `s` from the left: the words completed so far and the word in progress.
pub open spec fn words_scan(s: Seq<char>) -> (Seq<Seq<char>>, Seq<char>)
    decreases s.len(),
{
    if s.len() == 0 {
        (Seq::empty(), Seq::empty())
    } else {
        let (done, cur) = words_scan(s.drop_last());
        let c = s.last();
        if is_white_space(c) {
            if cur.len() > 0 {
                (done.push(cur), Seq::empty())
            } else {
                (done, cur)
            }
        } else {
            (done, cur.push(c))
        }
    }
}

/// The maximal runs of non-whitespace characters of `s`, in order: what
/// `str::split_whitespace` yields.
pub open spec fn split_words(s: Seq<char>) -> Seq<Seq<char>> {
    let (done, cur) = words_scan(s);
    if cur.len() > 0 {
        done.push(cur)
    } else {
        done
    }
}

/// The views of a vector of character vectors.
pub open spec fn char_views(v: Seq<Vec<char>>) -> Seq<Seq<char>> {
    v.map_values(|w: Vec<char>| w@)
}

/// Splits `cs` into its maximal runs of non-whitespace characters.
pub fn split_whitespace_chars(cs: &Vec<char>) -> (r: Vec<Vec<char>>)
    ensures
        char_views(r@) == split_words(cs@),
{
    let mut words: Vec<Vec<char>> = Vec::new();
    let mut cur: Vec<char> = Vec::new();
    for i in 0..cs.len()
        invariant
            (char_views(words@), cur@) == words_scan(cs@.take(i as int)),
    {
        let c = cs[i];
        assert(cs@.take(i + 1).drop_last() == cs@.take(i as int));
        if is_white_space_char(c) {
            if cur.len() > 0 {
                let ghost before = words@;
                let w = cur;
                words.push(w);
                assert(char_views(words@) =~= char_views(before).push(w@));
                cur = Vec::new();
            }
        } else {
            cur.push(c);
        }
    }
    assert(cs@.take(cs.len() as int) == cs@);
    if cur.len() > 0 {
        let ghost before = words@;
        let w = cur;
        words.push(w);
        assert(char_views(words@) =~= char_views(before).push(w@));
    }
    words
}

/// The number of bytes that `c` takes in UTF-8.
pub open spec fn utf8_len(c: char) -> nat {
    let u = c as int;
    if u < 0x80 {
        1
    } else if u < 0x800 {
        2
    } else if u < 0x10000 {
        3
    } else {
        4
    }
}

/// The number of bytes that `s` takes in UTF-8: the length `str::len` reports.
pub open spec fn byte_len(s: Seq<char>) -> nat
    decreases s.len(),
{
    if s.len() == 0 {
        0
    } else {
        utf8_len(s[0]) + byte_len(s.drop_first())
    }
}

/// Byte lengths add up over concatenation.
pub proof fn lemma_byte_len_concat(a: Seq<char>, b: Seq<char>)
    ensures
        byte_len(a + b) == byte_len(a) + byte_len(b),
    decreases a.len(),
{
    if a.len() == 0 {
        assert(a + b == b);
    } else {
        assert((a + b).drop_first() == a.drop_first() + b);
        lemma_byte_len_concat(a.drop_first(), b);
    }
}

/// Each character takes at least one byte.
pub proof fn lemma_byte_len_at_least_len(s: Seq<char>)
    ensures
        byte_len(s) >= s.len(),
    decreases s.len(),
{
    if s.len() > 0 {
        lemma_byte_len_at_least_len(s.drop_first());
    }
}

/// A longer prefix takes more bytes.
pub proof fn lemma_byte_len_prefix_grows(s: Seq<char>, a: int, b: int)
    requires
        0 <= a < b <= s.len(),
    ensures
        byte_len(s.take(a)) < byte_len(s.take(b)),
{
    assert(s.take(b) == s.take(a) + s.subrange(a, b));
    lemma_byte_len_concat(s.take(a), s.subrange(a, b));
    lemma_byte_len_at_least_len(s.subrange(a, b));
}

/// Extending a prefix by one character adds that character's bytes.
pub proof fn lemma_byte_len_take_next(s: Seq<char>, i: int)
    requires
        0 <= i < s.len(),
    ensures
        byte_len(s.take(i + 1)) == byte_len(s.take(i)) + utf8_len(s[i]),
{
    let one = seq![s[i]];
    assert(s.take(i + 1) == s.take(i) + one);
    lemma_byte_len_concat(s.take(i), one);
    assert(one.drop_first() =~= Seq::<char>::empty());
    assert(byte_len(one) == utf8_len(s[i]) + byte_len(one.drop_first()));
}

/// The UTF-8 length of a character.
pub fn utf8_len_of(c: char) -> (r: usize)
    ensures
        r == utf8_len(c),
{
    let u = c as u32;
    if u < 0x80 {
        1
    } else if u < 0x800 {
        2
    } else if u < 0x10000 {
        3
    } else {
        4
    }
}

/// The UTF-8 length of `w`, or `cap` when that is smaller.
fn capped_byte_len(w: &Vec<char>, cap: usize) -> (r: usize)
    ensures
        r == if byte_len(w@) <= cap {
            byte_len(w@)
        } else {
            cap as nat
        },
{
    let mut total: usize = 0;
    for i in 0..w.len()
        invariant
            total == if byte_len(w@.take(i as int)) <= cap {
                byte_len(w@.take(i as int))
            } else {
                cap as nat
            },
    {
        proof {
            lemma_byte_len_take_next(w@, i as int);
        }
        let n = utf8_len_of(w[i]);
        if total < cap {
            if n <= cap - total {
                total = total + n;
            } else {
                total = cap;
            }
        }
    }
    assert(w@.take(w.len() as int) == w@);
    total
}

/// The longest table name, in bytes.
pub open spec fn max_slug_len() -> nat {
    50
}

/// Starting from `acc`, appends `_` and the next word as long as the result
/// stays within the byte limit; stops at the first word that does not fit.
pub open spec fn greedy_join(acc: Seq<char>, rest: Seq<Seq<char>>) -> Seq<char>
    decreases rest.len(),
{
    if rest.len() == 0 {
        acc
    } else if byte_len(acc) + byte_len(rest[0]) + 1 > max_slug_len() {
        acc
    } else {
        greedy_join(acc + seq!['_'] + rest[0], rest.drop_first())
    }
}

/// The first word, then as many of the following words as fit, joined by `_`.
pub open spec fn slug_body(words: Seq<Seq<char>>) -> Seq<char> {
    greedy_join(words[0], words.drop_first())
}

/// Cutting `s` at the byte limit lands between two characters.
pub open spec fn cut_fits(s: Seq<char>) -> bool {
    byte_len(s) <= max_slug_len() || exists|k: int|
        0 <= k <= s.len() && #[trigger] byte_len(s.take(k)) == max_slug_len()
}

/// `s` cut to its first `max_slug_len()` bytes.
pub open spec fn cut_to_limit(s: Seq<char>) -> Seq<char> {
    if byte_len(s) <= max_slug_len() {
        s
    } else {
        s.take(choose|k: int| 0 <= k <= s.len() && #[trigger] byte_len(s.take(k)) == max_slug_len())
    }
}

/// A cleaned name that yields a table name: it has a word, and the cut at the
/// byte limit falls between characters.
pub open spec fn slug_input_ok(cleaned: Seq<char>) -> bool {
    split_words(cleaned).len() > 0 && cut_fits(slug_body(split_words(cleaned)))
}

/// The table name of a cleaned name: its words joined by `_` while they fit,
/// cut to the byte limit.
pub open spec fn slug_of_cleaned(cleaned: Seq<char>) -> Seq<char> {
    cut_to_limit(slug_body(split_words(cleaned)))
}

/// Why a name yields no table name.
#[derive(PartialEq, Eq, Debug)]
pub enum SlugError {
    /// Nothing but whitespace is left of the name.
    NoWords,
    /// The cut at the byte limit would fall inside a character.
    CutInsideCharacter,
}

/// Appends all of `w` to `acc`.
fn extend_chars(acc: &mut Vec<char>, w: &Vec<char>)
    ensures
        final(acc)@ == old(acc)@ + w@,
{
    for i in 0..w.len()
        invariant
            acc@ == old(acc)@ + w@.take(i as int),
    {
        acc.push(w[i]);
        assert(acc@ =~= old(acc)@ + w@.take(i + 1));
    }
    assert(w@.take(w.len() as int) == w@);
}

/// Joins the words as `slug_body` says.
fn join_words_within_limit(words: &Vec<Vec<char>>) -> (r: Vec<char>)
    requires
        words@.len() > 0,
    ensures
        r@ == slug_body(char_views(words@)),
{
    let ghost ws = char_views(words@);
    let mut result: Vec<char> = Vec::new();
    extend_chars(&mut result, &words[0]);
    assert(result@ =~= ws[0]);
    let mut cur_len = capped_byte_len(&result, 51);
    let mut i: usize = 1;
    let mut stop = false;
    assert(ws.skip(1) == ws.drop_first());
    while i < words.len() && !stop
        invariant
            ws == char_views(words@),
            1 <= i <= words@.len(),
            greedy_join(result@, ws.skip(i as int)) == slug_body(ws),
            cur_len == if byte_len(result@) <= 51 {
                byte_len(result@)
            } else {
                51
            },
            stop ==> result@ == slug_body(ws),
        decreases words@.len() - i + if stop {
            0int
        } else {
            1int
        },
    {
        let w = &words[i];
        assert(ws[i as int] == w@);
        let w_len = capped_byte_len(w, 51);
        let ghost rest = ws.skip(i as int);
        assert(rest[0] == w@);
        assert(rest.drop_first() == ws.skip(i + 1));
        if cur_len + w_len + 1 > 50 {
            stop = true;
        } else {
            let ghost before = result@;
            push_char_vec(&mut result, '_');
            extend_chars(&mut result, w);
            proof {
                lemma_byte_len_concat(before, seq!['_']);
                lemma_byte_len_concat(before + seq!['_'], w@);
                assert(seq!['_'].drop_first() =~= Seq::<char>::empty());
                assert(byte_len(seq!['_']) == utf8_len('_') + byte_len(seq!['_'].drop_first()));
                assert(byte_len(seq!['_']) == 1);
                assert(result@ == before + seq!['_'] + w@);
                assert(byte_len(result@) == byte_len(before) + 1 + byte_len(w@));
            }
            cur_len = cur_len + w_len + 1;
            i = i + 1;
        }
    }
    if !stop {
        assert(ws.skip(i as int) =~= Seq::<Seq<char>>::empty());
    }
    result
}

fn push_char_vec(v: &mut Vec<char>, c: char)
    ensures
        final(v)@ == old(v)@ + seq![c],
{
    v.push(c);
    assert(v@ =~= old(v)@ + seq![c]);
}

/// The first `n` characters of `s`.
fn prefix_chars(s: &Vec<char>, n: usize) -> (r: Vec<char>)
    requires
        n <= s@.len(),
    ensures
        r@ == s@.take(n as int),
{
    let mut r: Vec<char> = Vec::new();
    for i in 0..n
        invariant
            n <= s@.len(),
            r@ == s@.take(i as int),
    {
        r.push(s[i]);
        assert(r@ =~= s@.take(i + 1));
    }
    r
}

/// Cuts `s` to its first `max_slug_len()` bytes, when that cut falls between
/// characters.
fn cut_within_limit(s: &Vec<char>) -> (r: Result<Vec<char>, SlugError>)
    ensures
        r is Ok <==> cut_fits(s@),
        r matches Ok(t) ==> t@ == cut_to_limit(s@),
        r matches Err(e) ==> e == SlugError::CutInsideCharacter,
{
    let total = capped_byte_len(s, 51);
    if total <= 50 {
        return Ok(prefix_chars(s, s.len()));
    }
    let mut i: usize = 0;
    let mut acc: usize = 0;
    while acc < 50
        invariant
            byte_len(s@) > 50,
            i <= s@.len(),
            acc == byte_len(s@.take(i as int)),
            acc < 54,
            i > 0 ==> byte_len(s@.take(i - 1)) < 50,
        decreases s@.len() - i,
    {
        if i == s.len() {
            assert(s@.take(i as int) == s@);
            assert(false);
        }
        proof {
            lemma_byte_len_take_next(s@, i as int);
        }
        acc = acc + utf8_len_of(s[i]);
        i = i + 1;
    }
    if acc == 50 {
        proof {
            let k = choose|k: int| 0 <= k <= s@.len() && #[trigger] byte_len(s@.take(k)) == 50;
            if k < i {
                lemma_byte_len_prefix_grows(s@, k, i as int);
            } else if k > i {
                lemma_byte_len_prefix_grows(s@, i as int, k);
            }
        }
        Ok(prefix_chars(s, i))
    } else {
        proof {
            assert forall|k: int| 0 <= k <= s@.len() implies #[trigger] byte_len(s@.take(k)) != 50 by {
                if k < i - 1 {
                    lemma_byte_len_prefix_grows(s@, k, i - 1);
                } else if k > i {
                    lemma_byte_len_prefix_grows(s@, i as int, k);
                }
            }
        }
        Err(SlugError::CutInsideCharacter)
    }
}

/// The table name of a name stripped of unwanted characters: its
/// whitespace-separated words joined by `_` as long as the result stays within
/// 50 bytes (the first word always taken), cut to 50 bytes.
pub fn slug_from_cleaned(cleaned: &str) -> (r: Result<String, SlugError>)
    ensures
        r is Ok <==> slug_input_ok(cleaned@),
        r matches Ok(s) ==> s@ == slug_of_cleaned(cleaned@),
        r matches Err(e) ==> (e == SlugError::NoWords <==> split_words(cleaned@).len() == 0),
{
    let cs = chars_of(cleaned);
    let words = split_whitespace_chars(&cs);
    if words.len() == 0 {
        return Err(SlugError::NoWords);
    }
    let body = join_words_within_limit(&words);
    match cut_within_limit(&body) {
        Ok(t) => Ok(string_of_chars(&t)),
        Err(e) => Err(e),
    }
}

/// Whether `c` is an ASCII capital letter.
pub open spec fn is_ascii_upper(c: char) -> bool {
    65 <= c as int <= 90
}

/// Whether `c` is an ASCII lower-case letter or digit.
pub open spec fn is_lower_alnum(c: char) -> bool {
    (48 <= c as int <= 57) || (97 <= c as int <= 122)
}

/// Whether `c` is an ASCII letter or digit.
pub open spec fn is_ascii_alnum(c: char) -> bool {
    is_ascii_upper(c) || is_lower_alnum(c)
}

/// The characters that table names keep: whitespace, ASCII letters and digits.
pub open spec fn is_kept(c: char) -> bool {
    is_white_space(c) || is_ascii_alnum(c)
}

/// `s` without the characters that table names do not keep.
pub open spec fn kept_chars(s: Seq<char>) -> Seq<char>
    decreases s.len(),
{
    if s.len() == 0 {
        Seq::empty()
    } else if is_kept(s.last()) {
        kept_chars(s.drop_last()).push(s.last())
    } else {
        kept_chars(s.drop_last())
    }
}

/// The regex whose every match is removed from a lowercased name: any character
/// that is neither whitespace nor an ASCII letter or digit.
pub const STRIP_PATTERN: &'static str = r"[^\sa-zA-Z0-9]";

#[verifier::external_type_specification]
#[verifier::external_body]
pub struct ExRegexError(regex::Error);

/// What `str::to_lowercase` gives: the Unicode lowercase mapping of `s`.
pub uninterp spec fn lowercase(s: Seq<char>) -> Seq<char>;

/// `regex::Regex::new(pattern)`, then `Regex::replace_all` on `haystack` with
/// `replacement`, the result copied into a `String`. The contract covers the one
/// pattern and replacement the library uses: `[^\sa-zA-Z0-9]` is a valid regex (a
/// negated class of `\s`, which the crate's Unicode mode reads as the
/// `White_Space` property, and three ASCII ranges), each of its matches is one
/// character outside that set, and replacing them by nothing keeps exactly the
/// other characters, in order.
#[verifier::external_body]
fn regex_replace_all(pattern: &str, haystack: &str, replacement: &str) -> (r: Result<
    String,
    regex::Error,
>)
    requires
        pattern@ == STRIP_PATTERN@,
        replacement@ == ""@,
    ensures
        r is Ok,
        r matches Ok(s) ==> s@ == kept_chars(haystack@),
{
    match regex::Regex::new(pattern) {
        Ok(re) => Ok(re.replace_all(haystack, replacement).into_owned()),
        Err(e) => Err(e),
    }
}

/// `str::to_lowercase` from std: the result is named, not spelled out; of it the
/// contract states only that no character of it is an ASCII capital letter (the
/// lowercase mapping maps `A`..`Z` to `a`..`z`, and no character to a capital).
#[verifier::external_body]
fn to_lowercase(s: &str) -> (r: String)
    ensures
        r@ == lowercase(s@),
        forall|i: int| 0 <= i < r@.len() ==> !is_ascii_upper(#[trigger] r@[i]),
{
    s.to_lowercase()
}

/// The name `table` lowercased, with every character that is neither whitespace
/// nor an ASCII letter or digit removed.
pub open spec fn cleaned_table_name(table: Seq<char>) -> Seq<char> {
    kept_chars(lowercase(table))
}

/// `table` yields a table name: something besides whitespace is left of it.
pub open spec fn slugifiable(table: Seq<char>) -> bool {
    split_words(cleaned_table_name(table)).len() > 0
}

/// The table name that Splitgraph's Socrata loader gives a dataset called `table`.
pub open spec fn table_slug(table: Seq<char>) -> Seq<char> {
    slug_of_cleaned(cleaned_table_name(table))
}

/// Every character of `w` is an ASCII lower-case letter or digit.
pub open spec fn lower_alnum_word(w: Seq<char>) -> bool {
    forall|j: int| 0 <= j < w.len() ==> is_lower_alnum(#[trigger] w[j])
}

/// Every character of `s` is an ASCII lower-case letter, a digit or `_`.
pub open spec fn slug_chars(s: Seq<char>) -> bool {
    forall|j: int| 0 <= j < s.len() ==> is_lower_alnum(#[trigger] s[j]) || s[j] == '_'
}

/// Without capitals in the input, what is kept is whitespace, lower-case letters
/// and digits.
proof fn lemma_kept_chars_lower(s: Seq<char>)
    requires
        forall|i: int| 0 <= i < s.len() ==> !is_ascii_upper(#[trigger] s[i]),
    ensures
        forall|i: int|
            0 <= i < kept_chars(s).len() ==> is_white_space(#[trigger] kept_chars(s)[i])
                || is_lower_alnum(kept_chars(s)[i]),
    decreases s.len(),
{
    if s.len() > 0 {
        let init = s.drop_last();
        assert forall|i: int| 0 <= i < init.len() implies !is_ascii_upper(#[trigger] init[i]) by {
            assert(init[i] == s[i]);
        }
        lemma_kept_chars_lower(init);
        let c = s[s.len() - 1];
        assert(!is_ascii_upper(c));
        let k0 = kept_chars(init);
        if is_kept(c) {
            assert forall|i: int| 0 <= i < k0.push(c).len() implies is_white_space(
                #[trigger] k0.push(c)[i],
            ) || is_lower_alnum(k0.push(c)[i]) by {
                if i < k0.len() {
                    assert(k0.push(c)[i] == k0[i]);
                }
            }
        }
    }
}

/// When `s` holds only whitespace, lower-case letters and digits, its words are
/// non-empty runs of lower-case letters and digits.
proof fn lemma_words_lower_alnum(s: Seq<char>)
    requires
        forall|i: int| 0 <= i < s.len() ==> is_white_space(#[trigger] s[i]) || is_lower_alnum(s[i]),
    ensures
        forall|k: int|
            0 <= k < words_scan(s).0.len() ==> lower_alnum_word(#[trigger] words_scan(s).0[k])
                && words_scan(s).0[k].len() > 0,
        lower_alnum_word(words_scan(s).1),
        forall|k: int|
            0 <= k < split_words(s).len() ==> lower_alnum_word(#[trigger] split_words(s)[k])
                && split_words(s)[k].len() > 0,
    decreases s.len(),
{
    if s.len() > 0 {
        let init = s.drop_last();
        assert forall|i: int| 0 <= i < init.len() implies is_white_space(#[trigger] init[i])
            || is_lower_alnum(init[i]) by {
            assert(init[i] == s[i]);
        }
        lemma_words_lower_alnum(init);
        let c = s[s.len() - 1];
        assert(is_white_space(c) || is_lower_alnum(c));
        let (done, cur) = words_scan(init);
        assert(lower_alnum_word(cur.push(c)) || is_white_space(c)) by {
            if !is_white_space(c) {
                assert forall|j: int| 0 <= j < cur.push(c).len() implies is_lower_alnum(
                    #[trigger] cur.push(c)[j],
                ) by {
                    if j < cur.len() {
                        assert(cur.push(c)[j] == cur[j]);
                    }
                }
            }
        }
        if is_white_space(c) && cur.len() > 0 {
            assert forall|k: int| 0 <= k < done.push(cur).len() implies lower_alnum_word(
                #[trigger] done.push(cur)[k],
            ) && done.push(cur)[k].len() > 0 by {
                if k < done.len() {
                    assert(done.push(cur)[k] == done[k]);
                }
            }
        }
    }
    let (done, cur) = words_scan(s);
    if cur.len() > 0 {
        assert forall|k: int| 0 <= k < done.push(cur).len() implies lower_alnum_word(
            #[trigger] done.push(cur)[k],
        ) && done.push(cur)[k].len() > 0 by {
            if k < done.len() {
                assert(done.push(cur)[k] == done[k]);
            }
        }
    }
}

/// Joining runs of lower-case letters and digits with `_` gives lower-case
/// letters, digits and `_`, and keeps what was there.
proof fn lemma_greedy_join_chars(acc: Seq<char>, rest: Seq<Seq<char>>)
    requires
        slug_chars(acc),
        forall|k: int| 0 <= k < rest.len() ==> lower_alnum_word(#[trigger] rest[k]),
    ensures
        slug_chars(greedy_join(acc, rest)),
        greedy_join(acc, rest).len() >= acc.len(),
    decreases rest.len(),
{
    if rest.len() > 0 && byte_len(acc) + byte_len(rest[0]) + 1 <= max_slug_len() {
        let next = acc + seq!['_'] + rest[0];
        assert(lower_alnum_word(rest[0]));
        assert forall|j: int| 0 <= j < next.len() implies is_lower_alnum(#[trigger] next[j])
            || next[j] == '_' by {
            if j < acc.len() {
                assert(next[j] == acc[j]);
            } else if j > acc.len() {
                assert(next[j] == rest[0][j - acc.len() - 1]);
            }
        }
        assert forall|k: int| 0 <= k < rest.drop_first().len() implies lower_alnum_word(
            #[trigger] rest.drop_first()[k],
        ) by {
            assert(rest.drop_first()[k] == rest[k + 1]);
        }
        lemma_greedy_join_chars(next, rest.drop_first());
    }
}

/// Characters of `s` that each take one byte: the byte length is the length.
proof fn lemma_slug_chars_byte_len(s: Seq<char>)
    requires
        slug_chars(s),
    ensures
        byte_len(s) == s.len(),
    decreases s.len(),
{
    if s.len() > 0 {
        assert forall|j: int| 0 <= j < s.drop_first().len() implies is_lower_alnum(
            #[trigger] s.drop_first()[j],
        ) || s.drop_first()[j] == '_' by {
            assert(s.drop_first()[j] == s[j + 1]);
        }
        lemma_slug_chars_byte_len(s.drop_first());
        assert(is_lower_alnum(s[0]) || s[0] == '_');
    }
}

/// A name cleaned of all but whitespace, lower-case letters and digits, with a
/// word in it, always yields a table name: a non-empty run of lower-case
/// letters, digits and `_` of at most 50 characters.
pub proof fn lemma_clean_name_slug(cleaned: Seq<char>)
    requires
        forall|i: int|
            0 <= i < cleaned.len() ==> is_white_space(#[trigger] cleaned[i]) || is_lower_alnum(
                cleaned[i],
            ),
        split_words(cleaned).len() > 0,
    ensures
        slug_input_ok(cleaned),
        slug_chars(slug_of_cleaned(cleaned)),
        1 <= slug_of_cleaned(cleaned).len() <= max_slug_len(),
{
    lemma_words_lower_alnum(cleaned);
    let words = split_words(cleaned);
    assert(lower_alnum_word(words[0]) && words[0].len() > 0);
    assert forall|k: int| 0 <= k < words.drop_first().len() implies lower_alnum_word(
        #[trigger] words.drop_first()[k],
    ) by {
        assert(words.drop_first()[k] == words[k + 1]);
    }
    lemma_greedy_join_chars(words[0], words.drop_first());
    let body = slug_body(words);
    lemma_slug_chars_byte_len(body);
    if body.len() > max_slug_len() {
        let t = body.take(50);
        assert forall|j: int| 0 <= j < t.len() implies is_lower_alnum(#[trigger] t[j]) || t[j]
            == '_' by {
            assert(t[j] == body[j]);
        }
        lemma_slug_chars_byte_len(t);
        assert(byte_len(body.take(50)) == max_slug_len());
        let k = choose|k: int| 0 <= k <= body.len() && #[trigger] byte_len(body.take(k)) == max_slug_len();
        if k < 50 {
            lemma_byte_len_prefix_grows(body, k, 50);
        } else if k > 50 {
            lemma_byte_len_prefix_grows(body, 50, k);
        }
        assert(slug_of_cleaned(cleaned) == t);
    }
}

/// Every table name is a non-empty run of at most 50 ASCII lower-case letters,
/// digits and `_`.
pub proof fn lemma_table_slug_shape(table: Seq<char>)
    requires
        slugifiable(table),
        forall|i: int| 0 <= i < lowercase(table).len() ==> !is_ascii_upper(#[trigger] lowercase(table)[i]),
    ensures
        slug_chars(table_slug(table)),
        1 <= table_slug(table).len() <= max_slug_len(),
{
    lemma_kept_chars_lower(lowercase(table));
    lemma_clean_name_slug(cleaned_table_name(table));
}

/// The table name that Splitgraph's Socrata loader gives a dataset called
/// `table`: lowercased, stripped of all but whitespace, ASCII letters and digits,
/// its words joined by `_` while they fit in 50 bytes, cut to 50 bytes. It is a
/// non-empty run of ASCII lower-case letters, digits and `_`.
pub fn slugify_table(table: &str) -> (r: String)
    requires
        slugifiable(table@),
    ensures
        r@ == table_slug(table@),
        slug_chars(r@),
        1 <= r@.len() <= max_slug_len(),
{
    let lower = to_lowercase(table);
    let cleaned = match regex_replace_all(STRIP_PATTERN, lower.as_str(), "") {
        Ok(cleaned) => cleaned,
        Err(_) => {
            assert(false);
            return String::new();
        },
    };
    proof {
        lemma_table_slug_shape(table@);
        lemma_kept_chars_lower(lowercase(table@));
        lemma_clean_name_slug(cleaned@);
    }
    match slug_from_cleaned(cleaned.as_str()) {
        Ok(s) => s,
        Err(_) => {
            assert(false);
            String::new()
        },
    }
}

/// The table name of `table`, or `NoWords` when nothing but whitespace is left
/// of it once lowercased and stripped.
pub fn try_slugify_table(table: &str) -> (r: Result<String, SlugError>)
    ensures
        r is Ok <==> slugifiable(table@),
        r matches Ok(s) ==> s@ == table_slug(table@),
        r matches Err(e) ==> e == SlugError::NoWords,
{
    let lower = to_lowercase(table);
    let cleaned = match regex_replace_all(STRIP_PATTERN, lower.as_str(), "") {
        Ok(cleaned) => cleaned,
        Err(_) => {
            assert(false);
            return Err(SlugError::NoWords);
        },
    };
    let cs = chars_of(cleaned.as_str());
    let words = split_whitespace_chars(&cs);
    if words.len() == 0 {
        Err(SlugError::NoWords)
    } else {
        Ok(slugify_table(table))
    }
}

} // verus!
