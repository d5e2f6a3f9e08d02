//! The column codec: a 1-based column index and its letter address.
//!
//! Addresses are written in bijective base 26. There is no zero digit: `A`
//! is 1, `Z` is 26, `AA` is 27, and the last column, 16384, is `XFD`.

use vstd::prelude::*;
use crate::text::{ascii_upper, chars_of, string_of, to_ascii_upper};

verus! {

/// The last column a worksheet can have (`XFD`).
pub const XL_MAX_COL: u16 = 16384;

/// The first column (`A`).
pub const XL_MIN_COL: u16 = 1;

/// Why a column address or index was refused.
#[derive(Debug, Clone, Copy, PartialEq, Eq, Structural)]
pub enum ColumnError {
    /// The index, or the value of the letters, is not in `1..=16384`.
    OutOfRange,
    /// Some character of the address is not a letter `A` to `Z`.
    InvalidFormat,
}

/// The letter that stands for the digit `d` (0 is `A`, 25 is `Z`).
pub open spec fn digit_letter(d: int) -> char {
    (d + 65) as char
}

/// The value of an upper-case letter as a digit (`A` is 1, `Z` is 26).
pub open spec fn letter_digit(c: char) -> int {
    c as int - 64
}

/// Whether `c` is one of the upper-case letters `A` to `Z`.
pub open spec fn is_upper_letter(c: char) -> bool {
    'A' <= c <= 'Z'
}

/// Whether `n` is the index of a column that exists.
pub open spec fn valid_col(n: int) -> bool {
    XL_MIN_COL <= n <= XL_MAX_COL
}

/// The letters of column `n` in bijective base 26. Column 0 has no letters.
pub open spec fn col_letters(n: nat) -> Seq<char>
    decreases n,
{
    if n == 0 {
        Seq::empty()
    } else {
        col_letters(((n - 1) / 26) as nat).push(digit_letter((n - 1) % 26))
    }
}

/// Whether every character of `s` is a letter, in either case.
pub open spec fn all_letters(s: Seq<char>) -> bool {
    forall|i: int| 0 <= i < s.len() ==> is_upper_letter(ascii_upper(#[trigger] s[i]))
}

/// The number that the letters of `s` spell, read left to right without
/// regard to case. Meaningful where `all_letters(s)` holds.
pub open spec fn letters_value(s: Seq<char>) -> int
    decreases s.len(),
{
    if s.len() == 0 {
        0
    } else {
        letters_value(s.drop_last()) * 26 + letter_digit(ascii_upper(s.last()))
    }
}

/// What `index_to_letters` answers for the index `n`.
pub open spec fn index_to_letters_spec(n: int) -> Result<Seq<char>, ColumnError> {
    if valid_col(n) {
        Ok(col_letters(n as nat))
    } else {
        Err(ColumnError::OutOfRange)
    }
}

/// What `letters_to_index` answers for the address `s`. A character that
/// is no letter is reported before a value that is out of range.
pub open spec fn letters_to_index_spec(s: Seq<char>) -> Result<u16, ColumnError> {
    if !all_letters(s) {
        Err(ColumnError::InvalidFormat)
    } else if !valid_col(letters_value(s)) {
        Err(ColumnError::OutOfRange)
    } else {
        Ok(letters_value(s) as u16)
    }
}

/// Letters spell a number that is not negative, and a positive one where
/// there are any.
pub proof fn lemma_letters_value_nonneg(s: Seq<char>)
    requires
        all_letters(s),
    ensures
        0 <= letters_value(s),
        s.len() > 0 ==> 0 < letters_value(s),
    decreases s.len(),
{
    if s.len() > 0 {
        assert forall|i: int| 0 <= i < s.drop_last().len() implies is_upper_letter(
            ascii_upper(#[trigger] s.drop_last()[i]),
        ) by {
            assert(s.drop_last()[i] == s[i]);
        }
        lemma_letters_value_nonneg(s.drop_last());
        assert(is_upper_letter(ascii_upper(s[s.len() - 1])));
    }
}

/// The address of a column that exists is read as that column:
/// `letters_to_index` gives back what `index_to_letters` was given.
pub proof fn lemma_column_round_trip(n: u16)
    requires
        valid_col(n as int),
    ensures
        index_to_letters_spec(n as int) is Ok,
        letters_to_index_spec(index_to_letters_spec(n as int)->Ok_0) == Ok::<u16, ColumnError>(n),
{
    lemma_index_round_trip(n as nat);
}

/// The column of an address in upper-case letters has that address:
/// `index_to_letters` gives back what `letters_to_index` was given.
pub proof fn lemma_address_round_trip(letters: Seq<char>)
    requires
        forall|i: int| 0 <= i < letters.len() ==> is_upper_letter(#[trigger] letters[i]),
        letters_to_index_spec(letters) is Ok,
    ensures
        index_to_letters_spec(letters_to_index_spec(letters)->Ok_0 as int) == Ok::<
            Seq<char>,
            ColumnError,
        >(letters),
{
    lemma_letters_round_trip(letters);
}

/// The letters of a column are upper-case letters and spell its index.
pub proof fn lemma_index_round_trip(n: nat)
    ensures
        all_letters(col_letters(n)),
        letters_value(col_letters(n)) == n,
        forall|i: int| 0 <= i < col_letters(n).len() ==> is_upper_letter(#[trigger] col_letters(n)[i]),
        valid_col(n as int) ==> letters_to_index_spec(col_letters(n)) == Ok::<u16, ColumnError>(n as u16),
    decreases n,
{
    if n > 0 {
        let q = ((n - 1) / 26) as nat;
        let d = (n - 1) % 26;
        lemma_index_round_trip(q);
        let s = col_letters(n);
        assert(s == col_letters(q).push(digit_letter(d)));
        assert(s.drop_last() =~= col_letters(q));
        assert(s.last() == digit_letter(d));
        assert(is_upper_letter(digit_letter(d)));
        assert(ascii_upper(digit_letter(d)) == digit_letter(d));
        assert(letter_digit(digit_letter(d)) == d + 1);
        assert forall|i: int| 0 <= i < s.len() implies is_upper_letter(#[trigger] s[i]) by {
            if i < s.len() - 1 {
                assert(s[i] == col_letters(q)[i]);
            }
        }
        assert forall|i: int| 0 <= i < s.len() implies is_upper_letter(
            ascii_upper(#[trigger] s[i]),
        ) by {
            assert(is_upper_letter(s[i]));
        }
        assert(q * 26 + d + 1 == n) by (nonlinear_arith)
            requires
                n > 0,
                q == (n - 1) / 26,
                d == (n - 1) % 26,
        ;
    }
}

/// Upper-case letters are the letters of the number that they spell.
pub proof fn lemma_letters_round_trip(s: Seq<char>)
    requires
        forall|i: int| 0 <= i < s.len() ==> is_upper_letter(#[trigger] s[i]),
    ensures
        all_letters(s),
        letters_value(s) >= 0,
        col_letters(letters_value(s) as nat) == s,
    decreases s.len(),
{
    assert forall|i: int| 0 <= i < s.len() implies is_upper_letter(ascii_upper(#[trigger] s[i])) by {
        assert(is_upper_letter(s[i]));
    }
    if s.len() == 0 {
        assert(col_letters(0) =~= s);
    } else {
        let p = s.drop_last();
        let c = s.last();
        assert forall|i: int| 0 <= i < p.len() implies is_upper_letter(#[trigger] p[i]) by {
            assert(p[i] == s[i]);
        }
        lemma_letters_round_trip(p);
        assert(is_upper_letter(c));
        let v = letters_value(p);
        let d = letter_digit(c);
        let n = v * 26 + d;
        assert(letters_value(s) == n);
        assert((n - 1) / 26 == v && (n - 1) % 26 == d - 1) by (nonlinear_arith)
            requires
                n == v * 26 + d,
                1 <= d <= 26,
                v >= 0,
        ;
        assert(digit_letter(d - 1) == c);
        assert(col_letters(n as nat) == col_letters(v as nat).push(c));
        assert(p.push(c) =~= s);
    }
}

/// Appends the letters of column `n` to `out`; for column 0 there is
/// nothing to append.
pub fn push_col_letters(out: &mut Vec<char>, n: u16)
    ensures
        final(out)@ == old(out)@ + col_letters(n as nat),
{
    // The digits come out least significant first.
    let mut rev: Vec<char> = Vec::new();
    let mut m: u16 = n;
    while m > 0
        invariant
            col_letters(n as nat) == col_letters(m as nat) + rev@.reverse(),
        decreases m,
    {
        let r: u8 = ((m - 1) % 26) as u8;
        let c: char = (65 + r) as char;
        assert(c == digit_letter(((m - 1) % 26) as int));
        let ghost before = rev@;
        rev.push(c);
        proof {
            let next = ((m - 1) / 26) as nat;
            assert(col_letters(m as nat) == col_letters(next).push(c));
            assert(rev@.reverse() =~= seq![c] + before.reverse());
            assert(col_letters(next).push(c) + before.reverse() =~= col_letters(next)
                + rev@.reverse());
        }
        m = (m - 1) / 26;
    }
    let mut i: usize = rev.len();
    while i > 0
        invariant
            i <= rev.len(),
            out@ == old(out)@ + rev@.reverse().subrange(0, rev.len() - i),
        decreases i,
    {
        i -= 1;
        out.push(rev[i]);
        assert(out@ =~= old(out)@ + rev@.reverse().subrange(0, rev.len() - i));
    }
    proof {
        assert(rev@.reverse().subrange(0, rev.len() as int) =~= rev@.reverse());
        assert(col_letters(0) + rev@.reverse() =~= rev@.reverse());
    }
}

/// The letters of column `n`, or `OutOfRange` where `n` is not in
/// `1..=16384`.
pub fn index_to_letters(n: u16) -> (r: Result<String, ColumnError>)
    ensures
        match r {
            Ok(letters) => index_to_letters_spec(n as int) == Ok::<Seq<char>, ColumnError>(
                letters@,
            ),
            Err(e) => index_to_letters_spec(n as int) == Err::<Seq<char>, ColumnError>(e),
        },
{
    if n < XL_MIN_COL || n > XL_MAX_COL {
        return Err(ColumnError::OutOfRange);
    }
    let mut out: Vec<char> = Vec::new();
    push_col_letters(&mut out, n);
    Ok(string_of(&out))
}

/// The index of the column whose address is the characters `letters`, read
/// without regard to case. `InvalidFormat` where a character is no letter,
/// else `OutOfRange` where the letters spell no column that exists.
pub fn letters_to_index_chars(letters: &[char]) -> (r: Result<u16, ColumnError>)
    ensures
        r == letters_to_index_spec(letters@),
{
    let mut num: u16 = 0;
    // Set once the value has passed the last column; `num` then stays put.
    let mut over: bool = false;
    let mut k: usize = 0;
    while k < letters.len()
        invariant
            k <= letters.len(),
            all_letters(letters@.subrange(0, k as int)),
            !over ==> num == letters_value(letters@.subrange(0, k as int)),
            !over ==> num <= XL_MAX_COL,
            over ==> letters_value(letters@.subrange(0, k as int)) > XL_MAX_COL,
        decreases letters.len() - k,
    {
        let c = letters[k];
        let ghost p = letters@.subrange(0, k as int);
        let ghost q = letters@.subrange(0, k + 1);
        let u = to_ascii_upper(c);
        if !('A' <= u && u <= 'Z') {
            proof {
                assert(!is_upper_letter(ascii_upper(letters@[k as int])));
            }
            return Err(ColumnError::InvalidFormat);
        }
        proof {
            assert(q.drop_last() =~= p);
            assert(q.last() == c);
            assert forall|i: int| 0 <= i < q.len() implies is_upper_letter(
                ascii_upper(#[trigger] q[i]),
            ) by {
                if i < k {
                    assert(q[i] == p[i]);
                }
            }
            lemma_letters_value_nonneg(p);
        }
        if !over {
            let d: u32 = (u as u32) - 64;
            let next: u32 = (num as u32) * 26 + d;
            if next > XL_MAX_COL as u32 {
                over = true;
            } else {
                num = next as u16;
            }
        }
        k += 1;
    }
    proof {
        assert(letters@.subrange(0, letters@.len() as int) =~= letters@);
    }
    if over || num < XL_MIN_COL {
        Err(ColumnError::OutOfRange)
    } else {
        Ok(num)
    }
}

/// The index of the column whose address is `letters`, read without regard
/// to case. `InvalidFormat` where a character is no letter, else
/// `OutOfRange` where the letters spell no column that exists.
pub fn letters_to_index(letters: &str) -> (r: Result<u16, ColumnError>)
    ensures
        r == letters_to_index_spec(letters@),
{
    let chars = chars_of(letters);
    letters_to_index_chars(chars.as_slice())
}

/// Return column letter for column number `n`.
pub fn num2col(n: u16) -> (r: Option<String>)
    ensures
        r is Some <==> valid_col(n as int),
        r is Some ==> r->0@ == col_letters(n as nat),
{
    match index_to_letters(n) {
        Ok(s) => Some(s),
        Err(_) => None,
    }
}

/// Return column number for column letter `letter`.
pub fn col2num(letter: &str) -> (r: Option<u16>)
    ensures
        r is Some <==> letters_to_index_spec(letter@) is Ok,
        r is Some ==> letters_to_index_spec(letter@) == Ok::<u16, ColumnError>(r->0),
{
    match letters_to_index(letter) {
        Ok(n) => Some(n),
        Err(_) => None,
    }
}

/// Whether the regular expression `pattern` matches somewhere in `text`,
/// as the crate regex finds it; nothing where `pattern` is no regular
/// expression.
pub uninterp spec fn regex_is_match(pattern: Seq<char>, text: Seq<char>) -> Option<bool>;

/// `Regex::new` and `Regex::is_match` of the crate regex: whether the
/// pattern matches somewhere in the text.
#[verifier::external_body]
fn pattern_matches(pattern: &str, text: &str) -> (r: Option<bool>)
    ensures
        r == regex_is_match(pattern@, text@),
{
    match regex::Regex::new(pattern) {
        Ok(re) => Some(re.is_match(text)),
        Err(_) => None,
    }
}

/// `s` with its ASCII letters in upper case.
pub open spec fn upper_text(s: Seq<char>) -> Seq<char> {
    Seq::new(s.len(), |i: int| ascii_upper(s[i]))
}

/// `s` with its ASCII letters in upper case.
pub fn to_upper_text(s: &str) -> (r: String)
    ensures
        r@ == upper_text(s@),
{
    let mut out: Vec<char> = Vec::new();
    for c in it: s.chars()
        invariant
            it.seq() == s@,
            out@ == upper_text(s@.subrange(0, it.index() as int)),
    {
        let ghost before = out@;
        out.push(to_ascii_upper(c));
        assert(out@ =~= upper_text(s@.subrange(0, it.index() + 1)));
    }
    assert(s@.subrange(0, s@.len() as int) =~= s@);
    string_of(&out)
}

/// What `col_letter_to_num` answers for `letter`, where `found` is what the
/// search for a letter in it gave.
pub open spec fn letter_to_num_spec(found: Option<bool>, letter: Seq<char>) -> Option<u16> {
    if found == Some(true) {
        match letters_to_index_spec(letter) {
            Ok(n) => Some(n),
            Err(_) => None,
        }
    } else {
        None
    }
}

/// The column number of `letter` once it has been searched for a letter:
/// there is none where the search found nothing.
pub fn letter_to_num_searched(found: Option<bool>, letter: &str) -> (r: Option<u16>)
    ensures
        r == letter_to_num_spec(found, letter@),
{
    match found {
        Some(true) => match letters_to_index(letter) {
            Ok(n) => Some(n),
            Err(_) => None,
        },
        _ => None,
    }
}

/// Return column letter for column number `n`
pub fn col_num_to_letter(n: u16) -> (r: Option<String>)
    ensures
        r is Some <==> valid_col(n as int),
        r is Some ==> r->0@ == col_letters(n as nat),
{
    num2col(n)
}

/// Return column number for column letter `letter`. The letters are first
/// searched for a letter with the regular expression `[A-Z]+`.
pub fn col_letter_to_num(letter: &str) -> (r: Option<u16>)
    ensures
        r == letter_to_num_spec(regex_is_match("[A-Z]+"@, upper_text(letter@)), letter@),
{
    let upper = to_upper_text(letter);
    let found = pattern_matches("[A-Z]+", upper.as_str());
    letter_to_num_searched(found, letter)
}

} // verus!
