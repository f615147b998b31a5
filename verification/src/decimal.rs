use vstd::prelude::*;
use vstd::string::is_ascii_spec_bytes;
use vstd::utf8::is_ascii_chars;

verus! {

// The ASCII codes of the characters that a number is written with.
const DIGIT_ZERO: u8 = 48;

const DIGIT_NINE: u8 = 57;

const PLUS: u8 = 43;

const MINUS: u8 = 45;

const POINT: u8 = 46;

const SMALL_E: u8 = 101;

const CAPITAL_E: u8 = 69;

const CAPITAL_A: u8 = 65;

const CAPITAL_Z: u8 = 90;

/// How far a lower-case letter stands behind its upper-case letter.
const CASE_GAP: u8 = 32;

pub open spec fn is_digit(c: char) -> bool {
    '0' <= c && c <= '9'
}

pub open spec fn is_sign(c: char) -> bool {
    c == '+' || c == '-'
}

pub open spec fn is_exponent_mark(c: char) -> bool {
    c == 'e' || c == 'E'
}

/// The lower-case letter of an upper-case letter of the Latin alphabet;
/// any other character is left as it is.
pub open spec fn lower(c: char) -> char {
    if 'A' <= c && c <= 'Z' {
        ((c as u8) + 32) as char
    } else {
        c
    }
}

/// Every character from `from` up to `to` is a digit.
pub open spec fn digits_in(s: Seq<char>, from: int, to: int) -> bool {
    forall|i: int| from <= i < to ==> is_digit(#[trigger] s[i])
}

/// From `from` up to `to` stand digits with at most one point before, among
/// or after them, and at least one digit.
pub open spec fn is_mantissa(s: Seq<char>, from: int, to: int) -> bool {
    ||| from < to && digits_in(s, from, to)
    ||| exists|point: int|
        from <= point < to && to - from >= 2 && #[trigger] s[point] == '.' && digits_in(
            s,
            from,
            point,
        ) && digits_in(s, point + 1, to)
}

/// Where the digits of an exponent begin whose mark stands at `mark`: behind
/// the mark and a sign, if there is one.
pub open spec fn exponent_digits(s: Seq<char>, mark: int) -> int {
    if mark + 1 < s.len() && is_sign(s[mark + 1]) {
        mark + 2
    } else {
        mark + 1
    }
}

/// From `mark` to the end stands an exponent: its mark, then a sign or
/// none, then digits, at least one.
pub open spec fn is_exponent(s: Seq<char>, mark: int) -> bool {
    &&& 0 <= mark < s.len()
    &&& is_exponent_mark(s[mark])
    &&& exponent_digits(s, mark) < s.len()
    &&& digits_in(s, exponent_digits(s, mark), s.len() as int)
}

/// From `from` to the end stands a number: a mantissa, then an exponent or
/// none.
pub open spec fn is_number(s: Seq<char>, from: int) -> bool {
    exists|end: int|
        from <= end <= s.len() && #[trigger] is_mantissa(s, from, end) && (end == s.len()
            || is_exponent(s, end))
}

/// From `from` to the end stands the word, in letters of either case.
pub open spec fn spells(s: Seq<char>, from: int, word: Seq<char>) -> bool {
    &&& s.len() - from == word.len()
    &&& forall|i: int| from <= i < s.len() ==> lower(#[trigger] s[i]) == word[i - from]
}

/// Where the text begins behind its sign, if it has one.
pub open spec fn behind_sign(s: Seq<char>) -> int {
    if s.len() > 0 && is_sign(s[0]) {
        1
    } else {
        0
    }
}

/// The text is a number in decimal notation as a floating-point parser
/// takes it: a sign or none, then either digits with at most one point and
/// an exponent or none, or one of the words `inf`, `infinity` and `nan`.
/// Nothing stands before or behind it, not even white space.
pub open spec fn is_decimal(s: Seq<char>) -> bool {
    let from = behind_sign(s);
    ||| is_number(s, from)
    ||| spells(s, from, "inf"@)
    ||| spells(s, from, "infinity"@)
    ||| spells(s, from, "nan"@)
}

/// The bytes are the characters of a text of ASCII characters.
pub open spec fn spelled_by(bytes: Seq<u8>, s: Seq<char>) -> bool {
    &&& is_ascii_chars(s)
    &&& bytes.len() == s.len()
    &&& forall|i: int| 0 <= i < s.len() ==> #[trigger] bytes[i] == s[i] as u8
}

/// A decimal is written in ASCII characters alone.
pub proof fn lemma_decimal_is_ascii(s: Seq<char>)
    requires
        is_decimal(s),
    ensures
        is_ascii_chars(s),
{
    reveal_strlit("inf");
    reveal_strlit("infinity");
    reveal_strlit("nan");
    let from = behind_sign(s);
    assert forall|i: int| 0 <= i < s.len() implies '\0' <= #[trigger] s[i] <= '\u{7f}' by {
        if i < from {
        } else if is_number(s, from) {
            let end = choose|end: int|
                from <= end <= s.len() && #[trigger] is_mantissa(s, from, end) && (end == s.len()
                    || is_exponent(s, end));
            if i < end {
                if digits_in(s, from, end) {
                } else {
                    let point = choose|point: int|
                        from <= point < end && end - from >= 2 && #[trigger] s[point] == '.'
                            && digits_in(s, from, point) && digits_in(s, point + 1, end);
                    if i < point {
                    } else if i > point {
                    }
                }
            } else {
                if i >= exponent_digits(s, end) {
                }
            }
        } else {
            let word = if spells(s, from, "inf"@) {
                "inf"@
            } else if spells(s, from, "infinity"@) {
                "infinity"@
            } else {
                "nan"@
            };
            assert(spells(s, from, word));
            assert(lower(s[i]) == word[i - from]);
        }
    }
}

/// The end of the digits that begin at `from`.
fn skip_digits(bytes: &[u8], from: usize, Ghost(s): Ghost<Seq<char>>) -> (end: usize)
    requires
        spelled_by(bytes@, s),
        from <= bytes.len(),
    ensures
        from <= end <= bytes.len(),
        digits_in(s, from as int, end as int),
        end < bytes.len() ==> !is_digit(s[end as int]),
{
    let mut end = from;
    while end < bytes.len() && DIGIT_ZERO <= bytes[end] && bytes[end] <= DIGIT_NINE
        invariant
            spelled_by(bytes@, s),
            from <= end <= bytes.len(),
            digits_in(s, from as int, end as int),
        decreases bytes.len() - end,
    {
        assert(bytes@[end as int] == s[end as int] as u8);
        end += 1;
    }
    assert(end < bytes.len() ==> bytes@[end as int] == s[end as int] as u8);
    end
}

/// Whether the word stands from `from` to the end, in letters of either
/// case. The word is given in lower-case letters.
fn spells_word(bytes: &[u8], from: usize, word: &str, Ghost(s): Ghost<Seq<char>>) -> (same: bool)
    requires
        spelled_by(bytes@, s),
        from <= bytes.len(),
        is_ascii_chars(word@),
        forall|i: int| 0 <= i < word@.len() ==> 'a' <= #[trigger] word@[i] <= 'z',
    ensures
        same == spells(s, from as int, word@),
{
    let letters = word.as_bytes();
    proof {
        is_ascii_spec_bytes(word);
    }
    if bytes.len() - from != letters.len() {
        return false;
    }
    let mut i: usize = from;
    while i < bytes.len()
        invariant
            spelled_by(bytes@, s),
            spelled_by(letters@, word@),
            forall|i: int| 0 <= i < word@.len() ==> 'a' <= #[trigger] word@[i] <= 'z',
            from <= i <= bytes.len(),
            bytes.len() - from == letters.len(),
            forall|k: int| from <= k < i ==> lower(#[trigger] s[k]) == word@[k - from],
        decreases bytes.len() - i,
    {
        let byte = bytes[i];
        let lowered = if CAPITAL_A <= byte && byte <= CAPITAL_Z {
            byte + CASE_GAP
        } else {
            byte
        };
        assert(bytes@[i as int] == s[i as int] as u8);
        assert(letters@[i - from] == word@[i - from] as u8);
        assert(lowered == lower(s[i as int]) as u8);
        if lowered != letters[i - from] {
            assert(lower(s[i as int]) != word@[i - from]);
            return false;
        }
        i += 1;
    }
    true
}

/// Whether a text is a number in decimal notation.
pub fn is_decimal_text(text: &str) -> (ok: bool)
    ensures
        ok == is_decimal(text@),
{
    let ghost s = text@;
    if !text.is_ascii() {
        proof {
            if is_decimal(s) {
                lemma_decimal_is_ascii(s);
            }
        }
        return false;
    }
    let bytes = text.as_bytes();
    proof {
        is_ascii_spec_bytes(text);
        reveal_strlit("inf");
        reveal_strlit("infinity");
        reveal_strlit("nan");
    }
    assert(spelled_by(bytes@, s));
    let n = bytes.len();
    let from: usize = if n > 0 && (bytes[0] == PLUS || bytes[0] == MINUS) {
        1
    } else {
        0
    };
    assert(from == behind_sign(s)) by {
        if n > 0 {
            assert(bytes@[0] == s[0] as u8);
        }
    }
    if spells_word(bytes, from, "inf", Ghost(s)) || spells_word(bytes, from, "infinity", Ghost(s))
        || spells_word(bytes, from, "nan", Ghost(s)) {
        return true;
    }
    let whole = skip_digits(bytes, from, Ghost(s));
    let pointed = whole < n && bytes[whole] == POINT;
    let end = if pointed {
        skip_digits(bytes, whole + 1, Ghost(s))
    } else {
        whole
    };
    let digits = if pointed {
        end - from - 1
    } else {
        end - from
    };
    assert(whole < n ==> bytes@[whole as int] == s[whole as int] as u8);
    assert(end < n ==> bytes@[end as int] == s[end as int] as u8);
    proof {
        lemma_mantissa_ends(s, from as int, whole as int, end as int);
    }
    if digits == 0 {
        return false;
    }
    assert(is_mantissa(s, from as int, end as int)) by {
        if pointed {
            assert(s[whole as int] == '.');
        }
    }
    if end == n {
        return true;
    }
    if bytes[end] != SMALL_E && bytes[end] != CAPITAL_E {
        return false;
    }
    let first = if end + 1 < n && (bytes[end + 1] == PLUS || bytes[end + 1] == MINUS) {
        end + 2
    } else {
        end + 1
    };
    assert(first == exponent_digits(s, end as int)) by {
        if end + 1 < n {
            assert(bytes@[end + 1] == s[end + 1] as u8);
        }
    }
    if first >= n {
        return false;
    }
    let last = skip_digits(bytes, first, Ghost(s));
    last == n
}

/// The scan finds the one place where a mantissa that begins at `from` can
/// end: `whole` is the end of the digits from `from`, and `end` the end of
/// the digits behind a point at `whole`, or `whole` itself where no point
/// stands there.
proof fn lemma_mantissa_ends(s: Seq<char>, from: int, whole: int, end: int)
    requires
        0 <= from <= whole <= end <= s.len(),
        digits_in(s, from, whole),
        whole < s.len() ==> !is_digit(s[whole]),
        whole < s.len() && s[whole] == '.' ==> {
            &&& whole + 1 <= end
            &&& digits_in(s, whole + 1, end)
            &&& end < s.len() ==> !is_digit(s[end])
        },
        !(whole < s.len() && s[whole] == '.') ==> end == whole,
    ensures
        forall|other: int|
            from <= other <= s.len() && #[trigger] is_mantissa(s, from, other) && (other == s.len()
                || is_exponent(s, other)) ==> other == end,
        is_mantissa(s, from, end) <==> (if whole < s.len() && s[whole] == '.' {
            end - from >= 2
        } else {
            end > from
        }),
{
    assert forall|other: int|
        from <= other <= s.len() && #[trigger] is_mantissa(s, from, other) && (other == s.len()
            || is_exponent(s, other)) implies other == end by {
        if from < other && digits_in(s, from, other) {
            if other < whole {
                assert(is_digit(s[other]));
            } else if other > whole {
                assert(is_digit(s[whole]));
            }
        } else {
            let point = choose|point: int|
                from <= point < other && other - from >= 2 && #[trigger] s[point] == '.'
                    && digits_in(s, from, point) && digits_in(s, point + 1, other);
            if point < whole {
                assert(is_digit(s[point]));
            } else if point > whole {
                assert(is_digit(s[whole]));
            }
            if other < end {
                assert(is_digit(s[other]));
            } else if other > end {
                assert(is_digit(s[end]));
            }
        }
    }
    if is_mantissa(s, from, end) {
        if from < end && digits_in(s, from, end) {
            if whole < end {
                assert(is_digit(s[whole]));
            }
        } else {
            let point = choose|point: int|
                from <= point < end && end - from >= 2 && #[trigger] s[point] == '.' && digits_in(
                    s,
                    from,
                    point,
                ) && digits_in(s, point + 1, end);
            if point < whole {
                assert(is_digit(s[point]));
            } else if point > whole {
                assert(is_digit(s[whole]));
            }
        }
    }
    if whole < s.len() && s[whole] == '.' {
        if end - from >= 2 {
            assert(s[whole] == '.');
            assert(is_mantissa(s, from, end));
        }
    }
}

/// A number in decimal notation, kept as the text that was read.
///
/// Every value is a text that `is_decimal` takes, so a floating-point
/// parser reads every value as a number. Two values are equal when their
/// texts are.
#[derive(Debug, PartialEq, Eq, Hash)]
pub struct Decimal {
    text: String,
}

impl Clone for Decimal {
    fn clone(&self) -> (copy: Self)
        ensures
            copy.deep_view() == self.deep_view(),
    {
        proof {
            use_type_invariant(self);
        }
        Decimal { text: self.text.clone() }
    }
}

impl DeepView for Decimal {
    type V = Seq<char>;

    closed spec fn deep_view(&self) -> Seq<char> {
        self.text@
    }
}

impl Decimal {
    #[verifier::type_invariant]
    spec fn is_a_number(self) -> bool {
        is_decimal(self.text@)
    }

    /// The number that the text writes, if it writes one.
    pub fn new(text: String) -> (number: Option<Decimal>)
        ensures
            number.is_some() == is_decimal(text@),
            number matches Some(n) ==> n.deep_view() == text@,
    {
        if is_decimal_text(text.as_str()) {
            Some(Decimal { text })
        } else {
            None
        }
    }

    /// The text of the number.
    pub fn as_str(&self) -> (text: &str)
        ensures
            text@ == self.deep_view(),
            is_decimal(text@),
    {
        proof {
            use_type_invariant(self);
        }
        self.text.as_str()
    }
}

} // verus!
