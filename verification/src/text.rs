//! Text and numerals: the small operations on strings that the rest of the
//! library is built from.
use vstd::arithmetic::mul::*;
use vstd::arithmetic::power::*;
use vstd::prelude::*;
use vstd::utf8::*;

verus! {

/// What each string of a list holds.
pub open spec fn texts_of(strings: Seq<String>) -> Seq<Seq<char>> {
    Seq::new(strings.len(), |i: int| strings[i]@)
}

/// What an optional string holds.
pub open spec fn text_of(string: Option<String>) -> Option<Seq<char>> {
    match string {
        Some(s) => Some(s@),
        None => None,
    }
}

/// The digit that stands for `d`.
pub open spec fn digit(d: nat) -> char {
    ('0' as u32 + d) as char
}

/// The decimal numeral of `n`, without leading zeros.
pub open spec fn decimal(n: nat) -> Seq<char>
    decreases n,
{
    if n < 10 {
        seq![digit(n)]
    } else {
        decimal(n / 10).push(digit(n % 10))
    }
}

/// Whether `c` is one of the ten decimal digits.
pub open spec fn is_digit(c: char) -> bool {
    '0' <= c <= '9'
}

/// The number that a run of decimal digits stands for.
pub open spec fn digits_value(digits: Seq<char>) -> nat
    decreases digits.len(),
{
    if digits.len() == 0 {
        0
    } else {
        (digits_value(digits.drop_last()) * 10 + (digits.last() as u32 - '0' as u32)) as nat
    }
}

/// Whether `s` is made of decimal digits only.
pub open spec fn all_digits(s: Seq<char>) -> bool {
    forall|i: int| 0 <= i < s.len() ==> is_digit(#[trigger] s[i])
}

/// The number that `s` is a numeral of: at least one decimal digit and
/// nothing else, but for one leading plus sign.
pub open spec fn numeral(s: Seq<char>) -> Option<nat> {
    let digits = if s.len() > 0 && s[0] == '+' {
        s.skip(1)
    } else {
        s
    };
    if digits.len() > 0 && all_digits(digits) {
        Some(digits_value(digits))
    } else {
        None
    }
}

/// Whether `c` has the Unicode property `White_Space`.
pub open spec fn white_space(c: char) -> bool {
    ||| '\u{9}' <= c <= '\u{D}'
    ||| c == ' '
    ||| c == '\u{85}'
    ||| c == '\u{A0}'
    ||| c == '\u{1680}'
    ||| '\u{2000}' <= c <= '\u{200A}'
    ||| c == '\u{2028}'
    ||| c == '\u{2029}'
    ||| c == '\u{202F}'
    ||| c == '\u{205F}'
    ||| c == '\u{3000}'
}

/// `s` without the white space at its end.
pub open spec fn trimmed_end(s: Seq<char>) -> Seq<char>
    decreases s.len(),
{
    if s.len() > 0 && white_space(s.last()) {
        trimmed_end(s.drop_last())
    } else {
        s
    }
}

/// `c` with an ASCII small letter replaced by its capital.
pub open spec fn ascii_capital(c: char) -> char {
    if 'a' <= c <= 'z' {
        (c as u32 - 32) as char
    } else {
        c
    }
}

/// Whether every character of `s` is ASCII.
pub open spec fn all_ascii(s: Seq<char>) -> bool {
    forall|i: int| 0 <= i < s.len() ==> (#[trigger] s[i]) as u32 <= 127
}

/// `s` in Unicode upper case.
pub uninterp spec fn upper_case(s: Seq<char>) -> Seq<char>;

/// `s` between double quotes, escaped as a Rust string literal would be.
pub uninterp spec fn quoted(s: Seq<char>) -> Seq<char>;

/// The account of why `s` is not the numeral of a number of `bits` bits.
pub uninterp spec fn parse_fault(s: Seq<char>, bits: u32) -> Seq<char>;

/// The account of why `bytes` is not UTF-8.
pub uninterp spec fn utf8_fault(bytes: Seq<u8>) -> Seq<char>;

/// Calls `str::to_uppercase`. Trusted: the result depends on the text alone,
/// and for a text that is all ASCII it is the text with each small letter
/// replaced by its capital.
#[verifier::external_body]
pub(crate) fn to_upper_case(s: &str) -> (upper: String)
    ensures
        upper@ == upper_case(s@),
        all_ascii(s@) ==> upper@ == s@.map_values(|c: char| ascii_capital(c)),
{
    s.to_uppercase()
}

/// Calls `str::parse` for `usize`. Trusted: it succeeds, with the numeral's
/// value, exactly on the numerals of numbers that fit in a `usize`; the account
/// that a failure gives depends on the text and on the width of `usize` alone.
#[verifier::external_body]
pub(crate) fn parse_usize(s: &str) -> (parsed: Result<usize, String>)
    ensures
        match parsed {
            Ok(n) => numeral(s@) == Some(n as nat),
            Err(e) => (numeral(s@) is None || numeral(s@)->0 > usize::MAX) && e@ == parse_fault(
                s@,
                usize::BITS,
            ),
        },
{
    s.parse::<usize>().map_err(|e| e.to_string())
}

/// Calls `String::from_utf8`. Trusted: it succeeds, with the decoded text,
/// exactly on valid UTF-8; the account that a failure gives depends on the
/// bytes alone.
#[verifier::external_body]
pub(crate) fn string_from_utf8(bytes: Vec<u8>) -> (decoded: Result<String, String>)
    ensures
        match decoded {
            Ok(s) => valid_utf8(bytes@) && s@ == decode_utf8(bytes@),
            Err(e) => !valid_utf8(bytes@) && e@ == utf8_fault(bytes@),
        },
{
    String::from_utf8(bytes).map_err(|e| e.to_string())
}

/// Formats a text with `{:?}`. Trusted: the result depends on the text alone.
#[verifier::external_body]
pub(crate) fn quote(s: &str) -> (q: String)
    ensures
        q@ == quoted(s@),
{
    format!("{:?}", s)
}

/// Whether two texts are the same text.
pub fn same_text(a: &str, b: &str) -> (same: bool)
    ensures
        same == (a@ == b@),
{
    a.to_owned() == b.to_owned()
}

/// Whether `c` occurs in `s`.
pub fn contains_char(s: &str, c: char) -> (found: bool)
    ensures
        found == s@.contains(c),
{
    let n: usize = s.unicode_len();
    let mut i: usize = 0;
    while i < n
        invariant
            i <= n,
            n == s@.len(),
            forall|j: int| 0 <= j < i ==> s@[j] != c,
        decreases n - i,
    {
        if s.get_char(i) == c {
            assert(s@[i as int] == c);
            return true;
        }
        i += 1;
    }
    false
}

/// Whether `c` has the Unicode property `White_Space`.
fn is_white_space(c: char) -> (is: bool)
    ensures
        is == white_space(c),
{
    '\u{9}' <= c && c <= '\u{D}' || c == ' ' || c == '\u{85}' || c == '\u{A0}' || c == '\u{1680}'
        || '\u{2000}' <= c && c <= '\u{200A}' || c == '\u{2028}' || c == '\u{2029}' || c
        == '\u{202F}' || c == '\u{205F}' || c == '\u{3000}'
}

/// White space behind a text, and no more of it at the text's own end, is what
/// is trimmed.
proof fn trimming_leaves_the_text(s: Seq<char>, end: int)
    requires
        0 <= end <= s.len(),
        end > 0 ==> !white_space(s[end - 1]),
        forall|i: int| end <= i < s.len() ==> white_space(#[trigger] s[i]),
    ensures
        trimmed_end(s) == s.take(end),
    decreases s.len(),
{
    if end < s.len() {
        assert(white_space(s[s.len() - 1]));
        trimming_leaves_the_text(s.drop_last(), end);
        assert(s.drop_last().take(end) =~= s.take(end));
    } else {
        assert(s.take(end) =~= s);
    }
}

/// `s` without the white space at its end.
pub fn trim_end(s: &str) -> (trimmed: &str)
    ensures
        trimmed@ == trimmed_end(s@),
        trimmed@.len() <= s@.len(),
        forall|i: int| 0 <= i < trimmed@.len() ==> trimmed@[i] == #[trigger] s@[i],
        forall|i: int| trimmed@.len() <= i < s@.len() ==> white_space(#[trigger] s@[i]),
        trimmed@.len() > 0 ==> !white_space(trimmed@.last()),
{
    let n: usize = s.unicode_len();
    let mut i: usize = 0;
    let mut end: usize = 0;
    for c in chars: s.chars()
        invariant
            chars.seq() == s@,
            i == chars.index(),
            n == s@.len(),
            end <= i <= n,
            end > 0 ==> !white_space(s@[end - 1]),
            forall|j: int| end <= j < i ==> white_space(#[trigger] s@[j]),
    {
        i += 1;
        if !is_white_space(c) {
            end = i;
        }
    }
    proof {
        trimming_leaves_the_text(s@, end as int);
        assert(s@.subrange(0, end as int) =~= s@.take(end as int));
    }
    s.substring_char(0, end)
}

/// Whether `s` begins with `c`.
pub fn starts_with_char(s: &str, c: char) -> (starts: bool)
    ensures
        starts == (s@.len() > 0 && s@[0] == c),
{
    !s.is_empty() && s.get_char(0) == c
}

/// Whether `s` begins with `prefix`.
pub fn starts_with(s: &str, prefix: &str) -> (starts: bool)
    ensures
        starts == prefix@.is_prefix_of(s@),
{
    let n: usize = prefix.unicode_len();
    if s.unicode_len() < n {
        return false;
    }
    let mut i: usize = 0;
    while i < n
        invariant
            i <= n == prefix@.len() <= s@.len(),
            forall|j: int| 0 <= j < i ==> s@[j] == prefix@[j],
        decreases n - i,
    {
        if s.get_char(i) != prefix.get_char(i) {
            assert(s@.subrange(0, n as int)[i as int] != prefix@[i as int]);
            return false;
        }
        i += 1;
    }
    assert(s@.subrange(0, n as int) =~= prefix@);
    true
}

/// The numeral of a single digit.
fn digit_text(d: u64) -> (text: &'static str)
    requires
        d < 10,
    ensures
        text@ == seq![digit(d as nat)],
{
    proof {
        reveal_strlit("0");
        reveal_strlit("1");
        reveal_strlit("2");
        reveal_strlit("3");
        reveal_strlit("4");
        reveal_strlit("5");
        reveal_strlit("6");
        reveal_strlit("7");
        reveal_strlit("8");
        reveal_strlit("9");
    }
    if d == 0 {
        "0"
    } else if d == 1 {
        "1"
    } else if d == 2 {
        "2"
    } else if d == 3 {
        "3"
    } else if d == 4 {
        "4"
    } else if d == 5 {
        "5"
    } else if d == 6 {
        "6"
    } else if d == 7 {
        "7"
    } else if d == 8 {
        "8"
    } else {
        "9"
    }
}

/// The decimal numeral of `n`.
pub fn decimal_text(n: u64) -> (text: String)
    ensures
        text@ == decimal(n as nat),
    decreases n,
{
    if n < 10 {
        digit_text(n).to_owned()
    } else {
        let mut text = decimal_text(n / 10);
        text.append(digit_text(n % 10));
        assert(text@ =~= decimal((n / 10) as nat).push(digit((n % 10) as nat)));
        text
    }
}

/// A copy of a list of strings.
pub fn copy_texts(texts: &[String]) -> (copy: Vec<String>)
    ensures
        copy@ == texts@,
{
    let mut copy: Vec<String> = Vec::new();
    let mut i: usize = 0;
    while i < texts.len()
        invariant
            i <= texts.len(),
            copy@ == texts@.take(i as int),
        decreases texts.len() - i,
    {
        copy.push(texts[i].clone());
        assert(texts@.take(i + 1) =~= texts@.take(i as int).push(texts@[i as int]));
        i += 1;
    }
    assert(texts@.take(texts@.len() as int) =~= texts@);
    copy
}

/// `decimal(n)` is a numeral of `n`, made of digits only.
pub proof fn decimal_is_a_numeral(n: nat)
    ensures
        decimal(n).len() > 0,
        forall|i: int| 0 <= i < decimal(n).len() ==> is_digit(#[trigger] decimal(n)[i]),
        digits_value(decimal(n)) == n,
        numeral(decimal(n)) == Some(n),
    decreases n,
{
    if n < 10 {
        assert(decimal(n).drop_last() =~= Seq::<char>::empty());
        assert(digits_value(Seq::<char>::empty()) == 0);
        assert(is_digit(digit(n)));
        assert(digit(n) as u32 - '0' as u32 == n);
    } else {
        let head = decimal(n / 10);
        decimal_is_a_numeral(n / 10);
        assert(decimal(n).drop_last() =~= head);
        assert(digit(n % 10) as u32 - '0' as u32 == n % 10);
        assert forall|i: int| 0 <= i < decimal(n).len() implies is_digit(#[trigger] decimal(n)[i]) by {
            if i < head.len() {
                assert(decimal(n)[i] == head[i]);
            }
        }
    }
    assert(is_digit(decimal(n)[0]));
}

/// The numeral of a number other than zero does not begin with a zero.
pub proof fn decimal_has_no_leading_zero(n: nat)
    requires
        n > 0,
    ensures
        decimal(n)[0] != '0',
        decimal(0)[0] == '0',
    decreases n,
{
    if n >= 10 {
        decimal_has_no_leading_zero(n / 10);
        decimal_is_a_numeral(n / 10);
    }
}

/// Digits that do not begin with a zero stand for a number other than zero.
pub proof fn leading_digit_counts(digits: Seq<char>)
    requires
        digits.len() > 0,
        digits[0] != '0',
        forall|i: int| 0 <= i < digits.len() ==> is_digit(#[trigger] digits[i]),
    ensures
        digits_value(digits) > 0,
    decreases digits.len(),
{
    let before = digits.drop_last();
    assert(is_digit(digits[digits.len() - 1]));
    if before.len() > 0 {
        assert forall|i: int| 0 <= i < before.len() implies is_digit(#[trigger] before[i]) by {
            assert(before[i] == digits[i]);
        }
        leading_digit_counts(before);
    } else {
        assert(digits_value(before) == 0);
    }
}

/// A list of strings holds what each of them holds, in the same order.
pub proof fn texts_stand_in_their_order(strings: Seq<String>)
    ensures
        texts_of(strings).len() == strings.len(),
        forall|i: int| 0 <= i < strings.len() ==> #[trigger] texts_of(strings)[i] == strings[i]@,
{
}

/// An optional string holds a text exactly where there is a string.
pub proof fn an_optional_text_is_that_of_its_string(string: Option<String>)
    ensures
        text_of(string) is Some <==> string is Some,
        string is Some ==> text_of(string)->0 == string->0@,
{
}

/// The numerals of the first ten numbers are the ten digits, in order; and a
/// digit behind the numeral of a number other than zero makes the numeral of
/// ten times the number and the digit.
pub proof fn a_numeral_grows_by_its_last_digit(n: nat, d: nat)
    requires
        d < 10,
    ensures
        decimal(d) == seq!["0123456789"@[d as int]],
        n > 0 ==> decimal(10 * n + d) == decimal(n) + decimal(d),
{
    reveal_strlit("0123456789");
    assert(decimal(d) =~= seq!["0123456789"@[d as int]]);
    if n > 0 {
        let m = 10 * n + d;
        assert(m / 10 == n && m % 10 == d);
        assert(decimal(m) =~= decimal(n) + decimal(d));
    }
}

/// Digits count by their place: digits in front of others stand for as many
/// powers of ten more as there are others.
pub proof fn digits_count_by_their_place(head: Seq<char>, tail: Seq<char>)
    requires
        forall|i: int| 0 <= i < head.len() ==> '0' <= #[trigger] head[i] <= '9',
        forall|i: int| 0 <= i < tail.len() ==> '0' <= #[trigger] tail[i] <= '9',
    ensures
        digits_value(head + tail) == digits_value(head) * pow(10, tail.len()) + digits_value(tail),
    decreases tail.len(),
{
    if tail.len() == 0 {
        lemma_pow0(10);
        assert(head + tail =~= head);
    } else {
        let front = tail.drop_last();
        assert forall|i: int| 0 <= i < front.len() implies '0' <= #[trigger] front[i] <= '9' by {
            assert(front[i] == tail[i]);
        }
        assert('0' <= tail[tail.len() - 1] <= '9');
        digits_count_by_their_place(head, front);
        assert((head + tail).drop_last() =~= head + front);
        lemma_pow_adds(10, front.len(), 1);
        lemma_pow1(10);
        let h = digits_value(head) as int;
        let p = pow(10, front.len());
        lemma_mul_is_associative(h, p, 10);
        lemma_mul_is_distributive_add_other_way(10, h * p, digits_value(front) as int);
    }
}

/// A numeral is made of digits, one at least, behind one plus sign at most;
/// and the plus sign counts for nothing.
pub proof fn a_numeral_is_made_of_digits(s: Seq<char>)
    ensures
        s.len() > 0 && (forall|i: int| 0 <= i < s.len() ==> '0' <= #[trigger] s[i] <= '9') ==> {
            &&& numeral(s) == Some(digits_value(s))
            &&& numeral(seq!['+'] + s) == Some(digits_value(s))
        },
        numeral(s) is Some ==> {
            &&& s.len() > 0
            &&& '0' <= s.last() <= '9'
            &&& s[0] == '+' || '0' <= s[0] <= '9'
            &&& forall|i: int| 0 < i < s.len() ==> '0' <= #[trigger] s[i] <= '9'
        },
{
    let signed = seq!['+'] + s;
    assert(signed.skip(1) =~= s);
    if s.len() > 0 && (forall|i: int| 0 <= i < s.len() ==> '0' <= #[trigger] s[i] <= '9') {
        assert('0' <= s[0] <= '9');
        assert(all_digits(s));
    }
    if numeral(s) is Some {
        let digits = if s[0] == '+' {
            s.skip(1)
        } else {
            s
        };
        assert(all_digits(digits));
        assert(is_digit(digits[digits.len() - 1]));
        assert(digits.last() == s.last());
        assert(is_digit(digits[0]));
        assert forall|i: int| 0 < i < s.len() implies '0' <= #[trigger] s[i] <= '9' by {
            if s[0] == '+' {
                assert(digits[i - 1] == s[i]);
                assert(is_digit(digits[i - 1]));
            } else {
                assert(is_digit(digits[i]));
            }
        }
    }
}

/// White space is made of these characters and no others: the controls from
/// the tabulation to the carriage return, the blanks, and the separators of
/// lines and paragraphs. No letter and no ideograph is among them.
pub proof fn white_space_is_no_letter(c: char)
    ensures
        white_space(c) <==> seq![
            0x9u32, 0xAu32, 0xBu32, 0xCu32, 0xDu32, 0x20u32, 0x85u32, 0xA0u32, 0x1680u32,
            0x2000u32, 0x2001u32, 0x2002u32, 0x2003u32, 0x2004u32, 0x2005u32, 0x2006u32,
            0x2007u32, 0x2008u32, 0x2009u32, 0x200Au32, 0x2028u32, 0x2029u32, 0x202Fu32,
            0x205Fu32, 0x3000u32,
        ].contains(c as u32),
        white_space(c) ==> c as u32 <= 0x3000,
{
    let all = seq![
        0x9u32, 0xAu32, 0xBu32, 0xCu32, 0xDu32, 0x20u32, 0x85u32, 0xA0u32, 0x1680u32,
        0x2000u32, 0x2001u32, 0x2002u32, 0x2003u32, 0x2004u32, 0x2005u32, 0x2006u32,
        0x2007u32, 0x2008u32, 0x2009u32, 0x200Au32, 0x2028u32, 0x2029u32, 0x202Fu32,
        0x205Fu32, 0x3000u32,
    ];
    let n = c as u32;
    if white_space(c) {
        if 0x9 <= n <= 0xD {
            assert(all[n as int - 0x9] == n);
        } else if 0x2000 <= n <= 0x200A {
            assert(all[n as int - 0x2000 + 9] == n);
        } else {
            assert(all[5] == 0x20 && all[6] == 0x85 && all[7] == 0xA0 && all[8] == 0x1680);
            assert(all[20] == 0x2028 && all[21] == 0x2029 && all[22] == 0x202F);
            assert(all[23] == 0x205F && all[24] == 0x3000);
        }
    }
}

/// Trimming takes white space away, from the end, all of it, and nothing else:
/// what is left begins the text, what is gone is white space, and what is left
/// does not end in any.
pub proof fn only_white_space_is_trimmed(s: Seq<char>)
    ensures
        trimmed_end(s).len() <= s.len(),
        trimmed_end(s) == s.take(trimmed_end(s).len() as int),
        forall|i: int| trimmed_end(s).len() <= i < s.len() ==> white_space(#[trigger] s[i]),
        trimmed_end(s).len() > 0 ==> !white_space(trimmed_end(s).last()),
    decreases s.len(),
{
    if s.len() > 0 && white_space(s.last()) {
        let front = s.drop_last();
        only_white_space_is_trimmed(front);
        assert(front.take(trimmed_end(s).len() as int) =~= s.take(trimmed_end(s).len() as int));
        assert forall|i: int| trimmed_end(s).len() <= i < s.len() implies white_space(
            #[trigger] s[i],
        ) by {
            if i < front.len() {
                assert(front[i] == s[i]);
            }
        }
    } else {
        assert(s.take(s.len() as int) =~= s);
    }
}

/// White space behind a text makes no difference to what is left of it; and a
/// text that does not end in any is left whole.
pub proof fn white_space_at_the_end_counts_for_nothing(s: Seq<char>, blanks: Seq<char>)
    requires
        forall|i: int| 0 <= i < blanks.len() ==> white_space(#[trigger] blanks[i]),
    ensures
        trimmed_end(s + blanks) == trimmed_end(s),
        s.len() > 0 && !white_space(s.last()) ==> trimmed_end(s + blanks) == s,
    decreases blanks.len(),
{
    if blanks.len() == 0 {
        assert(s + blanks =~= s);
    } else {
        let front = blanks.drop_last();
        assert forall|i: int| 0 <= i < front.len() implies white_space(#[trigger] front[i]) by {
            assert(front[i] == blanks[i]);
        }
        assert(white_space(blanks[blanks.len() - 1]));
        assert((s + blanks).drop_last() =~= s + front);
        white_space_at_the_end_counts_for_nothing(s, front);
    }
}

/// The capital of an ASCII small letter is the letter at the same place of the
/// alphabet; every other character is its own.
pub proof fn small_letters_have_capitals(c: char, i: int)
    ensures
        0 <= i < 26 ==> ascii_capital("abcdefghijklmnopqrstuvwxyz"@[i])
            == "ABCDEFGHIJKLMNOPQRSTUVWXYZ"@[i],
        !("abcdefghijklmnopqrstuvwxyz"@.contains(c)) ==> ascii_capital(c) == c,
        all_ascii(seq![c]) <==> (c as u32) < 128,
{
    reveal_strlit("abcdefghijklmnopqrstuvwxyz");
    reveal_strlit("ABCDEFGHIJKLMNOPQRSTUVWXYZ");
    let small = "abcdefghijklmnopqrstuvwxyz"@;
    if 'a' <= c <= 'z' {
        let k = c as u32 - 'a' as u32;
        assert(small[k] == c);
    }
    assert(seq![c][0] == c);
}

} // verus!
