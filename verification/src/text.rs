//! Plain text: decimal numerals, white space and splitting.
//!
//! A text is viewed as its sequence of characters.

use vstd::prelude::*;
use vstd::string::*;

verus! {

/// The texts of a sequence of string slices.
pub open spec fn texts_of(s: Seq<&str>) -> Seq<Seq<char>> {
    Seq::new(s.len(), |i: int| s[i]@)
}

/// The texts of a sequence of strings.
pub open spec fn strings_of(s: Seq<String>) -> Seq<Seq<char>> {
    Seq::new(s.len(), |i: int| s[i]@)
}

/// The texts in order, with a separator between them.
pub open spec fn joined_with(texts: Seq<Seq<char>>, separator: Seq<char>) -> Seq<char>
    decreases texts.len(),
{
    if texts.len() == 0 {
        Seq::empty()
    } else if texts.len() == 1 {
        texts[0]
    } else {
        joined_with(texts.drop_last(), separator) + separator + texts.last()
    }
}

/// The character of the decimal digit `d`.
pub open spec fn digit_char(d: nat) -> char {
    (48 + d) as char
}

/// The decimal numeral of `n`, without leading zeros.
pub open spec fn decimal_text(n: nat) -> Seq<char>
    decreases n,
{
    if n < 10 {
        seq![digit_char(n)]
    } else {
        decimal_text(n / 10).push(digit_char(n % 10))
    }
}

/// Whether `c` is one of `0` to `9`.
pub open spec fn is_digit(c: char) -> bool {
    '0' <= c && c <= '9'
}

/// The number that a sequence of digits stands for.
pub open spec fn numeral_value(digits: Seq<char>) -> nat
    decreases digits.len(),
{
    if digits.len() == 0 {
        0
    } else {
        numeral_value(digits.drop_last()) * 10 + ((digits.last() as nat) - 48) as nat
    }
}

/// The text without a leading plus sign.
pub open spec fn without_plus(s: Seq<char>) -> Seq<char> {
    if s.len() > 0 && s[0] == '+' {
        s.subrange(1, s.len() as int)
    } else {
        s
    }
}

/// What a text reads as where a whole number of at most `max` is expected: an
/// optional plus sign, then digits and nothing else.
pub open spec fn whole_number(s: Seq<char>, max: nat) -> Option<nat> {
    let digits = without_plus(s);
    if digits.len() > 0 && (forall|i: int| 0 <= i < digits.len() ==> is_digit(#[trigger] digits[i]))
        && numeral_value(digits) <= max {
        Some(numeral_value(digits))
    } else {
        None
    }
}

/// The characters with the Unicode property White_Space.
pub open spec fn is_white_space(c: char) -> bool {
    let n = c as int;
    ||| 0x9 <= n <= 0xD
    ||| n == 0x20
    ||| n == 0x85
    ||| n == 0xA0
    ||| n == 0x1680
    ||| 0x2000 <= n <= 0x200A
    ||| n == 0x2028
    ||| n == 0x2029
    ||| n == 0x202F
    ||| n == 0x205F
    ||| n == 0x3000
}

/// The text without its leading white space.
pub open spec fn trimmed_start(s: Seq<char>) -> Seq<char>
    decreases s.len(),
{
    if s.len() > 0 && is_white_space(s[0]) {
        trimmed_start(s.subrange(1, s.len() as int))
    } else {
        s
    }
}

/// The text without its trailing white space.
pub open spec fn trimmed_end(s: Seq<char>) -> Seq<char>
    decreases s.len(),
{
    if s.len() > 0 && is_white_space(s.last()) {
        trimmed_end(s.drop_last())
    } else {
        s
    }
}

/// The text without white space at either end.
pub open spec fn trimmed(s: Seq<char>) -> Seq<char> {
    trimmed_end(trimmed_start(s))
}

/// Calls `str::trim`. It is taken to strip exactly the characters with the
/// Unicode property White_Space from both ends.
#[verifier::external_body]
pub(crate) fn trim(s: &str) -> (r: &str)
    ensures
        r@ == trimmed(s@),
{
    s.trim()
}

/// The characters of a text, in order.
pub fn chars_of(s: &str) -> (r: Vec<char>)
    ensures
        r@ == s@,
{
    let mut r: Vec<char> = Vec::new();
    for c in it: s.chars()
        invariant
            r@ == it.seq().take(it.index() as int),
            it.seq() == s@,
    {
        r.push(c);
        assert(it.seq().take(it.index() + 1) =~= it.seq().take(it.index() as int).push(c));
    }
    assert(r@ =~= s@);
    r
}

/// Whether two texts are the same.
pub fn same_text(a: &str, b: &str) -> (r: bool)
    ensures
        r == (a@ == b@),
{
    a.to_owned() == b.to_owned()
}

fn digit_text(d: u64) -> (r: &'static str)
    requires
        d < 10,
    ensures
        r@ == seq![digit_char(d as nat)],
{
    proof {
        reveal_strlit("0");
        reveal_strlit("1");
        reveal_strlit("2");
        reveal_strlit("3");
        reveal_strlit("4");
        reveal_strlit("5");
        reveal_strlit("6");
        reveal_strlit("7");
        reveal_strlit("8");
        reveal_strlit("9");
    }
    let r = match d {
        0 => "0",
        1 => "1",
        2 => "2",
        3 => "3",
        4 => "4",
        5 => "5",
        6 => "6",
        7 => "7",
        8 => "8",
        _ => "9",
    };
    assert(r@ =~= seq![digit_char(d as nat)]);
    r
}

/// The decimal numeral of `n`.
pub fn decimal(n: u64) -> (r: String)
    ensures
        r@ == decimal_text(n as nat),
    decreases n,
{
    if n < 10 {
        digit_text(n).to_owned()
    } else {
        let head = decimal(n / 10);
        let r = head.concat(digit_text(n % 10));
        assert(r@ =~= decimal_text(n as nat));
        r
    }
}

proof fn lemma_numeral_step(digits: Seq<char>, i: int)
    requires
        0 <= i < digits.len(),
    ensures
        numeral_value(digits.take(i + 1)) == numeral_value(digits.take(i)) * 10 + ((
        digits[i] as nat) - 48) as nat,
{
    assert(digits.take(i + 1).drop_last() =~= digits.take(i));
    assert(digits.take(i + 1).last() == digits[i]);
}

proof fn lemma_numeral_monotone(digits: Seq<char>, i: int)
    requires
        0 <= i <= digits.len(),
    ensures
        numeral_value(digits.take(i)) <= numeral_value(digits),
    decreases digits.len() - i,
{
    if i < digits.len() {
        lemma_numeral_step(digits, i);
        lemma_numeral_monotone(digits, i + 1);
    } else {
        assert(digits.take(i) =~= digits);
    }
}

/// Reads a text as a whole number of at most `max`.
pub fn parse_whole_number(s: &str, max: u32) -> (r: Option<u32>)
    ensures
        match r {
            Some(n) => whole_number(s@, max as nat) == Some(n as nat),
            None => whole_number(s@, max as nat) is None,
        },
{
    let chars: Vec<char> = chars_of(s);
    let start: usize = if chars.len() > 0 && chars[0] == '+' {
        1
    } else {
        0
    };
    let ghost digits = without_plus(s@);
    assert(digits =~= chars@.subrange(start as int, chars@.len() as int));
    if start == chars.len() {
        return None;
    }
    let mut value: u64 = 0;
    let mut i: usize = start;
    while i < chars.len()
        invariant
            start <= i <= chars.len(),
            start <= 1,
            digits == chars@.subrange(start as int, chars@.len() as int),
            digits == without_plus(s@),
            digits.len() > 0,
            value <= max,
            value == numeral_value(digits.take(i - start)),
            forall|j: int| 0 <= j < i - start ==> is_digit(#[trigger] digits[j]),
        decreases chars.len() - i,
    {
        let c = chars[i];
        assert(c == digits[i - start]);
        if !('0' <= c && c <= '9') {
            return None;
        }
        let d: u64 = (c as u32 - 48) as u64;
        proof {
            lemma_numeral_step(digits, i - start);
            lemma_numeral_monotone(digits, i - start + 1);
        }
        value = value * 10 + d;
        if value > max as u64 {
            return None;
        }
        i = i + 1;
    }
    assert(digits.take(digits.len() as int) =~= digits);
    Some(value as u32)
}

/// The texts in order, with a separator between them.
pub fn join(texts: &Vec<String>, separator: &str) -> (r: String)
    ensures
        r@ == joined_with(strings_of(texts@), separator@),
{
    let ghost all = strings_of(texts@);
    let mut r: String = String::new();
    let mut i: usize = 0;
    assert(all.take(0) =~= Seq::empty());
    while i < texts.len()
        invariant
            i <= texts@.len(),
            all == strings_of(texts@),
            r@ == joined_with(all.take(i as int), separator@),
        decreases texts@.len() - i,
    {
        assert(all.take(i + 1).drop_last() =~= all.take(i as int));
        assert(all.take(i + 1).last() == texts@[i as int]@);
        if i == 0 {
            r = texts[i].clone();
            assert(all.take(1)[0] == texts@[0]@);
        } else {
            r = r.concat(separator).concat(texts[i].as_str());
        }
        i = i + 1;
    }
    assert(all.take(all.len() as int) =~= all);
    r
}

proof fn lemma_digit_char(d: nat)
    requires
        d < 10,
    ensures
        is_digit(digit_char(d)),
        digit_char(d) as nat == 48 + d,
{
}

/// A numeral consists of digits, and reads back as its number.
pub proof fn lemma_decimal_text(n: nat)
    ensures
        decimal_text(n).len() > 0,
        forall|i: int| 0 <= i < decimal_text(n).len() ==> is_digit(#[trigger] decimal_text(n)[i]),
        numeral_value(decimal_text(n)) == n,
    decreases n,
{
    let s = decimal_text(n);
    if n < 10 {
        lemma_digit_char(n);
        assert(s.drop_last() =~= Seq::empty());
        assert(numeral_value(s.drop_last()) == 0);
        assert(s.last() == digit_char(n));
    } else {
        lemma_decimal_text(n / 10);
        lemma_digit_char(n % 10);
        let head = decimal_text(n / 10);
        assert(s.drop_last() =~= head);
        assert(s.last() == digit_char(n % 10));
        assert forall|i: int| 0 <= i < s.len() implies is_digit(#[trigger] s[i]) by {
            if i < head.len() {
                assert(s[i] == head[i]);
            }
        }
    }
}

/// A text without white space at its ends is not trimmed.
pub proof fn lemma_not_trimmed(s: Seq<char>)
    requires
        s.len() > 0,
        !is_white_space(s[0]),
        !is_white_space(s.last()),
    ensures
        trimmed(s) == s,
{
}

/// The numeral of a number reads as that number wherever it is not too large.
pub proof fn lemma_numeral_round_trip(n: nat, max: nat)
    requires
        n <= max,
    ensures
        trimmed(decimal_text(n)) == decimal_text(n),
        whole_number(decimal_text(n), max) == Some(n),
{
    lemma_decimal_text(n);
    let s = decimal_text(n);
    assert(is_digit(s[0]) && is_digit(s[s.len() - 1]));
    lemma_not_trimmed(s);
    assert(without_plus(s) == s);
}

/// The text without the given character at its end, however often it is there.
pub open spec fn without_trailing(s: Seq<char>, c: char) -> Seq<char>
    decreases s.len(),
{
    if s.len() > 0 && s.last() == c {
        without_trailing(s.drop_last(), c)
    } else {
        s
    }
}

/// How many characters are left without the given one at the end.
fn length_without_trailing(chars: &Vec<char>, end: usize, c: char) -> (r: usize)
    requires
        end <= chars@.len(),
    ensures
        r <= end,
        chars@.take(r as int) == without_trailing(chars@.take(end as int), c),
{
    let mut n: usize = end;
    while n > 0 && chars[n - 1] == c
        invariant
            n <= end <= chars@.len(),
            without_trailing(chars@.take(n as int), c) == without_trailing(
                chars@.take(end as int),
                c,
            ),
        decreases n,
    {
        assert(chars@.take(n as int).drop_last() =~= chars@.take(n - 1));
        n = n - 1;
    }
    n
}

/// A length with the zeros at its end left out, and the point with them where
/// nothing follows it. `fixed` is the length with six decimals.
pub fn format_grid_step(fixed: &str) -> (r: String)
    ensures
        r@ == without_trailing(without_trailing(fixed@, '0'), '.'),
{
    let chars = chars_of(fixed);
    let count: usize = chars.len();
    assert(chars@.take(count as int) =~= fixed@);
    let end: usize = length_without_trailing(&chars, count, '0');
    let end: usize = length_without_trailing(&chars, end, '.');
    let r = fixed.substring_char(0, end);
    assert(r@ =~= chars@.take(end as int));
    r.to_owned()
}

/// A number that was read is within its bound, and a greater bound reads it as the
/// same number; it is read exactly where the greater bound reads one within the
/// smaller.
pub proof fn lemma_whole_number_bound(s: Seq<char>, max: nat)
    ensures
        whole_number(s, max) matches Some(n) ==> n <= max,
        forall|greater: nat|
            greater >= max ==> (whole_number(s, max) is Some <==> (
            #[trigger] whole_number(s, greater) matches Some(n) && n <= max)),
        forall|greater: nat|
            greater >= max && whole_number(s, max) is Some ==> #[trigger] whole_number(s, greater)
                == whole_number(s, max),
{
}

/// A further digit makes ten times the number and that digit; any other character
/// makes a text that is no number.
pub proof fn lemma_whole_number_grows(s: Seq<char>, c: char, max: nat)
    requires
        whole_number(s, max) is Some,
    ensures
        is_digit(c) && whole_number(s, max)->0 * 10 + (c as int - '0' as int) <= max
            ==> whole_number(s.push(c), max) == Some(
            (whole_number(s, max)->0 * 10 + (c as int - '0' as int)) as nat,
        ),
        !is_digit(c) ==> whole_number(s.push(c), max) is None,
        s[0] != '+' ==> whole_number(seq!['+'] + s, max) == whole_number(s, max),
        whole_number(Seq::empty(), max) is None,
        whole_number(seq!['+'], max) is None,
{
    let digits = without_plus(s);
    let t = s.push(c);
    let more = without_plus(t);
    assert(more =~= digits.push(c));
    assert(more.drop_last() =~= digits);
    assert(more.last() == c);
    if is_digit(c) {
        assert forall|i: int| 0 <= i < more.len() implies is_digit(#[trigger] more[i]) by {
            if i < digits.len() {
                assert(more[i] == digits[i]);
            }
        }
    } else {
        assert(!is_digit(more[digits.len() as int]));
    }
    assert(without_plus(seq!['+'] + s) =~= s);
    assert(without_plus(seq!['+']) =~= Seq::empty());
}

/// Trimming takes white space off both ends and nothing else: what is left is a part
/// of the text between white space, and neither begins nor ends with it. Trimming
/// again takes nothing.
pub proof fn lemma_trimmed(s: Seq<char>)
    ensures
        exists|i: int, j: int| #[trigger] is_trimmed_at(s, i, j),
        trimmed(s).len() > 0 ==> !is_white_space(trimmed(s)[0]) && !is_white_space(
            trimmed(s).last(),
        ),
        trimmed(trimmed(s)) == trimmed(s),
        trimmed(s).len() == 0 <==> forall|i: int|
            0 <= i < s.len() ==> is_white_space(#[trigger] s[i]),
{
    let a = lemma_trimmed_start(s);
    let t = trimmed_start(s);
    let b = lemma_trimmed_end(t);
    assert(trimmed(s) =~= s.subrange(a, a + b));
    assert forall|k: int| a + b <= k < s.len() implies is_white_space(#[trigger] s[k]) by {
        assert(t[k - a] == s[k]);
    }
    assert(is_trimmed_at(s, a, a + b));
    if trimmed(s).len() == 0 {
        assert forall|k: int| 0 <= k < s.len() implies is_white_space(#[trigger] s[k]) by {}
    } else {
        assert(trimmed(s)[0] == s[a]);
        assert(!is_white_space(s[a]));
    }
}

/// Whether trimming leaves the characters of a text from one place up to another.
pub open spec fn is_trimmed_at(s: Seq<char>, i: int, j: int) -> bool {
    &&& 0 <= i <= j <= s.len()
    &&& trimmed(s) == s.subrange(i, j)
    &&& forall|k: int| 0 <= k < i ==> is_white_space(#[trigger] s[k])
    &&& forall|k: int| j <= k < s.len() ==> is_white_space(#[trigger] s[k])
}

proof fn lemma_trimmed_start(s: Seq<char>) -> (i: int)
    ensures
        0 <= i <= s.len(),
        trimmed_start(s) == s.subrange(i, s.len() as int),
        forall|k: int| 0 <= k < i ==> is_white_space(#[trigger] s[k]),
        i < s.len() ==> !is_white_space(s[i]),
    decreases s.len(),
{
    if s.len() > 0 && is_white_space(s[0]) {
        let t = s.subrange(1, s.len() as int);
        let i = lemma_trimmed_start(t);
        assert(t.subrange(i, t.len() as int) =~= s.subrange(i + 1, s.len() as int));
        assert forall|k: int| 0 <= k < i + 1 implies is_white_space(#[trigger] s[k]) by {
            if k > 0 {
                assert(t[k - 1] == s[k]);
            }
        }
        if i < t.len() {
            assert(t[i] == s[i + 1]);
        }
        i + 1
    } else {
        assert(s.subrange(0, s.len() as int) =~= s);
        0
    }
}

proof fn lemma_trimmed_end(s: Seq<char>) -> (j: int)
    ensures
        0 <= j <= s.len(),
        trimmed_end(s) == s.subrange(0, j),
        forall|k: int| j <= k < s.len() ==> is_white_space(#[trigger] s[k]),
        j > 0 ==> !is_white_space(s[j - 1]),
    decreases s.len(),
{
    if s.len() > 0 && is_white_space(s.last()) {
        let t = s.drop_last();
        let j = lemma_trimmed_end(t);
        assert(t.subrange(0, j) =~= s.subrange(0, j));
        assert forall|k: int| j <= k < s.len() implies is_white_space(#[trigger] s[k]) by {
            if k < t.len() {
                assert(t[k] == s[k]);
            }
        }
        if j > 0 {
            assert(t[j - 1] == s[j - 1]);
        }
        j
    } else {
        assert(s.subrange(0, s.len() as int) =~= s);
        s.len() as int
    }
}

/// Joining two lists of texts is joining each, with one separator between.
pub proof fn lemma_joined_in_parts(a: Seq<Seq<char>>, b: Seq<Seq<char>>, separator: Seq<char>)
    requires
        a.len() > 0,
        b.len() > 0,
    ensures
        joined_with(a + b, separator) == joined_with(a, separator) + separator + joined_with(
            b,
            separator,
        ),
        a.len() == 1 ==> joined_with(a, separator) == a[0],
    decreases b.len(),
{
    let all = a + b;
    assert(all.last() == b.last());
    if b.len() == 1 {
        assert(all.drop_last() =~= a);
    } else {
        lemma_joined_in_parts(a, b.drop_last(), separator);
        assert(all.drop_last() =~= a + b.drop_last());
    }
    assert(joined_with(all, separator) =~= joined_with(a, separator) + separator + joined_with(
        b,
        separator,
    ));
}

/// Different numbers have different numerals, and the greater one has no shorter one.
pub proof fn lemma_numerals_differ(m: nat, n: nat)
    requires
        m < n,
    ensures
        decimal_text(m) != decimal_text(n),
        decimal_text(m).len() <= decimal_text(n).len(),
    decreases n,
{
    lemma_numeral_round_trip(m, n);
    lemma_numeral_round_trip(n, n);
    if n >= 10 && m >= 10 {
        if m / 10 < n / 10 {
            lemma_numerals_differ(m / 10, n / 10);
        }
    }
}

/// Leaving out a character at the end takes that character off and no other, however
/// often it is there.
pub proof fn lemma_without_trailing(s: Seq<char>, c: char)
    ensures
        without_trailing(s, c).len() <= s.len(),
        without_trailing(s, c) == s.take(without_trailing(s, c).len() as int),
        forall|k: int| without_trailing(s, c).len() <= k < s.len() ==> #[trigger] s[k] == c,
        without_trailing(s, c).len() > 0 ==> without_trailing(s, c).last() != c,
    decreases s.len(),
{
    if s.len() > 0 && s.last() == c {
        let t = s.drop_last();
        lemma_without_trailing(t, c);
        let n = without_trailing(t, c).len() as int;
        assert(t.take(n) =~= s.take(n));
        assert forall|k: int| n <= k < s.len() implies #[trigger] s[k] == c by {
            if k < t.len() {
                assert(t[k] == s[k]);
            }
        }
    } else {
        assert(s.take(s.len() as int) =~= s);
    }
}

} // verus!
