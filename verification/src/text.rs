//! Text primitives on `str`: trimming, splitting, searching, comparing, and decimal numbers.
//!
//! A string is modelled by the sequence of its characters.
use vstd::prelude::*;

verus! {

/// A character with the Unicode `White_Space` property.
pub open spec fn is_whitespace(c: char) -> bool {
    let n = c as u32;
    ||| 0x09 <= n <= 0x0d
    ||| n == 0x20
    ||| n == 0x85
    ||| n == 0xa0
    ||| n == 0x1680
    ||| 0x2000 <= n <= 0x200a
    ||| n == 0x2028
    ||| n == 0x2029
    ||| n == 0x202f
    ||| n == 0x205f
    ||| n == 0x3000
}

/// `s` without its leading whitespace.
pub open spec fn trim_start(s: Seq<char>) -> Seq<char>
    decreases s.len(),
{
    if s.len() > 0 && is_whitespace(s[0]) {
        trim_start(s.drop_first())
    } else {
        s
    }
}

/// `s` without its trailing whitespace.
pub open spec fn trim_end(s: Seq<char>) -> Seq<char>
    decreases s.len(),
{
    if s.len() > 0 && is_whitespace(s.last()) {
        trim_end(s.drop_last())
    } else {
        s
    }
}

/// `s` without leading and trailing whitespace.
pub open spec fn trimmed(s: Seq<char>) -> Seq<char> {
    trim_end(trim_start(s))
}

/// The position of the first `c` in `s`, or the length of `s` if there is none.
pub open spec fn first_index(s: Seq<char>, c: char) -> nat
    decreases s.len(),
{
    if s.len() == 0 || s[0] == c {
        0
    } else {
        1 + first_index(s.drop_first(), c)
    }
}

/// The pieces of `s` between occurrences of `sep`; never empty.
pub open spec fn split_on(s: Seq<char>, sep: char) -> Seq<Seq<char>>
    decreases s.len(),
{
    let i = first_index(s, sep) as int;
    if i >= s.len() {
        seq![s]
    } else {
        seq![s.take(i)] + split_on(s.skip(i + 1), sep)
    }
}

/// What stands before and after the first `sep` of `s`.
pub open spec fn split_first(s: Seq<char>, sep: char) -> Option<(Seq<char>, Seq<char>)> {
    let i = first_index(s, sep) as int;
    if i >= s.len() {
        None
    } else {
        Some((s.take(i), s.skip(i + 1)))
    }
}

/// What stands before and after the last `sep` of `s`.
pub open spec fn split_last(s: Seq<char>, sep: char) -> Option<(Seq<char>, Seq<char>)>
    decreases s.len(),
{
    if s.len() == 0 {
        None
    } else if s.last() == sep {
        Some((s.drop_last(), Seq::empty()))
    } else {
        match split_last(s.drop_last(), sep) {
            None => None,
            Some((before, after)) => Some((before, after.push(s.last()))),
        }
    }
}

pub proof fn lemma_first_index(s: Seq<char>, c: char)
    ensures
        first_index(s, c) <= s.len(),
        forall|j: int| 0 <= j < first_index(s, c) ==> s[j] != c,
        first_index(s, c) < s.len() ==> s[first_index(s, c) as int] == c,
    decreases s.len(),
{
    if s.len() > 0 && s[0] != c {
        lemma_first_index(s.drop_first(), c);
        assert forall|j: int| 0 <= j < first_index(s, c) implies s[j] != c by {
            if j > 0 {
                assert(s.drop_first()[j - 1] != c);
            }
        }
    }
}

pub proof fn lemma_first_index_unique(s: Seq<char>, c: char, i: int)
    requires
        0 <= i <= s.len(),
        forall|j: int| 0 <= j < i ==> s[j] != c,
        i < s.len() ==> s[i] == c,
    ensures
        first_index(s, c) == i,
{
    lemma_first_index(s, c);
}

/// The pieces of `a`, a separator and `b` are the pieces of `a` and then those of `b`.
pub proof fn lemma_split_joined(a: Seq<char>, b: Seq<char>, sep: char)
    ensures
        split_on(a + seq![sep] + b, sep) == split_on(a, sep) + split_on(b, sep),
    decreases a.len(),
{
    let all = a + seq![sep] + b;
    let i = first_index(a, sep) as int;
    lemma_first_index(a, sep);
    assert forall|j: int| 0 <= j < i implies all[j] != sep by {
        assert(all[j] == a[j]);
    }
    lemma_first_index_unique(all, sep, i);
    assert(all.take(i) =~= a.take(i));
    if i >= a.len() {
        assert(a.take(i) =~= a);
        assert(all.skip(i + 1) =~= b);
        assert(split_on(a, sep) =~= seq![a]);
    } else {
        assert(all.skip(i + 1) =~= a.skip(i + 1) + seq![sep] + b);
        lemma_split_joined(a.skip(i + 1), b, sep);
        assert(seq![a.take(i)] + (split_on(a.skip(i + 1), sep) + split_on(b, sep)) =~= (
        seq![a.take(i)] + split_on(a.skip(i + 1), sep)) + split_on(b, sep));
    }
}

/// The characters of `s`.
pub fn chars_of(s: &str) -> (r: Vec<char>)
    ensures
        r@ == s@,
{
    let mut r: Vec<char> = Vec::new();
    for c in it: s.chars()
        invariant
            r@ == it.seq().take(it.index() as int),
            it.seq() == s@,
    {
        r.push(c);
    }
    r
}

/// Whether `a` and `b` hold the same characters.
pub fn text_eq(a: &str, b: &str) -> (r: bool)
    ensures
        r == (a@ == b@),
{
    a.to_owned() == b.to_owned()
}

/// Whether `c` is whitespace, as `char::is_whitespace` has it.
pub fn char_is_whitespace(c: char) -> (r: bool)
    ensures
        r == is_whitespace(c),
{
    let n = c as u32;
    (0x09 <= n && n <= 0x0d) || n == 0x20 || n == 0x85 || n == 0xa0 || n == 0x1680 || (0x2000 <= n
        && n <= 0x200a) || n == 0x2028 || n == 0x2029 || n == 0x202f || n == 0x205f || n == 0x3000
}

/// `s` without leading and trailing whitespace, as `str::trim` has it.
pub fn trim(s: &str) -> (r: &str)
    ensures
        r@ == trimmed(s@),
{
    let cs = chars_of(s);
    let mut from: usize = 0;
    assert(s@.skip(0) =~= s@);
    while from < cs.len() && char_is_whitespace(cs[from])
        invariant
            cs@ == s@,
            from <= cs.len(),
            trim_start(s@) == trim_start(s@.skip(from as int)),
        decreases cs.len() - from,
    {
        assert(s@.skip(from as int).drop_first() =~= s@.skip(from + 1));
        from = from + 1;
    }
    let ghost t = s@.skip(from as int);
    assert(trim_start(s@) == t);
    let mut to: usize = cs.len();
    assert(s@.subrange(from as int, to as int) =~= t);
    while to > from && char_is_whitespace(cs[to - 1])
        invariant
            cs@ == s@,
            from <= to <= cs.len(),
            trim_end(t) == trim_end(s@.subrange(from as int, to as int)),
        decreases to,
    {
        assert(s@.subrange(from as int, to as int).drop_last() =~= s@.subrange(from as int, to - 1));
        to = to - 1;
    }
    s.substring_char(from, to)
}

/// The pieces of `s` between occurrences of `sep`, as `str::split` has them.
pub fn split<'a>(s: &'a str, sep: char) -> (r: Vec<&'a str>)
    ensures
        r@.len() == split_on(s@, sep).len(),
        forall|i: int| 0 <= i < r@.len() ==> #[trigger] r@[i]@ == split_on(s@, sep)[i],
{
    let cs = chars_of(s);
    let mut r: Vec<&'a str> = Vec::new();
    let mut from: usize = 0;
    let mut i: usize = 0;
    let ghost pieces = Seq::<Seq<char>>::empty();
    proof {
        assert(s@.skip(0) =~= s@);
        assert(pieces + split_on(s@, sep) =~= split_on(s@, sep));
    }
    while i < cs.len()
        invariant
            cs@ == s@,
            from <= i <= cs.len(),
            forall|j: int| from <= j < i ==> cs@[j] != sep,
            split_on(s@, sep) == pieces + split_on(s@.skip(from as int), sep),
            pieces.len() == r@.len(),
            forall|k: int| 0 <= k < r@.len() ==> #[trigger] r@[k]@ == pieces[k],
        decreases cs.len() - i,
    {
        if cs[i] == sep {
            let piece = s.substring_char(from, i);
            proof {
                let rest = s@.skip(from as int);
                lemma_first_index_unique(rest, sep, i - from);
                assert(rest.take(i - from) =~= piece@);
                assert(rest.skip(i - from + 1) =~= s@.skip(i + 1));
                assert(pieces + split_on(rest, sep) =~= pieces.push(piece@) + split_on(
                    s@.skip(i + 1),
                    sep,
                ));
                pieces = pieces.push(piece@);
            }
            r.push(piece);
            from = i + 1;
        }
        i = i + 1;
    }
    let piece = s.substring_char(from, cs.len());
    proof {
        let rest = s@.skip(from as int);
        assert forall|j: int| 0 <= j < rest.len() implies rest[j] != sep by {
            assert(cs@[from + j] != sep);
        }
        lemma_first_index_unique(rest, sep, rest.len() as int);
        assert(rest =~= piece@);
        assert(split_on(s@, sep) =~= pieces.push(piece@));
    }
    r.push(piece);
    r
}

/// What stands before and after the first `sep`, as `str::split_once` has it.
pub fn split_once<'a>(s: &'a str, sep: char) -> (r: Option<(&'a str, &'a str)>)
    ensures
        match (r, split_first(s@, sep)) {
            (Some((a, b)), Some((x, y))) => a@ == x && b@ == y,
            (None, None) => true,
            _ => false,
        },
{
    let cs = chars_of(s);
    let mut i: usize = 0;
    while i < cs.len()
        invariant
            cs@ == s@,
            i <= cs.len(),
            forall|j: int| 0 <= j < i ==> cs@[j] != sep,
        decreases cs.len() - i,
    {
        if cs[i] == sep {
            proof {
                lemma_first_index_unique(s@, sep, i as int);
                assert(s@.subrange(0, i as int) =~= s@.take(i as int));
                assert(s@.subrange(i + 1, cs@.len() as int) =~= s@.skip(i + 1));
            }
            return Some((s.substring_char(0, i), s.substring_char(i + 1, cs.len())));
        }
        i = i + 1;
    }
    proof {
        lemma_first_index_unique(s@, sep, cs@.len() as int);
    }
    None
}

proof fn lemma_split_last(s: Seq<char>, sep: char, i: int)
    requires
        0 <= i <= s.len(),
        forall|j: int| i <= j < s.len() ==> s[j] != sep,
        i > 0 ==> s[i - 1] == sep,
    ensures
        i == 0 ==> split_last(s, sep) is None,
        i > 0 ==> split_last(s, sep) == Some((s.take(i - 1), s.skip(i))),
    decreases s.len(),
{
    if s.len() > 0 {
        if s.last() == sep {
            assert(i == s.len());
            assert(s.drop_last() =~= s.take(i - 1));
            assert(s.skip(i) =~= Seq::empty());
        } else {
            assert(i < s.len()) by {
                if i == s.len() {
                    assert(s[i - 1] == sep);
                }
            }
            lemma_split_last(s.drop_last(), sep, i);
            if i > 0 {
                assert(s.drop_last().take(i - 1) =~= s.take(i - 1));
                assert(s.drop_last().skip(i).push(s.last()) =~= s.skip(i));
            }
        }
    }
}

/// What stands before and after the last `sep`.
pub fn rsplit_once<'a>(s: &'a str, sep: char) -> (r: Option<(&'a str, &'a str)>)
    ensures
        match (r, split_last(s@, sep)) {
            (Some((a, b)), Some((x, y))) => a@ == x && b@ == y,
            (None, None) => true,
            _ => false,
        },
{
    let cs = chars_of(s);
    let mut i: usize = cs.len();
    while i > 0
        invariant
            cs@ == s@,
            i <= cs.len(),
            forall|j: int| i <= j < cs@.len() ==> cs@[j] != sep,
        decreases i,
    {
        if cs[i - 1] == sep {
            proof {
                lemma_split_last(s@, sep, i as int);
                assert(s@.subrange(0, i - 1) =~= s@.take(i - 1));
                assert(s@.subrange(i as int, cs@.len() as int) =~= s@.skip(i as int));
            }
            return Some((s.substring_char(0, i - 1), s.substring_char(i, cs.len())));
        }
        i = i - 1;
    }
    proof {
        lemma_split_last(s@, sep, 0);
    }
    None
}

/// Whether `s` ends with `suffix`.
pub fn ends_with(s: &str, suffix: &str) -> (r: bool)
    ensures
        r == suffix@.is_suffix_of(s@),
{
    let n = s.unicode_len();
    let m = suffix.unicode_len();
    if m > n {
        return false;
    }
    text_eq(s.substring_char(n - m, n), suffix)
}

/// Whether `c` is an ASCII decimal digit.
pub open spec fn is_digit(c: char) -> bool {
    '0' <= c <= '9'
}

/// The value of an ASCII decimal digit.
pub open spec fn digit_value(c: char) -> nat {
    (c as u32 - '0' as u32) as nat
}

/// The digit with the value `n`.
pub open spec fn digit_char(n: nat) -> char {
    (n + '0' as u32) as char
}

/// `n` in decimal, without leading zeros.
pub open spec fn decimal(n: nat) -> Seq<char>
    decreases n,
{
    if n < 10 {
        seq![digit_char(n)]
    } else {
        decimal(n / 10).push(digit_char(n % 10))
    }
}

/// Why a text is not a number.
#[derive(Debug, Clone, Copy, PartialEq, Eq, Structural)]
pub enum NumberError {
    /// The text is empty.
    Empty,
    /// A character that is no decimal digit was met.
    InvalidDigit,
    /// The number does not fit.
    TooLarge,
}

/// Reads `digits` from the left, starting at `acc`, and stops at the first thing that is wrong.
pub open spec fn scan_digits(digits: Seq<char>, acc: nat) -> Result<nat, NumberError>
    decreases digits.len(),
{
    if digits.len() == 0 {
        Ok(acc)
    } else if !is_digit(digits[0]) {
        Err(NumberError::InvalidDigit)
    } else if acc * 10 + digit_value(digits[0]) > u16::MAX {
        Err(NumberError::TooLarge)
    } else {
        scan_digits(digits.drop_first(), acc * 10 + digit_value(digits[0]))
    }
}

/// What a text means as a 16-bit number: an optional `+`, then decimal digits only.
pub open spec fn number_of(s: Seq<char>) -> Result<nat, NumberError> {
    if s.len() == 0 {
        Err(NumberError::Empty)
    } else if s[0] == '+' {
        if s.len() == 1 {
            Err(NumberError::InvalidDigit)
        } else {
            scan_digits(s.skip(1), 0)
        }
    } else {
        scan_digits(s, 0)
    }
}

proof fn lemma_scan_fits(digits: Seq<char>, acc: nat)
    requires
        acc <= u16::MAX,
    ensures
        scan_digits(digits, acc) matches Ok(n) ==> n <= u16::MAX,
    decreases digits.len(),
{
    if digits.len() > 0 && is_digit(digits[0]) && acc * 10 + digit_value(digits[0]) <= u16::MAX {
        lemma_scan_fits(digits.drop_first(), acc * 10 + digit_value(digits[0]));
    }
}

/// A number that was read fits in 16 bits.
pub proof fn lemma_number_fits(s: Seq<char>)
    ensures
        number_of(s) matches Ok(n) ==> n <= u16::MAX,
{
    lemma_scan_fits(s, 0);
    lemma_scan_fits(s.skip(1), 0);
}

/// What is said of a text that is not a number.
pub open spec fn number_error_text(e: NumberError) -> Seq<char> {
    match e {
        NumberError::Empty => "cannot parse integer from empty string"@,
        NumberError::InvalidDigit => "invalid digit found in string"@,
        NumberError::TooLarge => "number too large to fit in target type"@,
    }
}

impl NumberError {
    /// The message of the error.
    pub fn message(&self) -> (r: &'static str)
        ensures
            r@ == number_error_text(*self),
    {
        match self {
            NumberError::Empty => "cannot parse integer from empty string",
            NumberError::InvalidDigit => "invalid digit found in string",
            NumberError::TooLarge => "number too large to fit in target type",
        }
    }
}

/// Reads a 16-bit number, as `str::parse::<u16>` does.
pub fn parse_u16(s: &str) -> (r: Result<u16, NumberError>)
    ensures
        match r {
            Ok(n) => number_of(s@) == Ok::<nat, NumberError>(n as nat),
            Err(e) => number_of(s@) == Err::<nat, NumberError>(e),
        },
{
    let cs = chars_of(s);
    if cs.len() == 0 {
        return Err(NumberError::Empty);
    }
    let mut i: usize = 0;
    if cs[0] == '+' {
        if cs.len() == 1 {
            return Err(NumberError::InvalidDigit);
        }
        i = 1;
    }
    let mut acc: u32 = 0;
    proof {
        assert(s@.skip(0) =~= s@);
    }
    while i < cs.len()
        invariant
            cs@ == s@,
            i <= cs.len(),
            acc <= u16::MAX,
            number_of(s@) == scan_digits(s@.skip(i as int), acc as nat),
        decreases cs.len() - i,
    {
        let c = cs[i];
        proof {
            assert(s@.skip(i as int).drop_first() =~= s@.skip(i + 1));
        }
        if c < '0' || c > '9' {
            return Err(NumberError::InvalidDigit);
        }
        let next: u32 = acc * 10 + (c as u32 - '0' as u32);
        if next > 65535 {
            return Err(NumberError::TooLarge);
        }
        acc = next;
        i = i + 1;
    }
    Ok(acc as u16)
}

fn digit_str(n: u64) -> (r: &'static str)
    requires
        n < 10,
    ensures
        r@ == seq![digit_char(n as nat)],
{
    proof {
        reveal_strlit("0");
        reveal_strlit("1");
        reveal_strlit("2");
        reveal_strlit("3");
        reveal_strlit("4");
        reveal_strlit("5");
        reveal_strlit("6");
        reveal_strlit("7");
        reveal_strlit("8");
        reveal_strlit("9");
    }
    let r = match n {
        0 => "0",
        1 => "1",
        2 => "2",
        3 => "3",
        4 => "4",
        5 => "5",
        6 => "6",
        7 => "7",
        8 => "8",
        _ => "9",
    };
    assert(r@ =~= seq![digit_char(n as nat)]);
    r
}

/// `n` in decimal.
pub fn decimal_string(n: u64) -> (r: String)
    ensures
        r@ == decimal(n as nat),
    decreases n,
{
    if n < 10 {
        digit_str(n).to_owned()
    } else {
        let mut r = decimal_string(n / 10);
        r.append(digit_str(n % 10));
        proof {
            assert(r@ =~= decimal(n as nat));
        }
        r
    }
}

proof fn lemma_scan_push(digits: Seq<char>, acc: nat, c: char)
    requires
        is_digit(c),
        scan_digits(digits, acc) matches Ok(v) && v * 10 + digit_value(c) <= u16::MAX,
    ensures
        scan_digits(digits.push(c), acc) == Ok::<nat, NumberError>(
            scan_digits(digits, acc)->Ok_0 * 10 + digit_value(c),
        ),
    decreases digits.len(),
{
    reveal_with_fuel(scan_digits, 2);
    let more = digits.push(c);
    if digits.len() == 0 {
        assert(more.drop_first() =~= Seq::empty());
    } else {
        assert(more[0] == digits[0]);
        assert(more.drop_first() =~= digits.drop_first().push(c));
        lemma_scan_push(digits.drop_first(), acc * 10 + digit_value(digits[0]), c);
    }
}

/// The decimal text of a 16-bit number holds digits only.
pub proof fn lemma_decimal_digits(n: u16)
    ensures
        decimal(n as nat).len() > 0,
        forall|i: int| 0 <= i < decimal(n as nat).len() ==> is_digit(#[trigger] decimal(n as nat)[i]),
{
    lemma_decimal_scan(n as nat);
}

/// Reading back the decimal text of a 16-bit number gives the number.
pub proof fn law_decimal_reads_back(n: u16)
    ensures
        number_of(decimal(n as nat)) == Ok::<nat, NumberError>(n as nat),
{
    lemma_decimal_scan(n as nat);
}

/// Different numbers have different decimal texts.
pub proof fn law_decimal_tells_apart(a: nat, b: nat)
    requires
        a != b,
    ensures
        decimal(a) != decimal(b),
    decreases a,
{
    lemma_decimal_filled(a / 10);
    lemma_decimal_filled(b / 10);
    if a >= 10 && b >= 10 {
        if a / 10 != b / 10 {
            law_decimal_tells_apart(a / 10, b / 10);
            assert(decimal(a).drop_last() =~= decimal(a / 10));
            assert(decimal(b).drop_last() =~= decimal(b / 10));
        } else {
            assert(a % 10 != b % 10);
            assert(decimal(a).last() == digit_char(a % 10));
            assert(decimal(b).last() == digit_char(b % 10));
        }
    } else if a < 10 && b < 10 {
        assert(decimal(a)[0] == digit_char(a));
        assert(decimal(b)[0] == digit_char(b));
    } else if a < 10 {
        assert(decimal(a).len() == 1);
        assert(decimal(b).len() == decimal(b / 10).len() + 1);
    } else {
        assert(decimal(b).len() == 1);
        assert(decimal(a).len() == decimal(a / 10).len() + 1);
    }
}

proof fn lemma_decimal_filled(n: nat)
    ensures
        decimal(n).len() > 0,
{
}

proof fn lemma_decimal_scan(n: nat)
    requires
        n <= u16::MAX,
    ensures
        decimal(n).len() > 0,
        forall|i: int| 0 <= i < decimal(n).len() ==> is_digit(#[trigger] decimal(n)[i]),
        scan_digits(decimal(n), 0) == Ok::<nat, NumberError>(n),
    decreases n,
{
    reveal_with_fuel(scan_digits, 2);
    if n < 10 {
        assert(decimal(n).drop_first() =~= Seq::empty());
    } else {
        lemma_decimal_scan(n / 10);
        lemma_scan_push(decimal(n / 10), 0, digit_char(n % 10));
    }
}

/// Pieces with a separator between each two of them.
pub open spec fn joined(pieces: Seq<Seq<char>>, sep: char) -> Seq<char>
    decreases pieces.len(),
{
    if pieces.len() == 0 {
        Seq::empty()
    } else if pieces.len() == 1 {
        pieces[0]
    } else {
        pieces[0] + seq![sep] + joined(pieces.drop_first(), sep)
    }
}

/// Splitting takes out the separators and nothing else: there is at least one piece, no piece holds
/// the separator, and the pieces joined again are the text.
pub proof fn law_split_joins_back(s: Seq<char>, sep: char)
    ensures
        split_on(s, sep).len() > 0,
        forall|i: int, j: int|
            0 <= i < split_on(s, sep).len() && 0 <= j < split_on(s, sep)[i].len() ==> split_on(
                s,
                sep,
            )[i][j] != sep,
        joined(split_on(s, sep), sep) == s,
    decreases s.len(),
{
    let at = first_index(s, sep) as int;
    lemma_first_index(s, sep);
    let pieces = split_on(s, sep);
    if at >= s.len() {
        assert(pieces =~= seq![s]);
    } else {
        let rest = s.skip(at + 1);
        law_split_joins_back(rest, sep);
        assert(pieces.drop_first() =~= split_on(rest, sep));
        assert(s =~= s.take(at) + seq![sep] + rest);
        assert forall|i: int, j: int| 0 <= i < pieces.len() && 0 <= j < pieces[i].len() implies pieces[i][j]
            != sep by {
            if i > 0 {
                assert(pieces[i] == split_on(rest, sep)[i - 1]);
            }
        }
    }
}

/// What stands around the first separator is all of the text but that separator, and none stands
/// before it. Nothing is found exactly if there is no separator.
pub proof fn law_split_first(s: Seq<char>, sep: char)
    ensures
        split_first(s, sep) is None <==> !s.contains(sep),
        split_first(s, sep) matches Some((a, b)) ==> s == a + seq![sep] + b && !a.contains(sep),
{
    lemma_first_index(s, sep);
    let i = first_index(s, sep) as int;
    if i < s.len() {
        assert(s[i] == sep);
        assert(s =~= s.take(i) + seq![sep] + s.skip(i + 1));
        if s.take(i).contains(sep) {
            let j = choose|j: int| 0 <= j < i && s.take(i)[j] == sep;
            assert(s[j] == sep);
        }
    } else if s.contains(sep) {
        let j = choose|j: int| 0 <= j < s.len() && s[j] == sep;
        assert(s[j] != sep);
    }
}

/// What stands around the last separator is all of the text but that separator, and none stands
/// after it. Nothing is found exactly if there is no separator.
pub proof fn law_split_last(s: Seq<char>, sep: char)
    ensures
        split_last(s, sep) is None <==> !s.contains(sep),
        split_last(s, sep) matches Some((a, b)) ==> s == a + seq![sep] + b && !b.contains(sep),
    decreases s.len(),
{
    if s.len() > 0 {
        if s.last() == sep {
            assert(s[s.len() - 1] == sep);
            assert(s =~= s.drop_last() + seq![sep] + Seq::<char>::empty());
        } else {
            let init = s.drop_last();
            law_split_last(init, sep);
            assert(s =~= init.push(s.last()));
            if init.contains(sep) {
                let j = choose|j: int| 0 <= j < init.len() && init[j] == sep;
                assert(s[j] == sep);
                let (a, b) = split_last(init, sep)->Some_0;
                assert(s =~= a + seq![sep] + b.push(s.last()));
                if b.push(s.last()).contains(sep) {
                    let k = choose|k: int| 0 <= k < b.len() + 1 && b.push(s.last())[k] == sep;
                    assert(b[k] == sep);
                }
            } else if s.contains(sep) {
                let j = choose|j: int| 0 <= j < s.len() && s[j] == sep;
                assert(init[j] == sep);
            }
        }
    }
}

/// A host, a separator and a tail without the separator fall apart into these two again.
pub proof fn law_last_part_reads_back(head: Seq<char>, tail: Seq<char>, sep: char)
    requires
        forall|i: int| 0 <= i < tail.len() ==> tail[i] != sep,
    ensures
        split_last(head + seq![sep] + tail, sep) == Some((head, tail)),
{
    let s = head + seq![sep] + tail;
    let i = head.len() as int + 1;
    assert(s[i - 1] == sep);
    assert forall|j: int| i <= j < s.len() implies s[j] != sep by {
        assert(s[j] == tail[j - i]);
    }
    lemma_split_last(s, sep, i);
    assert(s.take(i - 1) =~= head);
    assert(s.skip(i) =~= tail);
}

/// Whether a text is made of blanks only.
pub open spec fn all_blank(s: Seq<char>) -> bool {
    forall|i: int| 0 <= i < s.len() ==> is_whitespace(#[trigger] s[i])
}

/// Trimming takes away blanks at the two ends and nothing else: blanks around a text that neither
/// starts nor ends with one leave just that text, and of blanks alone nothing is left.
pub proof fn law_trim_takes_the_blanks_around(before: Seq<char>, s: Seq<char>, after: Seq<char>)
    requires
        all_blank(before),
        all_blank(after),
        s.len() > 0 ==> !is_whitespace(s[0]) && !is_whitespace(s.last()),
    ensures
        trimmed(before + s + after) == s,
{
    if s.len() == 0 {
        let all = before + s + after;
        assert forall|i: int| 0 <= i < all.len() implies is_whitespace(#[trigger] all[i]) by {
            if i < before.len() {
                assert(all[i] == before[i]);
            } else {
                assert(all[i] == after[i - before.len()]);
            }
        }
        lemma_trim_start_blank(all);
        assert(trim_end(trim_start(all)) =~= s);
    } else {
        lemma_trim_start(before, s + after);
        assert(before + s + after =~= before + (s + after));
        lemma_trim_end(s, after);
    }
}

proof fn lemma_trim_start_blank(s: Seq<char>)
    requires
        all_blank(s),
    ensures
        trim_start(s).len() == 0,
    decreases s.len(),
{
    if s.len() > 0 {
        assert forall|i: int| 0 <= i < s.drop_first().len() implies is_whitespace(
            #[trigger] s.drop_first()[i],
        ) by {
            assert(s.drop_first()[i] == s[i + 1]);
        }
        lemma_trim_start_blank(s.drop_first());
    }
}

proof fn lemma_trim_start(before: Seq<char>, s: Seq<char>)
    requires
        all_blank(before),
        s.len() > 0 && !is_whitespace(s[0]),
    ensures
        trim_start(before + s) == s,
    decreases before.len(),
{
    if before.len() == 0 {
        assert(before + s =~= s);
    } else {
        let rest = before.drop_first();
        assert forall|i: int| 0 <= i < rest.len() implies is_whitespace(#[trigger] rest[i]) by {
            assert(rest[i] == before[i + 1]);
        }
        assert((before + s).drop_first() =~= rest + s);
        assert((before + s)[0] == before[0]);
        lemma_trim_start(rest, s);
    }
}

proof fn lemma_trim_end(s: Seq<char>, after: Seq<char>)
    requires
        all_blank(after),
        s.len() > 0 && !is_whitespace(s.last()),
    ensures
        trim_end(s + after) == s,
    decreases after.len(),
{
    if after.len() == 0 {
        assert(s + after =~= s);
    } else {
        let rest = after.drop_last();
        assert forall|i: int| 0 <= i < rest.len() implies is_whitespace(#[trigger] rest[i]) by {
            assert(rest[i] == after[i]);
        }
        assert((s + after).drop_last() =~= s + rest);
        assert((s + after).last() == after.last());
        lemma_trim_end(s, rest);
    }
}

/// Spaces, tabs and line ends are blanks. No visible ASCII character is one. Beyond ASCII the
/// spaces of every width and the separators of lines and paragraphs are blanks, and nothing else.
pub proof fn law_blanks(c: char)
    ensures
        c == ' ' || c == '\t' || c == '\n' || c == '\r' ==> is_whitespace(c),
        '!' <= c <= '~' ==> !is_whitespace(c),
        c < ' ' ==> (is_whitespace(c) <==> c == '\t' || c == '\n' || c == '\u{b}' || c == '\u{c}'
            || c == '\r'),
        c > '~' ==> (is_whitespace(c) <==> c == '\u{85}' || c == '\u{a0}' || c == '\u{1680}'
            || '\u{2000}' <= c <= '\u{200a}' || c == '\u{2028}' || c == '\u{2029}'
            || c == '\u{202f}' || c == '\u{205f}' || c == '\u{3000}'),
{
}

/// The number that decimal digits mean, the most significant first.
pub open spec fn positional(digits: Seq<char>) -> int
    decreases digits.len(),
{
    if digits.len() == 0 {
        0
    } else {
        positional(digits.drop_last()) * 10 + (digits.last() as int - '0' as int)
    }
}

/// Whether a text is made of decimal digits only.
pub open spec fn only_digits(s: Seq<char>) -> bool {
    forall|i: int| 0 <= i < s.len() ==> '0' <= #[trigger] s[i] <= '9'
}

/// The decimal text of a number is made of digits, means the number, and has no leading zero but
/// for the number zero itself.
pub proof fn law_decimal_means_its_number(n: nat)
    ensures
        decimal(n).len() > 0,
        only_digits(decimal(n)),
        positional(decimal(n)) == n,
        n > 0 ==> decimal(n)[0] != '0',
    decreases n,
{
    reveal_with_fuel(positional, 2);
    if n < 10 {
        assert(decimal(n).drop_last() =~= Seq::empty());
    } else {
        law_decimal_means_its_number(n / 10);
        assert(decimal(n).drop_last() =~= decimal(n / 10));
        assert(decimal(n)[0] == decimal(n / 10)[0]);
    }
}

/// A text is read as a 16-bit number exactly if it is made of at least one decimal digit, with an
/// optional `+` before the digits, and what the digits mean fits; and that is the number then.
pub proof fn law_number_is_what_its_digits_mean(s: Seq<char>)
    ensures
        ({
            let digits = if s.len() > 0 && s[0] == '+' {
                s.skip(1)
            } else {
                s
            };
            &&& number_of(s) is Ok <==> digits.len() > 0 && only_digits(digits) && positional(digits)
                <= 65535
            &&& number_of(s) matches Ok(n) ==> n == positional(digits)
            &&& digits.len() > 0 && only_digits(digits) && positional(digits) > 65535 ==> number_of(s)
                == Err::<nat, NumberError>(NumberError::TooLarge)
            &&& s.len() == 0 ==> number_of(s) == Err::<nat, NumberError>(NumberError::Empty)
        }),
{
    let digits = if s.len() > 0 && s[0] == '+' {
        s.skip(1)
    } else {
        s
    };
    if digits.len() > 0 {
        lemma_scan_means(digits, 0);
        assert(value_after(0, digits) == positional(digits)) by {
            lemma_value_after(0, digits);
        }
    }
}

/// The number that `acc` and then the digits mean.
spec fn value_after(acc: int, digits: Seq<char>) -> int
    decreases digits.len(),
{
    if digits.len() == 0 {
        acc
    } else {
        value_after(acc * 10 + (digits[0] as int - '0' as int), digits.drop_first())
    }
}

proof fn lemma_value_after(acc: int, digits: Seq<char>)
    ensures
        acc == 0 ==> value_after(acc, digits) == positional(digits),
        digits.len() > 0 ==> value_after(acc, digits) == value_after(acc, digits.drop_last()) * 10 + (
        digits.last() as int - '0' as int),
    decreases digits.len(), 1int,
{
    if digits.len() > 0 {
        lemma_value_after_last(acc, digits);
        lemma_value_after(acc, digits.drop_last());
    }
}

proof fn lemma_value_after_last(acc: int, digits: Seq<char>)
    requires
        digits.len() > 0,
    ensures
        value_after(acc, digits) == value_after(acc, digits.drop_last()) * 10 + (
        digits.last() as int - '0' as int),
    decreases digits.len(), 0int,
{
    reveal_with_fuel(value_after, 2);
    if digits.len() > 1 {
        let rest = digits.drop_first();
        lemma_value_after_last(acc * 10 + (digits[0] as int - '0' as int), rest);
        assert(rest.drop_last() =~= digits.drop_last().drop_first());
        assert(digits.drop_last()[0] == digits[0]);
        assert(rest.last() == digits.last());
    } else {
        assert(digits.drop_last() =~= Seq::empty());
        assert(digits.drop_first() =~= Seq::empty());
    }
}

proof fn lemma_value_grows(acc: int, digits: Seq<char>)
    requires
        acc >= 0,
        only_digits(digits),
    ensures
        value_after(acc, digits) >= acc,
    decreases digits.len(),
{
    if digits.len() > 0 {
        let rest = digits.drop_first();
        assert('0' <= digits[0] <= '9');
        assert forall|i: int| 0 <= i < rest.len() implies '0' <= #[trigger] rest[i] <= '9' by {
            assert(rest[i] == digits[i + 1]);
        }
        lemma_value_grows(acc * 10 + (digits[0] as int - '0' as int), rest);
    }
}

proof fn lemma_scan_means(digits: Seq<char>, acc: nat)
    requires
        acc <= 65535,
    ensures
        scan_digits(digits, acc) is Ok <==> only_digits(digits) && value_after(acc as int, digits)
            <= 65535,
        scan_digits(digits, acc) matches Ok(n) ==> n == value_after(acc as int, digits),
        only_digits(digits) && value_after(acc as int, digits) > 65535 ==> scan_digits(digits, acc)
            == Err::<nat, NumberError>(NumberError::TooLarge),
    decreases digits.len(),
{
    if digits.len() > 0 {
        let rest = digits.drop_first();
        if is_digit(digits[0]) {
            let next = acc * 10 + digit_value(digits[0]);
            assert(only_digits(digits) <==> only_digits(rest)) by {
                if only_digits(rest) {
                    assert forall|i: int| 0 <= i < digits.len() implies '0' <= #[trigger] digits[i]
                        <= '9' by {
                        if i > 0 {
                            assert(rest[i - 1] == digits[i]);
                        }
                    }
                }
                if only_digits(digits) {
                    assert forall|i: int| 0 <= i < rest.len() implies '0' <= #[trigger] rest[i]
                        <= '9' by {
                        assert(rest[i] == digits[i + 1]);
                    }
                }
            }
            if next <= 65535 {
                lemma_scan_means(rest, next);
            } else if only_digits(digits) {
                lemma_value_grows(next as int, rest);
            }
        } else {
            assert(!('0' <= digits[0] <= '9'));
        }
    }
}

} // verus!
