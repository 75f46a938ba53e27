//! Text: comparison, trimming, joining, and numbers as decimal and hexadecimal digits.

use vstd::prelude::*;
use vstd::string::*;

verus! {

/// Whether two texts hold the same characters.
pub fn same(a: &str, b: &str) -> (r: bool)
    ensures
        r == (a@ == b@),
{
    let x: String = a.to_owned();
    let y: String = b.to_owned();
    x == y
}

/// An ASCII letter in lower case, everything else as it is.
pub open spec fn lower(c: char) -> int {
    if 'A' <= c <= 'Z' {
        c as int + 32
    } else {
        c as int
    }
}

/// Equality up to the case of ASCII letters.
pub open spec fn same_letters(a: Seq<char>, b: Seq<char>) -> bool {
    a.len() == b.len() && forall|i: int| 0 <= i < a.len() ==> lower(#[trigger] a[i]) == lower(b[i])
}

fn lower_code(c: char) -> (r: u32)
    ensures
        r == lower(c),
{
    if 'A' <= c && c <= 'Z' {
        c as u32 + 32
    } else {
        c as u32
    }
}

/// Whether two texts are equal up to the case of ASCII letters.
pub fn same_ignoring_case(a: &str, b: &str) -> (r: bool)
    ensures
        r == same_letters(a@, b@),
{
    let n: usize = a.unicode_len();
    if n != b.unicode_len() {
        return false;
    }
    let mut i: usize = 0;
    while i < n
        invariant
            i <= n == a@.len() == b@.len(),
            forall|j: int| 0 <= j < i ==> lower(#[trigger] a@[j]) == lower(b@[j]),
        decreases n - i,
    {
        if lower_code(a.get_char(i)) != lower_code(b.get_char(i)) {
            assert(lower(a@[i as int]) != lower(b@[i as int]));
            return false;
        }
        i = i + 1;
    }
    true
}

/// `s` without the occurrences of `c` at its end.
pub open spec fn without_end(s: Seq<char>, c: char) -> Seq<char>
    decreases s.len(),
{
    if s.len() > 0 && s.last() == c {
        without_end(s.drop_last(), c)
    } else {
        s
    }
}

/// Removes all slashes from the end of a text.
pub fn trim_end_slashes(s: &str) -> (r: String)
    ensures
        r@ == without_end(s@, '/'),
{
    let mut n: usize = s.unicode_len();
    assert(s@.take(n as int) == s@);
    while n > 0 && s.get_char(n - 1) == '/'
        invariant
            n <= s@.len(),
            without_end(s@.take(n as int), '/') == without_end(s@, '/'),
        decreases n,
    {
        assert(s@.take(n as int).drop_last() == s@.take(n - 1));
        n = n - 1;
    }
    assert(s@.take(n as int) == s@.subrange(0, n as int));
    s.substring_char(0, n).to_owned()
}

/// The white space characters of Unicode.
pub open spec fn is_white(c: char) -> bool {
    ||| 9 <= c as int <= 13
    ||| c as int == 0x20
    ||| c as int == 0x85
    ||| c as int == 0xa0
    ||| c as int == 0x1680
    ||| 0x2000 <= c as int <= 0x200a
    ||| c as int == 0x2028
    ||| c as int == 0x2029
    ||| c as int == 0x202f
    ||| c as int == 0x205f
    ||| c as int == 0x3000
}

fn is_white_char(c: char) -> (r: bool)
    ensures
        r == is_white(c),
{
    let n: u32 = c as u32;
    (9 <= n && n <= 13) || n == 0x20 || n == 0x85 || n == 0xa0 || n == 0x1680 || (0x2000 <= n && n
        <= 0x200a) || n == 0x2028 || n == 0x2029 || n == 0x202f || n == 0x205f || n == 0x3000
}

/// `s` without white space at its end.
pub open spec fn trimmed_end(s: Seq<char>) -> Seq<char>
    decreases s.len(),
{
    if s.len() > 0 && is_white(s.last()) {
        trimmed_end(s.drop_last())
    } else {
        s
    }
}

/// `s` without white space at its start.
pub open spec fn trimmed_start(s: Seq<char>) -> Seq<char>
    decreases s.len(),
{
    if s.len() > 0 && is_white(s.first()) {
        trimmed_start(s.drop_first())
    } else {
        s
    }
}

/// Removes white space from both ends of a text.
pub fn trim(s: &str) -> (r: String)
    ensures
        r@ == trimmed_end(trimmed_start(s@)),
{
    let n: usize = s.unicode_len();
    let mut from: usize = 0;
    assert(s@.skip(0) == s@);
    while from < n && is_white_char(s.get_char(from))
        invariant
            from <= n == s@.len(),
            trimmed_start(s@.skip(from as int)) == trimmed_start(s@),
        decreases n - from,
    {
        assert(s@.skip(from as int).drop_first() == s@.skip(from + 1));
        from = from + 1;
    }
    let ghost rest = s@.skip(from as int);
    let mut to: usize = n;
    assert(s@.subrange(from as int, n as int) == rest);
    while to > from && is_white_char(s.get_char(to - 1))
        invariant
            from <= to <= n == s@.len(),
            trimmed_end(s@.subrange(from as int, to as int)) == trimmed_end(rest),
        decreases to,
    {
        assert(s@.subrange(from as int, to as int).drop_last() == s@.subrange(
            from as int,
            to - 1,
        ));
        to = to - 1;
    }
    s.substring_char(from, to).to_owned()
}

/// The position of the first `c` in `s`.
pub open spec fn first_at(s: Seq<char>, c: char) -> Option<nat>
    decreases s.len(),
{
    if s.len() == 0 {
        None
    } else if s.first() == c {
        Some(0)
    } else {
        match first_at(s.drop_first(), c) {
            Some(i) => Some(i + 1),
            None => None,
        }
    }
}

/// Where a character first occurs in a text.
pub fn find_char(s: &str, c: char) -> (r: Option<usize>)
    ensures
        first_at(s@, c) == (match r {
            Some(i) => Some(i as nat),
            None => None,
        }),
        r matches Some(i) ==> i < s@.len(),
{
    let n: usize = s.unicode_len();
    let mut i: usize = 0;
    assert(s@.skip(0) == s@);
    while i < n
        invariant
            i <= n == s@.len(),
            first_at(s@, c) == (match first_at(s@.skip(i as int), c) {
                Some(j) => Some(j + i as nat),
                None => None,
            }),
        decreases n - i,
    {
        if s.get_char(i) == c {
            return Some(i);
        }
        assert(s@.skip(i as int).drop_first() == s@.skip(i + 1));
        i = i + 1;
    }
    None
}

/// What stands before the first `c`, all of `s` where there is none.
pub open spec fn before(s: Seq<char>, c: char) -> Seq<char> {
    match first_at(s, c) {
        Some(i) => s.take(i as int),
        None => s,
    }
}

/// The part of a text before the first occurrence of a character.
pub fn up_to(s: &str, c: char) -> (r: String)
    ensures
        r@ == before(s@, c),
{
    match find_char(s, c) {
        Some(i) => {
            assert(s@.take(i as int) == s@.subrange(0, i as int));
            s.substring_char(0, i).to_owned()
        },
        None => s.to_owned(),
    }
}

/// `s` with every occurrence of `pattern`, from the left, replaced by `with`.
pub open spec fn replaced(s: Seq<char>, pattern: Seq<char>, with: Seq<char>) -> Seq<char>
    decreases s.len(),
{
    if pattern.len() == 0 || s.len() < pattern.len() {
        s
    } else if s.take(pattern.len() as int) == pattern {
        with + replaced(s.skip(pattern.len() as int), pattern, with)
    } else {
        seq![s[0]] + replaced(s.drop_first(), pattern, with)
    }
}

/// The characters of a text.
fn char_list(s: &str) -> (r: Vec<char>)
    ensures
        r@ == s@,
{
    let mut r: Vec<char> = Vec::new();
    for c in it: s.chars()
        invariant
            r@ == it.seq().take(it.index() as int),
            it.seq() == s@,
    {
        r.push(c);
    }
    r
}

/// Whether `pattern` stands at position `at`.
fn stands_at(chars: &Vec<char>, at: usize, pattern: &Vec<char>) -> (r: bool)
    requires
        at + pattern@.len() <= chars@.len(),
    ensures
        r == (chars@.skip(at as int).take(pattern@.len() as int) == pattern@),
{
    let ghost here = chars@.skip(at as int).take(pattern@.len() as int);
    let n: usize = chars.len();
    let mut i: usize = 0;
    while i < pattern.len()
        invariant
            i <= pattern@.len(),
            at + pattern@.len() <= n == chars@.len(),
            here == chars@.skip(at as int).take(pattern@.len() as int),
            forall|j: int| 0 <= j < i ==> here[j] == #[trigger] pattern@[j],
        decreases pattern.len() - i,
    {
        assert(here[i as int] == chars@[at + i]);
        if chars[at + i] != pattern[i] {
            return false;
        }
        i = i + 1;
    }
    assert(here =~= pattern@);
    true
}

/// Replaces every occurrence of a pattern.
pub fn replace(s: &str, pattern: &str, with: &str) -> (r: String)
    requires
        pattern@.len() > 0,
    ensures
        r@ == replaced(s@, pattern@, with@),
{
    let chars: Vec<char> = char_list(s);
    let wanted: Vec<char> = char_list(pattern);
    let n: usize = chars.len();
    let k: usize = wanted.len();
    let mut r: String = String::new();
    let mut done: usize = 0;
    let mut i: usize = 0;
    assert(s@.skip(0) == s@);
    assert(r@ + s@.subrange(0, 0) + replaced(s@, pattern@, with@) =~= replaced(
        s@,
        pattern@,
        with@,
    ));
    while i < n && k <= n - i
        invariant
            chars@ == s@,
            wanted@ == pattern@,
            n == chars@.len(),
            k == wanted@.len(),
            k > 0,
            done <= i <= n,
            r@ + s@.subrange(done as int, i as int) + replaced(s@.skip(i as int), pattern@, with@)
                == replaced(s@, pattern@, with@),
        decreases n - i,
    {
        let ghost rest = s@.skip(i as int);
        let ghost pending = s@.subrange(done as int, i as int);
        if stands_at(&chars, i, &wanted) {
            let ghost out = r@;
            r.append(s.substring_char(done, i));
            r.append(with);
            assert(rest.skip(k as int) == s@.skip(i + k));
            i = i + k;
            done = i;
            assert(r@ =~= out + pending + with@);
            assert(s@.subrange(done as int, i as int) =~= Seq::<char>::empty());
            assert(r@ + Seq::<char>::empty() + replaced(s@.skip(i as int), pattern@, with@)
                =~= out + pending + (with@ + replaced(s@.skip(i as int), pattern@, with@)));
        } else {
            assert(rest.drop_first() == s@.skip(i + 1));
            assert(s@.subrange(done as int, i + 1) =~= pending.push(s@[i as int]));
            assert(r@ + pending.push(s@[i as int]) + replaced(s@.skip(i + 1), pattern@, with@)
                =~= r@ + pending + (seq![rest[0]] + replaced(
                s@.skip(i + 1),
                pattern@,
                with@,
            )));
            i = i + 1;
        }
    }
    let ghost out = r@;
    r.append(s.substring_char(done, n));
    assert(replaced(s@.skip(i as int), pattern@, with@) == s@.skip(i as int));
    assert(out + s@.subrange(done as int, i as int) + s@.skip(i as int) =~= out + s@.subrange(
        done as int,
        n as int,
    ));
    r
}

/// The views of several texts.
pub open spec fn views(list: Seq<String>) -> Seq<Seq<char>> {
    list.map_values(|s: String| s@)
}

/// The texts of `list` with `sep` between each two.
pub open spec fn joined(list: Seq<Seq<char>>, sep: Seq<char>) -> Seq<char>
    decreases list.len(),
{
    if list.len() == 0 {
        seq![]
    } else if list.len() == 1 {
        list[0]
    } else {
        joined(list.drop_last(), sep) + sep + list.last()
    }
}

/// Joins texts with a separator.
pub fn join(list: &Vec<String>, sep: &str) -> (r: String)
    ensures
        r@ == joined(views(list@), sep@),
{
    let mut r: String = String::new();
    let mut i: usize = 0;
    while i < list.len()
        invariant
            i <= list.len(),
            r@ == joined(views(list@).take(i as int), sep@),
        decreases list.len() - i,
    {
        let ghost now = views(list@).take(i + 1);
        assert(now.drop_last() == views(list@).take(i as int));
        if i > 0 {
            r.append(sep);
        }
        r.append(list[i].as_str());
        proof {
            if i == 0 {
                assert(now[0] == list[0]@);
                assert(Seq::<char>::empty() + list[0]@ == list[0]@);
            }
        }
        i = i + 1;
    }
    assert(views(list@).take(i as int) == views(list@));
    r
}

/// The character of a digit below sixteen.
pub open spec fn digit_char(d: nat) -> char {
    if d == 0 {
        '0'
    } else if d == 1 {
        '1'
    } else if d == 2 {
        '2'
    } else if d == 3 {
        '3'
    } else if d == 4 {
        '4'
    } else if d == 5 {
        '5'
    } else if d == 6 {
        '6'
    } else if d == 7 {
        '7'
    } else if d == 8 {
        '8'
    } else if d == 9 {
        '9'
    } else if d == 10 {
        'a'
    } else if d == 11 {
        'b'
    } else if d == 12 {
        'c'
    } else if d == 13 {
        'd'
    } else if d == 14 {
        'e'
    } else {
        'f'
    }
}

/// `n` written in the given base, without leading zeros.
pub open spec fn digits(n: nat, base: nat) -> Seq<char>
    decreases n,
{
    if base < 2 || n < base {
        seq![digit_char(n)]
    } else {
        proof {
            assert(n / base < n) by (nonlinear_arith)
                requires
                    base >= 2,
                    n >= base,
            ;
        }
        digits(n / base, base).push(digit_char(n % base))
    }
}

/// `n` in decimal, with a minus sign where it is negative.
pub open spec fn decimal(n: int) -> Seq<char> {
    if n < 0 {
        "-"@ + digits((-n) as nat, 10)
    } else {
        digits(n as nat, 10)
    }
}

fn digit_text(d: u64) -> (r: &'static str)
    requires
        d < 16,
    ensures
        r@ == seq![digit_char(d as nat)],
{
    proof {
        reveal_strlit("0");
        reveal_strlit("1");
        reveal_strlit("2");
        reveal_strlit("3");
        reveal_strlit("4");
        reveal_strlit("5");
        reveal_strlit("6");
        reveal_strlit("7");
        reveal_strlit("8");
        reveal_strlit("9");
        reveal_strlit("a");
        reveal_strlit("b");
        reveal_strlit("c");
        reveal_strlit("d");
        reveal_strlit("e");
        reveal_strlit("f");
    }
    match d {
        0 => "0",
        1 => "1",
        2 => "2",
        3 => "3",
        4 => "4",
        5 => "5",
        6 => "6",
        7 => "7",
        8 => "8",
        9 => "9",
        10 => "a",
        11 => "b",
        12 => "c",
        13 => "d",
        14 => "e",
        _ => "f",
    }
}

/// Writes a number in a base up to sixteen.
pub fn write_digits(n: u64, base: u64) -> (r: String)
    requires
        2 <= base <= 16,
    ensures
        r@ == digits(n as nat, base as nat),
    decreases n,
{
    if n < base {
        digit_text(n).to_owned()
    } else {
        assert(n / base < n) by (nonlinear_arith)
            requires
                base >= 2,
                n >= base,
        ;
        let head: String = write_digits(n / base, base);
        let ghost h = head@;
        let r: String = head.concat(digit_text(n % base));
        assert(h + seq![digit_char((n % base) as nat)] == h.push(digit_char((n % base) as nat)));
        r
    }
}

/// Digits are digits: none is a dash.
pub proof fn lemma_digits_have_no_dash(n: nat, base: nat)
    requires
        2 <= base <= 16,
    ensures
        digits(n, base).len() > 0,
        forall|i: int| 0 <= i < digits(n, base).len() ==> #[trigger] digits(n, base)[i] != '-',
    decreases n,
{
    if n >= base {
        assert(n / base < n) by (nonlinear_arith)
            requires
                base >= 2,
                n >= base,
        ;
        lemma_digits_have_no_dash(n / base, base);
    }
}

/// The digit that a character stands for.
spec fn char_digit(c: char) -> int {
    if '0' <= c <= '9' {
        c as int - 48
    } else {
        c as int - 87
    }
}

proof fn lemma_char_digit(d: nat)
    requires
        d < 16,
    ensures
        char_digit(digit_char(d)) == d,
{
}

/// Different numbers have different digits.
pub proof fn lemma_digits_differ(a: nat, b: nat, base: nat)
    requires
        2 <= base <= 16,
        digits(a, base) == digits(b, base),
    ensures
        a == b,
    decreases a,
{
    lemma_digits_have_no_dash(a / base, base);
    lemma_digits_have_no_dash(b / base, base);
    assert(a % base < base && b % base < base) by (nonlinear_arith)
        requires
            base >= 2,
    ;
    if a < base && b < base {
        lemma_char_digit(a);
        lemma_char_digit(b);
        assert(digits(a, base)[0] == digit_char(a));
        assert(digits(b, base)[0] == digit_char(b));
    } else if a < base {
        assert(digits(a, base).len() == 1 && digits(b, base).len() > 1);
    } else if b < base {
        assert(digits(b, base).len() == 1 && digits(a, base).len() > 1);
    } else {
        assert(a / base < a) by (nonlinear_arith)
            requires
                base >= 2,
                a >= base,
        ;
        assert(digits(a, base).drop_last() == digits(a / base, base));
        assert(digits(b, base).drop_last() == digits(b / base, base));
        lemma_digits_differ(a / base, b / base, base);
        assert(digits(a, base).last() == digit_char(a % base));
        assert(digits(b, base).last() == digit_char(b % base));
        lemma_char_digit(a % base);
        lemma_char_digit(b % base);
        vstd::arithmetic::div_mod::lemma_fundamental_div_mod(a as int, base as int);
        vstd::arithmetic::div_mod::lemma_fundamental_div_mod(b as int, base as int);
    }
}

/// Writes a number in decimal.
pub fn write_decimal(n: i64) -> (r: String)
    ensures
        r@ == decimal(n as int),
{
    if n >= 0 {
        write_digits(n as u64, 10)
    } else {
        let m: u64 = if n == i64::MIN {
            0x8000_0000_0000_0000
        } else {
            (-n) as u64
        };
        "-".to_owned().concat(write_digits(m, 10).as_str())
    }
}

/// The number that decimal digits stand for.
pub open spec fn digits_value(s: Seq<char>) -> nat
    decreases s.len(),
{
    if s.len() == 0 {
        0
    } else {
        (digits_value(s.drop_last()) * 10 + (s.last() as int - '0' as int)) as nat
    }
}

pub open spec fn all_digits(s: Seq<char>) -> bool {
    forall|i: int| 0 <= i < s.len() ==> '0' <= #[trigger] s[i] <= '9'
}

/// The number in `s`: decimal digits after an optional plus sign.
pub open spec fn unsigned_value(s: Seq<char>) -> Option<nat> {
    let d = if s.len() > 0 && s[0] == '+' {
        s.skip(1)
    } else {
        s
    };
    if d.len() > 0 && all_digits(d) {
        Some(digits_value(d))
    } else {
        None
    }
}

/// The number in `s`: decimal digits after an optional sign.
pub open spec fn signed_value(s: Seq<char>) -> Option<int> {
    if s.len() > 1 && s[0] == '-' && all_digits(s.skip(1)) {
        Some(-(digits_value(s.skip(1)) as int))
    } else {
        match unsigned_value(s) {
            Some(n) => Some(n as int),
            None => None,
        }
    }
}

/// Why a text cannot be read.
#[derive(Clone, Copy, Debug, PartialEq, Eq, Structural)]
pub enum Misread {
    /// It is neither true nor false.
    NotTruth,
    /// It is empty and not an integer.
    NoInteger,
    /// Something in it is not a digit.
    WrongDigit,
    TooLarge,
    TooSmall,
    /// It is empty and not a number.
    NoNumber,
    /// It is not a number.
    NotNumber,
}

impl Misread {
    /// The reason in words.
    pub open spec fn words(self) -> Seq<char> {
        match self {
            Misread::NotTruth => "provided string was not `true` or `false`"@,
            Misread::NoInteger => "cannot parse integer from empty string"@,
            Misread::WrongDigit => "invalid digit found in string"@,
            Misread::TooLarge => "number too large to fit in target type"@,
            Misread::TooSmall => "number too small to fit in target type"@,
            Misread::NoNumber => "cannot parse float from empty string"@,
            Misread::NotNumber => "invalid float literal"@,
        }
    }

    /// The reason in words.
    pub fn text(self) -> (r: String)
        ensures
            r@ == self.words(),
    {
        match self {
            Misread::NotTruth => "provided string was not `true` or `false`".to_owned(),
            Misread::NoInteger => "cannot parse integer from empty string".to_owned(),
            Misread::WrongDigit => "invalid digit found in string".to_owned(),
            Misread::TooLarge => "number too large to fit in target type".to_owned(),
            Misread::TooSmall => "number too small to fit in target type".to_owned(),
            Misread::NoNumber => "cannot parse float from empty string".to_owned(),
            Misread::NotNumber => "invalid float literal".to_owned(),
        }
    }
}

/// `x` was read.
pub open spec fn read<T>(x: T) -> Result<T, Misread> {
    Ok(x)
}

/// `d` is decimal digits of a number of at most `max`.
pub open spec fn is_readable(d: Seq<char>, max: nat) -> bool {
    all_digits(d) && digits_value(d) <= max
}

/// Why `d` is not decimal digits of a number of at most `max`: the first character that cannot be
/// read after those before it is no digit, or makes the number too large.
pub open spec fn digits_misread(d: Seq<char>, max: nat) -> Misread
    decreases d.len(),
{
    if d.len() == 0 {
        Misread::WrongDigit
    } else if !is_readable(d.drop_last(), max) {
        digits_misread(d.drop_last(), max)
    } else if '0' <= d.last() <= '9' {
        Misread::TooLarge
    } else {
        Misread::WrongDigit
    }
}

/// Why `s` is not an unsigned integer of at most `max`.
pub open spec fn unsigned_misread(s: Seq<char>, max: nat) -> Misread {
    if s.len() == 0 {
        Misread::NoInteger
    } else if s[0] == '+' {
        digits_misread(s.skip(1), max)
    } else {
        digits_misread(s, max)
    }
}

/// Why `s` is not a signed integer of 64 bits.
pub open spec fn signed_misread(s: Seq<char>) -> Misread {
    if s.len() > 0 && s[0] == '-' {
        match digits_misread(s.skip(1), 0x8000_0000_0000_0000) {
            Misread::TooLarge => Misread::TooSmall,
            other => other,
        }
    } else {
        unsigned_misread(s, 0x7fff_ffff_ffff_ffff)
    }
}

proof fn lemma_digits_value_grows(s: Seq<char>, i: int)
    requires
        0 <= i <= s.len(),
        all_digits(s),
    ensures
        digits_value(s.take(i)) <= digits_value(s),
    decreases s.len() - i,
{
    if i == s.len() {
        assert(s.take(i) == s);
    } else {
        lemma_digits_value_grows(s, i + 1);
        assert(s.take(i + 1).drop_last() == s.take(i));
        assert(s.take(i + 1).last() == s[i]);
    }
}

/// What cannot be read of the front of `d` cannot be read of `d`, for the same reason.
proof fn lemma_misread_front(d: Seq<char>, k: int, max: nat)
    requires
        0 <= k <= d.len(),
        !is_readable(d.take(k), max),
    ensures
        !is_readable(d, max),
        digits_misread(d, max) == digits_misread(d.take(k), max),
    decreases d.len() - k,
{
    if k == d.len() {
        assert(d.take(k) == d);
    } else {
        let rest = d.drop_last();
        assert(rest.take(k) == d.take(k));
        lemma_misread_front(rest, k, max);
        if all_digits(d) {
            assert(all_digits(rest)) by {
                assert forall|i: int| 0 <= i < rest.len() implies '0' <= #[trigger] rest[i]
                    <= '9' by {
                    assert(rest[i] == d[i]);
                }
            }
            lemma_digits_value_grows(d, d.len() - 1);
            assert(d.take(d.len() - 1) == rest);
        }
    }
}

/// The digits of `s` from position `from` on, where they are at most `max`.
fn read_digits(s: &str, from: usize, max: u64) -> (r: Result<u64, Misread>)
    requires
        from <= s@.len(),
    ensures
        r == (if s@.len() > from && is_readable(s@.skip(from as int), max as nat) {
            Ok(digits_value(s@.skip(from as int)) as u64)
        } else {
            Err(digits_misread(s@.skip(from as int), max as nat))
        }),
{
    let n: usize = s.unicode_len();
    let ghost d = s@.skip(from as int);
    if from == n {
        return Err(Misread::WrongDigit);
    }
    let mut i: usize = from;
    let mut v: u64 = 0;
    while i < n
        invariant
            from <= i <= n == s@.len(),
            from < n,
            d == s@.skip(from as int),
            forall|j: int| 0 <= j < i - from ==> '0' <= #[trigger] d[j] <= '9',
            v == digits_value(d.take(i - from)),
            v <= max,
        decreases n - i,
    {
        let c: char = s.get_char(i);
        let ghost front = d.take(i - from + 1);
        assert(d[i - from] == c);
        assert(front.drop_last() == d.take(i - from));
        assert(front.last() == c);
        assert(is_readable(front.drop_last(), max as nat));
        if c < '0' || c > '9' {
            proof {
                assert(!('0' <= front[i - from] <= '9'));
                lemma_misread_front(d, i - from + 1, max as nat);
            }
            return Err(Misread::WrongDigit);
        }
        let x: u64 = c as u64 - 48;
        assert(digits_value(front) == v * 10 + x);
        if v > max / 10 || max - v * 10 < x {
            proof {
                lemma_misread_front(d, i - from + 1, max as nat);
            }
            return Err(Misread::TooLarge);
        }
        v = v * 10 + x;
        i = i + 1;
    }
    assert(d.take(i - from) == d);
    Ok(v)
}

/// Reads an unsigned integer of at most `max`.
pub fn read_unsigned(s: &str, max: u64) -> (r: Result<u64, Misread>)
    ensures
        r == (match unsigned_value(s@) {
            Some(n) if n <= max => Ok(n as u64),
            _ => Err(unsigned_misread(s@, max as nat)),
        }),
{
    let n: usize = s.unicode_len();
    assert(s@.skip(0) == s@);
    if n == 0 {
        Err(Misread::NoInteger)
    } else if s.get_char(0) == '+' {
        read_digits(s, 1, max)
    } else {
        read_digits(s, 0, max)
    }
}

/// Reads a signed integer of 64 bits.
pub fn read_signed(s: &str) -> (r: Result<i64, Misread>)
    ensures
        r == (match signed_value(s@) {
            Some(n) if i64::MIN <= n <= i64::MAX => Ok(n as i64),
            _ => Err(signed_misread(s@)),
        }),
{
    let n: usize = s.unicode_len();
    if n > 0 && s.get_char(0) == '-' {
        assert(unsigned_value(s@) is None) by {
            assert(s@[0] == '-');
        }
        match read_digits(s, 1, 0x8000_0000_0000_0000) {
            Ok(m) => {
                if m == 0x8000_0000_0000_0000 {
                    Ok(i64::MIN)
                } else {
                    Ok(-(m as i64))
                }
            },
            Err(Misread::TooLarge) => Err(Misread::TooSmall),
            Err(e) => Err(e),
        }
    } else {
        match read_unsigned(s, 0x7fff_ffff_ffff_ffff) {
            Ok(m) => Ok(m as i64),
            Err(e) => Err(e),
        }
    }
}

/// Decimal digits are read as the number they were written for.
pub proof fn lemma_digits_are_read(n: nat)
    ensures
        digits(n, 10).len() > 0,
        all_digits(digits(n, 10)),
        digits_value(digits(n, 10)) == n,
    decreases n,
{
    if n >= 10 {
        let front = digits(n / 10, 10);
        lemma_digits_are_read(n / 10);
        assert(digits(n, 10).drop_last() =~= front);
        assert(digits(n, 10).last() == digit_char(n % 10));
    } else {
        let one = digits(n, 10);
        assert(one.drop_last() =~= Seq::<char>::empty());
        assert(one.last() == digit_char(n));
        assert(digits_value(one.drop_last()) == 0);
    }
}

/// An integer is read from what is written for it, with a plus sign in front or without.
pub proof fn lemma_written_is_read(n: int)
    ensures
        signed_value(decimal(n)) == Some(n),
        n >= 0 ==> unsigned_value(decimal(n)) == Some(n as nat),
        n >= 0 ==> signed_value(seq!['+'] + decimal(n)) == Some(n),
        n >= 0 ==> unsigned_value(seq!['+'] + decimal(n)) == Some(n as nat),
        n < 0 ==> unsigned_value(decimal(n)) is None,
{
    reveal_strlit("-");
    if n >= 0 {
        let d = digits(n as nat, 10);
        lemma_digits_are_read(n as nat);
        assert('0' <= d[0] <= '9');
        let plus = seq!['+'] + d;
        assert(plus.skip(1) =~= d);
        assert(plus[0] == '+');
    } else {
        let d = digits((-n) as nat, 10);
        lemma_digits_are_read((-n) as nat);
        let s = decimal(n);
        assert(s.skip(1) =~= d);
        assert(s[0] == '-');
        assert(!all_digits(s));
    }
}

/// Only the slashes, or whatever character it is, at the end of a text are taken off, and all of
/// them are.
pub proof fn lemma_without_end(s: Seq<char>, c: char)
    ensures
        ({
            let r = without_end(s, c);
            &&& r.len() <= s.len()
            &&& r == s.take(r.len() as int)
            &&& forall|i: int| r.len() <= i < s.len() ==> #[trigger] s[i] == c
            &&& r.len() > 0 ==> r.last() != c
        }),
    decreases s.len(),
{
    if s.len() > 0 && s.last() == c {
        lemma_without_end(s.drop_last(), c);
        let r = without_end(s, c);
        assert(s.drop_last().take(r.len() as int) =~= s.take(r.len() as int));
        assert forall|i: int| r.len() <= i < s.len() implies #[trigger] s[i] == c by {
            if i < s.len() - 1 {
                assert(s.drop_last()[i] == s[i]);
            }
        }
    } else {
        assert(s.take(s.len() as int) =~= s);
    }
}

proof fn lemma_trimmed_end(s: Seq<char>)
    ensures
        ({
            let r = trimmed_end(s);
            &&& r.len() <= s.len()
            &&& r == s.take(r.len() as int)
            &&& forall|i: int| r.len() <= i < s.len() ==> is_white(#[trigger] s[i])
            &&& r.len() > 0 ==> !is_white(r.last())
        }),
    decreases s.len(),
{
    if s.len() > 0 && is_white(s.last()) {
        lemma_trimmed_end(s.drop_last());
        let r = trimmed_end(s);
        assert(s.drop_last().take(r.len() as int) =~= s.take(r.len() as int));
        assert forall|i: int| r.len() <= i < s.len() implies is_white(#[trigger] s[i]) by {
            if i < s.len() - 1 {
                assert(s.drop_last()[i] == s[i]);
            }
        }
    } else {
        assert(s.take(s.len() as int) =~= s);
    }
}

proof fn lemma_trimmed_start(s: Seq<char>)
    ensures
        ({
            let r = trimmed_start(s);
            let k = s.len() - r.len();
            &&& k >= 0
            &&& r == s.skip(k)
            &&& forall|i: int| 0 <= i < k ==> is_white(#[trigger] s[i])
            &&& r.len() > 0 ==> !is_white(r[0])
        }),
    decreases s.len(),
{
    if s.len() > 0 && is_white(s.first()) {
        lemma_trimmed_start(s.drop_first());
        let r = trimmed_start(s);
        let k = s.len() - r.len();
        assert(s.drop_first().skip(k - 1) =~= s.skip(k));
        assert forall|i: int| 0 <= i < k implies is_white(#[trigger] s[i]) by {
            if i > 0 {
                assert(s.drop_first()[i - 1] == s[i]);
            }
        }
    } else {
        assert(s.skip(0) =~= s);
    }
}

/// Trimming takes off white space at both ends and nothing else, and leaves none there.
pub proof fn lemma_trimmed(s: Seq<char>)
    ensures
        ({
            let r = trimmed_end(trimmed_start(s));
            let k = s.len() - trimmed_start(s).len();
            &&& 0 <= k <= k + r.len() <= s.len()
            &&& r == s.subrange(k, k + r.len())
            &&& forall|i: int|
                0 <= i < k || k + r.len() <= i < s.len() ==> is_white(#[trigger] s[i])
            &&& r.len() > 0 ==> !is_white(r[0]) && !is_white(r.last())
        }),
{
    let rest = trimmed_start(s);
    let r = trimmed_end(rest);
    let k = s.len() - rest.len();
    lemma_trimmed_start(s);
    lemma_trimmed_end(rest);
    assert(rest.take(r.len() as int) =~= s.subrange(k, k + r.len()));
    assert forall|i: int| 0 <= i < k || k + r.len() <= i < s.len() implies is_white(
        #[trigger] s[i],
    ) by {
        if i >= k {
            assert(rest[i - k] == s[i]);
        }
    }
}

/// The first occurrence of a character is one, and there is none before it.
pub proof fn lemma_first_at(s: Seq<char>, c: char)
    ensures
        match first_at(s, c) {
            Some(i) => i < s.len() && s[i as int] == c && forall|j: int|
                0 <= j < i ==> #[trigger] s[j] != c,
            None => forall|j: int| 0 <= j < s.len() ==> #[trigger] s[j] != c,
        },
    decreases s.len(),
{
    if s.len() > 0 && s.first() != c {
        let rest = s.drop_first();
        lemma_first_at(rest, c);
        assert forall|j: int| 1 <= j < s.len() implies #[trigger] s[j] == rest[j - 1] by {}
    }
}

/// What comes before the first occurrence of a pattern stays, and what follows it is searched on.
/// A text without the pattern stays as it is.
pub proof fn lemma_replaced(s: Seq<char>, pattern: Seq<char>, with: Seq<char>, at: int)
    requires
        pattern.len() > 0,
        0 <= at <= s.len(),
        forall|j: int|
            0 <= j < at && j + pattern.len() <= s.len() ==> #[trigger] s.subrange(
                j,
                j + pattern.len(),
            ) != pattern,
        at < s.len() ==> at + pattern.len() <= s.len() && s.subrange(at, at + pattern.len())
            == pattern,
    ensures
        at < s.len() ==> replaced(s, pattern, with) == s.take(at) + with + replaced(
            s.skip(at + pattern.len()),
            pattern,
            with,
        ),
        at == s.len() ==> replaced(s, pattern, with) == s,
    decreases at,
{
    let n = pattern.len() as int;
    if s.len() < n {
        assert(at == s.len());
    } else if at == 0 {
        assert(s.subrange(0, n) =~= s.take(n));
        assert(s.take(0) + with =~= with);
    } else {
        assert(s.subrange(0, n) =~= s.take(n));
        let start: int = 0;
        assert(s.subrange(start, start + pattern.len()) != pattern);
        let rest = s.drop_first();
        assert forall|j: int| 0 <= j < at - 1 && j + n <= rest.len() implies #[trigger] rest.subrange(
            j,
            j + n,
        ) != pattern by {
            assert(rest.subrange(j, j + n) =~= s.subrange(j + 1, j + 1 + n));
        }
        if at < s.len() {
            assert(rest.subrange(at - 1, at - 1 + n) =~= s.subrange(at, at + n));
        }
        lemma_replaced(rest, pattern, with, at - 1);
        if at < s.len() {
            assert(rest.skip(at - 1 + n) =~= s.skip(at + n));
            let tail = replaced(s.skip(at + n), pattern, with);
            assert(seq![s[0]] + (rest.take(at - 1) + with + tail) =~= s.take(at) + with + tail);
        } else {
            assert(seq![s[0]] + rest =~= s);
        }
    }
}

/// Joining lists one after the other is joining them with a separator between.
pub proof fn lemma_joined_parts(a: Seq<Seq<char>>, b: Seq<Seq<char>>, sep: Seq<char>)
    requires
        a.len() > 0,
        b.len() > 0,
    ensures
        joined(a + b, sep) == joined(a, sep) + sep + joined(b, sep),
    decreases b.len(),
{
    let all = a + b;
    assert(all.drop_last() =~= a + b.drop_last());
    assert(all.last() == b.last());
    if b.len() == 1 {
        assert(all.drop_last() =~= a);
        assert(joined(b, sep) == b[0]);
    } else {
        lemma_joined_parts(a, b.drop_last(), sep);
        let x = joined(a, sep);
        let y = joined(b.drop_last(), sep);
        assert((x + sep + y) + sep + b.last() =~= x + sep + (y + sep + b.last()));
    }
}

} // verus!
