//! Text helpers: conversions between strings and character vectors, decimal
//! formatting of integers, and the integer grammar of `str::parse`.
use vstd::prelude::*;
use vstd::string::StringExecFns;

verus! {

/// The characters of a string, as a vector.
#[verifier::external_body]
pub(crate) fn chars_of(s: &str) -> (r: Vec<char>)
    ensures
        r@ == s@,
{
    s.chars().collect()
}

/// A string made of the given characters.
#[verifier::external_body]
pub(crate) fn string_of(v: &Vec<char>) -> (r: String)
    ensures
        r@ == v@,
{
    v.iter().collect()
}

/// A string holding a copy of the literal.
pub fn text(s: &str) -> (r: String)
    ensures
        r@ == s@,
{
    String::from_str(s)
}

/// Concatenation of two texts.
pub fn join2(a: &str, b: &str) -> (r: String)
    ensures
        r@ == a@ + b@,
{
    let mut r = String::from_str(a);
    r.append(b);
    r
}

/// Concatenation of three texts.
pub fn join3(a: &str, b: &str, c: &str) -> (r: String)
    ensures
        r@ == a@ + b@ + c@,
{
    let mut r = String::from_str(a);
    r.append(b);
    r.append(c);
    r
}

/// Character of a decimal digit.
pub open spec fn digit_char(d: int) -> char {
    if d == 0 { '0' }
    else if d == 1 { '1' }
    else if d == 2 { '2' }
    else if d == 3 { '3' }
    else if d == 4 { '4' }
    else if d == 5 { '5' }
    else if d == 6 { '6' }
    else if d == 7 { '7' }
    else if d == 8 { '8' }
    else { '9' }
}

/// Value of a decimal digit character, `None` for any other character.
pub open spec fn char_digit(c: char) -> Option<int> {
    if '0' <= c && c <= '9' { Some(c as int - '0' as int) } else { None }
}

/// Decimal representation of a natural number, without leading zeros
/// (`"0"` for zero).
pub open spec fn decimal_digits(n: nat) -> Seq<char>
    decreases n,
{
    if n < 10 {
        seq![digit_char(n as int)]
    } else {
        decimal_digits(n / 10).push(digit_char((n % 10) as int))
    }
}

/// `s` preceded by as many `'0'` as needed to reach `width` characters.
pub open spec fn zero_padded(s: Seq<char>, width: int) -> Seq<char> {
    if s.len() >= width { s } else { Seq::new((width - s.len()) as nat, |i: int| '0') + s }
}

/// What `format!("{:0w$}", n)` writes for an integer: the sign, then the
/// digits zero-padded so that the whole takes at least `w` characters.
pub open spec fn padded_int(n: int, w: int) -> Seq<char> {
    if n < 0 {
        seq!['-'] + zero_padded(decimal_digits((-n) as nat), w - 1)
    } else {
        zero_padded(decimal_digits(n as nat), w)
    }
}

proof fn lemma_digit_char(d: int)
    requires
        0 <= d < 10,
    ensures
        char_digit(digit_char(d)) == Some(d),
{
}

/// Decimal digits of a natural number.
pub fn format_nat(n: u64) -> (r: Vec<char>)
    ensures
        r@ == decimal_digits(n as nat),
    decreases n,
{
    if n < 10 {
        let mut v: Vec<char> = Vec::new();
        v.push(digit(n));
        v
    } else {
        let mut v = format_nat(n / 10);
        v.push(digit(n % 10));
        v
    }
}

fn digit(d: u64) -> (c: char)
    requires
        d < 10,
    ensures
        c == digit_char(d as int),
{
    if d == 0 { '0' }
    else if d == 1 { '1' }
    else if d == 2 { '2' }
    else if d == 3 { '3' }
    else if d == 4 { '4' }
    else if d == 5 { '5' }
    else if d == 6 { '6' }
    else if d == 7 { '7' }
    else if d == 8 { '8' }
    else { '9' }
}

/// `format!("{:0w$}", n)`.
pub fn format_padded(n: i64, w: usize) -> (r: Vec<char>)
    requires
        n > i64::MIN,
        w < 64,
    ensures
        r@ == padded_int(n as int, w as int),
{
    let (digits, width, negative) = if n < 0 {
        (format_nat((-n) as u64), if w > 0 { w - 1 } else { 0 }, true)
    } else {
        (format_nat(n as u64), w, false)
    };
    let mut r: Vec<char> = Vec::new();
    if negative {
        r.push('-');
    }
    let start = r.len();
    let mut i: usize = digits.len();
    while i < width
        invariant
            i == digits.len() || (digits.len() < i <= width),
            width < 64,
            start <= 1,
            r@.len() == start + (i - digits.len()),
            negative ==> r@[0] == '-',
            start == (if negative { 1int } else { 0 }),
            forall|j: int| start <= j < r@.len() ==> r@[j] == '0',
        decreases width - i,
    {
        r.push('0');
        i = i + 1;
    }
    let mut k: usize = 0;
    let mid = r.len();
    while k < digits.len()
        invariant
            mid <= r@.len(),
            k <= digits.len(),
            r@.len() == mid + k,
            forall|j: int| 0 <= j < mid ==> r@[j] == #[trigger] r@[j],
            forall|j: int| 0 <= j < k ==> r@[mid + j] == digits@[j],
            negative ==> r@[0] == '-',
            start == (if negative { 1int } else { 0 }),
            forall|j: int| start <= j < mid ==> r@[j] == '0',
            mid == start + (if width > digits.len() { width - digits.len() } else { 0 }),
        decreases digits.len() - k,
    {
        r.push(digits[k]);
        k = k + 1;
    }
    proof {
        let pad = if width > digits.len() { (width - digits.len()) as int } else { 0 };
        let zs = Seq::new(pad as nat, |i: int| '0');
        if negative {
            assert(r@ =~= seq!['-'] + (zs + digits@));
            assert(zero_padded(digits@, width as int) =~= zs + digits@);
        } else {
            assert(r@ =~= zs + digits@);
            assert(zero_padded(digits@, width as int) =~= zs + digits@);
        }
    }
    r
}

/// Why `str::parse` refuses a text as an integer (the kinds of
/// `std::num::IntErrorKind` that parsing can produce).
#[derive(Clone, Copy, Debug, PartialEq, Eq, Structural)]
pub enum IntErrorKind {
    Empty,
    InvalidDigit,
    PosOverflow,
    NegOverflow,
}

impl IntErrorKind {
    /// The text that `std::num::ParseIntError` displays for this kind.
    pub open spec fn spec_message(self) -> Seq<char> {
        match self {
            IntErrorKind::Empty => "cannot parse integer from empty string"@,
            IntErrorKind::InvalidDigit => "invalid digit found in string"@,
            IntErrorKind::PosOverflow => "number too large to fit in target type"@,
            IntErrorKind::NegOverflow => "number too small to fit in target type"@,
        }
    }

    /// The text that `std::num::ParseIntError` displays for this kind.
    pub fn message(&self) -> (r: String)
        ensures
            r@ == self.spec_message(),
    {
        match self {
            IntErrorKind::Empty => text("cannot parse integer from empty string"),
            IntErrorKind::InvalidDigit => text("invalid digit found in string"),
            IntErrorKind::PosOverflow => text("number too large to fit in target type"),
            IntErrorKind::NegOverflow => text("number too small to fit in target type"),
        }
    }
}

/// Scans the digits `s[from..to]` left to right, accumulating a value of
/// the given sign that must stay within `[min, max]`: what `str::parse`
/// does after the sign.
pub open spec fn scan_digits(s: Seq<char>, from: int, to: int, negative: bool, min: int, max: int) -> Result<int, IntErrorKind>
    decreases to - from,
{
    if to <= from {
        Ok(0)
    } else {
        match scan_digits(s, from, to - 1, negative, min, max) {
            Err(e) => Err(e),
            Ok(v) => match char_digit(s[to - 1]) {
                None => Err(IntErrorKind::InvalidDigit),
                Some(d) => {
                    let next = if negative { v * 10 - d } else { v * 10 + d };
                    if next > max {
                        Err(IntErrorKind::PosOverflow)
                    } else if next < min {
                        Err(IntErrorKind::NegOverflow)
                    } else {
                        Ok(next)
                    }
                },
            },
        }
    }
}

/// The integer grammar of `str::parse` for a type with bounds `[min, max]`:
/// an optional sign (`-` only when the type is signed), then one or more
/// ASCII digits.
pub open spec fn parse_int_spec(s: Seq<char>, signed: bool, min: int, max: int) -> Result<int, IntErrorKind> {
    if s.len() == 0 {
        Err(IntErrorKind::Empty)
    } else if s.len() == 1 && (s[0] == '+' || s[0] == '-') {
        Err(IntErrorKind::InvalidDigit)
    } else if s[0] == '+' {
        scan_digits(s, 1, s.len() as int, false, min, max)
    } else if s[0] == '-' && signed {
        scan_digits(s, 1, s.len() as int, true, min, max)
    } else {
        scan_digits(s, 0, s.len() as int, false, min, max)
    }
}

proof fn lemma_scan_bounds(s: Seq<char>, from: int, to: int, negative: bool, min: int, max: int)
    requires
        min <= 0 <= max,
    ensures
        scan_digits(s, from, to, negative, min, max) matches Ok(v) ==> min <= v <= max,
        scan_digits(s, from, to, negative, min, max) matches Ok(v) ==> (negative ==> v <= 0) && (!negative ==> v >= 0),
    decreases to - from,
{
    if to > from {
        lemma_scan_bounds(s, from, to - 1, negative, min, max);
    }
}

/// A parsed integer lies within the bounds of its type.
pub proof fn lemma_parse_int_bounds(s: Seq<char>, signed: bool, min: int, max: int)
    requires
        min <= 0 <= max,
    ensures
        parse_int_spec(s, signed, min, max) matches Ok(v) ==> min <= v <= max,
{
    if s.len() > 0 {
        if s[0] == '+' || (s[0] == '-' && signed) {
            lemma_scan_bounds(s, 1, s.len() as int, s[0] == '-' && signed && s[0] != '+', min, max);
            lemma_scan_bounds(s, 1, s.len() as int, false, min, max);
            lemma_scan_bounds(s, 1, s.len() as int, true, min, max);
        } else {
            lemma_scan_bounds(s, 0, s.len() as int, false, min, max);
        }
    }
}

/// Parses a text as `str::parse::<i64>` would, within the bounds
/// `[min, max]` of the target type.
pub fn parse_int(s: &Vec<char>, signed: bool, min: i64, max: i64) -> (r: Result<i64, IntErrorKind>)
    requires
        min <= 0 <= max,
    ensures
        match parse_int_spec(s@, signed, min as int, max as int) {
            Ok(v) => r == Ok::<i64, IntErrorKind>(v as i64),
            Err(e) => r == Err::<i64, IntErrorKind>(e),
        },
{
    let n = s.len();
    if n == 0 {
        return Err(IntErrorKind::Empty);
    }
    if n == 1 && (s[0] == '+' || s[0] == '-') {
        return Err(IntErrorKind::InvalidDigit);
    }
    let (from, negative): (usize, bool) = if s[0] == '+' {
        (1, false)
    } else if s[0] == '-' && signed {
        (1, true)
    } else {
        (0, false)
    };
    assert(parse_int_spec(s@, signed, min as int, max as int) == scan_digits(s@, from as int, n as int, negative, min as int, max as int));
    let mut i: usize = from;
    let mut v: i64 = 0;
    while i < n
        invariant
            from <= i <= n,
            n == s@.len(),
            min <= 0 <= max,
            scan_digits(s@, from as int, i as int, negative, min as int, max as int) == Ok::<int, IntErrorKind>(v as int),
            parse_int_spec(s@, signed, min as int, max as int) == scan_digits(s@, from as int, n as int, negative, min as int, max as int),
        decreases n - i,
    {
        proof {
            lemma_scan_bounds(s@, from as int, i as int, negative, min as int, max as int);
        }
        let c = s[i];
        if !('0' <= c && c <= '9') {
            proof {
                assert(scan_digits(s@, from as int, (i + 1) as int, negative, min as int, max as int) == Err::<int, IntErrorKind>(IntErrorKind::InvalidDigit));
                lemma_scan_error_sticks(s@, from as int, (i + 1) as int, n as int, negative, min as int, max as int);
            }
            return Err(IntErrorKind::InvalidDigit);
        }
        let d: i64 = (c as u32 - '0' as u32) as i64;
        let next: i128 = if negative { v as i128 * 10 - d as i128 } else { v as i128 * 10 + d as i128 };
        if next > max as i128 {
            proof {
                assert(scan_digits(s@, from as int, (i + 1) as int, negative, min as int, max as int) == Err::<int, IntErrorKind>(IntErrorKind::PosOverflow));
                lemma_scan_error_sticks(s@, from as int, (i + 1) as int, n as int, negative, min as int, max as int);
            }
            return Err(IntErrorKind::PosOverflow);
        }
        if next < min as i128 {
            proof {
                assert(scan_digits(s@, from as int, (i + 1) as int, negative, min as int, max as int) == Err::<int, IntErrorKind>(IntErrorKind::NegOverflow));
                lemma_scan_error_sticks(s@, from as int, (i + 1) as int, n as int, negative, min as int, max as int);
            }
            return Err(IntErrorKind::NegOverflow);
        }
        v = next as i64;
        i = i + 1;
    }
    Ok(v)
}

proof fn lemma_scan_error_sticks(s: Seq<char>, from: int, mid: int, to: int, negative: bool, min: int, max: int)
    requires
        from <= mid <= to,
        scan_digits(s, from, mid, negative, min, max) is Err,
    ensures
        scan_digits(s, from, to, negative, min, max) == scan_digits(s, from, mid, negative, min, max),
    decreases to - mid,
{
    if to > mid {
        lemma_scan_error_sticks(s, from, mid, to - 1, negative, min, max);
    }
}

/// The characters `v[from..to]`.
pub fn sub_chars(v: &Vec<char>, from: usize, to: usize) -> (r: Vec<char>)
    requires
        from <= to <= v@.len(),
    ensures
        r@ == v@.subrange(from as int, to as int),
{
    let mut r: Vec<char> = Vec::new();
    let mut i = from;
    while i < to
        invariant
            from <= i <= to,
            to <= v@.len(),
            r@ == v@.subrange(from as int, i as int),
        decreases to - i,
    {
        r.push(v[i]);
        i = i + 1;
        assert(r@ =~= v@.subrange(from as int, i as int));
    }
    r
}

/// Index of the first occurrence of `c` in `s`.
pub open spec fn first_index_of(s: Seq<char>, c: char) -> Option<int> {
    if exists|i: int| 0 <= i < s.len() && s[i] == c {
        Some(choose|i: int| 0 <= i < s.len() && s[i] == c && forall|j: int| 0 <= j < i ==> s[j] != c)
    } else {
        None
    }
}

/// Position of the first `c` in `v`.
pub fn find_char(v: &Vec<char>, c: char) -> (r: Option<usize>)
    ensures
        r matches Some(i) ==> i < v@.len() && v@[i as int] == c && forall|j: int| 0 <= j < i ==> v@[j] != c,
        r is None ==> forall|j: int| 0 <= j < v@.len() ==> v@[j] != c,
        r matches Some(i) ==> first_index_of(v@, c) == Some(i as int),
        r is None ==> first_index_of(v@, c) is None,
{
    let mut i: usize = 0;
    while i < v.len()
        invariant
            i <= v@.len(),
            forall|j: int| 0 <= j < i ==> v@[j] != c,
        decreases v.len() - i,
    {
        if v[i] == c {
            proof {
                let k = choose|k: int| 0 <= k < v@.len() && v@[k] == c && forall|j: int| 0 <= j < k ==> v@[j] != c;
                assert(k == i as int) by {
                    if k < i { } else if k > i { assert(v@[i as int] == c); }
                }
            }
            return Some(i);
        }
        i = i + 1;
    }
    None
}

/// The error text of a result matches the expected text, and its value the
/// expected value.
pub open spec fn result_is<T>(r: Result<T, String>, expected: Result<T, Seq<char>>) -> bool {
    match expected {
        Ok(v) => r == Ok::<T, String>(v),
        Err(m) => r matches Err(e) && e@ == m,
    }
}

/// The decimal digits of a number are digit characters, and there is at
/// least one.
pub proof fn lemma_decimal_digits_are_digits(n: nat)
    ensures
        decimal_digits(n).len() >= 1,
        forall|i: int| 0 <= i < decimal_digits(n).len() ==> '0' <= #[trigger] decimal_digits(n)[i] <= '9',
    decreases n,
{
    if n >= 10 {
        lemma_decimal_digits_are_digits(n / 10);
    }
}

/// Scanning only `'0'` characters gives zero.
pub proof fn lemma_scan_zeros(s: Seq<char>, from: int, to: int, min: int, max: int)
    requires
        0 <= from <= to <= s.len(),
        min <= 0 <= max,
        forall|i: int| from <= i < to ==> s[i] == '0',
    ensures
        scan_digits(s, from, to, false, min, max) == Ok::<int, IntErrorKind>(0),
    decreases to - from,
{
    if to > from {
        lemma_scan_zeros(s, from, to - 1, min, max);
    }
}

/// Scanning the decimal digits of `n` after a prefix worth zero gives `n`.
pub proof fn lemma_scan_decimal_digits(s: Seq<char>, from: int, mid: int, to: int, n: nat, min: int, max: int)
    requires
        0 <= from <= mid <= to <= s.len(),
        min <= 0,
        n <= max,
        scan_digits(s, from, mid, false, min, max) == Ok::<int, IntErrorKind>(0),
        s.subrange(mid, to) == decimal_digits(n),
    ensures
        scan_digits(s, from, to, false, min, max) == Ok::<int, IntErrorKind>(n as int),
    decreases n,
{
    if n < 10 {
        assert(decimal_digits(n).len() == 1);
        assert(to == mid + 1);
        assert(s[mid] == s.subrange(mid, to)[0]);
        lemma_digit_char(n as int);
        assert(scan_digits(s, from, mid + 1, false, min, max) == Ok::<int, IntErrorKind>(n as int));
    } else {
        let d = decimal_digits(n / 10);
        assert(s.subrange(mid, to - 1) =~= s.subrange(mid, to).drop_last());
        assert(s.subrange(mid, to - 1) == d);
        lemma_scan_decimal_digits(s, from, mid, to - 1, n / 10, min, max);
        assert(s[to - 1] == s.subrange(mid, to)[to - 1 - mid]);
        lemma_digit_char((n % 10) as int);
    }
}

/// Reading back what `padded_int` writes for a natural number gives the
/// number.
pub proof fn lemma_parse_padded(n: nat, w: int, signed: bool, min: int, max: int)
    requires
        min <= 0,
        n <= max,
    ensures
        parse_int_spec(padded_int(n as int, w), signed, min, max) == Ok::<int, IntErrorKind>(n as int),
        forall|i: int| 0 <= i < padded_int(n as int, w).len() ==> '0' <= #[trigger] padded_int(n as int, w)[i] <= '9',
        padded_int(n as int, w).len() >= 1,
{
    let ds = decimal_digits(n);
    let s = padded_int(n as int, w);
    lemma_decimal_digits_are_digits(n);
    let k = s.len() - ds.len();
    assert(s.subrange(k, s.len() as int) =~= ds);
    assert forall|i: int| 0 <= i < k implies s[i] == '0' by {}
    lemma_scan_zeros(s, 0, k, min, max);
    lemma_scan_decimal_digits(s, 0, k, s.len() as int, n, min, max);
    assert forall|i: int| 0 <= i < s.len() implies '0' <= #[trigger] s[i] <= '9' by {
        if i >= k {
            assert(s[i] == ds[i - k]);
        }
    }
}

/// Whether two texts are equal, character by character.
pub fn same_text(a: &str, b: &str) -> (r: bool)
    ensures
        r == (a@ == b@),
{
    let x = chars_of(a);
    let y = chars_of(b);
    if x.len() != y.len() {
        return false;
    }
    let mut i: usize = 0;
    while i < x.len()
        invariant
            x@ == a@,
            y@ == b@,
            x@.len() == y@.len(),
            i <= x@.len(),
            forall|k: int| 0 <= k < i ==> x@[k] == y@[k],
        decreases x.len() - i,
    {
        if x[i] != y[i] {
            assert(x@[i as int] != y@[i as int]);
            return false;
        }
        i = i + 1;
    }
    assert(x@ =~= y@);
    true
}

/// The parts joined with `sep` between consecutive ones.
pub open spec fn joined(parts: Seq<Seq<char>>, sep: Seq<char>) -> Seq<char>
    decreases parts.len(),
{
    if parts.len() == 0 {
        Seq::empty()
    } else if parts.len() == 1 {
        parts[0]
    } else {
        joined(parts.drop_last(), sep) + sep + parts.last()
    }
}

/// The texts of strings.
pub open spec fn texts(v: Seq<String>) -> Seq<Seq<char>> {
    v.map_values(|s: String| s@)
}

/// Pushing a string pushes its text.
pub proof fn lemma_texts_push(v: Seq<String>, s: String)
    ensures
        texts(v.push(s)) == texts(v).push(s@),
{
    assert(texts(v.push(s)) =~= texts(v).push(s@));
}

/// The texts of a prefix one longer.
pub proof fn lemma_texts_prefix_push(v: Seq<String>, i: int)
    requires
        0 <= i < v.len(),
    ensures
        texts(v.subrange(0, i + 1)) == texts(v.subrange(0, i)).push(v[i]@),
{
    assert(v.subrange(0, i + 1) =~= v.subrange(0, i).push(v[i]));
    lemma_texts_push(v.subrange(0, i), v[i]);
}

/// Pushes a string at the end of a list of strings.
pub fn push_text(v: &mut Vec<String>, s: String)
    ensures
        texts(final(v)@) == texts(old(v)@).push(s@),
{
    let ghost before = v@;
    v.push(s);
    proof {
        lemma_texts_push(before, s);
    }
}

/// The strings joined with `sep` between consecutive ones.
pub fn join_texts(parts: &Vec<String>, sep: &str) -> (r: String)
    ensures
        r@ == joined(texts(parts@), sep@),
{
    let mut r = String::new();
    let mut i: usize = 0;
    while i < parts.len()
        invariant
            i <= parts@.len(),
            r@ == joined(texts(parts@.subrange(0, i as int)), sep@),
        decreases parts.len() - i,
    {
        let ghost before = texts(parts@.subrange(0, i as int));
        assert(texts(parts@.subrange(0, i + 1)).drop_last() =~= before);
        assert(texts(parts@.subrange(0, i + 1)).last() == parts@[i as int]@);
        if i > 0 {
            r.append(sep);
        } else {
            assert(texts(parts@.subrange(0, 1)).len() == 1);
        }
        r.append(parts[i].as_str());
        i = i + 1;
    }
    assert(parts@.subrange(0, i as int) =~= parts@);
    r
}

/// `n` times the character `c`.
pub fn repeat_char(c: char, n: usize) -> (r: String)
    ensures
        r@ == Seq::new(n as nat, |_i: int| c),
{
    let mut v: Vec<char> = Vec::new();
    let mut i: usize = 0;
    while i < n
        invariant
            i <= n,
            v@ == Seq::new(i as nat, |_i: int| c),
        decreases n - i,
    {
        v.push(c);
        i = i + 1;
        assert(v@ =~= Seq::new(i as nat, |_i: int| c));
    }
    string_of(&v)
}

/// The two parts of `s` around `c`, where `c` occurs exactly once (as
/// splitting on `c` gives exactly two parts).
pub open spec fn single_split(s: Seq<char>, c: char) -> Option<(Seq<char>, Seq<char>)> {
    match first_index_of(s, c) {
        Some(i) => if forall|j: int| i < j < s.len() ==> s[j] != c {
            Some((s.take(i), s.skip(i + 1)))
        } else {
            None
        },
        None => None,
    }
}

/// Position of `c` in `v`, where it occurs exactly once.
pub fn single_split_at(v: &Vec<char>, c: char) -> (r: Option<usize>)
    ensures
        r matches Some(i) ==> i < v@.len() && single_split(v@, c) == Some((v@.take(i as int), v@.skip(i + 1))),
        r is None ==> single_split(v@, c) is None,
{
    let n = v.len();
    let i = match find_char(v, c) {
        None => {
            return None;
        },
        Some(i) => i,
    };
    let mut j = i + 1;
    while j < v.len()
        invariant
            i < j <= v@.len(),
            first_index_of(v@, c) == Some(i as int),
            forall|k: int| i < k < j ==> v@[k] != c,
        decreases v.len() - j,
    {
        if v[j] == c {
            assert(!(forall|k: int| i < k < v@.len() ==> v@[k] != c)) by {
                assert(v@[j as int] == c);
            }
            return None;
        }
        j = j + 1;
    }
    Some(i)
}

/// The texts of a result of strings are those expected.
pub open spec fn text_result_is(r: Result<String, String>, expected: Result<Seq<char>, Seq<char>>) -> bool {
    match expected {
        Ok(t) => r matches Ok(s) && s@ == t,
        Err(m) => r matches Err(e) && e@ == m,
    }
}

/// The result is an error with the given text.
pub open spec fn error_is<T>(r: Result<T, String>, m: Seq<char>) -> bool {
    r matches Err(e) && e@ == m
}

/// Characters of the Unicode `White_Space` property, those that
/// `char::is_whitespace` accepts and `str::split_whitespace` splits on.
pub open spec fn is_white_space(c: char) -> bool {
    let n = c as u32;
    ||| 0x09 <= n <= 0x0D
    ||| n == 0x20
    ||| n == 0x85
    ||| n == 0xA0
    ||| n == 0x1680
    ||| 0x2000 <= n <= 0x200A
    ||| n == 0x2028
    ||| n == 0x2029
    ||| n == 0x202F
    ||| n == 0x205F
    ||| n == 0x3000
}

/// Whether a character is white space.
pub fn white_space(c: char) -> (r: bool)
    ensures
        r == is_white_space(c),
{
    let n = c as u32;
    (0x09 <= n && n <= 0x0D) || n == 0x20 || n == 0x85 || n == 0xA0 || n == 0x1680
        || (0x2000 <= n && n <= 0x200A) || n == 0x2028 || n == 0x2029 || n == 0x202F
        || n == 0x205F || n == 0x3000
}

/// First position at or after `i` that does not hold white space.
pub open spec fn skip_white(s: Seq<char>, i: int) -> int
    decreases s.len() - i,
{
    if 0 <= i < s.len() && is_white_space(s[i]) {
        skip_white(s, i + 1)
    } else {
        i
    }
}

/// First position at or after `i` that holds white space, or the end.
pub open spec fn word_end(s: Seq<char>, i: int) -> int
    decreases s.len() - i,
{
    if 0 <= i < s.len() && !is_white_space(s[i]) {
        word_end(s, i + 1)
    } else {
        i
    }
}

/// Start and end of the first word (a maximal run of characters that are
/// not white space) at or after position `from`, as `split_whitespace`
/// yields it.
pub open spec fn next_word(s: Seq<char>, from: int) -> Option<(int, int)> {
    let start = skip_white(s, from);
    if start < s.len() {
        Some((start, word_end(s, start)))
    } else {
        None
    }
}

/// Start and end of the first word of `v` at or after `from`.
pub fn next_word_at(v: &Vec<char>, from: usize) -> (r: Option<(usize, usize)>)
    requires
        from <= v@.len(),
    ensures
        r matches Some((a, b)) ==> next_word(v@, from as int) == Some((a as int, b as int)) && from <= a < b <= v@.len(),
        r is None ==> next_word(v@, from as int) is None,
{
    let mut i = from;
    while i < v.len() && white_space(v[i])
        invariant
            from <= i <= v@.len(),
            skip_white(v@, i as int) == skip_white(v@, from as int),
        decreases v.len() - i,
    {
        i = i + 1;
    }
    if i == v.len() {
        return None;
    }
    let mut j = i + 1;
    assert(word_end(v@, i as int) == word_end(v@, j as int));
    while j < v.len() && !white_space(v[j])
        invariant
            i < j <= v@.len(),
            word_end(v@, j as int) == word_end(v@, i as int),
        decreases v.len() - j,
    {
        j = j + 1;
    }
    Some((i, j))
}

/// How `Debug` writes a string: quoted, with quotes, backslashes and
/// characters that are not printable escaped.
pub uninterp spec fn debug_text(s: Seq<char>) -> Seq<char>;

/// `format!("{:?}", s)` of a string slice.
#[verifier::external_body]
pub(crate) fn debug_string(s: &str) -> (r: String)
    ensures
        r@ == debug_text(s@),
{
    format!("{:?}", s)
}

/// How `Debug` writes a list of strings: each written as by `debug_text`,
/// separated by a comma and a space, within square brackets.
pub open spec fn debug_list(v: Seq<Seq<char>>) -> Seq<char> {
    seq!['['] + joined(v.map_values(|s: Seq<char>| debug_text(s)), seq![',', ' ']) + seq![']']
}

/// `format!("{:?}", v)` of a list of strings, written out from the
/// `Debug` form of each string.
pub fn debug_strings(v: &Vec<String>) -> (r: String)
    ensures
        r@ == debug_list(texts(v@)),
{
    let mut parts: Vec<String> = Vec::new();
    let mut i: usize = 0;
    while i < v.len()
        invariant
            i <= v@.len(),
            parts@.len() == i,
            texts(parts@) == texts(v@.subrange(0, i as int)).map_values(|s: Seq<char>| debug_text(s)),
        decreases v.len() - i,
    {
        let ghost old_parts = parts@;
        parts.push(debug_string(v[i].as_str()));
        proof {
            let target = texts(v@.subrange(0, i + 1)).map_values(|s: Seq<char>| debug_text(s));
            let prev = texts(v@.subrange(0, i as int)).map_values(|s: Seq<char>| debug_text(s));
            assert(texts(old_parts) == prev);
            assert forall|k: int| 0 <= k < i + 1 implies #[trigger] texts(parts@)[k] == target[k] by {
                if k < i {
                    assert(texts(parts@)[k] == parts@[k]@);
                    assert(parts@[k] == old_parts[k]);
                    assert(texts(old_parts)[k] == old_parts[k]@);
                    assert(prev[k] == target[k]);
                }
            }
            assert(texts(parts@) =~= target);
        }
        i = i + 1;
    }
    assert(v@.subrange(0, i as int) =~= v@);
    let inner = join_texts(&parts, ", ");
    proof {
        reveal_strlit(", ");
        assert(", "@ =~= seq![',', ' ']);
    }
    let mut r = String::from_str("[");
    r.append(inner.as_str());
    r.append("]");
    proof {
        reveal_strlit("[");
        reveal_strlit("]");
        assert(r@ =~= debug_list(texts(v@)));
    }
    r
}

} // verus!
