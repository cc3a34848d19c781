//! Character-level text utilities with exact specifications: whitespace
//! trimming, first-occurrence replacement, decimal rendering and decimal
//! parsing with the error kinds of the standard integer parser.

use vstd::prelude::*;

verus! {

/// `String::push`: the contract claims that the character is appended at
/// the end and nothing else changes, as the standard library documents.
#[verifier::external_body]
pub(crate) fn push_char(s: &mut String, c: char)
    ensures
        final(s)@ == old(s)@.push(c),
{
    s.push(c);
}

/// The characters of a string slice, in order.
pub fn chars_of(s: &str) -> (res: Vec<char>)
    ensures
        res@ == s@,
{
    let mut res: Vec<char> = Vec::new();
    for c in it: s.chars()
        invariant
            res@ == it.seq().take(it.index() as int),
            it.seq() == s@,
    {
        res.push(c);
    }
    res
}

/// The string made of `chars[lo..hi]`.
pub fn string_from_range(chars: &Vec<char>, lo: usize, hi: usize) -> (res: String)
    requires
        lo <= hi <= chars.len(),
    ensures
        res@ == chars@.subrange(lo as int, hi as int),
{
    let mut res = String::new();
    let mut i = lo;
    while i < hi
        invariant
            lo <= i <= hi <= chars.len(),
            res@ == chars@.subrange(lo as int, i as int),
        decreases hi - i,
    {
        push_char(&mut res, chars[i]);
        i = i + 1;
        assert(res@ =~= chars@.subrange(lo as int, i as int));
    }
    res
}

/// The string made of all of `chars`.
pub fn string_from_chars(chars: &Vec<char>) -> (res: String)
    ensures
        res@ == chars@,
{
    let res = string_from_range(chars, 0, chars.len());
    assert(chars@.subrange(0, chars@.len() as int) =~= chars@);
    res
}

/// Concatenation of two string slices into a new string.
pub fn concat(a: &str, b: &str) -> (res: String)
    ensures
        res@ == a@ + b@,
{
    let mut res = a.to_owned();
    res.append(b);
    res
}

// ---------------------------------------------------------------------------
// Whitespace and trimming
// ---------------------------------------------------------------------------
/// The characters with the Unicode `White_Space` property, which is what
/// `char::is_whitespace` tests.
pub open spec fn is_white(c: char) -> bool {
    ||| ('\u{9}' <= c && c <= '\u{d}')
    ||| c == ' '
    ||| c == '\u{85}'
    ||| c == '\u{a0}'
    ||| c == '\u{1680}'
    ||| ('\u{2000}' <= c && c <= '\u{200a}')
    ||| c == '\u{2028}'
    ||| c == '\u{2029}'
    ||| c == '\u{202f}'
    ||| c == '\u{205f}'
    ||| c == '\u{3000}'
}

/// `s` without its leading whitespace.
pub open spec fn trim_start(s: Seq<char>) -> Seq<char>
    decreases s.len(),
{
    if s.len() > 0 && is_white(s[0]) {
        trim_start(s.drop_first())
    } else {
        s
    }
}

/// `s` without its trailing whitespace.
pub open spec fn trim_end(s: Seq<char>) -> Seq<char>
    decreases s.len(),
{
    if s.len() > 0 && is_white(s.last()) {
        trim_end(s.drop_last())
    } else {
        s
    }
}

/// `s` without leading and trailing whitespace (`str::trim`).
pub open spec fn trimmed(s: Seq<char>) -> Seq<char> {
    trim_end(trim_start(s))
}

/// Whether a character is whitespace, as `is_white` defines it.
pub fn is_white_char(c: char) -> (res: bool)
    ensures
        res == is_white(c),
{
    ('\u{9}' <= c && c <= '\u{d}') || c == ' ' || c == '\u{85}' || c == '\u{a0}' || c
        == '\u{1680}' || ('\u{2000}' <= c && c <= '\u{200a}') || c == '\u{2028}' || c
        == '\u{2029}' || c == '\u{202f}' || c == '\u{205f}' || c == '\u{3000}'
}

/// Whatever survives trimming starts and ends with a non-whitespace character.
pub proof fn lemma_trimmed_bounds(s: Seq<char>)
    ensures
        trimmed(s).len() > 0 ==> !is_white(trimmed(s)[0]) && !is_white(trimmed(s).last()),
        trimmed(s).len() == 0 <==> (forall|k: int| 0 <= k < s.len() ==> is_white(#[trigger] s[k])),
    decreases s.len(),
{
    lemma_trim_start_shape(s);
    lemma_trim_end_shape(trim_start(s));
    if trimmed(s).len() == 0 {
        assert forall|k: int| 0 <= k < s.len() implies is_white(#[trigger] s[k]) by {
            lemma_trim_start_all_white(s, k);
        }
    } else {
        if forall|k: int| 0 <= k < s.len() ==> is_white(#[trigger] s[k]) {
            lemma_all_white_trims_empty(s);
        }
    }
}

/// `trim_start(s)` is a suffix of `s` whose first character is not whitespace.
pub proof fn lemma_trim_start_shape(s: Seq<char>)
    ensures
        trim_start(s).len() <= s.len(),
        trim_start(s) == s.subrange(s.len() - trim_start(s).len(), s.len() as int),
        trim_start(s).len() > 0 ==> !is_white(trim_start(s)[0]),
        forall|k: int| 0 <= k < s.len() - trim_start(s).len() ==> is_white(#[trigger] s[k]),
    decreases s.len(),
{
    if s.len() > 0 && is_white(s[0]) {
        lemma_trim_start_shape(s.drop_first());
        assert forall|k: int| 0 <= k < s.len() - trim_start(s).len() implies is_white(
            #[trigger] s[k],
        ) by {
            if k > 0 {
                assert(s[k] == s.drop_first()[k - 1]);
            }
        }
        assert(s.drop_first().subrange(
            s.drop_first().len() - trim_start(s).len(),
            s.drop_first().len() as int,
        ) =~= s.subrange(s.len() - trim_start(s).len(), s.len() as int));
    } else {
        assert(s.subrange(0, s.len() as int) =~= s);
    }
}

/// `trim_end(s)` is a prefix of `s` whose last character is not whitespace.
pub proof fn lemma_trim_end_shape(s: Seq<char>)
    ensures
        trim_end(s).len() <= s.len(),
        trim_end(s) == s.subrange(0, trim_end(s).len() as int),
        trim_end(s).len() > 0 ==> !is_white(trim_end(s).last()),
        forall|k: int| trim_end(s).len() <= k < s.len() ==> is_white(#[trigger] s[k]),
    decreases s.len(),
{
    if s.len() > 0 && is_white(s.last()) {
        lemma_trim_end_shape(s.drop_last());
        assert forall|k: int| trim_end(s).len() <= k < s.len() implies is_white(#[trigger] s[k]) by {
            if k < s.len() - 1 {
                assert(s[k] == s.drop_last()[k]);
            }
        }
        assert(s.drop_last().subrange(0, trim_end(s).len() as int) =~= s.subrange(
            0,
            trim_end(s).len() as int,
        ));
    } else {
        assert(s.subrange(0, s.len() as int) =~= s);
    }
}

proof fn lemma_trim_start_all_white(s: Seq<char>, k: int)
    requires
        0 <= k < s.len(),
        trim_end(trim_start(s)).len() == 0,
    ensures
        is_white(s[k]),
{
    lemma_trim_start_shape(s);
    lemma_trim_end_shape(trim_start(s));
    if k >= s.len() - trim_start(s).len() {
        let j = k - (s.len() - trim_start(s).len());
        assert(trim_start(s)[j] == s[k]);
    }
}

proof fn lemma_all_white_trims_empty(s: Seq<char>)
    requires
        forall|k: int| 0 <= k < s.len() ==> is_white(#[trigger] s[k]),
    ensures
        trim_start(s).len() == 0,
    decreases s.len(),
{
    if s.len() > 0 {
        assert(is_white(s[0]));
        assert forall|k: int| 0 <= k < s.drop_first().len() implies is_white(
            #[trigger] s.drop_first()[k],
        ) by {
            assert(s.drop_first()[k] == s[k + 1]);
        }
        lemma_all_white_trims_empty(s.drop_first());
    }
}

/// Index of the first non-whitespace character of `chars[lo..]`, or `chars.len()`.
fn skip_white_forward(chars: &Vec<char>) -> (i: usize)
    ensures
        i <= chars.len(),
        trim_start(chars@) == chars@.subrange(i as int, chars@.len() as int),
{
    let mut i: usize = 0;
    assert(chars@.subrange(0, chars@.len() as int) =~= chars@);
    while i < chars.len() && is_white_char(chars[i])
        invariant
            i <= chars.len(),
            trim_start(chars@) == trim_start(chars@.subrange(i as int, chars@.len() as int)),
        decreases chars.len() - i,
    {
        let ghost rest = chars@.subrange(i as int, chars@.len() as int);
        assert(rest.drop_first() =~= chars@.subrange(i + 1, chars@.len() as int));
        i = i + 1;
    }
    i
}

/// `str::trim`: the string without leading and trailing whitespace.
pub fn trim(s: &str) -> (res: String)
    ensures
        res@ == trimmed(s@),
{
    let chars = chars_of(s);
    let lo = skip_white_forward(&chars);
    let mut hi = chars.len();
    let ghost start = chars@.subrange(lo as int, chars@.len() as int);
    assert(start.subrange(0, start.len() as int) =~= start);
    while hi > lo && is_white_char(chars[hi - 1])
        invariant
            lo <= hi <= chars.len(),
            start == chars@.subrange(lo as int, chars@.len() as int),
            trim_end(start) == trim_end(chars@.subrange(lo as int, hi as int)),
        decreases hi,
    {
        let ghost cur = chars@.subrange(lo as int, hi as int);
        assert(cur.drop_last() =~= chars@.subrange(lo as int, hi - 1));
        hi = hi - 1;
    }
    string_from_range(&chars, lo, hi)
}

/// Whether the string is empty once trimmed.
pub fn is_blank(s: &str) -> (res: bool)
    ensures
        res == (trimmed(s@).len() == 0),
{
    let t = trim(s);
    t.as_str().is_empty()
}

/// `s` without its trailing `c` characters (`trim_end_matches(c)`).
pub open spec fn strip_trailing(s: Seq<char>, c: char) -> Seq<char>
    decreases s.len(),
{
    if s.len() > 0 && s.last() == c {
        strip_trailing(s.drop_last(), c)
    } else {
        s
    }
}

/// `s.trim_end_matches(c)`.
pub fn strip_trailing_exec(s: &str, c: char) -> (res: String)
    ensures
        res@ == strip_trailing(s@, c),
{
    let chars = chars_of(s);
    let mut hi = chars.len();
    assert(chars@.subrange(0, hi as int) =~= chars@);
    while hi > 0 && chars[hi - 1] == c
        invariant
            hi <= chars.len(),
            strip_trailing(chars@, c) == strip_trailing(chars@.subrange(0, hi as int), c),
        decreases hi,
    {
        assert(chars@.subrange(0, hi as int).drop_last() =~= chars@.subrange(0, hi - 1));
        hi = hi - 1;
    }
    string_from_range(&chars, 0, hi)
}

// ---------------------------------------------------------------------------
// First-occurrence replacement
// ---------------------------------------------------------------------------
/// Whether `pat` occurs in `s` at index `i`.
pub open spec fn occurs_at(s: Seq<char>, pat: Seq<char>, i: int) -> bool {
    0 <= i && i + pat.len() <= s.len() && s.subrange(i, i + pat.len()) == pat
}

/// The first index at or after `i` at which `pat` occurs in `s`.
pub open spec fn find_from(s: Seq<char>, pat: Seq<char>, i: int) -> Option<int>
    decreases s.len() + 1 - i,
{
    if i < 0 || i + pat.len() > s.len() {
        None
    } else if occurs_at(s, pat, i) {
        Some(i)
    } else {
        find_from(s, pat, i + 1)
    }
}

/// Where `find_from` finds the pattern, it occurs, at or after `i`.
pub proof fn lemma_find_from_bounds(s: Seq<char>, pat: Seq<char>, i: int)
    ensures
        find_from(s, pat, i) matches Some(j) ==> i <= j && j + pat.len() <= s.len() && occurs_at(
            s,
            pat,
            j,
        ) && forall|k: int| i <= k < j ==> !occurs_at(s, pat, k),
        i >= 0 && occurs_at(s, pat, i) ==> find_from(s, pat, i) == Some(i),
    decreases s.len() + 1 - i,
{
    if !(i < 0 || i + pat.len() > s.len()) && !occurs_at(s, pat, i) {
        lemma_find_from_bounds(s, pat, i + 1);
    }
}

/// `s.replacen(pat, rep, 1)`: the first occurrence of `pat`, if any, replaced by `rep`.
pub open spec fn replace_first(s: Seq<char>, pat: Seq<char>, rep: Seq<char>) -> Seq<char> {
    match find_from(s, pat, 0) {
        Some(i) => s.subrange(0, i) + rep + s.subrange(i + pat.len(), s.len() as int),
        None => s,
    }
}

fn occurs_at_exec(s: &Vec<char>, pat: &Vec<char>, i: usize) -> (res: bool)
    requires
        i + pat.len() <= s.len(),
    ensures
        res == occurs_at(s@, pat@, i as int),
{
    let mut k: usize = 0;
    while k < pat.len()
        invariant
            i + pat.len() <= s.len(),
            k <= pat.len(),
            forall|j: int| 0 <= j < k ==> s@[i + j] == pat@[j],
        decreases pat.len() - k,
    {
        if s[i + k] != pat[k] {
            assert(s@.subrange(i as int, i + pat.len())[k as int] != pat@[k as int]);
            return false;
        }
        k = k + 1;
    }
    assert(s@.subrange(i as int, i + pat.len()) =~= pat@);
    true
}

/// `s.replacen(pat, rep, 1)`.
pub fn replace_first_exec(s: &str, pat: &str, rep: &str) -> (res: String)
    ensures
        res@ == replace_first(s@, pat@, rep@),
{
    let sc = chars_of(s);
    let pc = chars_of(pat);
    if pc.len() == 0 {
        assert(sc@.subrange(0, 0) =~= pc@);
        assert(occurs_at(sc@, pc@, 0));
        assert(sc@.subrange(0, 0) + rep@ + sc@.subrange(0, sc@.len() as int) =~= rep@ + sc@);
        return concat(rep, s);
    }
    if pc.len() > sc.len() {
        assert(find_from(sc@, pc@, 0) is None);
        return string_from_chars(&sc);
    }
    let last = sc.len() - pc.len();
    let mut i: usize = 0;
    while i <= last
        invariant
            last == sc.len() - pc.len(),
            0 < pc.len() <= sc.len(),
            sc@ == s@,
            pc@ == pat@,
            i <= last + 1,
            find_from(sc@, pc@, 0) == find_from(sc@, pc@, i as int),
        decreases last + 1 - i,
    {
        if occurs_at_exec(&sc, &pc, i) {
            let mut res = string_from_range(&sc, 0, i);
            res.append(rep);
            let tail = string_from_range(&sc, i + pc.len(), sc.len());
            res.append(tail.as_str());
            assert(find_from(sc@, pc@, i as int) == Some(i as int));
            assert(res@ == sc@.subrange(0, i as int) + rep@ + sc@.subrange(
                i + pc@.len(),
                sc@.len() as int,
            ));
            assert(find_from(sc@, pc@, 0) == Some(i as int));
            assert(replace_first(sc@, pc@, rep@) == res@);
            return res;
        }
        i = i + 1;
    }
    assert(find_from(sc@, pc@, i as int) is None);
    string_from_chars(&sc)
}

// ---------------------------------------------------------------------------
// Decimal rendering
// ---------------------------------------------------------------------------
/// The ASCII digit for a value below ten.
pub open spec fn digit_char(d: nat) -> char {
    if d == 0 {
        '0'
    } else if d == 1 {
        '1'
    } else if d == 2 {
        '2'
    } else if d == 3 {
        '3'
    } else if d == 4 {
        '4'
    } else if d == 5 {
        '5'
    } else if d == 6 {
        '6'
    } else if d == 7 {
        '7'
    } else if d == 8 {
        '8'
    } else {
        '9'
    }
}

/// The value of an ASCII decimal digit.
pub open spec fn digit_value(c: char) -> Option<nat> {
    if '0' <= c && c <= '9' {
        Some((c as nat - '0' as nat) as nat)
    } else {
        None
    }
}

/// Decimal notation of a natural number, without leading zeros.
pub open spec fn decimal(n: nat) -> Seq<char>
    decreases n,
{
    if n < 10 {
        seq![digit_char(n)]
    } else {
        decimal(n / 10).push(digit_char(n % 10))
    }
}

/// Decimal notation of an integer, with a leading `-` when negative.
pub open spec fn signed_decimal(n: int) -> Seq<char> {
    if n < 0 {
        seq!['-'] + decimal((-n) as nat)
    } else {
        decimal(n as nat)
    }
}

fn digit_char_exec(d: u64) -> (c: char)
    requires
        d < 10,
    ensures
        c == digit_char(d as nat),
{
    if d == 0 {
        '0'
    } else if d == 1 {
        '1'
    } else if d == 2 {
        '2'
    } else if d == 3 {
        '3'
    } else if d == 4 {
        '4'
    } else if d == 5 {
        '5'
    } else if d == 6 {
        '6'
    } else if d == 7 {
        '7'
    } else if d == 8 {
        '8'
    } else {
        '9'
    }
}

/// Appends the decimal notation of `n`.
pub fn push_decimal(s: &mut String, n: u64)
    ensures
        final(s)@ == old(s)@ + decimal(n as nat),
    decreases n,
{
    if n < 10 {
        push_char(s, digit_char_exec(n));
        assert(final(s)@ =~= old(s)@ + decimal(n as nat));
    } else {
        push_decimal(s, n / 10);
        push_char(s, digit_char_exec(n % 10));
        assert(final(s)@ =~= old(s)@ + decimal(n as nat));
    }
}

/// `n.to_string()` for an unsigned integer.
pub fn u64_to_string(n: u64) -> (res: String)
    ensures
        res@ == decimal(n as nat),
{
    let mut s = String::new();
    push_decimal(&mut s, n);
    assert(s@ =~= decimal(n as nat));
    s
}

/// `n.to_string()` for a signed integer.
pub fn i64_to_string(n: i64) -> (res: String)
    ensures
        res@ == signed_decimal(n as int),
{
    let mut s = String::new();
    if n < 0 {
        push_char(&mut s, '-');
        let magnitude: u64 = ((-(n + 1)) as u64) + 1;
        push_decimal(&mut s, magnitude);
    } else {
        push_decimal(&mut s, n as u64);
    }
    assert(s@ =~= signed_decimal(n as int));
    s
}

// ---------------------------------------------------------------------------
// Decimal parsing
// ---------------------------------------------------------------------------
/// Why a string is not a decimal integer of the wanted type; the kinds and
/// messages of the standard integer parser.
#[derive(Clone, Copy, Debug, PartialEq, Eq)]
pub enum IntErrorKind {
    Empty,
    InvalidDigit,
    PosOverflow,
    NegOverflow,
}

impl IntErrorKind {
    /// The message that the standard parser's error displays.
    pub fn message(&self) -> (res: String)
        ensures
            res@ == int_error_message(*self),
    {
        match self {
            IntErrorKind::Empty => String::from_str("cannot parse integer from empty string"),
            IntErrorKind::InvalidDigit => String::from_str("invalid digit found in string"),
            IntErrorKind::PosOverflow => String::from_str("number too large to fit in target type"),
            IntErrorKind::NegOverflow => String::from_str("number too small to fit in target type"),
        }
    }
}

/// The message for each kind of integer parse error.
pub open spec fn int_error_message(k: IntErrorKind) -> Seq<char> {
    match k {
        IntErrorKind::Empty => "cannot parse integer from empty string"@,
        IntErrorKind::InvalidDigit => "invalid digit found in string"@,
        IntErrorKind::PosOverflow => "number too large to fit in target type"@,
        IntErrorKind::NegOverflow => "number too small to fit in target type"@,
    }
}

/// Reads the digits of `s` left to right onto `acc`; the magnitude may not
/// exceed `bound`, and going past it is the error `over`.
pub open spec fn read_digits(s: Seq<char>, acc: nat, bound: nat, over: IntErrorKind) -> Result<
    nat,
    IntErrorKind,
>
    decreases s.len(),
{
    if s.len() == 0 {
        Ok(acc)
    } else {
        match digit_value(s[0]) {
            None => Err(IntErrorKind::InvalidDigit),
            Some(d) => if acc * 10 + d > bound {
                Err(over)
            } else {
                read_digits(s.drop_first(), acc * 10 + d, bound, over)
            },
        }
    }
}

/// `s.parse::<uN>()` for an unsigned type whose largest value is `max`.
pub open spec fn parse_unsigned(s: Seq<char>, max: nat) -> Result<nat, IntErrorKind> {
    if s.len() == 0 {
        Err(IntErrorKind::Empty)
    } else if s.len() == 1 && (s[0] == '+' || s[0] == '-') {
        Err(IntErrorKind::InvalidDigit)
    } else if s[0] == '+' {
        read_digits(s.drop_first(), 0, max, IntErrorKind::PosOverflow)
    } else {
        read_digits(s, 0, max, IntErrorKind::PosOverflow)
    }
}

/// `s.parse::<i64>()`.
pub open spec fn parse_i64_spec(s: Seq<char>) -> Result<int, IntErrorKind> {
    if s.len() == 0 {
        Err(IntErrorKind::Empty)
    } else if s.len() == 1 && (s[0] == '+' || s[0] == '-') {
        Err(IntErrorKind::InvalidDigit)
    } else if s[0] == '-' {
        match read_digits(s.drop_first(), 0, 0x8000_0000_0000_0000, IntErrorKind::NegOverflow) {
            Ok(m) => Ok(-m),
            Err(e) => Err(e),
        }
    } else if s[0] == '+' {
        match read_digits(s.drop_first(), 0, 0x7fff_ffff_ffff_ffff, IntErrorKind::PosOverflow) {
            Ok(m) => Ok(m as int),
            Err(e) => Err(e),
        }
    } else {
        match read_digits(s, 0, 0x7fff_ffff_ffff_ffff, IntErrorKind::PosOverflow) {
            Ok(m) => Ok(m as int),
            Err(e) => Err(e),
        }
    }
}

proof fn lemma_read_digits_bound(s: Seq<char>, acc: nat, bound: nat, over: IntErrorKind)
    requires
        acc <= bound,
    ensures
        read_digits(s, acc, bound, over) matches Ok(v) ==> v <= bound,
    decreases s.len(),
{
    if s.len() > 0 {
        if let Some(d) = digit_value(s[0]) {
            if acc * 10 + d <= bound {
                lemma_read_digits_bound(s.drop_first(), acc * 10 + d, bound, over);
            }
        }
    }
}

/// A successful unsigned parse stays within the type's range.
pub proof fn lemma_parse_unsigned_bound(s: Seq<char>, max: nat)
    ensures
        parse_unsigned(s, max) matches Ok(v) ==> v <= max,
{
    if s.len() > 0 {
        lemma_read_digits_bound(s, 0, max, IntErrorKind::PosOverflow);
        lemma_read_digits_bound(s.drop_first(), 0, max, IntErrorKind::PosOverflow);
    }
}

fn digit_value_exec(c: char) -> (res: Option<u64>)
    ensures
        match digit_value(c) {
            Some(d) => res == Some(d as u64),
            None => res is None,
        },
{
    if '0' <= c && c <= '9' {
        Some((c as u32 - '0' as u32) as u64)
    } else {
        None
    }
}

/// Reads `chars[start..]` as digits, as `read_digits` does from zero.
fn read_digits_exec(chars: &Vec<char>, start: usize, bound: u64, over: IntErrorKind) -> (res:
    Result<u64, IntErrorKind>)
    requires
        start <= chars.len(),
    ensures
        match read_digits(chars@.subrange(start as int, chars@.len() as int), 0, bound as nat, over) {
            Ok(v) => res == Ok::<u64, IntErrorKind>(v as u64),
            Err(e) => res == Err::<u64, IntErrorKind>(e),
        },
        res matches Ok(v) ==> v <= bound,
        read_digits(chars@.subrange(start as int, chars@.len() as int), 0, bound as nat, over) matches Ok(v) ==> v <= bound,
{
    proof {
        lemma_read_digits_bound(chars@.subrange(start as int, chars@.len() as int), 0, bound as nat, over);
    }
    let ghost whole = chars@.subrange(start as int, chars@.len() as int);
    let mut acc: u64 = 0;
    let mut i = start;
    assert(whole == chars@.subrange(i as int, chars@.len() as int));
    while i < chars.len()
        invariant
            start <= i <= chars.len(),
            acc <= bound,
            whole == chars@.subrange(start as int, chars@.len() as int),
            read_digits(whole, 0, bound as nat, over) == read_digits(
                chars@.subrange(i as int, chars@.len() as int),
                acc as nat,
                bound as nat,
                over,
            ),
        decreases chars.len() - i,
    {
        let ghost rest = chars@.subrange(i as int, chars@.len() as int);
        assert(rest[0] == chars@[i as int]);
        assert(rest.drop_first() =~= chars@.subrange(i + 1, chars@.len() as int));
        match digit_value_exec(chars[i]) {
            None => {
                return Err(IntErrorKind::InvalidDigit);
            },
            Some(d) => {
                if d > bound || acc > (bound - d) / 10 {
                    assert(acc * 10 + d > bound) by (nonlinear_arith)
                        requires
                            d > bound || acc > (bound - d) / 10,
                            d <= bound ==> (bound - d) / 10 * 10 <= bound - d,
                    ;
                    return Err(over);
                }
                assert(acc * 10 + d <= bound) by (nonlinear_arith)
                    requires
                        acc <= (bound - d) / 10,
                        d < 10,
                ;
                acc = acc * 10 + d;
            },
        }
        i = i + 1;
    }
    assert(chars@.subrange(i as int, chars@.len() as int).len() == 0);
    Ok(acc)
}

/// `s.parse::<u64>()`, and with `max` the parse into a narrower unsigned type.
pub fn parse_unsigned_exec(s: &str, max: u64) -> (res: Result<u64, IntErrorKind>)
    ensures
        match parse_unsigned(s@, max as nat) {
            Ok(v) => res == Ok::<u64, IntErrorKind>(v as u64),
            Err(e) => res == Err::<u64, IntErrorKind>(e),
        },
        parse_unsigned(s@, max as nat) matches Ok(v) ==> v <= max,
{
    let chars = chars_of(s);
    if chars.len() == 0 {
        return Err(IntErrorKind::Empty);
    }
    if chars.len() == 1 && (chars[0] == '+' || chars[0] == '-') {
        return Err(IntErrorKind::InvalidDigit);
    }
    if chars[0] == '+' {
        assert(chars@.drop_first() =~= chars@.subrange(1, chars@.len() as int));
        read_digits_exec(&chars, 1, max, IntErrorKind::PosOverflow)
    } else {
        assert(chars@ =~= chars@.subrange(0, chars@.len() as int));
        read_digits_exec(&chars, 0, max, IntErrorKind::PosOverflow)
    }
}

/// `s.parse::<u64>()`.
pub fn parse_u64(s: &str) -> (res: Result<u64, IntErrorKind>)
    ensures
        match parse_unsigned(s@, u64::MAX as nat) {
            Ok(v) => res == Ok::<u64, IntErrorKind>(v as u64),
            Err(e) => res == Err::<u64, IntErrorKind>(e),
        },
{
    parse_unsigned_exec(s, u64::MAX)
}

/// `s.parse::<u32>()`.
pub fn parse_u32(s: &str) -> (res: Result<u32, IntErrorKind>)
    ensures
        match parse_unsigned(s@, u32::MAX as nat) {
            Ok(v) => res == Ok::<u32, IntErrorKind>(v as u32),
            Err(e) => res == Err::<u32, IntErrorKind>(e),
        },
{
    match parse_unsigned_exec(s, u32::MAX as u64) {
        Ok(v) => Ok(v as u32),
        Err(e) => Err(e),
    }
}

/// `s.parse::<i64>()`.
pub fn parse_i64(s: &str) -> (res: Result<i64, IntErrorKind>)
    ensures
        match parse_i64_spec(s@) {
            Ok(v) => res == Ok::<i64, IntErrorKind>(v as i64),
            Err(e) => res == Err::<i64, IntErrorKind>(e),
        },
{
    let chars = chars_of(s);
    if chars.len() == 0 {
        return Err(IntErrorKind::Empty);
    }
    if chars.len() == 1 && (chars[0] == '+' || chars[0] == '-') {
        return Err(IntErrorKind::InvalidDigit);
    }
    if chars[0] == '-' {
        assert(chars@.drop_first() =~= chars@.subrange(1, chars@.len() as int));
        match read_digits_exec(&chars, 1, 0x8000_0000_0000_0000u64, IntErrorKind::NegOverflow) {
            Ok(m) => {
                if m == 0x8000_0000_0000_0000u64 {
                    Ok(i64::MIN)
                } else {
                    Ok(-(m as i64))
                }
            },
            Err(e) => Err(e),
        }
    } else if chars[0] == '+' {
        assert(chars@.drop_first() =~= chars@.subrange(1, chars@.len() as int));
        match read_digits_exec(&chars, 1, 0x7fff_ffff_ffff_ffffu64, IntErrorKind::PosOverflow) {
            Ok(m) => Ok(m as i64),
            Err(e) => Err(e),
        }
    } else {
        assert(chars@ =~= chars@.subrange(0, chars@.len() as int));
        match read_digits_exec(&chars, 0, 0x7fff_ffff_ffff_ffffu64, IntErrorKind::PosOverflow) {
            Ok(m) => Ok(m as i64),
            Err(e) => Err(e),
        }
    }
}

} // verus!

verus! {

// ---------------------------------------------------------------------------
// Rendering and parsing agree
// ---------------------------------------------------------------------------
proof fn lemma_digit_roundtrip(d: nat)
    requires
        d < 10,
    ensures
        digit_value(digit_char(d)) == Some(d),
{
}

proof fn lemma_decimal_shape(n: nat)
    ensures
        decimal(n).len() >= 1,
        digit_value(decimal(n)[0]) is Some,
    decreases n,
{
    if n >= 10 {
        lemma_decimal_shape(n / 10);
        assert(decimal(n)[0] == decimal(n / 10)[0]);
    } else {
        lemma_digit_roundtrip(n);
    }
}

proof fn lemma_read_digits_concat(
    a: Seq<char>,
    b: Seq<char>,
    acc: nat,
    bound: nat,
    over: IntErrorKind,
)
    ensures
        read_digits(a + b, acc, bound, over) == match read_digits(a, acc, bound, over) {
            Ok(v) => read_digits(b, v, bound, over),
            Err(e) => Err(e),
        },
    decreases a.len(),
{
    if a.len() == 0 {
        assert(a + b =~= b);
    } else {
        assert((a + b)[0] == a[0]);
        assert((a + b).drop_first() =~= a.drop_first() + b);
        if let Some(d) = digit_value(a[0]) {
            if acc * 10 + d <= bound {
                lemma_read_digits_concat(a.drop_first(), b, acc * 10 + d, bound, over);
            }
        }
    }
}

proof fn lemma_read_decimal(n: nat, bound: nat, over: IntErrorKind)
    requires
        n <= bound,
    ensures
        read_digits(decimal(n), 0, bound, over) == Ok::<nat, IntErrorKind>(n),
    decreases n,
{
    if n < 10 {
        lemma_digit_roundtrip(n);
        let s1 = seq![digit_char(n)];
        assert(s1.drop_first() =~= Seq::<char>::empty());
        assert(read_digits(s1.drop_first(), n, bound, over) == Ok::<nat, IntErrorKind>(n));
        assert(read_digits(s1, 0, bound, over) == Ok::<nat, IntErrorKind>(n));
    } else {
        lemma_read_decimal(n / 10, bound, over);
        lemma_digit_roundtrip(n % 10);
        let s1 = seq![digit_char(n % 10)];
        lemma_read_digits_concat(decimal(n / 10), s1, 0, bound, over);
        assert(decimal(n) =~= decimal(n / 10) + s1);
        assert(s1.drop_first() =~= Seq::<char>::empty());
        assert((n / 10) * 10 + n % 10 == n);
        assert(read_digits(s1.drop_first(), n, bound, over) == Ok::<nat, IntErrorKind>(n));
        assert(read_digits(s1, n / 10, bound, over) == Ok::<nat, IntErrorKind>(n));
    }
}

/// Reading back a rendered number gives the number: `n.to_string().parse()`
/// is `Ok(n)` for every value of the unsigned type whose largest value is `max`.
pub proof fn law_unsigned_decimal_roundtrip(n: nat, max: nat)
    requires
        n <= max,
    ensures
        parse_unsigned(decimal(n), max) == Ok::<nat, IntErrorKind>(n),
{
    lemma_decimal_shape(n);
    lemma_read_decimal(n, max, IntErrorKind::PosOverflow);
    if decimal(n).len() == 1 {
        assert(decimal(n)[0] != '+' && decimal(n)[0] != '-');
    }
}

/// Reading back a rendered `i64` gives the number.
pub proof fn law_i64_decimal_roundtrip(n: i64)
    ensures
        parse_i64_spec(signed_decimal(n as int)) == Ok::<int, IntErrorKind>(n as int),
{
    if n < 0 {
        let m = (-n) as nat;
        let s = signed_decimal(n as int);
        lemma_decimal_shape(m);
        lemma_read_decimal(m, 0x8000_0000_0000_0000, IntErrorKind::NegOverflow);
        assert(s[0] == '-');
        assert(s.drop_first() =~= decimal(m));
    } else {
        lemma_decimal_shape(n as nat);
        lemma_read_decimal(n as nat, 0x7fff_ffff_ffff_ffff, IntErrorKind::PosOverflow);
        if decimal(n as nat).len() == 1 {
            assert(decimal(n as nat)[0] != '+' && decimal(n as nat)[0] != '-');
        }
    }
}

} // verus!
