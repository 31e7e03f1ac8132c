//! Strings as sequences of characters: comparing, trimming, splitting into
//! words, and writing numbers in decimal.

use vstd::prelude::*;
use vstd::string::*;

verus! {

/// `String::push`: the string gains the character at its end.
pub assume_specification[ String::push ](s: &mut String, c: char)
    ensures
        final(s)@ == old(s)@.push(c),
;

/// `str::eq`: two strings are equal exactly when they hold the same characters.
pub assume_specification[ <str as PartialEq<str>>::eq ](a: &str, b: &str) -> (res: bool)
    ensures
        res == (a@ == b@),
;

/// What `str::to_uppercase` makes of a string: the Unicode upper case of it.
pub uninterp spec fn unicode_uppercase(s: Seq<char>) -> Seq<char>;

/// `str::to_uppercase`. The result is the Unicode upper case of the argument,
/// which is not spelled out here.
#[verifier::external_body]
pub(crate) fn to_uppercase(s: &str) -> (res: String)
    ensures
        res@ == unicode_uppercase(s@),
{
    s.to_uppercase()
}

/// The form in which Rust's `{:?}` shows a string: in quotes, with escapes.
pub uninterp spec fn debug_text(s: Seq<char>) -> Seq<char>;

/// `format!` with `{:?}` on a string (`<str as std::fmt::Debug>::fmt`): the string
/// in quotes, with escapes, which are not spelled out here.
#[verifier::external_body]
pub(crate) fn debug_string(s: &str) -> (res: String)
    ensures
        res@ == debug_text(s@),
{
    format!("{:?}", s)
}

/// The characters of a string, in order.
pub fn chars_of(s: &str) -> (v: Vec<char>)
    ensures
        v@ == s@,
{
    let mut v: Vec<char> = Vec::new();
    for c in it: s.chars()
        invariant
            v@ == s@.take(it.index() as int),
            it.seq() == s@,
    {
        v.push(c);
    }
    v
}

/// The string with the characters `v[from..to]`.
pub fn string_of(v: &Vec<char>, from: usize, to: usize) -> (s: String)
    requires
        from <= to <= v@.len(),
    ensures
        s@ == v@.subrange(from as int, to as int),
{
    let mut s = String::new();
    let mut i: usize = from;
    while i < to
        invariant
            from <= i <= to <= v@.len(),
            s@ == v@.subrange(from as int, i as int),
        decreases to - i,
    {
        s.push(v[i]);
        i = i + 1;
    }
    s
}

/// A string joined from two.
pub fn join(a: &str, b: &str) -> (s: String)
    ensures
        s@ == a@ + b@,
{
    let mut s = a.to_owned();
    s.append(b);
    s
}

/// A string joined from three.
pub fn join3(a: &str, b: &str, c: &str) -> (s: String)
    ensures
        s@ == a@ + b@ + c@,
{
    let mut s = a.to_owned();
    s.append(b);
    s.append(c);
    s
}

// ---------------------------------------------------------------------------
// White space
// ---------------------------------------------------------------------------

/// The characters with the Unicode property `White_Space`.
pub open spec fn is_whitespace(c: char) -> bool {
    let n = c as u32;
    ||| 0x9 <= n <= 0xD
    ||| n == 0x20
    ||| n == 0x85
    ||| n == 0xA0
    ||| n == 0x1680
    ||| 0x2000 <= n <= 0x200A
    ||| n == 0x2028
    ||| n == 0x2029
    ||| n == 0x202F
    ||| n == 0x205F
    ||| n == 0x3000
}

/// Whether a character has the Unicode property `White_Space`.
pub fn whitespace(c: char) -> (res: bool)
    ensures
        res == is_whitespace(c),
{
    let n: u32 = c as u32;
    (0x9 <= n && n <= 0xD) || n == 0x20 || n == 0x85 || n == 0xA0 || n == 0x1680 || (0x2000 <= n
        && n <= 0x200A) || n == 0x2028 || n == 0x2029 || n == 0x202F || n == 0x205F || n == 0x3000
}

/// Where the first character that is not white space stands, or the length.
pub open spec fn leading_whitespace(s: Seq<char>) -> nat
    decreases s.len(),
{
    if s.len() > 0 && is_whitespace(s[0]) {
        1 + leading_whitespace(s.skip(1))
    } else {
        0
    }
}

/// How many characters come before the first white space.
pub open spec fn leading_word(s: Seq<char>) -> nat
    decreases s.len(),
{
    if s.len() > 0 && !is_whitespace(s[0]) {
        1 + leading_word(s.skip(1))
    } else {
        0
    }
}

/// The text without white space at its end.
pub open spec fn trim_end(s: Seq<char>) -> Seq<char>
    decreases s.len(),
{
    if s.len() > 0 && is_whitespace(s.last()) {
        trim_end(s.drop_last())
    } else {
        s
    }
}

/// The text without white space at either end.
pub open spec fn trimmed(s: Seq<char>) -> Seq<char> {
    trim_end(s.skip(leading_whitespace(s) as int))
}

/// The words of a text: its longest runs without white space, in order.
pub open spec fn words(s: Seq<char>) -> Seq<Seq<char>>
    decreases s.len(),
{
    let t = s.skip(leading_whitespace(s) as int);
    if leading_whitespace(s) >= s.len() {
        Seq::empty()
    } else {
        proof {
            lemma_leading_whitespace(s);
            lemma_leading_word(t);
        }
        seq![t.take(leading_word(t) as int)] + words(t.skip(leading_word(t) as int))
    }
}

pub proof fn lemma_leading_whitespace(s: Seq<char>)
    ensures
        leading_whitespace(s) <= s.len(),
        forall|i: int| 0 <= i < leading_whitespace(s) ==> is_whitespace(#[trigger] s[i]),
        leading_whitespace(s) < s.len() ==> !is_whitespace(s[leading_whitespace(s) as int]),
    decreases s.len(),
{
    if s.len() > 0 && is_whitespace(s[0]) {
        lemma_leading_whitespace(s.skip(1));
        let n = leading_whitespace(s.skip(1));
        assert forall|i: int| 0 <= i < leading_whitespace(s) implies is_whitespace(
            #[trigger] s[i],
        ) by {
            if i > 0 {
                assert(s.skip(1)[i - 1] == s[i]);
            }
        }
        if leading_whitespace(s) < s.len() {
            assert(s.skip(1)[n as int] == s[n as int + 1]);
        }
    }
}

pub proof fn lemma_leading_word(s: Seq<char>)
    ensures
        leading_word(s) <= s.len(),
        s.len() > 0 && !is_whitespace(s[0]) ==> leading_word(s) > 0,
        forall|i: int| 0 <= i < leading_word(s) ==> !is_whitespace(#[trigger] s[i]),
        leading_word(s) < s.len() ==> is_whitespace(s[leading_word(s) as int]),
    decreases s.len(),
{
    if s.len() > 0 && !is_whitespace(s[0]) {
        lemma_leading_word(s.skip(1));
        let n = leading_word(s.skip(1));
        assert forall|i: int| 0 <= i < leading_word(s) implies !is_whitespace(#[trigger] s[i]) by {
            if i > 0 {
                assert(s.skip(1)[i - 1] == s[i]);
            }
        }
        if leading_word(s) < s.len() {
            assert(s.skip(1)[n as int] == s[n as int + 1]);
        }
    }
}

/// Counting from `n` is right when everything before is white space and the
/// next character is not.
proof fn lemma_leading_whitespace_is(s: Seq<char>, n: nat)
    requires
        n <= s.len(),
        forall|i: int| 0 <= i < n ==> is_whitespace(#[trigger] s[i]),
        n < s.len() ==> !is_whitespace(s[n as int]),
    ensures
        leading_whitespace(s) == n,
{
    lemma_leading_whitespace(s);
    let m = leading_whitespace(s);
    if m < n {
        assert(is_whitespace(s[m as int]));
    } else if n < m {
        assert(is_whitespace(s[n as int]));
    }
}

proof fn lemma_leading_word_is(s: Seq<char>, n: nat)
    requires
        n <= s.len(),
        forall|i: int| 0 <= i < n ==> !is_whitespace(#[trigger] s[i]),
        n < s.len() ==> is_whitespace(s[n as int]),
    ensures
        leading_word(s) == n,
{
    lemma_leading_word(s);
    let m = leading_word(s);
    if m < n {
        assert(!is_whitespace(s[m as int]));
    } else if n < m {
        assert(!is_whitespace(s[n as int]));
    }
}

/// Index of the first character from `from` on that is not white space.
pub fn skip_whitespace(v: &Vec<char>, from: usize) -> (at: usize)
    requires
        from <= v@.len(),
    ensures
        from <= at <= v@.len(),
        at - from == leading_whitespace(v@.skip(from as int)),
{
    let mut i: usize = from;
    while i < v.len() && whitespace(v[i])
        invariant
            from <= i <= v@.len(),
            forall|k: int| from <= k < i ==> is_whitespace(#[trigger] v@[k]),
        decreases v@.len() - i,
    {
        i = i + 1;
    }
    proof {
        let s = v@.skip(from as int);
        assert forall|k: int| 0 <= k < i - from implies is_whitespace(#[trigger] s[k]) by {
            assert(s[k] == v@[from + k]);
        }
        lemma_leading_whitespace_is(s, (i - from) as nat);
    }
    i
}

/// Index of the first white space from `from` on.
pub fn skip_word(v: &Vec<char>, from: usize) -> (at: usize)
    requires
        from <= v@.len(),
    ensures
        from <= at <= v@.len(),
        at - from == leading_word(v@.skip(from as int)),
{
    let mut i: usize = from;
    while i < v.len() && !whitespace(v[i])
        invariant
            from <= i <= v@.len(),
            forall|k: int| from <= k < i ==> !is_whitespace(#[trigger] v@[k]),
        decreases v@.len() - i,
    {
        i = i + 1;
    }
    proof {
        let s = v@.skip(from as int);
        assert forall|k: int| 0 <= k < i - from implies !is_whitespace(#[trigger] s[k]) by {
            assert(s[k] == v@[from + k]);
        }
        lemma_leading_word_is(s, (i - from) as nat);
    }
    i
}

/// The characters of a string without white space at either end.
pub fn trimmed_chars(s: &str) -> (t: Vec<char>)
    ensures
        t@ == trimmed(s@),
{
    let v = chars_of(s);
    assert(v@.skip(0) == v@);
    let from = skip_whitespace(&v, 0);
    let mut to: usize = v.len();
    assert(v@.subrange(from as int, to as int) == v@.skip(from as int));
    while from < to && whitespace(v[to - 1])
        invariant
            from <= to <= v@.len(),
            trim_end(v@.subrange(from as int, to as int)) == trimmed(s@),
        decreases to,
    {
        assert(v@.subrange(from as int, to as int).last() == v@[to - 1]);
        assert(v@.subrange(from as int, to as int).drop_last() == v@.subrange(
            from as int,
            to - 1,
        ));
        to = to - 1;
    }
    proof {
        if from < to {
            assert(v@.subrange(from as int, to as int).last() == v@[to - 1]);
        }
    }
    let mut t: Vec<char> = Vec::new();
    let mut i: usize = from;
    while i < to
        invariant
            from <= i <= to <= v@.len(),
            t@ == v@.subrange(from as int, i as int),
        decreases to - i,
    {
        t.push(v[i]);
        i = i + 1;
    }
    t
}

/// A string without white space at either end.
pub fn trim(s: &str) -> (t: String)
    ensures
        t@ == trimmed(s@),
{
    let v = trimmed_chars(s);
    assert(v@.subrange(0, v@.len() as int) == v@);
    string_of(&v, 0, v.len())
}

/// Trimming takes white space only, and leaves none at either end.
pub proof fn law_trimmed(s: Seq<char>)
    ensures
        exists|i: int, j: int| 0 <= i <= j <= s.len() && trimmed(s) == #[trigger] s.subrange(i, j)
            && (forall|k: int| 0 <= k < i || j <= k < s.len() ==> is_whitespace(#[trigger] s[k])),
        trimmed(s).len() > 0 ==> !is_whitespace(trimmed(s)[0]) && !is_whitespace(
            trimmed(s).last(),
        ),
{
    let i = leading_whitespace(s) as int;
    lemma_leading_whitespace(s);
    let t = s.skip(i);
    lemma_trim_end(t);
    let n = trim_end(t).len() as int;
    assert(trimmed(s) == s.subrange(i, i + n));
    assert forall|k: int| 0 <= k < i || i + n <= k < s.len() implies is_whitespace(
        #[trigger] s[k],
    ) by {
        if k >= i {
            assert(s[k] == t[k - i]);
        }
    }
}

/// Trimming twice is trimming once.
pub proof fn law_trim_idempotent(s: Seq<char>)
    ensures
        trimmed(trimmed(s)) == trimmed(s),
{
    let t = trimmed(s);
    law_trimmed(s);
    assert(t.skip(0) == t);
    assert(leading_whitespace(t) == 0);
}

proof fn lemma_trim_end(s: Seq<char>)
    ensures
        trim_end(s).len() <= s.len(),
        trim_end(s) == s.take(trim_end(s).len() as int),
        trim_end(s).len() > 0 ==> !is_whitespace(trim_end(s).last()),
        forall|k: int| trim_end(s).len() <= k < s.len() ==> is_whitespace(#[trigger] s[k]),
    decreases s.len(),
{
    if s.len() > 0 && is_whitespace(s.last()) {
        lemma_trim_end(s.drop_last());
        let n = trim_end(s).len() as int;
        assert(s.take(n) == s.drop_last().take(n));
        assert forall|k: int| n <= k < s.len() implies is_whitespace(#[trigger] s[k]) by {
            if k < s.len() - 1 {
                assert(s.drop_last()[k] == s[k]);
            }
        }
    } else {
        assert(s.take(s.len() as int) == s);
    }
}

// ---------------------------------------------------------------------------
// ASCII case
// ---------------------------------------------------------------------------

/// The lower case of an ASCII letter; any other character itself.
pub open spec fn ascii_lower(c: char) -> char {
    if 'A' <= c && c <= 'Z' {
        ((c as u32) + 32) as char
    } else {
        c
    }
}

/// The text with its ASCII letters in lower case.
pub open spec fn ascii_lower_text(s: Seq<char>) -> Seq<char> {
    s.map_values(|c: char| ascii_lower(c))
}

/// The lower case of an ASCII letter; any other character itself.
pub fn to_ascii_lower(c: char) -> (res: char)
    ensures
        res == ascii_lower(c),
{
    if 'A' <= c && c <= 'Z' {
        let n: u8 = c as u8;
        (n + 32) as char
    } else {
        c
    }
}

/// Whether two strings are equal but for the case of their ASCII letters.
pub fn same_ignoring_ascii_case(a: &str, b: &str) -> (res: bool)
    ensures
        res == (ascii_lower_text(a@) == ascii_lower_text(b@)),
{
    let x = chars_of(a);
    let y = chars_of(b);
    let ghost lx = ascii_lower_text(a@);
    let ghost ly = ascii_lower_text(b@);
    if x.len() != y.len() {
        assert(lx.len() != ly.len());
        return false;
    }
    let mut i: usize = 0;
    while i < x.len()
        invariant
            i <= x@.len(),
            x@.len() == y@.len(),
            x@ == a@,
            y@ == b@,
            lx == ascii_lower_text(a@),
            ly == ascii_lower_text(b@),
            forall|k: int| 0 <= k < i ==> #[trigger] lx[k] == ly[k],
        decreases x@.len() - i,
    {
        if to_ascii_lower(x[i]) != to_ascii_lower(y[i]) {
            assert(lx[i as int] != ly[i as int]);
            return false;
        }
        i = i + 1;
    }
    assert(lx =~= ly);
    true
}

// ---------------------------------------------------------------------------
// Prefixes
// ---------------------------------------------------------------------------

/// Whether `p` stands at the start of `s`.
pub open spec fn has_prefix(s: Seq<char>, p: Seq<char>) -> bool {
    p.len() <= s.len() && s.take(p.len() as int) == p
}

/// Whether a string starts with another.
pub fn starts_with(s: &str, p: &str) -> (res: bool)
    ensures
        res == has_prefix(s@, p@),
{
    let x = chars_of(s);
    let y = chars_of(p);
    if x.len() < y.len() {
        return false;
    }
    let mut i: usize = 0;
    while i < y.len()
        invariant
            i <= y@.len() <= x@.len(),
            x@ == s@,
            y@ == p@,
            forall|k: int| 0 <= k < i ==> x@[k] == #[trigger] y@[k],
        decreases y@.len() - i,
    {
        if x[i] != y[i] {
            assert(s@.take(p@.len() as int)[i as int] != p@[i as int]);
            return false;
        }
        i = i + 1;
    }
    assert(s@.take(p@.len() as int) =~= p@);
    true
}

// ---------------------------------------------------------------------------
// Order
// ---------------------------------------------------------------------------

/// Whether `a` comes before `b` in dictionary order by code point.
pub open spec fn text_before(a: Seq<char>, b: Seq<char>) -> bool
    decreases a.len(),
{
    if b.len() == 0 {
        false
    } else if a.len() == 0 {
        true
    } else if a[0] != b[0] {
        a[0] < b[0]
    } else {
        text_before(a.skip(1), b.skip(1))
    }
}

/// The order of texts is total: of two different ones exactly one comes first.
pub proof fn law_text_order_total(a: Seq<char>, b: Seq<char>)
    ensures
        a != b ==> (text_before(a, b) != text_before(b, a)),
        a == b ==> !text_before(a, b),
    decreases a.len(),
{
    if a.len() > 0 && b.len() > 0 {
        if a[0] == b[0] {
            law_text_order_total(a.skip(1), b.skip(1));
            if a.skip(1) == b.skip(1) {
                assert(a == seq![a[0]] + a.skip(1));
                assert(b == seq![b[0]] + b.skip(1));
            }
        }
    } else if a.len() == 0 && b.len() == 0 {
        assert(a =~= b);
    }
}

/// The order of texts is transitive.
pub proof fn law_text_order_transitive(a: Seq<char>, b: Seq<char>, c: Seq<char>)
    requires
        text_before(a, b),
        text_before(b, c),
    ensures
        text_before(a, c),
    decreases a.len(),
{
    if a.len() > 0 && b.len() > 0 && c.len() > 0 && a[0] == b[0] && b[0] == c[0] {
        law_text_order_transitive(a.skip(1), b.skip(1), c.skip(1));
    }
}

/// Whether one string comes before another in dictionary order by code point.
pub fn comes_before(a: &str, b: &str) -> (res: bool)
    ensures
        res == text_before(a@, b@),
{
    let x = chars_of(a);
    let y = chars_of(b);
    let mut i: usize = 0;
    assert(x@.skip(0) == x@ && y@.skip(0) == y@);
    while i < x.len() && i < y.len() && x[i] == y[i]
        invariant
            i <= x@.len(),
            i <= y@.len(),
            x@ == a@,
            y@ == b@,
            text_before(a@, b@) == text_before(x@.skip(i as int), y@.skip(i as int)),
        decreases x@.len() - i,
    {
        assert(x@.skip(i as int).skip(1) == x@.skip(i + 1));
        assert(y@.skip(i as int).skip(1) == y@.skip(i + 1));
        i = i + 1;
    }
    if i >= y.len() {
        false
    } else if i >= x.len() {
        true
    } else {
        x[i] < y[i]
    }
}

// ---------------------------------------------------------------------------
// Decimal numbers
// ---------------------------------------------------------------------------

/// The decimal digit for a number below ten.
pub open spec fn digit(d: nat) -> char {
    (('0' as u32) + d) as char
}

/// A number in decimal, without leading zeros.
pub open spec fn decimal(n: nat) -> Seq<char>
    decreases n,
{
    if n < 10 {
        seq![digit(n)]
    } else {
        decimal(n / 10).push(digit(n % 10))
    }
}

/// A number in decimal, filled with zeros to at least two digits.
pub open spec fn two_digits(n: nat) -> Seq<char> {
    if n < 10 {
        seq!['0', digit(n)]
    } else {
        decimal(n)
    }
}

fn push_digit(s: &mut String, d: u64)
    requires
        d < 10,
    ensures
        final(s)@ == old(s)@.push(digit(d as nat)),
{
    let b: u8 = d as u8;
    s.push((b + 48) as char);
}

/// Appends a number in decimal.
pub fn push_decimal(s: &mut String, n: u64)
    ensures
        final(s)@ == old(s)@ + decimal(n as nat),
    decreases n,
{
    if n >= 10 {
        push_decimal(s, n / 10);
    }
    push_digit(s, n % 10);
    assert(s@ =~= old(s)@ + decimal(n as nat));
}

/// Appends a number in decimal, filled with zeros to at least two digits.
pub fn push_two_digits(s: &mut String, n: u64)
    ensures
        final(s)@ == old(s)@ + two_digits(n as nat),
{
    if n < 10 {
        s.push('0');
        push_digit(s, n);
        assert(s@ =~= old(s)@ + two_digits(n as nat));
    } else {
        push_decimal(s, n);
    }
}

/// A number in decimal.
pub fn decimal_string(n: u64) -> (s: String)
    ensures
        s@ == decimal(n as nat),
{
    let mut s = String::new();
    push_decimal(&mut s, n);
    assert(s@ =~= decimal(n as nat));
    s
}

/// Different numbers are written differently.
pub proof fn law_decimal_injective(m: nat, n: nat)
    requires
        decimal(m) == decimal(n),
    ensures
        m == n,
    decreases m,
{
    lemma_decimal_len(m);
    lemma_decimal_len(n);
    assert(digit(m % 10) as u32 == 48 + m % 10);
    assert(digit(n % 10) as u32 == 48 + n % 10);
    assert(decimal(m).last() == digit(m % 10));
    assert(decimal(n).last() == digit(n % 10));
    if m >= 10 && n >= 10 {
        assert(decimal(m).drop_last() == decimal(m / 10));
        assert(decimal(n).drop_last() == decimal(n / 10));
        law_decimal_injective(m / 10, n / 10);
    }
}

proof fn lemma_decimal_len(n: nat)
    ensures
        decimal(n).len() >= 1,
        decimal(n).len() == 1 <==> n < 10,
    decreases n,
{
    if n >= 10 {
        lemma_decimal_len(n / 10);
    }
}

/// The text filled with spaces on its left to at least `width` characters.
pub open spec fn pad_left(s: Seq<char>, width: nat) -> Seq<char> {
    if s.len() >= width {
        s
    } else {
        Seq::new((width - s.len()) as nat, |i: int| ' ') + s
    }
}

/// Fills a string with spaces on its left to at least `width` characters.
pub fn padded_left(s: &str, width: usize) -> (t: String)
    ensures
        t@ == pad_left(s@, width as nat),
{
    let v = chars_of(s);
    let mut t = String::new();
    let n: usize = if v.len() < width { width - v.len() } else { 0 };
    let mut i: usize = 0;
    while i < n
        invariant
            i <= n,
            t@ == Seq::new(i as nat, |k: int| ' '),
        decreases n - i,
    {
        t.push(' ');
        assert(t@ =~= Seq::new((i + 1) as nat, |k: int| ' '));
        i = i + 1;
    }
    t.append(s);
    assert(t@ =~= pad_left(s@, width as nat));
    t
}

// ---------------------------------------------------------------------------
// Lists of strings, and splitting
// ---------------------------------------------------------------------------

/// What a list of strings says.
pub open spec fn strings(v: Seq<String>) -> Seq<Seq<char>> {
    Seq::new(v.len(), |i: int| v[i]@)
}

/// The pieces of a text between the places where `c` stands.
pub open spec fn split(s: Seq<char>, c: char) -> Seq<Seq<char>>
    decreases s.len(),
{
    if s.len() == 0 {
        seq![Seq::empty()]
    } else {
        let before = split(s.drop_last(), c);
        if s.last() == c {
            before.push(Seq::empty())
        } else {
            before.drop_last().push(before.last().push(s.last()))
        }
    }
}

/// The pieces of a string between the places where `c` stands.
pub fn split_string(s: &str, c: char) -> (res: Vec<String>)
    ensures
        strings(res@) == split(s@, c),
{
    let v = chars_of(s);
    let mut done: Vec<String> = Vec::new();
    let mut piece = String::new();
    let mut i: usize = 0;
    assert(v@.take(0) =~= Seq::empty());
    assert(strings(done@).push(piece@) =~= seq![Seq::<char>::empty()]);
    while i < v.len()
        invariant
            i <= v@.len(),
            v@ == s@,
            strings(done@).push(piece@) == split(s@.take(i as int), c),
        decreases v@.len() - i,
    {
        proof {
            assert(s@.take(i + 1).drop_last() =~= s@.take(i as int));
            assert(s@.take(i + 1).last() == v@[i as int]);
            assert(split(s@.take(i as int), c).drop_last() =~= strings(done@));
        }
        if v[i] == c {
            let ghost before = done@;
            done.push(piece);
            assert(strings(done@) =~= strings(before).push(piece@));
            piece = String::new();
        } else {
            piece.push(v[i]);
        }
        i = i + 1;
    }
    assert(s@.take(s@.len() as int) == s@);
    let ghost before = done@;
    done.push(piece);
    assert(strings(done@) =~= strings(before).push(piece@));
    done
}

/// The pieces hold no separator, and putting the separator between them again
/// gives the text back: the pieces are one more than the separators.
pub proof fn law_split(s: Seq<char>, c: char)
    ensures
        split(s, c).len() >= 1,
        forall|i: int, j: int|
            0 <= i < split(s, c).len() && 0 <= j < split(s, c)[i].len() ==> #[trigger] split(
                s,
                c,
            )[i][j] != c,
        joined(split(s, c), c) == s,
    decreases s.len(),
{
    if s.len() > 0 {
        law_split(s.drop_last(), c);
        let before = split(s.drop_last(), c);
        let now = split(s, c);
        if s.last() == c {
            assert(now.drop_last() =~= before);
            assert(joined(now, c) =~= s);
        } else {
            assert(now.drop_last() =~= before.drop_last());
            assert(joined(now, c) =~= joined(before, c).push(s.last()));
            assert(joined(now, c) =~= s);
        }
        assert forall|i: int, j: int| 0 <= i < now.len() && 0 <= j < now[i].len() implies #[trigger] now[i][j]
            != c by {
            if i < before.len() - 1 || (i < before.len() && s.last() == c) {
                assert(now[i] == before[i]);
                assert(before[i][j] != c);
            } else if s.last() != c && j < now[i].len() - 1 {
                assert(before[i][j] != c);
            }
        }
    } else {
        assert(joined(split(s, c), c) =~= s);
    }
}

/// Some pieces with a character between them.
pub open spec fn joined(pieces: Seq<Seq<char>>, c: char) -> Seq<char>
    decreases pieces.len(),
{
    if pieces.len() == 0 {
        Seq::empty()
    } else if pieces.len() == 1 {
        pieces[0]
    } else {
        joined(pieces.drop_last(), c).push(c) + pieces.last()
    }
}

// ---------------------------------------------------------------------------
// Laws
// ---------------------------------------------------------------------------

/// Space, tab and the ends of lines are white space, and so are the spaces of Unicode.
/// No other character is: no letter, digit or sign, and no other control character.
pub proof fn law_white_space(c: char, res: bool)
    requires
        call_ensures(whitespace, (c,), res),
    ensures
        c == ' ' || c == '\t' || c == '\n' || c == '\r' || c == '\u{b}' || c == '\u{c}' ==> res,
        c == '\u{85}' || c == '\u{a0}' || c == '\u{1680}' || c == '\u{2028}' || c == '\u{2029}' || c
            == '\u{202f}' || c == '\u{205f}' || c == '\u{3000}' ==> res,
        '\u{2000}' <= c <= '\u{200a}' ==> res,
        '!' <= c <= '~' ==> !res,
        '\u{7f}' <= c <= '\u{84}' || '\u{86}' <= c <= '\u{9f}' ==> !res,
        '\u{202a}' <= c <= '\u{202e}' || '\u{2030}' <= c <= '\u{205e}' ==> !res,
        '\u{0}' <= c <= '\u{8}' || '\u{e}' <= c <= '\u{1f}' ==> !res,
        '\u{a1}' <= c <= '\u{167f}' || '\u{1681}' <= c <= '\u{1fff}' ==> !res,
        '\u{200b}' <= c <= '\u{2027}' || '\u{2060}' <= c <= '\u{2fff}' || c > '\u{3000}' ==> !res,
{
}

/// What stands between white space is what trimming leaves, whole.
pub proof fn law_trim_leaves_what_is_inside(
    before: Seq<char>,
    inside: Seq<char>,
    after: Seq<char>,
    s: &str,
    res: String,
)
    requires
        blank(before) && blank(after),
        inside.len() > 0 ==> !is_whitespace(inside[0]) && !is_whitespace(inside.last()),
        s@ == before + inside + after,
        call_ensures(trim, (s,), res),
    ensures
        res@ == inside,
{
    lemma_trim_leaves_what_is_inside(before, inside, after);
}

pub proof fn lemma_trim_leaves_what_is_inside(
    before: Seq<char>,
    inside: Seq<char>,
    after: Seq<char>,
)
    requires
        blank(before) && blank(after),
        inside.len() > 0 ==> !is_whitespace(inside[0]) && !is_whitespace(inside.last()),
    ensures
        trimmed(before + inside + after) == inside,
{
    let all = before + inside + after;
    law_trimmed(all);
    let (i, j) = choose|i: int, j: int|
        0 <= i <= j <= all.len() && trimmed(all) == #[trigger] all.subrange(i, j) && (forall|k: int|
            0 <= k < i || j <= k < all.len() ==> is_whitespace(#[trigger] all[k]));
    let a = before.len() as int;
    let b = a + inside.len();
    if inside.len() == 0 {
        if i < j {
            assert(all.subrange(i, j)[0] == all[i]);
            if i < a {
                assert(all[i] == before[i]);
            } else {
                assert(all[i] == after[i - a]);
            }
        }
    } else {
        assert(all[a] == inside[0]);
        assert(all[b - 1] == inside.last());
        assert(i <= a && b <= j);
        if i < a {
            assert(all.subrange(i, j)[0] == all[i]);
            assert(all[i] == before[i]);
        }
        if b < j {
            assert(all.subrange(i, j).last() == all[j - 1]);
            assert(all[j - 1] == after[j - 1 - b]);
        }
    }
    assert(trimmed(all) =~= inside);
}

/// Whether two characters are one letter of the alphabet in two cases.
pub open spec fn other_case(a: char, b: char) -> bool {
    ('a' <= a <= 'z' && a as int == b as int + 32) || ('a' <= b <= 'z' && b as int == a as int + 32)
}

/// Two texts are the same but for the case of ASCII letters exactly when they are
/// of one length and, at each place, have the same character or one letter in two
/// cases.
pub proof fn law_case_of_letters_is_ignored(a: &str, b: &str, res: bool)
    requires
        call_ensures(same_ignoring_ascii_case, (a, b), res),
    ensures
        res <==> a@.len() == b@.len() && forall|i: int|
            0 <= i < a@.len() ==> #[trigger] a@[i] == b@[i] || other_case(a@[i], b@[i]),
{
    lemma_same_but_for_case(a@, b@);
}

pub proof fn lemma_same_but_for_case(a: Seq<char>, b: Seq<char>)
    ensures
        ascii_lower_text(a) == ascii_lower_text(b) <==> a.len() == b.len() && forall|i: int|
            0 <= i < a.len() ==> #[trigger] a[i] == b[i] || other_case(a[i], b[i]),
{
    let la = ascii_lower_text(a);
    let lb = ascii_lower_text(b);
    assert forall|x: char, y: char| #![auto]
        ascii_lower(x) == ascii_lower(y) <==> x == y || other_case(x, y) by {
        lemma_lower_case(x);
        lemma_lower_case(y);
    }
    if la == lb {
        assert(la.len() == a.len() && lb.len() == b.len());
        assert forall|i: int| 0 <= i < a.len() implies #[trigger] a[i] == b[i] || other_case(
            a[i],
            b[i],
        ) by {
            assert(la[i] == ascii_lower(a[i]));
            assert(lb[i] == ascii_lower(b[i]));
        }
    } else if a.len() == b.len() && forall|i: int|
        0 <= i < a.len() ==> #[trigger] a[i] == b[i] || other_case(a[i], b[i]) {
        assert(la =~= lb) by {
            assert forall|i: int| 0 <= i < a.len() implies la[i] == lb[i] by {
                assert(la[i] == ascii_lower(a[i]));
                assert(lb[i] == ascii_lower(b[i]));
            }
        }
    }
}

proof fn lemma_lower_case(c: char)
    ensures
        'A' <= c <= 'Z' ==> ascii_lower(c) as int == c as int + 32,
        !('A' <= c <= 'Z') ==> ascii_lower(c) == c,
{
}

/// A text starts with another exactly when it is that one with something after it.
pub proof fn law_prefix(s: &str, p: &str, res: bool)
    requires
        call_ensures(starts_with, (s, p), res),
    ensures
        res <==> exists|rest: Seq<char>| s@ == #[trigger] (p@ + rest),
{
    if res {
        assert(s@ =~= p@ + s@.skip(p@.len() as int));
    }
    if exists|rest: Seq<char>| s@ == #[trigger] (p@ + rest) {
        let rest = choose|rest: Seq<char>| s@ == #[trigger] (p@ + rest);
        assert(s@.take(p@.len() as int) =~= p@);
    }
}

/// Where two texts first differ decides which comes first: the one with the
/// smaller character there. A text comes before whatever continues it.
pub proof fn law_first_difference_decides(common: Seq<char>, a: Seq<char>, b: Seq<char>)
    requires
        b.len() > 0,
        a.len() > 0 ==> a[0] < b[0],
    ensures
        text_before(common + a, common + b),
        !text_before(common + b, common + a),
    decreases common.len(),
{
    let x = common + a;
    let y = common + b;
    if common.len() > 0 {
        law_first_difference_decides(common.skip(1), a, b);
        assert(x.skip(1) =~= common.skip(1) + a);
        assert(y.skip(1) =~= common.skip(1) + b);
    } else {
        assert(x =~= a);
        assert(y =~= b);
    }
}

/// The number that a row of decimal digits stands for.
pub open spec fn number_in(s: Seq<char>) -> int
    decreases s.len(),
{
    if s.len() == 0 {
        0
    } else {
        number_in(s.drop_last()) * 10 + (s.last() as int - '0' as int)
    }
}

/// Whether a text is a row of decimal digits.
pub open spec fn all_digits(s: Seq<char>) -> bool {
    s.len() > 0 && forall|i: int| 0 <= i < s.len() ==> '0' <= #[trigger] s[i] <= '9'
}

/// A number is written in digits that stand for it, the first of which is no zero
/// unless it is the only one.
pub proof fn law_decimal(n: nat)
    ensures
        all_digits(decimal(n)),
        number_in(decimal(n)) == n,
        decimal(n).len() > 1 ==> decimal(n)[0] != '0',
    decreases n,
{
    let d = decimal(n);
    if n < 10 {
        assert(digit(n) as int == '0' as int + n);
        assert(d.drop_last() =~= Seq::empty());
        assert(number_in(d.drop_last()) == 0);
    } else {
        law_decimal(n / 10);
        assert(digit(n % 10) as int == '0' as int + n % 10);
        assert(d.drop_last() =~= decimal(n / 10));
        let e = decimal(n / 10);
        assert forall|i: int| 0 <= i < d.len() implies '0' <= #[trigger] d[i] <= '9' by {
            if i < e.len() {
                assert(d[i] == e[i]);
            }
        }
        assert(d[0] == e[0]);
        if e.len() == 1 {
            assert(e.drop_last() =~= Seq::empty());
            assert(number_in(e.drop_last()) == 0);
            assert(number_in(e) == e[0] as int - '0' as int);
        }
    }
}

/// The text of a number is its decimal form.
pub proof fn law_decimal_string(n: u64, res: String)
    requires
        call_ensures(decimal_string, (n,), res),
    ensures
        all_digits(res@),
        number_in(res@) == n,
        res@.len() > 1 ==> res@[0] != '0',
{
    law_decimal(n as nat);
}

/// A number below a hundred is written in exactly two digits that stand for it.
pub proof fn law_two_digits(n: nat)
    requires
        n < 100,
    ensures
        two_digits(n).len() == 2,
        all_digits(two_digits(n)),
        two_digits(n)[0] as int == '0' as int + n / 10,
        two_digits(n)[1] as int == '0' as int + n % 10,
{
    let d = two_digits(n);
    if n < 10 {
        assert(digit(n) as int == '0' as int + n);
        assert(d =~= seq!['0', digit(n)]);
    } else {
        assert(n / 10 < 10);
        assert(decimal(n / 10) == seq![digit(n / 10)]);
        assert(digit(n / 10) as int == '0' as int + n / 10);
        assert(digit(n % 10) as int == '0' as int + n % 10);
        assert(d =~= seq![digit(n / 10), digit(n % 10)]);
    }
}

/// A text that is filled up ends with what it was; before that stand spaces only,
/// and it is as long as was asked, or as it was.
pub proof fn law_fill_is_on_the_left(s: &str, width: usize, res: String)
    requires
        call_ensures(padded_left, (s, width), res),
    ensures
        res@.len() == if s@.len() < width {
            width as nat
        } else {
            s@.len()
        },
        res@.skip(res@.len() - s@.len()) == s@,
        forall|i: int| 0 <= i < res@.len() - s@.len() ==> #[trigger] res@[i] == ' ',
{
    assert(res@.skip(res@.len() - s@.len()) =~= s@);
}

/// Whether a text is all white space.
pub open spec fn blank(s: Seq<char>) -> bool {
    forall|i: int| 0 <= i < s.len() ==> is_whitespace(#[trigger] s[i])
}

/// Whether a text is a word: it has characters, and none of them is white space.
pub open spec fn is_word(s: Seq<char>) -> bool {
    s.len() > 0 && forall|i: int| 0 <= i < s.len() ==> !is_whitespace(#[trigger] s[i])
}

/// A text of white space has no words. The first word of any other is what stands
/// between the white space at its start and the next white space; the other words
/// are those of what follows.
pub proof fn law_words(before: Seq<char>, word: Seq<char>, after: Seq<char>)
    requires
        blank(before),
        is_word(word),
        after.len() > 0 ==> is_whitespace(after[0]),
    ensures
        words(before).len() == 0,
        words(before + word + after) == seq![word] + words(after),
{
    lemma_leading_whitespace_is(before, before.len());
    let s = before + word + after;
    assert forall|i: int| 0 <= i < before.len() implies is_whitespace(#[trigger] s[i]) by {
        assert(s[i] == before[i]);
    }
    assert(s[before.len() as int] == word[0]);
    lemma_leading_whitespace_is(s, before.len());
    let t = s.skip(before.len() as int);
    assert(t =~= word + after);
    assert forall|i: int| 0 <= i < word.len() implies !is_whitespace(#[trigger] t[i]) by {
        assert(t[i] == word[i]);
    }
    if word.len() < t.len() {
        assert(t[word.len() as int] == after[0]);
    }
    lemma_leading_word_is(t, word.len());
    assert(t.take(word.len() as int) =~= word);
    assert(t.skip(word.len() as int) =~= after);
}

/// Which of two texts comes first is decided as by [`law_first_difference_decides`]:
/// by the first place at which they differ, or by their lengths.
pub proof fn law_order_of_strings(
    common: Seq<char>,
    x: Seq<char>,
    y: Seq<char>,
    a: &str,
    b: &str,
    forth: bool,
    back: bool,
)
    requires
        a@ == common + x,
        b@ == common + y,
        y.len() > 0,
        x.len() > 0 ==> x[0] < y[0],
        call_ensures(comes_before, (a, b), forth),
        call_ensures(comes_before, (b, a), back),
    ensures
        forth,
        !back,
{
    law_first_difference_decides(common, x, y);
}

/// A string in pieces: no piece has the separator in it, and with the separator between
/// them again they are the string.
pub proof fn law_split_string(s: &str, c: char, res: Vec<String>)
    requires
        call_ensures(split_string, (s, c), res),
    ensures
        res@.len() >= 1,
        forall|i: int, j: int|
            0 <= i < res@.len() && 0 <= j < res@[i]@.len() ==> #[trigger] res@[i]@[j] != c,
        joined(strings(res@), c) == s@,
{
    law_split(s@, c);
    let p = strings(res@);
    assert(p.len() == res@.len());
    assert forall|i: int, j: int|
        0 <= i < res@.len() && 0 <= j < res@[i]@.len() implies #[trigger] res@[i]@[j] != c by {
        assert(p[i] == res@[i]@);
        assert(split(s@, c)[i][j] != c);
    }
}

} // verus!
