//! Which colour values a theme file may set.
//!
//! A value goes into a style declaration, so it must be a colour and nothing
//! else: a hexadecimal literal, or one call of `rgb`, `rgba`, `hsl` or `hsla`
//! with numbers in it. Whatever could open another call, end the declaration or
//! start a comment has no place in this grammar.

use vstd::prelude::*;
use vstd::utf8::encode_utf8;
use crate::text;

verus! {

/// The most bytes that a colour value may have, spaces around it included.
pub const MAX_COLOR_VALUE_LEN: usize = 128;

// ---------------------------------------------------------------------------
// The grammar
// ---------------------------------------------------------------------------

pub open spec fn hex_digit(c: char) -> bool {
    ('0' <= c && c <= '9') || ('a' <= c && c <= 'f') || ('A' <= c && c <= 'F')
}

/// What may stand between the brackets of a colour function.
pub open spec fn argument_char(c: char) -> bool {
    ('0' <= c && c <= '9') || c == '.' || c == ',' || c == '%' || c == '/' || c == ' ' || c == '\t'
}

/// `#` and hexadecimal digits: `#rgb`, `#rrggbb` or `#rrggbbaa`.
pub open spec fn hex_color(t: Seq<char>) -> bool {
    &&& t.len() == 4 || t.len() == 7 || t.len() == 9
    &&& t[0] == '#'
    &&& forall|i: int| 1 <= i < t.len() ==> hex_digit(#[trigger] t[i])
}

/// A call of the function `name`, in letters of either case.
pub open spec fn call_of(t: Seq<char>, name: Seq<char>) -> bool {
    &&& t.len() >= name.len() + 2
    &&& text::ascii_lower_text(t.take(name.len() as int)) == name
    &&& t[name.len() as int] == '('
    &&& t.last() == ')'
    &&& forall|i: int| name.len() < i < t.len() - 1 ==> argument_char(#[trigger] t[i])
}

pub open spec fn color_call(t: Seq<char>) -> bool {
    call_of(t, "rgb"@) || call_of(t, "rgba"@) || call_of(t, "hsl"@) || call_of(t, "hsla"@)
}

/// A colour value that a theme file may set.
pub open spec fn valid_color(s: Seq<char>) -> bool {
    encode_utf8(s).len() <= MAX_COLOR_VALUE_LEN && (hex_color(text::trimmed(s)) || color_call(
        text::trimmed(s),
    ))
}

fn is_hex_digit(c: char) -> (res: bool)
    ensures
        res == hex_digit(c),
{
    ('0' <= c && c <= '9') || ('a' <= c && c <= 'f') || ('A' <= c && c <= 'F')
}

fn is_argument_char(c: char) -> (res: bool)
    ensures
        res == argument_char(c),
{
    ('0' <= c && c <= '9') || c == '.' || c == ',' || c == '%' || c == '/' || c == ' ' || c == '\t'
}

fn is_hex_color(t: &Vec<char>) -> (res: bool)
    ensures
        res == hex_color(t@),
{
    let n: usize = t.len();
    if !(n == 4 || n == 7 || n == 9) || t[0] != '#' {
        return false;
    }
    let mut i: usize = 1;
    while i < n
        invariant
            1 <= i <= n,
            n == t@.len(),
            forall|k: int| 1 <= k < i ==> hex_digit(#[trigger] t@[k]),
        decreases n - i,
    {
        if !is_hex_digit(t[i]) {
            return false;
        }
        i = i + 1;
    }
    true
}

fn is_call_of(t: &Vec<char>, name: &str) -> (res: bool)
    requires
        name@.len() <= 8,
    ensures
        res == call_of(t@, name@),
{
    let letters = text::chars_of(name);
    let m: usize = letters.len();
    let n: usize = t.len();
    let ghost lowered = text::ascii_lower_text(t@.take(m as int));
    if n < m + 2 || t[m] != '(' || t[n - 1] != ')' {
        return false;
    }
    let mut i: usize = 0;
    while i < m
        invariant
            i <= m,
            m + 2 <= n,
            n == t@.len(),
            m == letters@.len(),
            letters@ == name@,
            lowered == text::ascii_lower_text(t@.take(m as int)),
            forall|k: int| 0 <= k < i ==> #[trigger] lowered[k] == name@[k],
        decreases m - i,
    {
        if text::to_ascii_lower(t[i]) != letters[i] {
            assert(lowered[i as int] != name@[i as int]);
            return false;
        }
        i = i + 1;
    }
    assert(lowered =~= name@);
    i = m + 1;
    while i < n - 1
        invariant
            m < i < n,
            n == t@.len(),
            m == name@.len(),
            forall|k: int| m < k < i ==> argument_char(#[trigger] t@[k]),
        decreases n - i,
    {
        if !is_argument_char(t[i]) {
            return false;
        }
        i = i + 1;
    }
    true
}

/// Whether a theme file may set this colour value.
pub fn is_valid_color_value(s: &str) -> (res: bool)
    ensures
        res == valid_color(s@),
{
    if s.as_bytes().len() > MAX_COLOR_VALUE_LEN {
        return false;
    }
    let t = text::trimmed_chars(s);
    proof {
        reveal_strlit("rgb");
        reveal_strlit("rgba");
        reveal_strlit("hsl");
        reveal_strlit("hsla");
    }
    is_hex_color(&t) || is_call_of(&t, "rgb") || is_call_of(&t, "rgba") || is_call_of(&t, "hsl")
        || is_call_of(&t, "hsla")
}

// ---------------------------------------------------------------------------
// Laws
// ---------------------------------------------------------------------------

/// The characters of which colour values are made: letters, digits, white space
/// and `#.,%/()`. None of them ends a declaration, quotes, or starts a comment.
pub open spec fn harmless(c: char) -> bool {
    ||| 'a' <= c && c <= 'z'
    ||| 'A' <= c && c <= 'Z'
    ||| '0' <= c && c <= '9'
    ||| text::is_whitespace(c)
    ||| c == '#'
    ||| c == '.'
    ||| c == ','
    ||| c == '%'
    ||| c == '/'
    ||| c == '('
    ||| c == ')'
}

proof fn lemma_call_of_is_harmless(t: Seq<char>, name: Seq<char>)
    requires
        call_of(t, name),
        forall|i: int| 0 <= i < name.len() ==> 'a' <= #[trigger] name[i] <= 'z',
    ensures
        forall|i: int| 0 <= i < t.len() ==> harmless(#[trigger] t[i]),
        forall|i: int| 0 <= i < t.len() && #[trigger] t[i] == '(' ==> i == name.len(),
        forall|i: int| 0 <= i < t.len() && #[trigger] t[i] == ')' ==> i == t.len() - 1,
{
    let m = name.len() as int;
    let lowered = text::ascii_lower_text(t.take(m));
    assert forall|i: int| 0 <= i < t.len() implies harmless(#[trigger] t[i]) && (t[i] == '(' ==> i
        == m) && (t[i] == ')' ==> i == t.len() - 1) by {
        if i < m {
            assert(lowered[i] == name[i]);
            assert(text::ascii_lower(t[i]) == name[i]);
        } else if m < i < t.len() - 1 {
            assert(argument_char(t[i]));
        }
    }
}

/// An accepted value can do nothing but name a colour: it is made of harmless
/// characters, it opens at most one call, and where it opens one, what it says
/// ends with the bracket that closes it.
pub proof fn law_accepted_colors_are_inert(s: Seq<char>)
    requires
        valid_color(s),
    ensures
        forall|i: int| 0 <= i < s.len() ==> harmless(#[trigger] s[i]),
        forall|i: int, j: int|
            0 <= i < s.len() && 0 <= j < s.len() && #[trigger] s[i] == '(' && #[trigger] s[j] == '('
                ==> i == j,
        forall|i: int, j: int|
            0 <= i < j < s.len() && #[trigger] s[i] == ')' ==> text::is_whitespace(#[trigger] s[j]),
{
    let t = text::trimmed(s);
    text::law_trimmed(s);
    let (a, b) = choose|i: int, j: int|
        0 <= i <= j <= s.len() && t == #[trigger] s.subrange(i, j) && (forall|k: int|
            0 <= k < i || j <= k < s.len() ==> text::is_whitespace(#[trigger] s[k]));
    reveal_strlit("rgb");
    reveal_strlit("rgba");
    reveal_strlit("hsl");
    reveal_strlit("hsla");
    if call_of(t, "rgb"@) {
        lemma_call_of_is_harmless(t, "rgb"@);
    } else if call_of(t, "rgba"@) {
        lemma_call_of_is_harmless(t, "rgba"@);
    } else if call_of(t, "hsl"@) {
        lemma_call_of_is_harmless(t, "hsl"@);
    } else if call_of(t, "hsla"@) {
        lemma_call_of_is_harmless(t, "hsla"@);
    }
    assert forall|i: int| 0 <= i < s.len() implies harmless(#[trigger] s[i]) by {
        if a <= i < b {
            assert(s[i] == t[i - a]);
        }
    }
    assert forall|i: int, j: int|
        0 <= i < s.len() && 0 <= j < s.len() && #[trigger] s[i] == '(' && #[trigger] s[j]
            == '(' implies i == j by {
        assert(a <= i < b && a <= j < b);
        assert(s[i] == t[i - a] && s[j] == t[j - a]);
    }
    assert forall|i: int, j: int|
        0 <= i < j < s.len() && #[trigger] s[i] == ')' implies text::is_whitespace(
        #[trigger] s[j],
    ) by {
        assert(a <= i < b);
        assert(s[i] == t[i - a]);
    }
}

proof fn lemma_encoded_length(a: Seq<char>, b: Seq<char>)
    ensures
        encode_utf8(a + b).len() == encode_utf8(a).len() + encode_utf8(b).len(),
    decreases a.len(),
{
    if a.len() == 0 {
        assert(a + b =~= b);
    } else {
        lemma_encoded_length(a.drop_first(), b);
        assert((a + b).drop_first() =~= a.drop_first() + b);
    }
}

/// A trimmed text has no more bytes than the text.
proof fn lemma_trimmed_is_no_longer(s: Seq<char>)
    ensures
        encode_utf8(text::trimmed(s)).len() <= encode_utf8(s).len(),
{
    text::law_trimmed(s);
    let (i, j) = choose|i: int, j: int|
        0 <= i <= j <= s.len() && text::trimmed(s) == #[trigger] s.subrange(i, j) && (forall|k: int|
            0 <= k < i || j <= k < s.len() ==> text::is_whitespace(#[trigger] s[k]));
    lemma_encoded_length(s.take(i), s.subrange(i, j));
    lemma_encoded_length(s.take(i) + s.subrange(i, j), s.skip(j));
    assert(s =~= s.take(i) + s.subrange(i, j) + s.skip(j));
}

/// White space around a value does not matter, as long as the value with it stays
/// within its length.
pub proof fn law_surrounding_space_is_ignored(s: Seq<char>)
    requires
        encode_utf8(s).len() <= MAX_COLOR_VALUE_LEN,
    ensures
        valid_color(s) == valid_color(text::trimmed(s)),
{
    lemma_trimmed_is_no_longer(s);
    text::law_trim_idempotent(s);
}

/// The letters and digits of hexadecimal numbers, in either case.
pub open spec fn of_sixteen(c: char) -> bool {
    '0' <= c <= '9' || 'a' <= c <= 'f' || 'A' <= c <= 'F'
}

/// A sign `#` with three, six or eight hexadecimal digits behind it, in either case
/// and with white space round it, is a colour. With another number of characters, or
/// any other character among them, it is none.
pub proof fn law_hexadecimal_colors(digits: Seq<char>, s: &str, res: bool)
    requires
        call_ensures(is_valid_color_value, (s,), res),
        text::trimmed(s@) == seq!['#'] + digits,
        encode_utf8(s@).len() <= 128,
    ensures
        res <==> (digits.len() == 3 || digits.len() == 6 || digits.len() == 8) && forall|i: int|
            0 <= i < digits.len() ==> of_sixteen(#[trigger] digits[i]),
{
    let t = seq!['#'] + digits;
    assert(t[0] == '#');
    reveal_strlit("rgb");
    reveal_strlit("rgba");
    reveal_strlit("hsl");
    reveal_strlit("hsla");
    lemma_hash_opens_no_call(t, "rgb"@);
    lemma_hash_opens_no_call(t, "rgba"@);
    lemma_hash_opens_no_call(t, "hsl"@);
    lemma_hash_opens_no_call(t, "hsla"@);
    if forall|i: int| 0 <= i < digits.len() ==> of_sixteen(#[trigger] digits[i]) {
        assert forall|i: int| 1 <= i < t.len() implies hex_digit(#[trigger] t[i]) by {
            assert(of_sixteen(digits[i - 1]));
        }
    }
    if hex_color(t) {
        assert forall|i: int| 0 <= i < digits.len() implies of_sixteen(#[trigger] digits[i]) by {
            assert(hex_digit(t[i + 1]));
        }
    }
}

proof fn lemma_hash_opens_no_call(t: Seq<char>, name: Seq<char>)
    requires
        t.len() > 0,
        t[0] == '#',
        name.len() > 0,
        'a' <= name[0] <= 'z',
    ensures
        !call_of(t, name),
{
    if call_of(t, name) {
        assert(text::ascii_lower_text(t.take(name.len() as int))[0] == text::ascii_lower(t[0]));
    }
}

/// The case of letters does not matter: two values that are the same but for it,
/// and no longer than allowed, are both colours or both not.
pub proof fn law_case_of_letters_does_not_matter(a: Seq<char>, b: Seq<char>)
    requires
        a.len() == b.len(),
        forall|i: int| 0 <= i < a.len() ==> #[trigger] a[i] == b[i] || text::other_case(a[i], b[i]),
    ensures
        hex_color(a) == hex_color(b),
        color_call(a) == color_call(b),
{
    lemma_case_one_way(a, b);
    assert forall|i: int| 0 <= i < b.len() implies #[trigger] b[i] == a[i] || text::other_case(
        b[i],
        a[i],
    ) by {
        assert(a[i] == b[i] || text::other_case(a[i], b[i]));
    }
    lemma_case_one_way(b, a);
}

proof fn lemma_case_one_way(a: Seq<char>, b: Seq<char>)
    requires
        a.len() == b.len(),
        forall|i: int| 0 <= i < a.len() ==> #[trigger] a[i] == b[i] || text::other_case(a[i], b[i]),
    ensures
        hex_color(a) ==> hex_color(b),
        color_call(a) ==> color_call(b),
{
    if hex_color(a) {
        assert(a[0] == '#');
        assert(b[0] == '#');
        assert forall|i: int| 1 <= i < b.len() implies hex_digit(#[trigger] b[i]) by {
            assert(hex_digit(a[i]));
        }
    }
    reveal_strlit("rgb");
    reveal_strlit("rgba");
    reveal_strlit("hsl");
    reveal_strlit("hsla");
    lemma_case_in_call(a, b, "rgb"@);
    lemma_case_in_call(a, b, "rgba"@);
    lemma_case_in_call(a, b, "hsl"@);
    lemma_case_in_call(a, b, "hsla"@);
}

proof fn lemma_case_in_call(a: Seq<char>, b: Seq<char>, name: Seq<char>)
    requires
        a.len() == b.len(),
        forall|i: int| 0 <= i < a.len() ==> #[trigger] a[i] == b[i] || text::other_case(a[i], b[i]),
    ensures
        call_of(a, name) ==> call_of(b, name),
{
    if call_of(a, name) {
        let n = name.len() as int;
        let x = a.take(n);
        let y = b.take(n);
        assert forall|i: int| 0 <= i < x.len() implies #[trigger] x[i] == y[i] || text::other_case(
            x[i],
            y[i],
        ) by {
            assert(x[i] == a[i]);
        }
        text::lemma_same_but_for_case(x, y);
        assert(a[n] == '(' && a[a.len() - 1] == ')');
        assert(b[n] == '(' && b[b.len() - 1] == ')');
        assert forall|i: int| n < i < b.len() - 1 implies argument_char(#[trigger] b[i]) by {
            assert(argument_char(a[i]));
        }
    }
}

/// What numbers are written with: digits, points, commas, per cent signs, slashes,
/// spaces and tabs.
pub open spec fn of_numbers(c: char) -> bool {
    '0' <= c <= '9' || c == '.' || c == ',' || c == '%' || c == '/' || c == ' ' || c == '\t'
}

/// A call of one of the four colour functions, with its name in letters of either
/// case, is a colour exactly when only what numbers are written with stands between
/// its brackets.
pub proof fn law_color_calls(
    name: Seq<char>,
    spelled: Seq<char>,
    arguments: Seq<char>,
    s: &str,
    res: bool,
)
    requires
        call_ensures(is_valid_color_value, (s,), res),
        name == "rgb"@ || name == "rgba"@ || name == "hsl"@ || name == "hsla"@,
        spelled.len() == name.len(),
        forall|i: int|
            0 <= i < name.len() ==> #[trigger] spelled[i] == name[i] || text::other_case(
                spelled[i],
                name[i],
            ),
        text::trimmed(s@) == spelled + seq!['('] + arguments + seq![')'],
        encode_utf8(s@).len() <= 128,
    ensures
        res <==> forall|i: int|
            0 <= i < arguments.len() ==> of_numbers(#[trigger] arguments[i]),
{
    reveal_strlit("rgb");
    reveal_strlit("rgba");
    reveal_strlit("hsl");
    reveal_strlit("hsla");
    let t = spelled + seq!['('] + arguments + seq![')'];
    let n = name.len() as int;
    assert forall|i: int| 0 <= i < name.len() implies 'a' <= #[trigger] name[i] <= 'z' by {}
    assert(spelled[0] == name[0] || text::other_case(spelled[0], name[0]));
    assert(t[0] == spelled[0] && t[0] != '#');
    assert(t.take(n) =~= spelled);
    text::lemma_same_but_for_case(spelled, name);
    assert(text::ascii_lower_text(name) =~= name) by {
        assert forall|i: int| 0 <= i < name.len() implies text::ascii_lower_text(name)[i]
            == name[i] by {}
    }
    assert(t[n] == '(' && t.last() == ')');
    if forall|i: int| 0 <= i < arguments.len() ==> of_numbers(#[trigger] arguments[i]) {
        assert forall|i: int| n < i < t.len() - 1 implies argument_char(#[trigger] t[i]) by {
            assert(of_numbers(arguments[i - n - 1]));
        }
        assert(call_of(t, name));
    }
    if color_call(t) {
        lemma_bracket_ends_the_name(t, n, "rgb"@);
        lemma_bracket_ends_the_name(t, n, "rgba"@);
        lemma_bracket_ends_the_name(t, n, "hsl"@);
        lemma_bracket_ends_the_name(t, n, "hsla"@);
        assert forall|i: int| 0 <= i < arguments.len() implies of_numbers(
            #[trigger] arguments[i],
        ) by {
            assert(t[n + 1 + i] == arguments[i]);
            assert(argument_char(t[n + 1 + i]));
        }
    }
}

/// In a call, the bracket stands right behind the name.
proof fn lemma_bracket_ends_the_name(t: Seq<char>, n: int, name: Seq<char>)
    requires
        0 <= n < t.len(),
        t[n] == '(',
        forall|i: int| 0 <= i < name.len() ==> 'a' <= #[trigger] name[i] <= 'z',
    ensures
        call_of(t, name) ==> name.len() == n && forall|i: int|
            n < i < t.len() - 1 ==> argument_char(#[trigger] t[i]),
{
    if call_of(t, name) {
        lemma_call_of_is_harmless(t, name);
    }
}

/// A value longer than the limit is no colour, whatever it says.
pub proof fn law_long_values_are_no_colors(s: &str, res: bool)
    requires
        call_ensures(is_valid_color_value, (s,), res),
        encode_utf8(s@).len() > 128,
    ensures
        !res,
{
}

/// What is accepted starts as a colour does: with `#`, or with the name of one of
/// the four functions, in letters of either case, and a bracket.
pub proof fn law_only_colors_are_accepted(s: &str, res: bool)
    requires
        call_ensures(is_valid_color_value, (s,), res),
        res,
    ensures
        ({
            let t = text::ascii_lower_text(text::trimmed(s@));
            ||| text::has_prefix(t, "#"@)
            ||| text::has_prefix(t, "rgb("@)
            ||| text::has_prefix(t, "rgba("@)
            ||| text::has_prefix(t, "hsl("@)
            ||| text::has_prefix(t, "hsla("@)
        }),
{
    let u = text::trimmed(s@);
    let t = text::ascii_lower_text(u);
    reveal_strlit("#");
    reveal_strlit("rgb");
    reveal_strlit("rgba");
    reveal_strlit("hsl");
    reveal_strlit("hsla");
    reveal_strlit("rgb(");
    reveal_strlit("rgba(");
    reveal_strlit("hsl(");
    reveal_strlit("hsla(");
    if hex_color(u) {
        assert(t[0] == '#');
        assert(t.take(1) =~= "#"@);
    } else {
        let name = if call_of(u, "rgb"@) {
            "rgb"@
        } else if call_of(u, "rgba"@) {
            "rgba"@
        } else if call_of(u, "hsl"@) {
            "hsl"@
        } else {
            "hsla"@
        };
        let n = name.len() as int;
        assert(text::ascii_lower_text(u.take(n)) =~= t.take(n));
        assert(t[n] == '(');
        assert(t.take(n + 1) =~= name.push('('));
        assert("rgb("@ =~= "rgb"@.push('('));
        assert("rgba("@ =~= "rgba"@.push('('));
        assert("hsl("@ =~= "hsl"@.push('('));
        assert("hsla("@ =~= "hsla"@.push('('));
    }
}

} // verus!
