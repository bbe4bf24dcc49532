//! Text as sequences of characters: what the string operations of this crate
//! mean, and their executable versions.
use vstd::prelude::*;

verus! {

/// The characters with the Unicode `White_Space` property.
pub open spec fn is_white_space(c: char) -> bool {
    let u = c as u32;
    ||| 0x09 <= u <= 0x0d
    ||| u == 0x20
    ||| u == 0x85
    ||| u == 0xa0
    ||| u == 0x1680
    ||| 0x2000 <= u <= 0x200a
    ||| u == 0x2028
    ||| u == 0x2029
    ||| u == 0x202f
    ||| u == 0x205f
    ||| u == 0x3000
}

/// Nothing but white space.
pub open spec fn is_blank(s: Seq<char>) -> bool {
    forall|i: int| 0 <= i < s.len() ==> is_white_space(#[trigger] s[i])
}

/// `s` without the `c`s that it starts with.
pub open spec fn trim_start(s: Seq<char>, c: char) -> Seq<char>
    decreases s.len(),
{
    if s.len() > 0 && s[0] == c {
        trim_start(s.drop_first(), c)
    } else {
        s
    }
}

/// `s` without the `c`s that it ends with.
pub open spec fn trim_end(s: Seq<char>, c: char) -> Seq<char>
    decreases s.len(),
{
    if s.len() > 0 && s.last() == c {
        trim_end(s.drop_last(), c)
    } else {
        s
    }
}

/// `pattern` stands in `s` at position `at`.
pub open spec fn occurs_at(s: Seq<char>, pattern: Seq<char>, at: int) -> bool {
    &&& 0 <= at
    &&& at + pattern.len() <= s.len()
    &&& s.subrange(at, at + pattern.len()) == pattern
}

/// `pattern` stands somewhere in `s`.
pub open spec fn contains(s: Seq<char>, pattern: Seq<char>) -> bool {
    exists|at: int| occurs_at(s, pattern, at)
}

/// `s` starts with `prefix`.
pub open spec fn has_prefix(s: Seq<char>, prefix: Seq<char>) -> bool {
    occurs_at(s, prefix, 0)
}

/// `s` ends with `suffix`.
pub open spec fn has_suffix(s: Seq<char>, suffix: Seq<char>) -> bool {
    occurs_at(s, suffix, s.len() - suffix.len())
}

/// `at` is the leftmost position at which `pattern` stands in `s`.
pub open spec fn is_first_occurrence(s: Seq<char>, pattern: Seq<char>, at: int) -> bool {
    &&& occurs_at(s, pattern, at)
    &&& forall|j: int| 0 <= j < at ==> !occurs_at(s, pattern, j)
}

/// What stands before and after the leftmost `pattern` in `s`.
pub open spec fn split_once(s: Seq<char>, pattern: Seq<char>) -> Option<(Seq<char>, Seq<char>)> {
    if exists|at: int| is_first_occurrence(s, pattern, at) {
        let at = choose|at: int| is_first_occurrence(s, pattern, at);
        Some((s.subrange(0, at), s.subrange(at + pattern.len(), s.len() as int)))
    } else {
        None
    }
}

/// `s` with every `pattern` in it, taken from left to right without overlap,
/// replaced by `by`. Meant for a `pattern` that is not empty.
pub open spec fn replace_all(s: Seq<char>, pattern: Seq<char>, by: Seq<char>) -> Seq<char>
    decreases s.len(),
{
    match split_once(s, pattern) {
        Some((before, after)) => if after.len() < s.len() {
            before + by + replace_all(after, pattern, by)
        } else {
            s
        },
        None => s,
    }
}

/// What stands behind the last `c` in `s`.
pub open spec fn after_last(s: Seq<char>, c: char) -> Option<Seq<char>> {
    if exists|at: int| is_last_char(s, c, at) {
        let at = choose|at: int| is_last_char(s, c, at);
        Some(s.subrange(at + 1, s.len() as int))
    } else {
        None
    }
}

/// `at` is the rightmost position of `c` in `s`.
pub open spec fn is_last_char(s: Seq<char>, c: char, at: int) -> bool {
    &&& 0 <= at < s.len()
    &&& s[at] == c
    &&& forall|j: int| at < j < s.len() ==> s[j] != c
}

/// An ASCII capital as the small letter; any other character as it is.
pub open spec fn ascii_lower_char(c: char) -> char {
    if 'A' <= c <= 'Z' {
        ((c as u8) + 32) as char
    } else {
        c
    }
}

/// `s` with its ASCII capitals made small.
pub open spec fn ascii_lower(s: Seq<char>) -> Seq<char> {
    Seq::new(s.len(), |i: int| ascii_lower_char(s[i]))
}

/// The digit for a number below ten.
pub open spec fn digit(n: nat) -> char {
    (('0' as u8) + n) as char
}

/// `n` in decimal notation.
pub open spec fn decimal(n: nat) -> Seq<char>
    decreases n,
{
    if n < 10 {
        seq![digit(n)]
    } else {
        decimal(n / 10).push(digit(n % 10))
    }
}

/// `n` in decimal notation, with a minus sign where it is below zero.
pub open spec fn signed_decimal(n: int) -> Seq<char> {
    if n < 0 {
        seq!['-'] + decimal((-n) as nat)
    } else {
        decimal(n as nat)
    }
}

/// Decimal notation has digits alone, and at least one.
pub proof fn lemma_decimal_digits(n: nat)
    ensures
        decimal(n).len() > 0,
        forall|i: int| 0 <= i < decimal(n).len() ==> '0' <= #[trigger] decimal(n)[i] <= '9',
        n >= 10 ==> decimal(n).len() > 1,
    decreases n,
{
    if n >= 10 {
        lemma_decimal_digits(n / 10);
    }
}

/// Decimal notation tells numbers apart.
pub proof fn lemma_decimal_injective(a: nat, b: nat)
    requires
        decimal(a) == decimal(b),
    ensures
        a == b,
    decreases a,
{
    lemma_decimal_digits(a);
    lemma_decimal_digits(b);
    if a >= 10 {
        assert(decimal(a) == decimal(a / 10).push(digit(a % 10)));
        assert(decimal(b) == decimal(b / 10).push(digit(b % 10)));
        assert(decimal(a).last() == digit(a % 10));
        assert(decimal(b).last() == digit(b % 10));
        assert(decimal(a).drop_last() =~= decimal(a / 10));
        assert(decimal(b).drop_last() =~= decimal(b / 10));
        lemma_decimal_injective(a / 10, b / 10);
    } else {
        assert(decimal(a)[0] == digit(a));
        assert(decimal(b)[0] == digit(b));
    }
}

/// Signed decimal notation tells numbers apart.
pub proof fn lemma_signed_decimal_injective(a: int, b: int)
    requires
        signed_decimal(a) == signed_decimal(b),
    ensures
        a == b,
{
    if a < 0 && b < 0 {
        lemma_decimal_digits((-a) as nat);
        assert(signed_decimal(a).drop_first() =~= decimal((-a) as nat));
        assert(signed_decimal(b).drop_first() =~= decimal((-b) as nat));
        lemma_decimal_injective((-a) as nat, (-b) as nat);
    } else if a >= 0 && b >= 0 {
        lemma_decimal_injective(a as nat, b as nat);
    } else if a < 0 {
        lemma_decimal_digits(b as nat);
        assert(signed_decimal(a)[0] == '-');
    } else {
        lemma_decimal_digits(a as nat);
        assert(signed_decimal(b)[0] == '-');
    }
}

/// A pattern has one leftmost position at most.
pub proof fn lemma_first_occurrence_unique(s: Seq<char>, pattern: Seq<char>, a: int, b: int)
    requires
        is_first_occurrence(s, pattern, a),
        is_first_occurrence(s, pattern, b),
    ensures
        a == b,
{
    if a < b {
        assert(!occurs_at(s, pattern, a));
    } else if b < a {
        assert(!occurs_at(s, pattern, b));
    }
}

/// A pattern that stands somewhere has a leftmost position.
pub proof fn lemma_first_occurrence_exists(s: Seq<char>, pattern: Seq<char>)
    requires
        contains(s, pattern),
    ensures
        exists|at: int| is_first_occurrence(s, pattern, at),
{
    let at = choose|at: int| occurs_at(s, pattern, at);
    lemma_first_occurrence_up_to(s, pattern, at);
}

proof fn lemma_first_occurrence_up_to(s: Seq<char>, pattern: Seq<char>, at: int)
    requires
        occurs_at(s, pattern, at),
    ensures
        exists|first: int| is_first_occurrence(s, pattern, first),
    decreases at,
{
    if exists|j: int| 0 <= j < at && occurs_at(s, pattern, j) {
        let j = choose|j: int| 0 <= j < at && occurs_at(s, pattern, j);
        lemma_first_occurrence_up_to(s, pattern, j);
    } else {
        assert(is_first_occurrence(s, pattern, at));
    }
}

/// What [`split_once`] gives, for a known leftmost position.
pub proof fn lemma_split_once_at(s: Seq<char>, pattern: Seq<char>, at: int)
    requires
        is_first_occurrence(s, pattern, at),
    ensures
        split_once(s, pattern) == Some(
            (s.subrange(0, at), s.subrange(at + pattern.len(), s.len() as int)),
        ),
{
    let chosen = choose|i: int| is_first_occurrence(s, pattern, i);
    lemma_first_occurrence_unique(s, pattern, at, chosen);
}

/// Replacing a pattern that stands nowhere changes nothing.
pub proof fn lemma_nothing_to_replace(s: Seq<char>, pattern: Seq<char>, by: Seq<char>)
    requires
        !contains(s, pattern),
    ensures
        split_once(s, pattern) is None,
        replace_all(s, pattern, by) == s,
{
    assert forall|i: int| !is_first_occurrence(s, pattern, i) by {
        if is_first_occurrence(s, pattern, i) {
            assert(occurs_at(s, pattern, i));
        }
    }
}

/// What is left after trimming starts with another character.
pub proof fn lemma_trimmed_start(s: Seq<char>, c: char)
    ensures
        trim_start(s, c).len() > 0 ==> trim_start(s, c)[0] != c,
    decreases s.len(),
{
    if s.len() > 0 && s[0] == c {
        lemma_trimmed_start(s.drop_first(), c);
    }
}

/// What is left after trimming ends with another character.
pub proof fn lemma_trimmed_end(s: Seq<char>, c: char)
    ensures
        trim_end(s, c).len() > 0 ==> trim_end(s, c).last() != c,
    decreases s.len(),
{
    if s.len() > 0 && s.last() == c {
        lemma_trimmed_end(s.drop_last(), c);
    }
}

/// Trimming stops at the latest at another character.
pub proof fn lemma_trimming_stops(s: Seq<char>, rest: Seq<char>, c: char)
    requires
        s.len() > 0,
        s.last() != c,
    ensures
        trim_start(s, c).len() > 0,
        trim_start(s + rest, c) == trim_start(s, c) + rest,
    decreases s.len(),
{
    if s[0] == c {
        assert((s + rest).drop_first() =~= s.drop_first() + rest);
        lemma_trimming_stops(s.drop_first(), rest, c);
    }
}

proof fn lemma_lower_char_of_capital(c: char)
    ensures
        'A' <= c <= 'Z' ==> 'a' <= ascii_lower_char(c) <= 'z',
{
    if 'A' <= c <= 'Z' {
        let u = (c as u8) + 32;
        assert('a' as u32 <= u as u32 <= 'z' as u32);
        assert(ascii_lower_char(c) as u32 == u as u32);
    }
}

/// What stands behind the last `c`, a character that is no ASCII letter, is the
/// same but for the case in texts that are the same but for the case.
pub proof fn lemma_after_last_ignores_case(a: Seq<char>, b: Seq<char>, c: char)
    requires
        ascii_lower(a) == ascii_lower(b),
        !('A' <= c <= 'Z'),
        !('a' <= c <= 'z'),
    ensures
        match (after_last(a, c), after_last(b, c)) {
            (Some(x), Some(y)) => ascii_lower(x) == ascii_lower(y),
            (None, None) => true,
            _ => false,
        },
{
    assert(a.len() == ascii_lower(a).len() && b.len() == ascii_lower(b).len());
    assert forall|i: int| 0 <= i < a.len() implies (#[trigger] a[i] == c <==> b[i] == c)
        && ascii_lower_char(a[i]) == ascii_lower_char(b[i]) by {
        assert(ascii_lower(a)[i] == ascii_lower_char(a[i]));
        assert(ascii_lower(b)[i] == ascii_lower_char(b[i]));
        lemma_lower_char_of_capital(a[i]);
        lemma_lower_char_of_capital(b[i]);
    }
    if exists|at: int| is_last_char(a, c, at) {
        let at = choose|at: int| is_last_char(a, c, at);
        assert forall|j: int| at < j < b.len() implies b[j] != c by {
            assert(a[j] != c);
        }
        assert(is_last_char(b, c, at));
        let bt = choose|bt: int| is_last_char(b, c, bt);
        assert(at == bt);
        let (x, y) = (a.subrange(at + 1, a.len() as int), b.subrange(at + 1, b.len() as int));
        assert forall|i: int| 0 <= i < x.len() implies #[trigger] ascii_lower(x)[i]
            == ascii_lower(y)[i] by {
            assert(ascii_lower_char(a[at + 1 + i]) == ascii_lower_char(b[at + 1 + i]));
        }
        assert(ascii_lower(x) =~= ascii_lower(y));
    } else if exists|bt: int| is_last_char(b, c, bt) {
        let bt = choose|bt: int| is_last_char(b, c, bt);
        assert(a[bt] == c);
        assert forall|j: int| bt < j < a.len() implies a[j] != c by {
            assert(b[j] != c);
        }
        assert(is_last_char(a, c, bt));
    }
}

/// `n` times the character `c`.
pub open spec fn repeated(c: char, n: nat) -> Seq<char> {
    Seq::new(n, |i: int| c)
}

/// Trimming the start takes every leading `c`, and nothing else.
pub proof fn law_trim_start_takes_the_leading(c: char, n: nat, rest: Seq<char>)
    requires
        rest.len() == 0 || rest[0] != c,
    ensures
        trim_start(repeated(c, n) + rest, c) == rest,
    decreases n,
{
    let s = repeated(c, n) + rest;
    if n == 0 {
        assert(s =~= rest);
    } else {
        assert(s[0] == c);
        assert(s.drop_first() =~= repeated(c, (n - 1) as nat) + rest);
        law_trim_start_takes_the_leading(c, (n - 1) as nat, rest);
    }
}

/// Trimming the end takes every trailing `c`, and nothing else.
pub proof fn law_trim_end_takes_the_trailing(c: char, n: nat, rest: Seq<char>)
    requires
        rest.len() == 0 || rest.last() != c,
    ensures
        trim_end(rest + repeated(c, n), c) == rest,
    decreases n,
{
    let s = rest + repeated(c, n);
    if n == 0 {
        assert(s =~= rest);
    } else {
        assert(s.last() == c);
        assert(s.drop_last() =~= rest + repeated(c, (n - 1) as nat));
        law_trim_end_takes_the_trailing(c, (n - 1) as nat, rest);
    }
}

/// A text is blank if and only if each of its characters is white space: a control
/// character from tab to carriage return, a space, or one of the other spaces and
/// separators of Unicode.
pub proof fn law_blank_is_white_space_alone(s: Seq<char>, c: char)
    ensures
        is_blank(s) <==> forall|i: int| 0 <= i < s.len() ==> is_white_space(#[trigger] s[i]),
        ({
            let u = c as u32;
            is_white_space(c) <==> 0x09 <= u <= 0x0d || u == 0x20 || u == 0x85 || u == 0xa0 || u
                == 0x1680 || 0x2000 <= u <= 0x200a || u == 0x2028 || u == 0x2029 || u == 0x202f || u
                == 0x205f || u == 0x3000
        }),
{
}

/// A text starts with `prefix` if and only if it is `prefix` followed by something.
pub proof fn law_prefix_is_what_it_starts_with(s: Seq<char>, prefix: Seq<char>, rest: Seq<char>)
    ensures
        has_prefix(prefix + rest, prefix),
        has_prefix(s, prefix) ==> prefix.len() <= s.len() && s == prefix + s.skip(
            prefix.len() as int,
        ),
{
    assert((prefix + rest).subrange(0, prefix.len() as int) =~= prefix);
    if has_prefix(s, prefix) {
        assert(s =~= s.subrange(0, prefix.len() as int) + s.skip(prefix.len() as int));
    }
}

/// A text contains `pattern` if and only if it is something, `pattern`, and
/// something.
pub proof fn law_contained_stands_between(
    s: Seq<char>,
    before: Seq<char>,
    pattern: Seq<char>,
    after: Seq<char>,
)
    ensures
        contains(before + pattern + after, pattern),
        contains(s, pattern) ==> exists|at: int|
            0 <= at <= s.len() - pattern.len() && s == #[trigger] s.take(at) + pattern + s.skip(
                at + pattern.len(),
            ),
{
    let whole = before + pattern + after;
    assert(whole.subrange(before.len() as int, (before.len() + pattern.len()) as int) =~= pattern);
    assert(occurs_at(whole, pattern, before.len() as int));
    if contains(s, pattern) {
        let at = choose|at: int| occurs_at(s, pattern, at);
        assert(s =~= s.take(at) + pattern + s.skip(at + pattern.len()));
    }
}

/// A text is split at the leftmost `pattern`, and replacing replaces that one and
/// goes on behind it.
pub proof fn law_leftmost_is_split_and_replaced(
    before: Seq<char>,
    pattern: Seq<char>,
    after: Seq<char>,
    by: Seq<char>,
)
    requires
        pattern.len() > 0,
        forall|j: int|
            0 <= j < before.len() ==> !occurs_at(before + pattern + after, pattern, j),
    ensures
        split_once(before + pattern + after, pattern) == Some((before, after)),
        replace_all(before + pattern + after, pattern, by) == before + by + replace_all(
            after,
            pattern,
            by,
        ),
{
    let s = before + pattern + after;
    let at = before.len() as int;
    assert(s.subrange(at, at + pattern.len()) =~= pattern);
    lemma_split_once_at(s, pattern, at);
    assert(s.subrange(0, at) =~= before);
    assert(s.subrange(at + pattern.len(), s.len() as int) =~= after);
}

/// What stands behind the last `c` is what follows it without another `c`; a text
/// without `c` has nothing behind it.
pub proof fn law_behind_the_last(stem: Seq<char>, c: char, rest: Seq<char>)
    requires
        forall|i: int| 0 <= i < rest.len() ==> rest[i] != c,
    ensures
        after_last(stem + seq![c] + rest, c) == Some(rest),
        after_last(rest, c) is None,
{
    let s = stem + seq![c] + rest;
    let at = stem.len() as int;
    assert forall|j: int| at < j < s.len() implies s[j] != c by {
        assert(s[j] == rest[j - at - 1]);
    }
    assert(is_last_char(s, c, at));
    let chosen = choose|i: int| is_last_char(s, c, i);
    assert(chosen == at);
    assert(s.subrange(at + 1, s.len() as int) =~= rest);
}

/// Making a text small changes its ASCII capitals, each to the letter 32 code points
/// on, and no other character.
pub proof fn law_lowering_changes_ascii_capitals(s: Seq<char>)
    ensures
        ascii_lower(s).len() == s.len(),
        forall|i: int|
            0 <= i < s.len() ==> if 'A' <= s[i] <= 'Z' {
                #[trigger] ascii_lower(s)[i] as u32 == s[i] as u32 + 32
            } else {
                ascii_lower(s)[i] == s[i]
            },
{
    assert forall|i: int| 0 <= i < s.len() implies if 'A' <= s[i] <= 'Z' {
        #[trigger] ascii_lower(s)[i] as u32 == s[i] as u32 + 32
    } else {
        ascii_lower(s)[i] == s[i]
    } by {
        assert(ascii_lower(s)[i] == ascii_lower_char(s[i]));
        if 'A' <= s[i] <= 'Z' {
            let u = (s[i] as u8) + 32;
            assert(ascii_lower_char(s[i]) as u32 == u as u32);
        }
    }
}

/// The number that a row of digits stands for.
pub open spec fn value_of(digits: Seq<char>) -> int
    decreases digits.len(),
{
    if digits.len() == 0 {
        0
    } else {
        value_of(digits.drop_last()) * 10 + (digits.last() as int - '0' as int)
    }
}

/// Decimal notation stands for the number, in digits, and without a leading zero but
/// for zero itself; a number below zero has a minus sign in front.
pub proof fn law_decimal_stands_for_the_number(n: nat)
    ensures
        value_of(decimal(n)) == n,
        forall|i: int| 0 <= i < decimal(n).len() ==> '0' <= #[trigger] decimal(n)[i] <= '9',
        decimal(n).len() > 0,
        decimal(n)[0] == '0' ==> n == 0 && decimal(n).len() == 1,
        n > 0 ==> signed_decimal(-n) == seq!['-'] + decimal(n),
        signed_decimal(n as int) == decimal(n),
    decreases n,
{
    lemma_decimal_digits(n);
    if n < 10 {
        assert(decimal(n) =~= seq![digit(n)]);
        assert(decimal(n).drop_last() =~= Seq::empty());
        reveal_with_fuel(value_of, 2);
        assert(digit(n) as int == '0' as int + n);
    } else {
        law_decimal_stands_for_the_number(n / 10);
        lemma_decimal_digits(n / 10);
        assert(decimal(n).drop_last() =~= decimal(n / 10));
        assert(decimal(n).last() == digit(n % 10));
        assert(digit(n % 10) as int == '0' as int + n % 10);
        assert(decimal(n)[0] == decimal(n / 10)[0]);
    }
}

/// The characters of `s`.
pub(crate) fn chars_of(s: &str) -> (chars: Vec<char>)
    ensures
        chars@ == s@,
{
    let mut chars: Vec<char> = Vec::new();
    for c in it: s.chars()
        invariant
            chars@ == it.seq().take(it.index() as int),
            it.seq() == s@,
    {
        chars.push(c);
        assert(it.seq().take(it.index() + 1) =~= it.seq().take(it.index() as int).push(c));
    }
    assert(s@.take(s@.len() as int) =~= s@);
    chars
}

fn char_is_white_space(c: char) -> (res: bool)
    ensures
        res == is_white_space(c),
{
    let u: u32 = c as u32;
    (0x09 <= u && u <= 0x0d) || u == 0x20 || u == 0x85 || u == 0xa0 || u == 0x1680 || (0x2000 <= u
        && u <= 0x200a) || u == 0x2028 || u == 0x2029 || u == 0x202f || u == 0x205f || u == 0x3000
}

/// Whether `s` holds nothing but white space.
pub(crate) fn blank(s: &str) -> (res: bool)
    ensures
        res == is_blank(s@),
{
    let chars = chars_of(s);
    let mut i: usize = 0;
    while i < chars.len()
        invariant
            i <= chars.len(),
            chars@ == s@,
            forall|j: int| 0 <= j < i ==> is_white_space(#[trigger] chars@[j]),
        decreases chars.len() - i,
    {
        if !char_is_white_space(chars[i]) {
            return false;
        }
        i += 1;
    }
    true
}

/// Whether two texts are the same.
pub(crate) fn same(a: &str, b: &str) -> (res: bool)
    ensures
        res == (a@ == b@),
{
    let left = chars_of(a);
    let right = chars_of(b);
    if left.len() != right.len() {
        return false;
    }
    let mut i: usize = 0;
    while i < left.len()
        invariant
            i <= left.len(),
            left.len() == right.len(),
            left@ == a@,
            right@ == b@,
            forall|j: int| 0 <= j < i ==> left@[j] == right@[j],
        decreases left.len() - i,
    {
        if left[i] != right[i] {
            return false;
        }
        i += 1;
    }
    assert(left@ =~= right@);
    true
}

/// `s` without the `c`s that it starts with.
pub(crate) fn without_leading(s: &str, c: char) -> (res: &str)
    ensures
        res@ == trim_start(s@, c),
{
    let chars = chars_of(s);
    let mut i: usize = 0;
    assert(s@.subrange(0, s@.len() as int) =~= s@);
    while i < chars.len() && chars[i] == c
        invariant
            i <= chars.len(),
            chars@ == s@,
            trim_start(s@, c) == trim_start(s@.subrange(i as int, s@.len() as int), c),
        decreases chars.len() - i,
    {
        assert(s@.subrange(i as int, s@.len() as int).drop_first() =~= s@.subrange(
            i + 1,
            s@.len() as int,
        ));
        i += 1;
    }
    s.substring_char(i, chars.len())
}

/// `s` without the `c`s that it ends with.
pub(crate) fn without_trailing(s: &str, c: char) -> (res: &str)
    ensures
        res@ == trim_end(s@, c),
{
    let chars = chars_of(s);
    let mut i: usize = chars.len();
    assert(s@.subrange(0, s@.len() as int) =~= s@);
    while i > 0 && chars[i - 1] == c
        invariant
            i <= chars.len(),
            chars@ == s@,
            trim_end(s@, c) == trim_end(s@.subrange(0, i as int), c),
        decreases i,
    {
        assert(s@.subrange(0, i as int).drop_last() =~= s@.subrange(0, i - 1));
        i -= 1;
    }
    s.substring_char(0, i)
}

/// Whether `pattern` stands in `chars` at position `at`.
pub(crate) fn stands_at(chars: &Vec<char>, pattern: &Vec<char>, at: usize) -> (res: bool)
    requires
        at <= chars.len(),
    ensures
        res == occurs_at(chars@, pattern@, at as int),
{
    if pattern.len() > chars.len() - at {
        return false;
    }
    let mut i: usize = 0;
    while i < pattern.len()
        invariant
            i <= pattern.len(),
            at + pattern.len() <= chars.len(),
            forall|j: int| 0 <= j < i ==> chars@[at + j] == pattern@[j],
        decreases pattern.len() - i,
    {
        if chars[at + i] != pattern[i] {
            assert(chars@.subrange(at as int, at + pattern@.len())[i as int] != pattern@[i as int]);
            return false;
        }
        i += 1;
    }
    assert(chars@.subrange(at as int, at + pattern@.len()) =~= pattern@);
    true
}

/// The leftmost position of `pattern` in `chars`, from `from` on.
pub(crate) fn find(chars: &Vec<char>, pattern: &Vec<char>, from: usize) -> (res: Option<usize>)
    requires
        from <= chars.len(),
    ensures
        match res {
            Some(at) => {
                &&& from <= at <= chars.len()
                &&& occurs_at(chars@, pattern@, at as int)
                &&& forall|j: int| from <= j < at ==> !occurs_at(chars@, pattern@, j)
            },
            None => forall|j: int| from <= j ==> !occurs_at(chars@, pattern@, j),
        },
{
    let mut i: usize = from;
    loop
        invariant
            from <= i <= chars.len(),
            forall|j: int| from <= j < i ==> !occurs_at(chars@, pattern@, j),
        decreases chars.len() - i,
    {
        if stands_at(chars, pattern, i) {
            return Some(i);
        }
        if i == chars.len() {
            return None;
        }
        i += 1;
    }
}

/// Whether `pattern` stands somewhere in `chars`.
pub(crate) fn has(chars: &Vec<char>, pattern: &str) -> (res: bool)
    ensures
        res == contains(chars@, pattern@),
{
    let wanted = chars_of(pattern);
    match find(chars, &wanted, 0) {
        Some(_) => true,
        None => false,
    }
}

/// Whether `s` starts with `prefix`.
pub(crate) fn starts_with(s: &str, prefix: &str) -> (res: bool)
    ensures
        res == has_prefix(s@, prefix@),
{
    let chars = chars_of(s);
    let wanted = chars_of(prefix);
    stands_at(&chars, &wanted, 0)
}

/// `s` with its ASCII capitals made small.
pub(crate) fn lowered(s: &str) -> (res: Vec<char>)
    ensures
        res@ == ascii_lower(s@),
{
    let chars = chars_of(s);
    let mut out: Vec<char> = Vec::new();
    let mut i: usize = 0;
    while i < chars.len()
        invariant
            i <= chars.len(),
            chars@ == s@,
            out@ =~= ascii_lower(s@).take(i as int),
        decreases chars.len() - i,
    {
        let c = chars[i];
        out.push(
            if 'A' <= c && c <= 'Z' {
                ((c as u8) + 32) as char
            } else {
                c
            },
        );
        i += 1;
    }
    assert(ascii_lower(s@).take(s@.len() as int) =~= ascii_lower(s@));
    out
}

/// Whether `chars` are the characters of `s`.
pub(crate) fn spells(chars: &Vec<char>, s: &str) -> (res: bool)
    ensures
        res == (chars@ == s@),
{
    let wanted = chars_of(s);
    if chars.len() != wanted.len() {
        return false;
    }
    let res = stands_at(chars, &wanted, 0);
    assert(chars@.subrange(0, wanted@.len() as int) =~= chars@);
    res
}

/// What stands behind the last `c` in `s`.
pub(crate) fn behind_last(s: &str, c: char) -> (res: Option<&str>)
    ensures
        match res {
            Some(rest) => after_last(s@, c) == Some(rest@),
            None => after_last(s@, c) is None,
        },
{
    let chars = chars_of(s);
    let mut i: usize = chars.len();
    while i > 0
        invariant
            i <= chars.len(),
            chars@ == s@,
            forall|j: int| i <= j < s@.len() ==> s@[j] != c,
        decreases i,
    {
        i -= 1;
        if chars[i] == c {
            proof {
                assert(is_last_char(s@, c, i as int));
                let at = choose|at: int| is_last_char(s@, c, at);
                assert(at == i);
            }
            return Some(s.substring_char(i + 1, chars.len()));
        }
    }
    None
}

/// `a` followed by `b`.
pub(crate) fn joined(a: &str, b: &str) -> (res: String)
    ensures
        res@ == a@ + b@,
{
    let mut out = a.to_owned();
    out.append(b);
    out
}

proof fn lemma_occurrence_in_tail(s: Seq<char>, pattern: Seq<char>, from: int, at: int)
    requires
        0 <= from <= s.len(),
        0 <= at,
    ensures
        occurs_at(s.subrange(from, s.len() as int), pattern, at) == occurs_at(
            s,
            pattern,
            from + at,
        ),
{
    let tail = s.subrange(from, s.len() as int);
    if at + pattern.len() <= tail.len() {
        assert(tail.subrange(at, at + pattern.len()) =~= s.subrange(
            from + at,
            from + at + pattern.len(),
        ));
    }
}

/// `s` with every `pattern` in it replaced by `by`.
pub(crate) fn replaced(s: &str, pattern: &str, by: &str) -> (res: String)
    requires
        pattern@.len() > 0,
    ensures
        res@ == replace_all(s@, pattern@, by@),
{
    let chars = chars_of(s);
    let wanted = chars_of(pattern);
    let mut out = String::new();
    let mut pos: usize = 0;
    assert(s@.subrange(0, s@.len() as int) =~= s@);
    assert(out@ + replace_all(s@, pattern@, by@) =~= replace_all(s@, pattern@, by@));
    loop
        invariant
            pos <= chars.len(),
            chars@ == s@,
            wanted@ == pattern@,
            pattern@.len() > 0,
            replace_all(s@, pattern@, by@) == out@ + replace_all(
                s@.subrange(pos as int, s@.len() as int),
                pattern@,
                by@,
            ),
        decreases chars.len() - pos,
    {
        let ghost tail = s@.subrange(pos as int, s@.len() as int);
        match find(&chars, &wanted, pos) {
            Some(at) => {
                proof {
                    lemma_occurrence_in_tail(s@, pattern@, pos as int, at - pos);
                    assert forall|j: int| 0 <= j < at - pos implies !occurs_at(tail, pattern@, j) by {
                        lemma_occurrence_in_tail(s@, pattern@, pos as int, j);
                    }
                    lemma_split_once_at(tail, pattern@, at - pos);
                }
                let end: usize = at + wanted.len();
                let before = s.substring_char(pos, at);
                let ghost done = out@;
                out.append(before);
                out.append(by);
                proof {
                    let rest = s@.subrange(end as int, s@.len() as int);
                    assert(tail.subrange(at - pos + pattern@.len(), tail.len() as int) =~= rest);
                    assert(tail.subrange(0, at - pos) =~= before@);
                    assert(done + (before@ + by@ + replace_all(rest, pattern@, by@)) =~= done
                        + before@ + by@ + replace_all(rest, pattern@, by@));
                }
                pos = end;
            },
            None => {
                proof {
                    assert forall|at: int| !is_first_occurrence(tail, pattern@, at) by {
                        if 0 <= at {
                            lemma_occurrence_in_tail(s@, pattern@, pos as int, at);
                        }
                    }
                }
                out.append(s.substring_char(pos, chars.len()));
                return out;
            },
        }
    }
}

fn digit_text(n: u8) -> (res: &'static str)
    requires
        n < 10,
    ensures
        res@ == seq![digit(n as nat)],
{
    proof {
        reveal_strlit("0");
        reveal_strlit("1");
        reveal_strlit("2");
        reveal_strlit("3");
        reveal_strlit("4");
        reveal_strlit("5");
        reveal_strlit("6");
        reveal_strlit("7");
        reveal_strlit("8");
        reveal_strlit("9");
    }
    match n {
        0 => "0",
        1 => "1",
        2 => "2",
        3 => "3",
        4 => "4",
        5 => "5",
        6 => "6",
        7 => "7",
        8 => "8",
        _ => "9",
    }
}

/// `n` in decimal notation.
pub(crate) fn decimal_text(n: u128) -> (res: String)
    ensures
        res@ == decimal(n as nat),
    decreases n,
{
    if n < 10 {
        digit_text(n as u8).to_owned()
    } else {
        let mut out = decimal_text(n / 10);
        out.append(digit_text((n % 10) as u8));
        out
    }
}

/// `n` in decimal notation, with a minus sign where it is below zero.
pub(crate) fn signed_decimal_text(n: i64) -> (res: String)
    ensures
        res@ == signed_decimal(n as int),
{
    if n < 0 {
        proof {
            reveal_strlit("-");
        }
        let magnitude: u128 = (-(n as i128)) as u128;
        let mut out = "-".to_owned();
        out.append(decimal_text(magnitude).as_str());
        assert(out@ =~= seq!['-'] + decimal(magnitude as nat));
        out
    } else {
        decimal_text(n as u128)
    }
}

} // verus!
