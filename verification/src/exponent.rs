//! Integers in scientific notation whose exponent, with that of their unit, is larger than a
//! machine word holds: where reading a text as a value comes to one.
//!
//! A value is written as its type demands. An integer has an optional sign if its type is signed,
//! digits or a prefixed literal, an optional fraction, an optional exponent, and a unit. An array
//! is a list in square brackets, a tuple one in round brackets. A string is quoted, or goes on to
//! the end of its place in the list; other values are letters or hexadecimal digits.

use vstd::prelude::*;
use vstd::string::*;

verus! {

/// Whether a character is a decimal digit.
pub open spec fn is_digit(c: char) -> bool {
    '0' <= c <= '9'
}

/// Whether a character is a letter of the Latin alphabet.
pub open spec fn is_letter(c: char) -> bool {
    'a' <= c <= 'z' || 'A' <= c <= 'Z'
}

/// Whether a character is a hexadecimal digit.
pub open spec fn is_hex_digit(c: char) -> bool {
    is_digit(c) || 'a' <= c <= 'f' || 'A' <= c <= 'F'
}

/// Whether a character separates words.
pub open spec fn is_blank(c: char) -> bool {
    c == ' ' || c == '\t'
}

/// A class of characters.
#[derive(Clone, Copy)]
pub enum Class {
    Digits,
    HexDigits,
    Letters,
    Blanks,
    /// All but this one.
    Before(char),
    /// All but these two.
    BeforeEither(char, char),
}

/// Whether a character belongs to a class.
pub open spec fn belongs(c: char, class: Class) -> bool {
    match class {
        Class::Digits => is_digit(c),
        Class::HexDigits => is_hex_digit(c),
        Class::Letters => is_letter(c),
        Class::Blanks => is_blank(c),
        Class::Before(stop) => c != stop,
        Class::BeforeEither(stop, other) => c != stop && c != other,
    }
}

/// Where the run of characters of a class that begins at a position ends.
pub open spec fn run_end(s: Seq<char>, from: int, class: Class) -> int
    decreases s.len() - from,
{
    if 0 <= from < s.len() && belongs(s[from], class) {
        run_end(s, from + 1, class)
    } else {
        from
    }
}

/// Whether this character stands at a position.
pub open spec fn stands(s: Seq<char>, i: int, c: char) -> bool {
    0 <= i < s.len() && s[i] == c
}

/// The number that the digits between two positions write.
pub open spec fn number(s: Seq<char>, from: int, to: int) -> nat
    decreases to - from,
{
    if to <= from {
        0
    } else {
        number(s, from, to - 1) * 10 + (s[to - 1] as int - '0' as int) as nat
    }
}

/// What reading a value at some position comes to.
pub enum Walk<P> {
    /// The value ends at this position.
    Ended(P),
    /// There is no value of the type.
    Failed,
    /// There is an integer whose exponent does not fit into an `isize` once that of its unit is
    /// added.
    Overflows,
}

/// Where the digits of an integer that begin at a position end, if there are any: behind a prefix
/// they are hexadecimal.
pub open spec fn digits_end(s: Seq<char>, p: int) -> Option<int> {
    let prefixed = stands(s, p, '0') && (stands(s, p + 1, 'b') || stands(s, p + 1, 'B') || stands(
        s,
        p + 1,
        'o',
    ) || stands(s, p + 1, 'O') || stands(s, p + 1, 'x') || stands(s, p + 1, 'X'));
    let from = if prefixed {
        p + 2
    } else {
        p
    };
    let end = run_end(
        s,
        from,
        if prefixed {
            Class::HexDigits
        } else {
            Class::Digits
        },
    );
    if end > from {
        Some(end)
    } else {
        None
    }
}

/// Where the fraction of an integer that begins at a position ends: there where there is none. A
/// point without digits is no fraction.
pub open spec fn fraction_end(s: Seq<char>, p: int) -> Option<int> {
    if stands(s, p, '.') {
        let end = run_end(s, p + 1, Class::Digits);
        if end > p + 1 {
            Some(end)
        } else {
            None
        }
    } else {
        Some(p)
    }
}

/// The exponent at a position as far as it is positive, and where it ends: none where none that
/// fits into an `isize` is written there.
pub open spec fn exponent_at(s: Seq<char>, p: int) -> (nat, int) {
    let negative = stands(s, p + 1, '-');
    let from = if negative || stands(s, p + 1, '+') {
        p + 2
    } else {
        p + 1
    };
    let end = run_end(s, from, Class::Digits);
    let value = number(s, from, end);
    if !(stands(s, p, 'e') || stands(s, p, 'E')) {
        (0, p)
    } else if stands(s, p + 1, '0') {
        (0, p + 2)
    } else if end == from || stands(s, from, '0') {
        (0, p)
    } else if negative {
        if value <= isize::MAX + 1 {
            (0, end)
        } else {
            (0, p)
        }
    } else if value <= isize::MAX {
        (value, end)
    } else {
        (0, p)
    }
}

/// The exponent of the unit that a word names: none for no word, nothing for another word.
pub open spec fn unit_exponent(word: Seq<char>) -> Option<nat> {
    if word == "ether"@ {
        Some(18)
    } else if word == "gwei"@ || word == "nano"@ || word == "nanoether"@ {
        Some(9)
    } else if word.len() == 0 || word == "wei"@ {
        Some(0)
    } else {
        None
    }
}

/// What reading an integer at a position comes to.
pub open spec fn walk_integer(s: Seq<char>, p: int, signed: bool) -> Walk<int> {
    let start = if signed && (stands(s, p, '+') || stands(s, p, '-')) {
        p + 1
    } else {
        p
    };
    match digits_end(s, start) {
        None => Walk::Failed,
        Some(digits) => match fraction_end(s, digits) {
            None => Walk::Failed,
            Some(fraction) => {
                let (exponent, behind) = exponent_at(s, fraction);
                let unit = run_end(s, behind, Class::Blanks);
                let end = run_end(s, unit, Class::Letters);
                match unit_exponent(s.subrange(unit, end)) {
                    None => Walk::Failed,
                    Some(scale) => if exponent + scale > isize::MAX {
                        Walk::Overflows
                    } else {
                        Walk::Ended(end)
                    },
                }
            },
        },
    }
}

/// What reading a string at a position comes to, in a list that this character closes if it is in
/// one.
pub open spec fn walk_string(s: Seq<char>, p: int, close: Option<char>) -> Walk<int> {
    if stands(s, p, '"') || stands(s, p, '\'') {
        let end = run_end(s, p + 1, Class::Before(s[p]));
        if end < s.len() {
            Walk::Ended(end + 1)
        } else {
            Walk::Failed
        }
    } else {
        match close {
            None => Walk::Ended(s.len() as int),
            Some(close) => {
                let end = run_end(s, p, Class::BeforeEither(',', close));
                if end > p {
                    Walk::Ended(end)
                } else {
                    Walk::Failed
                }
            },
        }
    }
}

/// What reading a boolean at a position comes to: it is a word.
pub open spec fn walk_word(s: Seq<char>, p: int) -> Walk<int> {
    let end = run_end(s, p, Class::Letters);
    if end > p {
        Walk::Ended(end)
    } else {
        Walk::Failed
    }
}

/// What reading bytes at a position comes to: they are hexadecimal digits behind an optional
/// prefix, which alone stands for no bytes.
pub open spec fn walk_hex(s: Seq<char>, p: int) -> Walk<int> {
    let from = if stands(s, p, '0') && stands(s, p + 1, 'x') {
        p + 2
    } else {
        p
    };
    let end = run_end(s, from, Class::HexDigits);
    if end > p {
        Walk::Ended(end)
    } else {
        Walk::Failed
    }
}

/// Where the field of a tuple type that begins at a position ends, at a depth of brackets: before
/// the next comma outside of brackets, or at the end of the fields.
pub open spec fn field_end(t: Seq<char>, i: int, b: int, depth: nat) -> int
    decreases b - i,
{
    if !(0 <= i < b <= t.len()) {
        b
    } else if t[i] == ',' && depth == 0 {
        i
    } else if t[i] == '(' {
        field_end(t, i + 1, b, depth + 1)
    } else if t[i] == ')' && depth > 0 {
        field_end(t, i + 1, b, (depth - 1) as nat)
    } else {
        field_end(t, i + 1, b, depth)
    }
}

/// Where the last square bracket before a position opens.
pub open spec fn last_opening(t: Seq<char>, a: int, i: int) -> int
    decreases i - a,
{
    if i <= a {
        a
    } else if stands(t, i - 1, '[') {
        i - 1
    } else {
        last_opening(t, a, i - 1)
    }
}

/// What reading a value comes to at a position of a text, in a list that `close` closes if it is in
/// one. The type is written between two positions of its name.
pub open spec fn walk(
    t: Seq<char>,
    a: int,
    b: int,
    s: Seq<char>,
    p: int,
    close: Option<char>,
) -> Walk<int>
    decreases b - a, 0int, 0int,
{
    if !(0 <= a < b <= t.len()) {
        Walk::Failed
    } else if t[b - 1] == ']' {
        let item = last_opening(t, a, b - 1);
        if stands(s, p, '[') && a <= item < b {
            walk_items(t, a, item, s, run_end(s, p + 1, Class::Blanks))
        } else {
            Walk::Failed
        }
    } else if t[a] == '(' {
        let open = run_end(s, p, Class::Blanks);
        if stands(s, open, '(') && b - a >= 2 {
            walk_fields(t, a + 1, b - 1, s, open + 1, true)
        } else {
            Walk::Failed
        }
    } else if t[a] == 'u' {
        walk_integer(s, p, false)
    } else if t[a] == 'i' {
        walk_integer(s, p, true)
    } else if t[a] == 's' {
        walk_string(s, p, close)
    } else if a + 1 < b && t[a + 1] == 'o' {
        walk_word(s, p)
    } else {
        walk_hex(s, p)
    }
}

/// What reading the rest of an array comes to, at the position of an item or of the bracket that
/// closes the array. The items' type is written between two positions of its name.
pub open spec fn walk_items(t: Seq<char>, a: int, b: int, s: Seq<char>, p: int) -> Walk<int>
    decreases b - a, 1int, s.len() - p,
{
    if !(0 <= p < s.len()) {
        Walk::Failed
    } else if s[p] == ']' {
        Walk::Ended(p + 1)
    } else {
        match walk(t, a, b, s, p, Some(']')) {
            Walk::Ended(end) => {
                let next = run_end(s, end + 1, Class::Blanks);
                let last = run_end(s, end, Class::Blanks);
                if stands(s, end, ',') && p < next <= s.len() {
                    walk_items(t, a, b, s, next)
                } else if stands(s, last, ']') {
                    Walk::Ended(last + 1)
                } else {
                    Walk::Failed
                }
            },
            other => other,
        }
    }
}

/// What reading the rest of a tuple comes to. The types of the fields that are left are written
/// between two positions of its name.
pub open spec fn walk_fields(
    t: Seq<char>,
    a: int,
    b: int,
    s: Seq<char>,
    p: int,
    first: bool,
) -> Walk<int>
    decreases b - a, 1int, 0int,
{
    let here = run_end(s, p, Class::Blanks);
    if !(0 <= a < b <= t.len()) {
        if stands(s, here, ')') {
            Walk::Ended(here + 1)
        } else {
            Walk::Failed
        }
    } else if !first && !stands(s, here, ',') {
        Walk::Failed
    } else {
        let from = if first {
            here
        } else {
            run_end(s, here + 1, Class::Blanks)
        };
        let field = field_end(t, a, b, 0);
        if !(a <= field <= b) {
            Walk::Failed
        } else {
            match walk(t, a, field, s, from, Some(')')) {
                Walk::Ended(end) => walk_fields(
                    t,
                    if field < b {
                        field + 1
                    } else {
                        b
                    },
                    b,
                    s,
                    end,
                    false,
                ),
                other => other,
            }
        }
    }
}

/// Whether reading a text as a value of the type of this name comes to an integer whose exponent
/// does not fit into an `isize` once that of its unit is added.
///
/// Of what stands before that integer only the shape is asked for, not whether a word is a boolean,
/// digits are as many as an address has, or a number fits its type. A text of which this holds is
/// no value of the type in any case.
pub open spec fn overflows_as(ty: Seq<char>, text: Seq<char>) -> bool {
    walk(ty, 0, ty.len() as int, text, 0, None) is Overflows
}

/// What reading a value comes to, with the position as a number.
pub open spec fn seen(walk: Walk<usize>) -> Walk<int> {
    match walk {
        Walk::Ended(end) => Walk::Ended(end as int),
        Walk::Failed => Walk::Failed,
        Walk::Overflows => Walk::Overflows,
    }
}

/// Whether a value that ends does so within a text of this length.
pub open spec fn ends_within(walk: Walk<usize>, len: nat) -> bool {
    walk matches Walk::Ended(end) ==> end <= len
}

/// A run goes on from where it begins and not beyond the text.
proof fn lemma_run_end(s: Seq<char>, from: int, class: Class)
    requires
        0 <= from,
    ensures
        from <= run_end(s, from, class),
        from <= s.len() ==> run_end(s, from, class) <= s.len(),
        forall|i: int| from <= i < run_end(s, from, class) ==> belongs(#[trigger] s[i], class),
    decreases s.len() - from,
{
    if from < s.len() && belongs(s[from], class) {
        lemma_run_end(s, from + 1, class);
    }
}

/// More digits do not make a number smaller.
proof fn lemma_number_grows(s: Seq<char>, from: int, low: int, high: int)
    requires
        0 <= from <= low <= high <= s.len(),
    ensures
        number(s, from, low) <= number(s, from, high),
    decreases high - low,
{
    if low < high {
        lemma_number_grows(s, from, low, high - 1);
    }
}

/// The characters of a text.
fn characters(s: &str) -> (r: Vec<char>)
    ensures
        r@ == s@,
{
    let mut out: Vec<char> = Vec::new();
    for c in row: s.chars()
        invariant
            row.seq() == s@,
            out@ == s@.take(row.index()),
    {
        out.push(c);
        assert(s@.take(row.index() + 1) =~= s@.take(row.index()).push(c));
    }
    assert(s@.take(out@.len() as int) =~= s@);
    out
}

/// Tests whether this character stands at a position.
fn check_stands(s: &Vec<char>, i: usize, c: char) -> (r: bool)
    ensures
        r == stands(s@, i as int, c),
        r ==> i < usize::MAX,
{
    i < s.len() && s[i] == c
}

/// Tests whether a character belongs to a class.
fn check_belongs(c: char, class: Class) -> (r: bool)
    ensures
        r == belongs(c, class),
{
    match class {
        Class::Digits => '0' <= c && c <= '9',
        Class::HexDigits => ('0' <= c && c <= '9') || ('a' <= c && c <= 'f') || ('A' <= c && c
            <= 'F'),
        Class::Letters => ('a' <= c && c <= 'z') || ('A' <= c && c <= 'Z'),
        Class::Blanks => c == ' ' || c == '\t',
        Class::Before(stop) => c != stop,
        Class::BeforeEither(stop, other) => c != stop && c != other,
    }
}

/// Finds where the run of characters of a class that begins at a position ends.
fn find_run_end(s: &Vec<char>, from: usize, class: Class) -> (r: usize)
    requires
        from <= s@.len(),
    ensures
        r == run_end(s@, from as int, class),
        from <= r <= s@.len(),
        forall|i: int| from <= i < r ==> belongs(#[trigger] s@[i], class),
{
    proof {
        lemma_run_end(s@, from as int, class);
    }
    let mut at: usize = from;
    while at < s.len() && check_belongs(s[at], class)
        invariant
            from <= at <= s@.len(),
            run_end(s@, at as int, class) == run_end(s@, from as int, class),
        decreases s@.len() - at,
    {
        at = at + 1;
    }
    at
}

/// Reads the number that the digits between two positions write, unless it is more than
/// `isize::MAX` and one.
fn read_number(s: &Vec<char>, from: usize, to: usize) -> (r: Option<u128>)
    requires
        from <= to <= s@.len(),
        forall|i: int| from <= i < to ==> is_digit(#[trigger] s@[i]),
    ensures
        r matches Some(value) ==> value == number(s@, from as int, to as int) && value
            <= isize::MAX + 1,
        r is None ==> number(s@, from as int, to as int) > isize::MAX + 1,
{
    let mut at: usize = from;
    let mut value: u128 = 0;
    while at < to
        invariant
            from <= at <= to <= s@.len(),
            forall|i: int| from <= i < to ==> is_digit(#[trigger] s@[i]),
            value == number(s@, from as int, at as int),
            value <= isize::MAX + 1,
        decreases to - at,
    {
        assert(is_digit(s@[at as int]));
        let digit: u128 = s[at] as u128 - '0' as u128;
        assert(number(s@, from as int, at + 1) == value * 10 + digit);
        value = value * 10 + digit;
        at = at + 1;
        if value > isize::MAX as u128 + 1 {
            proof {
                lemma_number_grows(s@, from as int, at as int, to as int);
            }
            return None;
        }
    }
    Some(value)
}

/// Tests whether the characters between two positions are this word.
fn check_word(s: &Vec<char>, from: usize, to: usize, word: &str) -> (r: bool)
    requires
        from <= to <= s@.len(),
    ensures
        r == (s@.subrange(from as int, to as int) == word@),
{
    let letters = characters(word);
    if to - from != letters.len() {
        return false;
    }
    let mut i: usize = 0;
    while i < letters.len()
        invariant
            letters@ == word@,
            i <= letters@.len(),
            to - from == letters@.len(),
            from <= to <= s@.len(),
            forall|j: int| 0 <= j < i ==> s@[from + j] == #[trigger] word@[j],
        decreases letters@.len() - i,
    {
        if s[from + i] != letters[i] {
            assert(s@.subrange(from as int, to as int)[i as int] != word@[i as int]);
            return false;
        }
        i = i + 1;
    }
    assert(s@.subrange(from as int, to as int) =~= word@);
    true
}

/// Finds where the digits of an integer end, if there are any.
fn find_digits_end(s: &Vec<char>, p: usize) -> (r: Option<usize>)
    requires
        p <= s@.len(),
    ensures
        r is Some == digits_end(s@, p as int) is Some,
        r matches Some(end) ==> digits_end(s@, p as int) == Some(end as int) && end <= s@.len(),
{
    let prefixed = check_stands(s, p, '0') && (check_stands(s, p + 1, 'b') || check_stands(
        s,
        p + 1,
        'B',
    ) || check_stands(s, p + 1, 'o') || check_stands(s, p + 1, 'O') || check_stands(s, p + 1, 'x')
        || check_stands(s, p + 1, 'X'));
    let from: usize = if prefixed {
        p + 2
    } else {
        p
    };
    let end: usize = if prefixed {
        find_run_end(s, from, Class::HexDigits)
    } else {
        find_run_end(s, from, Class::Digits)
    };
    if end > from {
        Some(end)
    } else {
        None
    }
}

/// Finds where the fraction of an integer ends, unless it has no digits.
fn find_fraction_end(s: &Vec<char>, p: usize) -> (r: Option<usize>)
    requires
        p <= s@.len(),
    ensures
        r is Some == fraction_end(s@, p as int) is Some,
        r matches Some(end) ==> fraction_end(s@, p as int) == Some(end as int) && end <= s@.len(),
{
    if check_stands(s, p, '.') {
        let end: usize = find_run_end(s, p + 1, Class::Digits);
        if end > p + 1 {
            Some(end)
        } else {
            None
        }
    } else {
        Some(p)
    }
}

/// Reads the exponent at a position as far as it is positive, and where it ends.
fn read_exponent(s: &Vec<char>, p: usize) -> (r: (u128, usize))
    requires
        p <= s@.len(),
    ensures
        exponent_at(s@, p as int) == (r.0 as nat, r.1 as int),
        r.0 <= isize::MAX,
        r.1 <= s@.len(),
{
    if !(check_stands(s, p, 'e') || check_stands(s, p, 'E')) {
        return (0, p);
    }
    if check_stands(s, p + 1, '0') {
        return (0, p + 2);
    }
    let negative = check_stands(s, p + 1, '-');
    let from: usize = if negative || check_stands(s, p + 1, '+') {
        p + 2
    } else {
        p + 1
    };
    let end: usize = find_run_end(s, from, Class::Digits);
    if end == from || check_stands(s, from, '0') {
        return (0, p);
    }
    assert forall|i: int| from <= i < end implies is_digit(#[trigger] s@[i]) by {
        assert(belongs(s@[i], Class::Digits));
    }
    match read_number(s, from, end) {
        None => (0, p),
        Some(value) => if negative {
            (0, end)
        } else if value <= isize::MAX as u128 {
            (value, end)
        } else {
            (0, p)
        },
    }
}

/// Reads the exponent of the unit that the word between two positions names.
fn read_unit(s: &Vec<char>, from: usize, to: usize) -> (r: Option<u128>)
    requires
        from <= to <= s@.len(),
    ensures
        r is Some == unit_exponent(s@.subrange(from as int, to as int)) is Some,
        r matches Some(scale) ==> unit_exponent(s@.subrange(from as int, to as int)) == Some(
            scale as nat,
        ) && scale <= 18,
{
    if check_word(s, from, to, "ether") {
        Some(18)
    } else if check_word(s, from, to, "gwei") || check_word(s, from, to, "nano") || check_word(
        s,
        from,
        to,
        "nanoether",
    ) {
        Some(9)
    } else if from == to || check_word(s, from, to, "wei") {
        Some(0)
    } else {
        None
    }
}

/// Reads an integer at a position.
fn check_integer(s: &Vec<char>, p: usize, signed: bool) -> (r: Walk<usize>)
    requires
        p <= s@.len(),
    ensures
        seen(r) == walk_integer(s@, p as int, signed),
        ends_within(r, s@.len()),
{
    let start: usize = if signed && (check_stands(s, p, '+') || check_stands(s, p, '-')) {
        p + 1
    } else {
        p
    };
    match find_digits_end(s, start) {
        None => Walk::Failed,
        Some(digits) => match find_fraction_end(s, digits) {
            None => Walk::Failed,
            Some(fraction) => {
                let (exponent, behind) = read_exponent(s, fraction);
                let unit: usize = find_run_end(s, behind, Class::Blanks);
                let end: usize = find_run_end(s, unit, Class::Letters);
                match read_unit(s, unit, end) {
                    None => Walk::Failed,
                    Some(scale) => if exponent + scale > isize::MAX as u128 {
                        Walk::Overflows
                    } else {
                        Walk::Ended(end)
                    },
                }
            },
        },
    }
}

/// Reads a string at a position.
fn check_string(s: &Vec<char>, p: usize, close: Option<char>) -> (r: Walk<usize>)
    requires
        p <= s@.len(),
    ensures
        seen(r) == walk_string(s@, p as int, close),
        ends_within(r, s@.len()),
{
    if check_stands(s, p, '"') || check_stands(s, p, '\'') {
        let end: usize = find_run_end(s, p + 1, Class::Before(s[p]));
        if end < s.len() {
            Walk::Ended(end + 1)
        } else {
            Walk::Failed
        }
    } else {
        match close {
            None => Walk::Ended(s.len()),
            Some(close) => {
                let end: usize = find_run_end(s, p, Class::BeforeEither(',', close));
                if end > p {
                    Walk::Ended(end)
                } else {
                    Walk::Failed
                }
            },
        }
    }
}

/// Reads a boolean at a position.
fn check_boolean(s: &Vec<char>, p: usize) -> (r: Walk<usize>)
    requires
        p <= s@.len(),
    ensures
        seen(r) == walk_word(s@, p as int),
        ends_within(r, s@.len()),
{
    let end: usize = find_run_end(s, p, Class::Letters);
    if end > p {
        Walk::Ended(end)
    } else {
        Walk::Failed
    }
}

/// Reads bytes at a position.
fn check_hex(s: &Vec<char>, p: usize) -> (r: Walk<usize>)
    requires
        p <= s@.len(),
    ensures
        seen(r) == walk_hex(s@, p as int),
        ends_within(r, s@.len()),
{
    let from: usize = if check_stands(s, p, '0') && check_stands(s, p + 1, 'x') {
        p + 2
    } else {
        p
    };
    let end: usize = find_run_end(s, from, Class::HexDigits);
    if end > p {
        Walk::Ended(end)
    } else {
        Walk::Failed
    }
}

/// Finds where the field of a tuple type that begins at a position ends.
fn find_field_end(t: &Vec<char>, a: usize, b: usize) -> (r: usize)
    requires
        a <= b <= t@.len(),
    ensures
        r == field_end(t@, a as int, b as int, 0),
        a <= r <= b,
{
    let mut i: usize = a;
    let mut depth: usize = 0;
    while i < b
        invariant
            a <= i <= b <= t@.len(),
            depth <= i,
            field_end(t@, i as int, b as int, depth as nat) == field_end(
                t@,
                a as int,
                b as int,
                0,
            ),
        decreases b - i,
    {
        if t[i] == ',' && depth == 0 {
            return i;
        }
        if t[i] == '(' {
            depth = depth + 1;
        } else if t[i] == ')' && depth > 0 {
            depth = depth - 1;
        }
        i = i + 1;
    }
    b
}

/// Finds where the last square bracket before a position opens.
fn find_last_opening(t: &Vec<char>, a: usize, b: usize) -> (r: usize)
    requires
        a <= b <= t@.len(),
    ensures
        r == last_opening(t@, a as int, b as int),
        a <= r <= b,
{
    let mut i: usize = b;
    while i > a
        invariant
            a <= i <= b <= t@.len(),
            last_opening(t@, a as int, i as int) == last_opening(t@, a as int, b as int),
        decreases i,
    {
        if t[i - 1] == '[' {
            return i - 1;
        }
        i = i - 1;
    }
    a
}

/// Reads a value at a position of a text.
fn check_value(
    t: &Vec<char>,
    a: usize,
    b: usize,
    s: &Vec<char>,
    p: usize,
    close: Option<char>,
) -> (r: Walk<usize>)
    requires
        a <= b <= t@.len(),
        p <= s@.len(),
    ensures
        seen(r) == walk(t@, a as int, b as int, s@, p as int, close),
        ends_within(r, s@.len()),
    decreases b - a, 0int,
{
    if a >= b {
        Walk::Failed
    } else if t[b - 1] == ']' {
        let item: usize = find_last_opening(t, a, b - 1);
        if check_stands(s, p, '[') {
            let first: usize = find_run_end(s, p + 1, Class::Blanks);
            check_items(t, a, item, s, first)
        } else {
            Walk::Failed
        }
    } else if t[a] == '(' {
        let open: usize = find_run_end(s, p, Class::Blanks);
        if check_stands(s, open, '(') && b - a >= 2 {
            check_fields(t, a + 1, b - 1, s, open + 1, true)
        } else {
            Walk::Failed
        }
    } else if t[a] == 'u' {
        check_integer(s, p, false)
    } else if t[a] == 'i' {
        check_integer(s, p, true)
    } else if t[a] == 's' {
        check_string(s, p, close)
    } else if b - a >= 2 && t[a + 1] == 'o' {
        check_boolean(s, p)
    } else {
        check_hex(s, p)
    }
}

/// Reads the rest of an array.
fn check_items(t: &Vec<char>, a: usize, b: usize, s: &Vec<char>, first: usize) -> (r: Walk<usize>)
    requires
        a <= b <= t@.len(),
        first <= s@.len(),
    ensures
        seen(r) == walk_items(t@, a as int, b as int, s@, first as int),
        ends_within(r, s@.len()),
    decreases b - a, 1int,
{
    let mut p: usize = first;
    while p < s.len()
        invariant
            a <= b <= t@.len(),
            p <= s@.len(),
            walk_items(t@, a as int, b as int, s@, p as int) == walk_items(
                t@,
                a as int,
                b as int,
                s@,
                first as int,
            ),
        decreases s@.len() - p,
    {
        if s[p] == ']' {
            return Walk::Ended(p + 1);
        }
        match check_value(t, a, b, s, p, Some(']')) {
            Walk::Ended(end) => {
                if check_stands(s, end, ',') {
                    let next: usize = find_run_end(s, end + 1, Class::Blanks);
                    if next > p {
                        p = next;
                        continue;
                    }
                }
                let last: usize = find_run_end(s, end, Class::Blanks);
                return if check_stands(s, last, ']') {
                    Walk::Ended(last + 1)
                } else {
                    Walk::Failed
                };
            },
            other => {
                return other;
            },
        }
    }
    Walk::Failed
}

/// Reads the rest of a tuple.
fn check_fields(t: &Vec<char>, a: usize, b: usize, s: &Vec<char>, p: usize, first: bool) -> (r:
    Walk<usize>)
    requires
        a <= b <= t@.len(),
        p <= s@.len(),
    ensures
        seen(r) == walk_fields(t@, a as int, b as int, s@, p as int, first),
        ends_within(r, s@.len()),
    decreases b - a, 1int,
{
    let here: usize = find_run_end(s, p, Class::Blanks);
    if a >= b {
        return if check_stands(s, here, ')') {
            Walk::Ended(here + 1)
        } else {
            Walk::Failed
        };
    }
    if !first && !check_stands(s, here, ',') {
        return Walk::Failed;
    }
    let from: usize = if first {
        here
    } else {
        find_run_end(s, here + 1, Class::Blanks)
    };
    let field: usize = find_field_end(t, a, b);
    match check_value(t, a, field, s, from, Some(')')) {
        Walk::Ended(end) => {
            let rest: usize = if field < b {
                field + 1
            } else {
                b
            };
            check_fields(t, rest, b, s, end, false)
        },
        other => other,
    }
}

/// Tests whether reading a text as a value of the type of this name comes to an integer whose
/// exponent is too large.
pub fn check_overflows_as(ty: &str, text: &str) -> (r: bool)
    ensures
        r == overflows_as(ty@, text@),
{
    let ty = characters(ty);
    let text = characters(text);
    match check_value(&ty, 0, ty.len(), &text, 0, None) {
        Walk::Overflows => true,
        _ => false,
    }
}

/// Digits write a number in decimal: no digits write zero, and one more digit is worth ten times
/// what stands before it and itself.
pub proof fn digits_write_a_decimal_number(s: Seq<char>, from: int, to: int, digit: nat)
    requires
        0 <= from <= to < s.len(),
        digit < 10,
        s[to] == ('0' as int + digit) as char,
    ensures
        number(s, from, from) == 0,
        number(s, from, to + 1) == 10 * number(s, from, to) + digit,
{
}

/// What reading an integer comes to is too large only for an exponent that stands in the text.
proof fn lemma_integer_overflows_by_exponent(s: Seq<char>, p: int, signed: bool)
    requires
        walk_integer(s, p, signed) is Overflows,
    ensures
        exists|i: int, from: int, to: int|
            {
                &&& 0 <= i < from < to <= s.len()
                &&& #[trigger] s[i] == 'e' || s[i] == 'E'
                &&& from == i + 1 || (from == i + 2 && s[i + 1] == '+')
                &&& forall|k: int| from <= k < to ==> '0' <= #[trigger] s[k] <= '9'
                &&& isize::MAX - 18 < #[trigger] number(s, from, to) <= isize::MAX
            },
{
    let start = if signed && (stands(s, p, '+') || stands(s, p, '-')) {
        p + 1
    } else {
        p
    };
    let digits = digits_end(s, start)->Some_0;
    let at = fraction_end(s, digits)->Some_0;
    let (exponent, behind) = exponent_at(s, at);
    let unit = run_end(s, behind, Class::Blanks);
    let scale = unit_exponent(s.subrange(unit, run_end(s, unit, Class::Letters)))->Some_0;
    assert(scale <= 18);
    assert(exponent > 0);
    let from = if stands(s, at + 1, '+') {
        at + 2
    } else {
        at + 1
    };
    lemma_run_end(s, from, Class::Digits);
    let to = run_end(s, from, Class::Digits);
    assert(exponent == number(s, from, to));
    assert forall|k: int| from <= k < to implies '0' <= #[trigger] s[k] <= '9' by {
        assert(belongs(s[k], Class::Digits));
    }
    assert(s[at] == 'e' || s[at] == 'E');
}

/// What reading a value comes to is too large only for an exponent that stands in the text.
proof fn lemma_value_overflows_by_exponent(
    t: Seq<char>,
    a: int,
    b: int,
    s: Seq<char>,
    p: int,
    close: Option<char>,
)
    requires
        walk(t, a, b, s, p, close) is Overflows,
    ensures
        exists|i: int, from: int, to: int|
            {
                &&& 0 <= i < from < to <= s.len()
                &&& #[trigger] s[i] == 'e' || s[i] == 'E'
                &&& from == i + 1 || (from == i + 2 && s[i + 1] == '+')
                &&& forall|k: int| from <= k < to ==> '0' <= #[trigger] s[k] <= '9'
                &&& isize::MAX - 18 < #[trigger] number(s, from, to) <= isize::MAX
            },
    decreases b - a, 0int, 0int,
{
    if t[b - 1] == ']' {
        let item = last_opening(t, a, b - 1);
        lemma_items_overflow_by_exponent(t, a, item, s, run_end(s, p + 1, Class::Blanks));
    } else if t[a] == '(' {
        let open = run_end(s, p, Class::Blanks);
        lemma_fields_overflow_by_exponent(t, a + 1, b - 1, s, open + 1, true);
    } else {
        lemma_integer_overflows_by_exponent(s, p, t[a] != 'u');
    }
}

/// What reading the rest of an array comes to is too large only for an exponent that stands in
/// the text.
proof fn lemma_items_overflow_by_exponent(t: Seq<char>, a: int, b: int, s: Seq<char>, p: int)
    requires
        walk_items(t, a, b, s, p) is Overflows,
    ensures
        exists|i: int, from: int, to: int|
            {
                &&& 0 <= i < from < to <= s.len()
                &&& #[trigger] s[i] == 'e' || s[i] == 'E'
                &&& from == i + 1 || (from == i + 2 && s[i + 1] == '+')
                &&& forall|k: int| from <= k < to ==> '0' <= #[trigger] s[k] <= '9'
                &&& isize::MAX - 18 < #[trigger] number(s, from, to) <= isize::MAX
            },
    decreases b - a, 1int, s.len() - p,
{
    match walk(t, a, b, s, p, Some(']')) {
        Walk::Ended(end) => {
            lemma_items_overflow_by_exponent(t, a, b, s, run_end(s, end + 1, Class::Blanks));
        },
        _ => {
            lemma_value_overflows_by_exponent(t, a, b, s, p, Some(']'));
        },
    }
}

/// What reading the rest of a tuple comes to is too large only for an exponent that stands in
/// the text.
proof fn lemma_fields_overflow_by_exponent(
    t: Seq<char>,
    a: int,
    b: int,
    s: Seq<char>,
    p: int,
    first: bool,
)
    requires
        walk_fields(t, a, b, s, p, first) is Overflows,
    ensures
        exists|i: int, from: int, to: int|
            {
                &&& 0 <= i < from < to <= s.len()
                &&& #[trigger] s[i] == 'e' || s[i] == 'E'
                &&& from == i + 1 || (from == i + 2 && s[i + 1] == '+')
                &&& forall|k: int| from <= k < to ==> '0' <= #[trigger] s[k] <= '9'
                &&& isize::MAX - 18 < #[trigger] number(s, from, to) <= isize::MAX
            },
    decreases b - a, 1int, 0int,
{
    let here = run_end(s, p, Class::Blanks);
    let from = if first {
        here
    } else {
        run_end(s, here + 1, Class::Blanks)
    };
    let field = field_end(t, a, b, 0);
    match walk(t, a, field, s, from, Some(')')) {
        Walk::Ended(end) => {
            lemma_fields_overflow_by_exponent(
                t,
                if field < b {
                    field + 1
                } else {
                    b
                },
                b,
                s,
                end,
                false,
            );
        },
        _ => {
            lemma_value_overflows_by_exponent(t, a, field, s, from, Some(')'));
        },
    }
}

/// A text is found too large, whatever the type, only if it writes an exponent: an `e`, a plus
/// sign or none, and decimal digits whose number is at most `isize::MAX` and exceeds it with at
/// most eighteen more.
pub proof fn only_large_exponents_overflow(ty: Seq<char>, text: Seq<char>)
    requires
        overflows_as(ty, text),
    ensures
        exists|i: int, from: int, to: int|
            {
                &&& 0 <= i < from < to <= text.len()
                &&& #[trigger] text[i] == 'e' || text[i] == 'E'
                &&& from == i + 1 || (from == i + 2 && text[i + 1] == '+')
                &&& forall|k: int| from <= k < to ==> '0' <= #[trigger] text[k] <= '9'
                &&& isize::MAX - 18 < #[trigger] number(text, from, to) <= isize::MAX
            },
{
    lemma_value_overflows_by_exponent(ty, 0, ty.len() as int, text, 0, None);
}

/// A text is not found too large under a type that is neither an integer nor made of others: its
/// name begins with no letter of an integer's and has no bracket at its ends.
pub proof fn only_integers_overflow(ty: Seq<char>, text: Seq<char>)
    requires
        ty.len() > 0 ==> ty[0] != 'u' && ty[0] != 'i' && ty[0] != '(' && ty.last() != ']',
    ensures
        !overflows_as(ty, text),
{
}

/// A run ends where its characters do.
proof fn lemma_run_ends_at(s: Seq<char>, from: int, to: int, class: Class)
    requires
        0 <= from <= to <= s.len(),
        forall|k: int| from <= k < to ==> belongs(#[trigger] s[k], class),
        to < s.len() ==> !belongs(s[to], class),
    ensures
        run_end(s, from, class) == to,
    decreases to - from,
{
    if from < to {
        assert(belongs(s[from], class));
        lemma_run_ends_at(s, from + 1, to, class);
    }
}

/// The letters of a unit.
proof fn lemma_unit_letters(unit: Seq<char>)
    requires
        unit == "ether"@ || unit == "gwei"@ || unit == "nano"@ || unit == "nanoether"@,
    ensures
        unit.len() > 0,
        forall|k: int| 0 <= k < unit.len() ==> belongs(#[trigger] unit[k], Class::Letters),
{
    reveal_strlit("ether");
    reveal_strlit("gwei");
    reveal_strlit("nano");
    reveal_strlit("nanoether");
}

/// An integer whose exponent exceeds `isize::MAX` once that of its unit is added is found. It is
/// cut into a sign, or none, where the type is signed; a prefix, or none; digits; a fraction, or
/// none; an `e` at `d`; a plus sign, or none; an exponent without a leading zero; blanks; and a
/// unit, behind which no letter stands. A prefixed literal takes the `e` for one of its digits
/// unless there is a fraction between them.
pub proof fn large_exponents_of_integers_overflow(
    ty: Seq<char>,
    s: Seq<char>,
    a: int,
    b: int,
    c: int,
    d: int,
    f: int,
    g: int,
    h: int,
    i: int,
)
    requires
        ty.len() > 0 && (ty[0] == 'u' || ty[0] == 'i') && ty.last() != ']',
        0 <= a <= b < c <= d < f < g <= h < i <= s.len(),
        a == 0 || (a == 1 && ty[0] == 'i' && (s[0] == '+' || s[0] == '-')),
        b == a || (b == a + 2 && c < d && s[a] == '0' && (s[a + 1] == 'b' || s[a + 1] == 'B' || s[a
            + 1] == 'o' || s[a + 1] == 'O' || s[a + 1] == 'x' || s[a + 1] == 'X')),
        forall|k: int|
            b <= k < c ==> '0' <= #[trigger] s[k] <= '9' || (a < b && ('a' <= s[k] <= 'f' || 'A'
                <= s[k] <= 'F')),
        c == d || (c + 1 < d && s[c] == '.'),
        forall|k: int| c < k < d ==> '0' <= #[trigger] s[k] <= '9',
        s[d] == 'e' || s[d] == 'E',
        f == d + 1 || (f == d + 2 && s[d + 1] == '+'),
        s[f] != '0',
        forall|k: int| f <= k < g ==> '0' <= #[trigger] s[k] <= '9',
        forall|k: int| g <= k < h ==> #[trigger] s[k] == ' ' || s[k] == '\t',
        i < s.len() ==> !('a' <= s[i] <= 'z' || 'A' <= s[i] <= 'Z'),
        number(s, f, g) <= isize::MAX,
        (s.subrange(h, i) == "ether"@ && number(s, f, g) + 18 > isize::MAX) || ((s.subrange(h, i)
            == "gwei"@ || s.subrange(h, i) == "nano"@ || s.subrange(h, i) == "nanoether"@)
            && number(s, f, g) + 9 > isize::MAX),
    ensures
        overflows_as(ty, s),
{
    let unit = s.subrange(h, i);
    let signed = ty[0] == 'i';
    lemma_unit_letters(unit);
    let class = if a < b {
        Class::HexDigits
    } else {
        Class::Digits
    };
    assert forall|k: int| b <= k < c implies belongs(#[trigger] s[k], class) by {}
    lemma_run_ends_at(s, b, c, class);
    assert(!belongs(s[d], Class::Digits));
    assert forall|k: int| c < k < d implies belongs(#[trigger] s[k], Class::Digits) by {}
    if c < d {
        lemma_run_ends_at(s, c + 1, d, Class::Digits);
    }
    assert forall|k: int| f <= k < g implies belongs(#[trigger] s[k], Class::Digits) by {}
    assert(belongs(unit[0], Class::Letters));
    assert(unit[0] == s[h]);
    lemma_run_ends_at(s, f, g, Class::Digits);
    assert forall|k: int| g <= k < h implies belongs(#[trigger] s[k], Class::Blanks) by {}
    lemma_run_ends_at(s, g, h, Class::Blanks);
    assert forall|k: int| h <= k < i implies belongs(#[trigger] s[k], Class::Letters) by {
        assert(s[k] == unit[k - h]);
    }
    lemma_run_ends_at(s, h, i, Class::Letters);
    assert(digits_end(s, a) == Some(c)) by {
        if a == b && s[a] == '0' && a + 1 < s.len() {
            assert(a + 1 <= c);
            if a + 1 < c {
                assert('0' <= s[a + 1] <= '9');
            }
        }
    }
    assert(fraction_end(s, c) == Some(d));
    assert(exponent_at(s, d) == (number(s, f, g), g));
    assert(walk_integer(s, 0, signed) is Overflows);
}

/// A prefixed literal without a point is no large exponent: its letters are digits.
pub proof fn prefixed_literals_do_not_overflow(ty: Seq<char>, sign: Seq<char>, literal: Seq<char>)
    requires
        ty.len() > 0 && (ty[0] == 'u' || ty[0] == 'i') && ty.last() != ']',
        sign.len() == 0 || sign == seq!['+'] || sign == seq!['-'],
        literal.len() >= 2 && literal[0] == '0' && (literal[1] == 'x' || literal[1] == 'X'
            || literal[1] == 'b' || literal[1] == 'B' || literal[1] == 'o' || literal[1] == 'O'),
        !literal.contains('.'),
    ensures
        !overflows_as(ty, sign + literal),
{
    let s = sign + literal;
    let signed = ty[0] == 'i';
    if overflows_as(ty, s) {
        let start = if signed && (stands(s, 0, '+') || stands(s, 0, '-')) {
            1int
        } else {
            0int
        };
        if sign.len() > 0 {
            assert(s[0] == sign[0]);
        }
        assert(s[sign.len() as int] == literal[0] && s[sign.len() as int + 1] == literal[1]);
        if start == sign.len() {
            lemma_run_end(s, start + 2, Class::HexDigits);
            let end = run_end(s, start + 2, Class::HexDigits);
            lemma_run_stops(s, start + 2, Class::HexDigits);
            assert(digits_end(s, start) == Some(end));
            if end < s.len() {
                assert(s[end] == literal[end - sign.len()]);
                assert(literal.contains(literal[end - sign.len()]));
            }
            assert(exponent_at(s, end) == (0nat, end));
        } else {
            assert(run_end(s, 0, Class::Digits) == 0);
            assert(digits_end(s, start) is None);
        }
    }
}

/// A run ends at the end of the text or at a character that does not belong to it.
proof fn lemma_run_stops(s: Seq<char>, from: int, class: Class)
    requires
        0 <= from <= s.len(),
    ensures
        run_end(s, from, class) < s.len() ==> !belongs(s[run_end(s, from, class)], class),
    decreases s.len() - from,
{
    if from < s.len() && belongs(s[from], class) {
        lemma_run_stops(s, from + 1, class);
    }
}

/// An integer is found too large only where it is cut so: a sign, or none, where the type is
/// signed; a prefix, or none; digits; a fraction, or none; an `e` at `d`; a plus sign, or none; an
/// exponent without a leading zero; blanks; and a unit, behind which no letter stands, whose
/// exponent takes the one that is written beyond `isize::MAX`.
pub proof fn only_integers_with_large_exponents_overflow(ty: Seq<char>, s: Seq<char>) -> (cut: (
    int,
    int,
    int,
    int,
    int,
    int,
    int,
    int,
))
    requires
        ty.len() > 0 && (ty[0] == 'u' || ty[0] == 'i') && ty.last() != ']',
        overflows_as(ty, s),
    ensures
        ({
            let (a, b, c, d, f, g, h, i) = cut;
            &&& 0 <= a <= b < c <= d < f < g <= h < i <= s.len()
            &&& a == 0 || (a == 1 && ty[0] == 'i' && (s[0] == '+' || s[0] == '-'))
            &&& b == a || (b == a + 2 && c < d && s[a] == '0' && (s[a + 1] == 'b' || s[a + 1] == 'B'
                || s[a + 1] == 'o' || s[a + 1] == 'O' || s[a + 1] == 'x' || s[a + 1] == 'X'))
            &&& forall|k: int|
                b <= k < c ==> '0' <= #[trigger] s[k] <= '9' || (a < b && ('a' <= s[k] <= 'f' || 'A'
                    <= s[k] <= 'F'))
            &&& c == d || (c + 1 < d && s[c] == '.')
            &&& forall|k: int| c < k < d ==> '0' <= #[trigger] s[k] <= '9'
            &&& s[d] == 'e' || s[d] == 'E'
            &&& f == d + 1 || (f == d + 2 && s[d + 1] == '+')
            &&& s[f] != '0'
            &&& forall|k: int| f <= k < g ==> '0' <= #[trigger] s[k] <= '9'
            &&& forall|k: int| g <= k < h ==> #[trigger] s[k] == ' ' || s[k] == '\t'
            &&& i < s.len() ==> !('a' <= s[i] <= 'z' || 'A' <= s[i] <= 'Z')
            &&& number(s, f, g) <= isize::MAX
            &&& (s.subrange(h, i) == "ether"@ && number(s, f, g) + 18 > isize::MAX) || ((s.subrange(
                h,
                i,
            ) == "gwei"@ || s.subrange(h, i) == "nano"@ || s.subrange(h, i) == "nanoether"@)
                && number(s, f, g) + 9 > isize::MAX)
        }),
{
    let signed = ty[0] == 'i';
    let a = if signed && (stands(s, 0, '+') || stands(s, 0, '-')) {
        1int
    } else {
        0int
    };
    let prefixed = stands(s, a, '0') && (stands(s, a + 1, 'b') || stands(s, a + 1, 'B') || stands(
        s,
        a + 1,
        'o',
    ) || stands(s, a + 1, 'O') || stands(s, a + 1, 'x') || stands(s, a + 1, 'X'));
    let b = if prefixed {
        a + 2
    } else {
        a
    };
    let class = if prefixed {
        Class::HexDigits
    } else {
        Class::Digits
    };
    let c = digits_end(s, a)->Some_0;
    lemma_run_end(s, b, class);
    lemma_run_stops(s, b, class);
    let d = fraction_end(s, c)->Some_0;
    if c < d {
        lemma_run_end(s, c + 1, Class::Digits);
    }
    let (exponent, g) = exponent_at(s, d);
    let f = if stands(s, d + 1, '+') {
        d + 2
    } else {
        d + 1
    };
    let h = run_end(s, g, Class::Blanks);
    let i = run_end(s, h, Class::Letters);
    lemma_run_end(s, f, Class::Digits);
    lemma_run_end(s, g, Class::Blanks);
    lemma_run_end(s, h, Class::Letters);
    lemma_run_stops(s, h, Class::Letters);
    let scale = unit_exponent(s.subrange(h, i))->Some_0;
    assert(exponent > 0 && scale > 0);
    let unit = s.subrange(h, i);
    assert(unit == "ether"@ || unit == "gwei"@ || unit == "nano"@ || unit == "nanoether"@);
    lemma_unit_letters(unit);
    assert(unit.len() == i - h);
    assert forall|k: int| b <= k < c implies '0' <= #[trigger] s[k] <= '9' || (a < b && ('a' <= s[k]
        <= 'f' || 'A' <= s[k] <= 'F')) by {
        assert(belongs(s[k], class));
    }
    assert forall|k: int| c < k < d implies '0' <= #[trigger] s[k] <= '9' by {
        assert(belongs(s[k], Class::Digits));
    }
    assert forall|k: int| f <= k < g implies '0' <= #[trigger] s[k] <= '9' by {
        assert(belongs(s[k], Class::Digits));
    }
    assert forall|k: int| g <= k < h implies #[trigger] s[k] == ' ' || s[k] == '\t' by {
        assert(belongs(s[k], Class::Blanks));
    }
    (a, b, c, d, f, g, h, i)
}

/// Whether the same name is written from `a` to `b` in one text and `c` further in another.
spec fn same_name(t: Seq<char>, a: int, b: int, v: Seq<char>, c: int) -> bool {
    &&& 0 <= a <= b <= t.len()
    &&& 0 <= a + c
    &&& b + c <= v.len()
    &&& forall|k: int| a <= k < b ==> #[trigger] t[k] == v[k + c]
}

/// Whether one text from `p` on is another one `d` further.
spec fn same_rest(s: Seq<char>, p: int, u: Seq<char>, d: int) -> bool {
    &&& 0 <= p <= s.len()
    &&& 0 <= p + d
    &&& s.len() + d == u.len()
    &&& forall|k: int| p <= k < s.len() ==> #[trigger] s[k] == u[k + d]
}

/// What reading comes to when the text stands `d` further.
spec fn moved(walk: Walk<int>, d: int) -> Walk<int> {
    match walk {
        Walk::Ended(end) => Walk::Ended(end + d),
        other => other,
    }
}

/// Whether a value that ends does so between two positions.
spec fn ends_between(walk: Walk<int>, p: int, len: int) -> bool {
    walk matches Walk::Ended(end) ==> p <= end <= len
}

/// A run moves with its text.
proof fn lemma_run_moves(s: Seq<char>, p: int, u: Seq<char>, d: int, from: int, class: Class)
    requires
        same_rest(s, p, u, d),
        p <= from <= s.len(),
    ensures
        run_end(u, from + d, class) == run_end(s, from, class) + d,
        from <= run_end(s, from, class) <= s.len(),
    decreases s.len() - from,
{
    if from < s.len() {
        assert(s[from] == u[from + d]);
        if belongs(s[from], class) {
            lemma_run_moves(s, p, u, d, from + 1, class);
        }
    }
}

/// A number moves with its text.
proof fn lemma_number_moves(s: Seq<char>, p: int, u: Seq<char>, d: int, from: int, to: int)
    requires
        same_rest(s, p, u, d),
        p <= from,
        to <= s.len(),
    ensures
        number(u, from + d, to + d) == number(s, from, to),
    decreases to - from,
{
    if from < to {
        lemma_number_moves(s, p, u, d, from, to - 1);
        assert(s[to - 1] == u[to - 1 + d]);
    }
}

/// What stands at a position moves with its text.
proof fn lemma_stands_moves(s: Seq<char>, p: int, u: Seq<char>, d: int, i: int)
    requires
        same_rest(s, p, u, d),
        p <= i,
    ensures
        forall|c: char| #[trigger] stands(u, i + d, c) == stands(s, i, c),
{
    if i < s.len() {
        assert(s[i] == u[i + d]);
    }
}

/// The exponent of an integer moves with its text.
proof fn lemma_exponent_moves(s: Seq<char>, p: int, u: Seq<char>, d: int, i: int)
    requires
        same_rest(s, p, u, d),
        p <= i <= s.len(),
    ensures
        exponent_at(u, i + d) == (exponent_at(s, i).0, exponent_at(s, i).1 + d),
        i <= exponent_at(s, i).1 <= s.len(),
{
    lemma_stands_moves(s, p, u, d, i);
    assert(stands(u, i + d, 'e') == stands(s, i, 'e'));
    assert(stands(u, i + d, 'E') == stands(s, i, 'E'));
    if stands(s, i, 'e') || stands(s, i, 'E') {
        lemma_stands_moves(s, p, u, d, i + 1);
        assert(i + d + 1 == i + 1 + d);
        assert(stands(u, i + 1 + d, '-') == stands(s, i + 1, '-'));
        assert(stands(u, i + 1 + d, '+') == stands(s, i + 1, '+'));
        assert(stands(u, i + 1 + d, '0') == stands(s, i + 1, '0'));
        let from = if stands(s, i + 1, '-') || stands(s, i + 1, '+') {
            i + 2
        } else {
            i + 1
        };
        lemma_run_moves(s, p, u, d, from, Class::Digits);
        lemma_stands_moves(s, p, u, d, from);
        assert(stands(u, from + d, '0') == stands(s, from, '0'));
        lemma_number_moves(s, p, u, d, from, run_end(s, from, Class::Digits));
    }
}

/// Where the digits and the fraction of an integer end moves with their text.
proof fn lemma_digits_move(s: Seq<char>, p: int, u: Seq<char>, d: int, i: int)
    requires
        same_rest(s, p, u, d),
        p <= i <= s.len(),
    ensures
        digits_end(s, i) is Some <==> digits_end(u, i + d) is Some,
        digits_end(s, i) is Some ==> digits_end(u, i + d)->Some_0 == digits_end(s, i)->Some_0 + d
            && i <= digits_end(s, i)->Some_0 <= s.len(),
        fraction_end(s, i) is Some <==> fraction_end(u, i + d) is Some,
        fraction_end(s, i) is Some ==> fraction_end(u, i + d)->Some_0 == fraction_end(s, i)->Some_0
            + d && i <= fraction_end(s, i)->Some_0 <= s.len(),
{
    lemma_stands_moves(s, p, u, d, i);
    lemma_stands_moves(s, p, u, d, i + 1);
    assert(i + d + 1 == i + 1 + d);
    assert(stands(u, i + d, '0') == stands(s, i, '0'));
    assert(stands(u, i + d, '.') == stands(s, i, '.'));
    assert(stands(u, i + 1 + d, 'b') == stands(s, i + 1, 'b'));
    assert(stands(u, i + 1 + d, 'B') == stands(s, i + 1, 'B'));
    assert(stands(u, i + 1 + d, 'o') == stands(s, i + 1, 'o'));
    assert(stands(u, i + 1 + d, 'O') == stands(s, i + 1, 'O'));
    assert(stands(u, i + 1 + d, 'x') == stands(s, i + 1, 'x'));
    assert(stands(u, i + 1 + d, 'X') == stands(s, i + 1, 'X'));
    lemma_run_moves(s, p, u, d, i, Class::Digits);
    if i + 1 <= s.len() {
        lemma_run_moves(s, p, u, d, i + 1, Class::Digits);
    }
    if i + 2 <= s.len() {
        lemma_run_moves(s, p, u, d, i + 2, Class::HexDigits);
    }
    assert(i + d + 2 == i + 2 + d);
}

/// What reading an integer comes to moves with its text.
proof fn lemma_integer_moves(s: Seq<char>, p: int, u: Seq<char>, d: int, i: int, signed: bool)
    requires
        same_rest(s, p, u, d),
        p <= i <= s.len(),
    ensures
        walk_integer(u, i + d, signed) == moved(walk_integer(s, i, signed), d),
        ends_between(walk_integer(s, i, signed), i, s.len() as int),
{
    lemma_stands_moves(s, p, u, d, i);
    assert(stands(u, i + d, '+') == stands(s, i, '+'));
    assert(stands(u, i + d, '-') == stands(s, i, '-'));
    let start = if signed && (stands(s, i, '+') || stands(s, i, '-')) {
        i + 1
    } else {
        i
    };
    lemma_digits_move(s, p, u, d, start);
    if digits_end(s, start) is Some {
        let digits = digits_end(s, start)->Some_0;
        lemma_digits_move(s, p, u, d, digits);
        if fraction_end(s, digits) is Some {
            let fraction = fraction_end(s, digits)->Some_0;
            lemma_exponent_moves(s, p, u, d, fraction);
            let behind = exponent_at(s, fraction).1;
            lemma_run_moves(s, p, u, d, behind, Class::Blanks);
            let unit = run_end(s, behind, Class::Blanks);
            lemma_run_moves(s, p, u, d, unit, Class::Letters);
            let end = run_end(s, unit, Class::Letters);
            assert(u.subrange(unit + d, end + d) =~= s.subrange(unit, end)) by {
                assert forall|k: int| 0 <= k < end - unit implies u.subrange(unit + d, end + d)[k]
                    == s.subrange(unit, end)[k] by {
                    assert(s[unit + k] == u[unit + k + d]);
                }
            }
        }
    }
}

/// What reading a string, a word or bytes comes to moves with its text.
proof fn lemma_others_move(
    s: Seq<char>,
    p: int,
    u: Seq<char>,
    d: int,
    i: int,
    close: Option<char>,
)
    requires
        same_rest(s, p, u, d),
        p <= i <= s.len(),
    ensures
        walk_string(u, i + d, close) == moved(walk_string(s, i, close), d),
        ends_between(walk_string(s, i, close), i, s.len() as int),
        walk_word(u, i + d) == moved(walk_word(s, i), d),
        ends_between(walk_word(s, i), i, s.len() as int),
        walk_hex(u, i + d) == moved(walk_hex(s, i), d),
        ends_between(walk_hex(s, i), i, s.len() as int),
{
    lemma_stands_moves(s, p, u, d, i);
    lemma_stands_moves(s, p, u, d, i + 1);
    assert(i + d + 1 == i + 1 + d);
    assert(stands(u, i + d, '"') == stands(s, i, '"'));
    assert(stands(u, i + d, '\'') == stands(s, i, '\''));
    assert(stands(u, i + d, '0') == stands(s, i, '0'));
    assert(stands(u, i + 1 + d, 'x') == stands(s, i + 1, 'x'));
    if i < s.len() {
        assert(s[i] == u[i + d]);
        lemma_run_moves(s, p, u, d, i + 1, Class::Before(s[i]));
    }
    if close is Some {
        lemma_run_moves(s, p, u, d, i, Class::BeforeEither(',', close->Some_0));
    }
    lemma_run_moves(s, p, u, d, i, Class::Letters);
    lemma_run_moves(s, p, u, d, i, Class::HexDigits);
    if i + 2 <= s.len() {
        lemma_run_moves(s, p, u, d, i + 2, Class::HexDigits);
    }
    assert(i + d + 2 == i + 2 + d);
}

/// Where a field of a tuple type ends moves with its name.
proof fn lemma_field_moves(t: Seq<char>, a: int, b: int, v: Seq<char>, c: int, depth: nat)
    requires
        same_name(t, a, b, v, c),
    ensures
        field_end(v, a + c, b + c, depth) == field_end(t, a, b, depth) + c,
        a <= field_end(t, a, b, depth) <= b,
        field_end(t, a, b, depth) < b ==> t[field_end(t, a, b, depth)] == ',',
    decreases b - a,
{
    if a < b {
        assert(t[a] == v[a + c]);
        if t[a] == ',' && depth == 0 {
        } else if t[a] == '(' {
            lemma_field_moves(t, a + 1, b, v, c, depth + 1);
        } else if t[a] == ')' && depth > 0 {
            lemma_field_moves(t, a + 1, b, v, c, (depth - 1) as nat);
        } else {
            lemma_field_moves(t, a + 1, b, v, c, depth);
        }
    }
}

/// Where the last square bracket of a name opens moves with the name.
proof fn lemma_opening_moves(t: Seq<char>, a: int, b: int, v: Seq<char>, c: int)
    requires
        same_name(t, a, b, v, c),
    ensures
        last_opening(v, a + c, b + c) == last_opening(t, a, b) + c,
        a <= last_opening(t, a, b) <= b,
    decreases b - a,
{
    if a < b {
        assert(t[b - 1] == v[b - 1 + c]);
        if t[b - 1] != '[' {
            lemma_opening_moves(t, a, b - 1, v, c);
        }
    }
}

/// What reading a value comes to moves with its text, and goes by the name of its type alone.
proof fn lemma_value_moves(
    t: Seq<char>,
    a: int,
    b: int,
    v: Seq<char>,
    c: int,
    s: Seq<char>,
    p: int,
    u: Seq<char>,
    d: int,
    close: Option<char>,
)
    requires
        same_name(t, a, b, v, c),
        same_rest(s, p, u, d),
    ensures
        walk(v, a + c, b + c, u, p + d, close) == moved(walk(t, a, b, s, p, close), d),
        ends_between(walk(t, a, b, s, p, close), p, s.len() as int),
    decreases b - a, 0int, 0int,
{
    if a < b {
        assert(t[b - 1] == v[b - 1 + c]);
        assert(t[a] == v[a + c]);
        lemma_stands_moves(s, p, u, d, p);
        if t[b - 1] == ']' {
            lemma_opening_moves(t, a, b - 1, v, c);
            let item = last_opening(t, a, b - 1);
            assert(b + c - 1 == b - 1 + c);
            assert(stands(u, p + d, '[') == stands(s, p, '['));
            if stands(s, p, '[') {
                lemma_run_moves(s, p, u, d, p + 1, Class::Blanks);
                let first = run_end(s, p + 1, Class::Blanks);
                assert(p + d + 1 == p + 1 + d);
                assert(same_rest(s, first, u, d));
                lemma_items_move(t, a, item, v, c, s, first, u, d);
            }
        } else if t[a] == '(' {
            lemma_run_moves(s, p, u, d, p, Class::Blanks);
            let open = run_end(s, p, Class::Blanks);
            lemma_stands_moves(s, p, u, d, open);
            assert(stands(u, open + d, '(') == stands(s, open, '('));
            if stands(s, open, '(') && b - a >= 2 {
                assert(same_rest(s, open + 1, u, d));
                assert(open + d + 1 == open + 1 + d);
                assert(a + c + 1 == a + 1 + c && b + c - 1 == b - 1 + c);
                lemma_fields_move(t, a + 1, b - 1, v, c, s, open + 1, u, d, true);
            }
        } else {
            lemma_integer_moves(s, p, u, d, p, false);
            lemma_integer_moves(s, p, u, d, p, true);
            lemma_others_move(s, p, u, d, p, close);
            if a + 1 < b {
                assert(t[a + 1] == v[a + 1 + c]);
                assert(a + c + 1 == a + 1 + c);
            }
        }
    }
}

/// What reading the rest of an array comes to moves with its text, and goes by the name of its
/// items' type alone.
proof fn lemma_items_move(
    t: Seq<char>,
    a: int,
    b: int,
    v: Seq<char>,
    c: int,
    s: Seq<char>,
    p: int,
    u: Seq<char>,
    d: int,
)
    requires
        same_name(t, a, b, v, c),
        same_rest(s, p, u, d),
    ensures
        walk_items(v, a + c, b + c, u, p + d) == moved(walk_items(t, a, b, s, p), d),
        ends_between(walk_items(t, a, b, s, p), p, s.len() as int),
    decreases b - a, 1int, s.len() - p,
{
    if p < s.len() {
        assert(s[p] == u[p + d]);
        if s[p] != ']' {
            lemma_value_moves(t, a, b, v, c, s, p, u, d, Some(']'));
            if let Walk::Ended(end) = walk(t, a, b, s, p, Some(']')) {
                lemma_stands_moves(s, p, u, d, end);
                assert(stands(u, end + d, ',') == stands(s, end, ','));
                lemma_run_moves(s, p, u, d, end, Class::Blanks);
                let last = run_end(s, end, Class::Blanks);
                lemma_stands_moves(s, p, u, d, last);
                assert(stands(u, last + d, ']') == stands(s, last, ']'));
                if stands(s, end, ',') {
                    lemma_run_moves(s, p, u, d, end + 1, Class::Blanks);
                    assert(end + d + 1 == end + 1 + d);
                    let next = run_end(s, end + 1, Class::Blanks);
                    assert(same_rest(s, next, u, d));
                    lemma_items_move(t, a, b, v, c, s, next, u, d);
                }
            }
        }
    }
}

/// What reading the rest of a tuple comes to moves with its text, and goes by the names of its
/// fields' types alone.
proof fn lemma_fields_move(
    t: Seq<char>,
    a: int,
    b: int,
    v: Seq<char>,
    c: int,
    s: Seq<char>,
    p: int,
    u: Seq<char>,
    d: int,
    first: bool,
)
    requires
        same_name(t, a, b, v, c),
        same_rest(s, p, u, d),
    ensures
        walk_fields(v, a + c, b + c, u, p + d, first) == moved(
            walk_fields(t, a, b, s, p, first),
            d,
        ),
        ends_between(walk_fields(t, a, b, s, p, first), p, s.len() as int),
    decreases b - a, 1int, 0int,
{
    lemma_run_moves(s, p, u, d, p, Class::Blanks);
    let here = run_end(s, p, Class::Blanks);
    lemma_stands_moves(s, p, u, d, here);
    assert(stands(u, here + d, ')') == stands(s, here, ')'));
    assert(stands(u, here + d, ',') == stands(s, here, ','));
    if a < b && (first || stands(s, here, ',')) {
        if !first {
            lemma_run_moves(s, p, u, d, here + 1, Class::Blanks);
            assert(here + d + 1 == here + 1 + d);
        }
        let from = if first {
            here
        } else {
            run_end(s, here + 1, Class::Blanks)
        };
        lemma_field_moves(t, a, b, v, c, 0);
        let field = field_end(t, a, b, 0);
        assert(same_rest(s, from, u, d));
        assert(same_name(t, a, field, v, c));
        lemma_value_moves(t, a, field, v, c, s, from, u, d, Some(')'));
        if let Walk::Ended(end) = walk(t, a, field, s, from, Some(')')) {
            let rest = if field < b {
                field + 1
            } else {
                b
            };
            assert(same_rest(s, end, u, d));
            assert(same_name(t, rest, b, v, c));
            lemma_fields_move(t, rest, b, v, c, s, end, u, d, false);
        }
    }
}

/// Whether reading comes to a large exponent does not depend on the list that a value is in.
proof fn lemma_overflow_is_the_same_in_a_list(
    t: Seq<char>,
    a: int,
    b: int,
    s: Seq<char>,
    p: int,
    x: Option<char>,
    y: Option<char>,
)
    ensures
        walk(t, a, b, s, p, x) is Overflows <==> walk(t, a, b, s, p, y) is Overflows,
{
}

/// Where the brackets of an array type open behind the name of its items' type.
proof fn lemma_brackets_open(t: Seq<char>, a: int, at: int, i: int)
    requires
        0 <= a <= at < i <= t.len(),
        t[at] == '[',
        forall|k: int| at < k < i ==> #[trigger] t[k] != '[',
    ensures
        last_opening(t, a, i) == at,
    decreases i - at,
{
    if i - 1 != at {
        assert(t[i - 1] != '[');
        lemma_brackets_open(t, a, at, i - 1);
    }
}

/// Where a field ends whose type's name holds no comma and no round bracket.
proof fn lemma_plain_field_ends(t: Seq<char>, i: int, at: int, b: int)
    requires
        0 <= i <= at < b <= t.len(),
        t[at] == ',',
        forall|k: int|
            i <= k < at ==> #[trigger] t[k] != ',' && t[k] != '(' && t[k] != ')',
    ensures
        field_end(t, i, b, 0) == at,
    decreases at - i,
{
    if i < at {
        assert(t[i] != ',');
        lemma_plain_field_ends(t, i + 1, at, b);
    }
}

/// What reading an array comes to is what reading its items comes to, behind the bracket and
/// blanks.
proof fn lemma_array_begins(ty: Seq<char>, size: Seq<char>, x: Seq<char>)
    requires
        ty.len() > 0,
        size.len() >= 2 && size[0] == '[' && size.last() == ']',
        forall|k: int| 1 <= k < size.len() ==> #[trigger] size[k] != '[',
    ensures
        overflows_as(ty + size, seq!['['] + x) <==> walk_items(
            ty + size,
            0,
            ty.len() as int,
            seq!['['] + x,
            run_end(seq!['['] + x, 1, Class::Blanks),
        ) is Overflows,
{
    let t = ty + size;
    let s = seq!['['] + x;
    let at = ty.len() as int;
    assert(t[at] == size[0]);
    assert(t[t.len() - 1] == size.last());
    assert forall|k: int| at < k < t.len() - 1 implies #[trigger] t[k] != '[' by {
        assert(t[k] == size[k - at]);
    }
    lemma_brackets_open(t, 0, at, t.len() - 1);
    assert(s[0] == '[');
}

/// A blank behind the bracket of an array has no part in whether the array comes to a large
/// exponent.
pub proof fn blanks_before_items_have_no_part(
    ty: Seq<char>,
    size: Seq<char>,
    blank: char,
    x: Seq<char>,
)
    requires
        ty.len() > 0,
        size.len() >= 2 && size[0] == '[' && size.last() == ']',
        forall|k: int| 1 <= k < size.len() ==> #[trigger] size[k] != '[',
        blank == ' ' || blank == '\t',
    ensures
        overflows_as(ty + size, seq!['['] + (seq![blank] + x)) <==> overflows_as(
            ty + size,
            seq!['['] + x,
        ),
{
    let t = ty + size;
    let b = ty.len() as int;
    let s = seq!['['] + x;
    let u = seq!['['] + (seq![blank] + x);
    lemma_array_begins(ty, size, x);
    lemma_array_begins(ty, size, seq![blank] + x);
    assert(u[1] == blank);
    assert forall|k: int| 1 <= k < s.len() implies #[trigger] s[k] == u[k + 1] by {
        assert(s[k] == x[k - 1]);
    }
    assert(same_rest(s, 1, u, 1));
    lemma_run_moves(s, 1, u, 1, 1, Class::Blanks);
    let first = run_end(s, 1, Class::Blanks);
    assert(run_end(u, 1, Class::Blanks) == first + 1);
    assert(same_name(t, 0, b, t, 0));
    assert(same_rest(s, first, u, 1));
    lemma_items_move(t, 0, b, t, 0, s, first, u, 1);
}

/// An array comes to a large exponent where its first item does, of whatever type the items are.
pub proof fn an_array_overflows_with_its_first_item(ty: Seq<char>, size: Seq<char>, x: Seq<char>)
    requires
        ty.len() > 0,
        size.len() >= 2 && size[0] == '[' && size.last() == ']',
        forall|k: int| 1 <= k < size.len() ==> #[trigger] size[k] != '[',
        x.len() > 0 && x[0] != ' ' && x[0] != '\t' && x[0] != ']',
    ensures
        overflows_as(ty, x) ==> overflows_as(ty + size, seq!['['] + x),
        !x.contains(',') ==> (overflows_as(ty, x) <==> overflows_as(ty + size, seq!['['] + x)),
{
    let t = ty + size;
    let s = seq!['['] + x;
    lemma_array_begins(ty, size, x);
    assert(same_name(ty, 0, ty.len() as int, t, 0));
    assert(same_rest(x, 0, s, 1));
    lemma_value_moves(ty, 0, ty.len() as int, t, 0, x, 0, s, 1, Some(']'));
    lemma_overflow_is_the_same_in_a_list(ty, 0, ty.len() as int, x, 0, Some(']'), None);
    assert(s[1] == x[0]);
    assert(run_end(s, 1, Class::Blanks) == 1);
    if !x.contains(',') {
        if let Walk::Ended(end) = walk(t, 0, ty.len() as int, s, 1, Some(']')) {
            if stands(s, end, ',') {
                assert(end >= 1);
                assert(x.contains(x[end - 1]));
            }
        }
    }
}

/// A plain decimal number before a comma is read up to the comma.
proof fn lemma_plain_number_ends(s: Seq<char>, from: int, to: int, signed: bool)
    requires
        0 <= from < to < s.len(),
        forall|k: int| from <= k < to ==> '0' <= #[trigger] s[k] <= '9',
        s[to] == ',',
    ensures
        walk_integer(s, from, signed) == Walk::Ended(to),
{
    assert('0' <= s[from] <= '9');
    assert forall|k: int| from <= k < to implies belongs(#[trigger] s[k], Class::Digits) by {}
    lemma_run_ends_at(s, from, to, Class::Digits);
    if from + 1 < to {
        assert('0' <= s[from + 1] <= '9');
    }
    assert(digits_end(s, from) == Some(to));
    assert(fraction_end(s, to) == Some(to));
    assert(exponent_at(s, to) == (0nat, to));
    assert(run_end(s, to, Class::Blanks) == to);
    assert(run_end(s, to, Class::Letters) == to);
    assert(s.subrange(to, to).len() == 0);
    assert(unit_exponent(s.subrange(to, to)) is Some);
}

/// Plain numbers before other items of an array of integers have no part in whether it comes to a
/// large exponent.
pub proof fn plain_items_have_no_part(
    ty: Seq<char>,
    size: Seq<char>,
    plain: Seq<char>,
    x: Seq<char>,
)
    requires
        ty.len() > 0 && (ty[0] == 'u' || ty[0] == 'i') && ty.last() != ']',
        size.len() >= 2 && size[0] == '[' && size.last() == ']',
        forall|k: int| 1 <= k < size.len() ==> #[trigger] size[k] != '[',
        plain.len() > 0,
        forall|k: int| 0 <= k < plain.len() ==> '0' <= #[trigger] plain[k] <= '9',
    ensures
        overflows_as(ty + size, seq!['['] + (plain.push(',') + x)) <==> overflows_as(
            ty + size,
            seq!['['] + x,
        ),
{
    let t = ty + size;
    let b = ty.len() as int;
    let s = seq!['['] + x;
    let more = plain.push(',') + x;
    let u = seq!['['] + more;
    lemma_array_begins(ty, size, x);
    assert(more[0] == plain[0]);
    lemma_array_begins(ty, size, more);
    let to = 1 + plain.len() as int;
    assert forall|k: int| 1 <= k < to implies '0' <= #[trigger] u[k] <= '9' by {
        assert(u[k] == plain[k - 1]);
    }
    assert(u[to] == ',');
    assert('0' <= u[1] <= '9');
    lemma_plain_number_ends(u, 1, to, ty[0] == 'i');
    assert(t[0] == ty[0] && t[b - 1] == ty.last());
    assert(walk(t, 0, b, u, 1, Some(']')) == Walk::Ended(to));
    assert(run_end(u, 1, Class::Blanks) == 1);
    let d = plain.len() as int + 1;
    assert forall|k: int| 1 <= k < s.len() implies #[trigger] s[k] == u[k + d] by {
        assert(s[k] == x[k - 1]);
    }
    assert(same_rest(s, 1, u, d));
    lemma_run_moves(s, 1, u, d, 1, Class::Blanks);
    let first = run_end(s, 1, Class::Blanks);
    assert(run_end(u, to + 1, Class::Blanks) == first + d);
    assert(same_name(t, 0, b, t, 0));
    assert(same_rest(s, first, u, d));
    lemma_items_move(t, 0, b, t, 0, s, first, u, d);
}

/// A decimal number with a unit before a comma is read up to the comma.
proof fn lemma_number_with_unit_ends(
    s: Seq<char>,
    from: int,
    m: int,
    n: int,
    to: int,
    signed: bool,
)
    requires
        0 <= from < m <= n < to < s.len(),
        forall|k: int| from <= k < m ==> '0' <= #[trigger] s[k] <= '9',
        forall|k: int| m <= k < n ==> #[trigger] s[k] == ' ' || s[k] == '\t',
        ({
            let unit = s.subrange(n, to);
            unit == "ether"@ || unit == "gwei"@ || unit == "nano"@ || unit == "nanoether"@
        }),
        s[to] == ',',
    ensures
        walk_integer(s, from, signed) == Walk::Ended(to),
{
    let unit = s.subrange(n, to);
    lemma_unit_letters(unit);
    assert(unit[0] == s[n]);
    assert(belongs(unit[0], Class::Letters));
    assert('0' <= s[from] <= '9');
    assert forall|k: int| from <= k < m implies belongs(#[trigger] s[k], Class::Digits) by {}
    lemma_run_ends_at(s, from, m, Class::Digits);
    assert(!stands(s, from + 1, 'b') && !stands(s, from + 1, 'B') && !stands(s, from + 1, 'o')
        && !stands(s, from + 1, 'O') && !stands(s, from + 1, 'x') && !stands(s, from + 1, 'X')) by {
        reveal_strlit("ether");
        reveal_strlit("gwei");
        reveal_strlit("nano");
        reveal_strlit("nanoether");
        if from + 1 < m {
            assert('0' <= s[from + 1] <= '9');
        } else if m < n {
            assert(s[m] == ' ' || s[m] == '\t');
        }
    }
    assert(digits_end(s, from) == Some(m));
    assert(fraction_end(s, m) == Some(m)) by {
        if m < n {
            assert(s[m] == ' ' || s[m] == '\t');
        }
    }
    assert(exponent_at(s, m) == (0nat, m)) by {
        if m == n && unit == "ether"@ {
            reveal_strlit("ether");
            assert(s[m + 1] == unit[1]);
            assert(run_end(s, m + 1, Class::Digits) == m + 1);
        } else {
            reveal_strlit("gwei");
            reveal_strlit("nano");
            reveal_strlit("nanoether");
            if m < n {
                assert(s[m] == ' ' || s[m] == '\t');
            }
        }
    }
    assert forall|k: int| m <= k < n implies belongs(#[trigger] s[k], Class::Blanks) by {}
    lemma_run_ends_at(s, m, n, Class::Blanks);
    assert forall|k: int| n <= k < to implies belongs(#[trigger] s[k], Class::Letters) by {
        assert(s[k] == unit[k - n]);
    }
    lemma_run_ends_at(s, n, to, Class::Letters);
}

/// Numbers with a unit before other items of an array of integers have no part in whether it comes
/// to a large exponent. The number ends at `m` and the unit begins at `n`.
pub proof fn items_with_units_have_no_part(
    ty: Seq<char>,
    size: Seq<char>,
    item: Seq<char>,
    m: int,
    n: int,
    x: Seq<char>,
)
    requires
        ty.len() > 0 && (ty[0] == 'u' || ty[0] == 'i') && ty.last() != ']',
        size.len() >= 2 && size[0] == '[' && size.last() == ']',
        forall|k: int| 1 <= k < size.len() ==> #[trigger] size[k] != '[',
        0 < m <= n < item.len(),
        forall|k: int| 0 <= k < m ==> '0' <= #[trigger] item[k] <= '9',
        forall|k: int| m <= k < n ==> #[trigger] item[k] == ' ' || item[k] == '\t',
        item.skip(n) == "ether"@ || item.skip(n) == "gwei"@ || item.skip(n) == "nano"@ || item.skip(
            n,
        ) == "nanoether"@,
    ensures
        overflows_as(ty + size, seq!['['] + (item.push(',') + x)) <==> overflows_as(
            ty + size,
            seq!['['] + x,
        ),
{
    let t = ty + size;
    let b = ty.len() as int;
    let s = seq!['['] + x;
    let more = item.push(',') + x;
    let u = seq!['['] + more;
    lemma_array_begins(ty, size, x);
    assert(more[0] == item[0]);
    lemma_array_begins(ty, size, more);
    let to = 1 + item.len() as int;
    assert forall|k: int| 1 <= k < to implies #[trigger] u[k] == item[k - 1] by {}
    assert forall|k: int| 1 <= k < 1 + m implies '0' <= #[trigger] u[k] <= '9' by {
        assert(u[k] == item[k - 1]);
    }
    assert forall|k: int| 1 + m <= k < 1 + n implies #[trigger] u[k] == ' ' || u[k] == '\t' by {
        assert(u[k] == item[k - 1]);
    }
    assert(u.subrange(1 + n, to) =~= item.skip(n));
    assert(u[to] == ',');
    assert('0' <= u[1] <= '9');
    lemma_number_with_unit_ends(u, 1, 1 + m, 1 + n, to, ty[0] == 'i');
    assert(t[0] == ty[0] && t[b - 1] == ty.last());
    assert(walk(t, 0, b, u, 1, Some(']')) == Walk::Ended(to));
    assert(run_end(u, 1, Class::Blanks) == 1);
    let d = item.len() as int + 1;
    assert forall|k: int| 1 <= k < s.len() implies #[trigger] s[k] == u[k + d] by {
        assert(s[k] == x[k - 1]);
    }
    assert(same_rest(s, 1, u, d));
    lemma_run_moves(s, 1, u, d, 1, Class::Blanks);
    let first = run_end(s, 1, Class::Blanks);
    assert(run_end(u, to + 1, Class::Blanks) == first + d);
    assert(same_name(t, 0, b, t, 0));
    assert(same_rest(s, first, u, d));
    lemma_items_move(t, 0, b, t, 0, s, first, u, d);
}

/// What reading a tuple comes to whose first field begins right behind the bracket.
proof fn lemma_tuple_begins(ty: Seq<char>, more: Seq<char>, x: Seq<char>)
    requires
        x.len() > 0 && x[0] != ' ' && x[0] != '\t',
    ensures
        ({
            let t = seq!['('] + ty.push(',') + more.push(')');
            overflows_as(t, seq!['('] + x) <==> walk_fields(
                t,
                1,
                t.len() - 1,
                seq!['('] + x,
                1,
                true,
            ) is Overflows
        }),
        run_end(seq!['('] + x, 1, Class::Blanks) == 1,
{
    let t = seq!['('] + ty.push(',') + more.push(')');
    let s = seq!['('] + x;
    assert(t[0] == '(');
    assert(t[t.len() - 1] == ')');
    assert(s[0] == '(');
    assert(s[1] == x[0]);
    assert(run_end(s, 0, Class::Blanks) == 0);
}

/// A tuple comes to a large exponent where its first field does, whatever follows; and with one
/// field alone it does not else.
pub proof fn a_tuple_overflows_with_its_first_field(ty: Seq<char>, more: Seq<char>, x: Seq<char>)
    requires
        ty.len() > 0,
        forall|k: int|
            0 <= k < ty.len() ==> #[trigger] ty[k] != ',' && ty[k] != '(' && ty[k] != ')',
        x.len() > 0 && x[0] != ' ' && x[0] != '\t',
    ensures
        overflows_as(ty, x) ==> overflows_as(
            seq!['('] + ty.push(',') + more.push(')'),
            seq!['('] + x,
        ),
        more.len() == 0 ==> (overflows_as(ty, x) <==> overflows_as(
            seq!['('] + ty.push(',') + more.push(')'),
            seq!['('] + x,
        )),
{
    let t = seq!['('] + ty.push(',') + more.push(')');
    let s = seq!['('] + x;
    let b = t.len() - 1;
    let at = 1 + ty.len() as int;
    lemma_tuple_begins(ty, more, x);
    assert forall|k: int| 1 <= k < at implies #[trigger] t[k] != ',' && t[k] != '(' && t[k]
        != ')' by {
        assert(t[k] == ty[k - 1]);
    }
    assert(t[at] == ',');
    lemma_plain_field_ends(t, 1, at, b);
    assert forall|k: int| 0 <= k < ty.len() implies #[trigger] ty[k] == t[k + 1] by {}
    assert(same_name(ty, 0, ty.len() as int, t, 1));
    assert(same_rest(x, 0, s, 1));
    lemma_value_moves(ty, 0, ty.len() as int, t, 1, x, 0, s, 1, Some(')'));
    lemma_overflow_is_the_same_in_a_list(ty, 0, ty.len() as int, x, 0, Some(')'), None);
    assert(walk(t, 1, at, s, 1, Some(')')) == moved(
        walk(ty, 0, ty.len() as int, x, 0, Some(')')),
        1,
    ));
    if let Walk::Ended(end) = walk(t, 1, at, s, 1, Some(')')) {
        if more.len() == 0 {
            assert(!(walk_fields(t, b, b, s, end, false) is Overflows));
        }
    }
}

/// A first field that is a plain number, a quoted string, a word or bytes has no part in whether a
/// tuple comes to a large exponent: without it, the tuple of the other fields does or does not.
pub proof fn plain_fields_have_no_part(
    ty: Seq<char>,
    more: Seq<char>,
    plain: Seq<char>,
    x: Seq<char>,
)
    requires
        ty.len() > 1 && ty.last() != ']',
        more.len() > 0,
        forall|k: int|
            0 <= k < ty.len() ==> #[trigger] ty[k] != ',' && ty[k] != '(' && ty[k] != ')',
        plain.len() > 0,
        ((ty[0] == 'u' || ty[0] == 'i') && forall|k: int|
            0 <= k < plain.len() ==> '0' <= #[trigger] plain[k] <= '9') || (ty[0] == 's'
            && plain.len() >= 2 && (plain[0] == '"' || plain[0] == '\'') && plain.last() == plain[0]
            && forall|k: int| 0 < k < plain.len() - 1 ==> #[trigger] plain[k] != plain[0]) || (ty[0]
            == 'b' && ty[1] == 'o' && forall|k: int|
            0 <= k < plain.len() ==> 'a' <= #[trigger] plain[k] <= 'z') || ((ty[0] == 'a' || ty[0]
            == 'f' || ty[0] == 'b') && ty[1] != 'o' && plain.len() >= 2 && plain[0] == '0'
            && plain[1] == 'x' && forall|k: int|
            2 <= k < plain.len() ==> '0' <= #[trigger] plain[k] <= '9' || 'a' <= plain[k] <= 'f'
                || 'A' <= plain[k] <= 'F'),
    ensures
        overflows_as(
            seq!['('] + ty.push(',') + more.push(')'),
            seq!['('] + (plain.push(',') + x),
        ) <==> overflows_as(seq!['('] + more.push(')'), seq!['('] + x),
{
    let t = seq!['('] + ty.push(',') + more.push(')');
    let u = seq!['('] + (plain.push(',') + x);
    let b = t.len() - 1;
    let at = 1 + ty.len() as int;
    let to = 1 + plain.len() as int;
    assert((plain.push(',') + x)[0] == plain[0]);
    lemma_tuple_begins(ty, more, plain.push(',') + x);
    assert forall|k: int| 1 <= k < at implies #[trigger] t[k] != ',' && t[k] != '(' && t[k]
        != ')' by {
        assert(t[k] == ty[k - 1]);
    }
    assert(t[at] == ',');
    lemma_plain_field_ends(t, 1, at, b);
    assert(t[1] == ty[0] && t[2] == ty[1] && t[at - 1] == ty.last());
    assert forall|k: int| 1 <= k < to implies #[trigger] u[k] == plain[k - 1] by {}
    assert(u[to] == ',');
    assert(u[1] == plain[0]);
    assert(walk(t, 1, at, u, 1, Some(')')) == Walk::Ended(to)) by {
        if ty[0] == 'u' || ty[0] == 'i' {
            assert forall|k: int| 1 <= k < to implies '0' <= #[trigger] u[k] <= '9' by {
                assert(u[k] == plain[k - 1]);
            }
            lemma_plain_number_ends(u, 1, to, ty[0] == 'i');
        } else if ty[0] == 's' {
            assert forall|k: int| 2 <= k < to - 1 implies belongs(
                #[trigger] u[k],
                Class::Before(u[1]),
            ) by {
                assert(u[k] == plain[k - 1]);
            }
            assert(u[to - 1] == plain[plain.len() - 1]);
            lemma_run_ends_at(u, 2, to - 1, Class::Before(u[1]));
        } else if ty[1] == 'o' {
            assert forall|k: int| 1 <= k < to implies belongs(#[trigger] u[k], Class::Letters) by {
                assert(u[k] == plain[k - 1]);
            }
            lemma_run_ends_at(u, 1, to, Class::Letters);
        } else {
            assert(u[2] == plain[1]);
            assert forall|k: int| 3 <= k < to implies belongs(
                #[trigger] u[k],
                Class::HexDigits,
            ) by {
                assert(u[k] == plain[k - 1]);
            }
            lemma_run_ends_at(u, 3, to, Class::HexDigits);
        }
    }
    assert(run_end(u, to, Class::Blanks) == to);
    // The other fields, behind the comma, are read as a tuple of their own.
    let v = seq!['('] + more.push(')');
    let s = seq!['('] + x;
    assert(v[0] == '(' && v[v.len() - 1] == ')' && s[0] == '(');
    assert(run_end(s, 0, Class::Blanks) == 0);
    let c = ty.len() as int + 1;
    let d = plain.len() as int + 1;
    assert forall|k: int| 1 <= k < v.len() - 1 implies #[trigger] v[k] == t[k + c] by {
        assert(v[k] == more[k - 1]);
        assert(t[k + c] == more[k - 1]);
    }
    assert(same_name(v, 1, v.len() - 1, t, c));
    assert forall|k: int| 1 <= k < s.len() implies #[trigger] s[k] == u[k + d] by {
        assert(s[k] == x[k - 1]);
        assert(u[k + d] == x[k - 1]);
    }
    assert(same_rest(s, 1, u, d));
    lemma_fields_move(v, 1, v.len() - 1, t, c, s, 1, u, d, true);
    assert(walk_fields(t, at + 1, b, u, to, false) == walk_fields(t, at + 1, b, u, to + 1, true));
}

/// Blanks before the bracket of a tuple and behind it have no part in whether the tuple comes to a
/// large exponent.
pub proof fn blanks_around_the_bracket_have_no_part(fields: Seq<char>, blank: char, x: Seq<char>)
    requires
        blank == ' ' || blank == '\t',
    ensures
        overflows_as(seq!['('] + fields.push(')'), seq![blank] + (seq!['('] + x)) <==> overflows_as(
            seq!['('] + fields.push(')'),
            seq!['('] + x,
        ),
        overflows_as(seq!['('] + fields.push(')'), seq!['('] + (seq![blank] + x)) <==> overflows_as(
            seq!['('] + fields.push(')'),
            seq!['('] + x,
        ),
{
    let t = seq!['('] + fields.push(')');
    let b = t.len() - 1;
    let s = seq!['('] + x;
    let before = seq![blank] + s;
    let behind = seq!['('] + (seq![blank] + x);
    assert(t[0] == '(' && t[b] == ')');
    assert(same_name(t, 1, b, t, 0));
    assert(s[0] == '(' && behind[0] == '(' && behind[1] == blank);
    assert(before[0] == blank && before[1] == '(');
    assert(run_end(s, 0, Class::Blanks) == 0);
    assert(run_end(behind, 0, Class::Blanks) == 0);
    assert(run_end(before, 1, Class::Blanks) == 1);
    assert(run_end(before, 0, Class::Blanks) == 1);
    assert forall|k: int| 1 <= k < s.len() implies #[trigger] s[k] == before[k + 1] by {}
    assert(same_rest(s, 1, before, 1));
    lemma_fields_move(t, 1, b, t, 0, s, 1, before, 1, true);
    assert forall|k: int| 1 <= k < s.len() implies #[trigger] s[k] == behind[k + 1] by {
        assert(s[k] == x[k - 1]);
    }
    assert(same_rest(s, 1, behind, 1));
    lemma_fields_move(t, 1, b, t, 0, s, 1, behind, 1, true);
    assert(run_end(behind, 1, Class::Blanks) == run_end(behind, 2, Class::Blanks));
    assert(walk_fields(t, 1, b, behind, 1, true) == walk_fields(t, 1, b, behind, 2, true));
}

/// No text is found too large under a type without integers, whatever it is made of: a name in
/// which every `u` and every `i` stands behind another letter of its word.
pub proof fn types_without_integers_do_not_overflow(ty: Seq<char>, text: Seq<char>)
    requires
        forall|k: int|
            0 <= k < ty.len() && (#[trigger] ty[k] == 'u' || ty[k] == 'i') ==> k > 0 && 'a' <= ty[k
                - 1] <= 'z',
    ensures
        !overflows_as(ty, text),
{
    lemma_no_integer_overflows(ty, 0, ty.len() as int, text, 0, None);
}

/// Reading a value comes to no large exponent where no type begins like an integer's.
proof fn lemma_no_integer_overflows(
    t: Seq<char>,
    a: int,
    b: int,
    s: Seq<char>,
    p: int,
    close: Option<char>,
)
    requires
        0 <= a,
        forall|k: int|
            0 <= k < t.len() && (#[trigger] t[k] == 'u' || t[k] == 'i') ==> k > 0 && 'a' <= t[k - 1]
                <= 'z',
        a == 0 || (a <= t.len() && (t[a - 1] == '(' || t[a - 1] == ',')) || a >= b,
    ensures
        !(walk(t, a, b, s, p, close) is Overflows),
    decreases b - a, 0int, 0int,
{
    if 0 <= a < b <= t.len() {
        if t[b - 1] == ']' {
            let item = last_opening(t, a, b - 1);
            if stands(s, p, '[') && a <= item < b {
                lemma_no_integer_items(t, a, item, s, run_end(s, p + 1, Class::Blanks));
            }
        } else if t[a] == '(' {
            let open = run_end(s, p, Class::Blanks);
            if stands(s, open, '(') && b - a >= 2 {
                lemma_no_integer_fields(t, a + 1, b - 1, s, open + 1, true);
            }
        }
    }
}

/// Reading the rest of an array comes to no large exponent where no type begins like an integer's.
proof fn lemma_no_integer_items(t: Seq<char>, a: int, b: int, s: Seq<char>, p: int)
    requires
        0 <= a,
        forall|k: int|
            0 <= k < t.len() && (#[trigger] t[k] == 'u' || t[k] == 'i') ==> k > 0 && 'a' <= t[k - 1]
                <= 'z',
        a == 0 || (a <= t.len() && (t[a - 1] == '(' || t[a - 1] == ',')) || a >= b,
    ensures
        !(walk_items(t, a, b, s, p) is Overflows),
    decreases b - a, 1int, s.len() - p,
{
    if 0 <= p < s.len() && s[p] != ']' {
        lemma_no_integer_overflows(t, a, b, s, p, Some(']'));
        if let Walk::Ended(end) = walk(t, a, b, s, p, Some(']')) {
            let next = run_end(s, end + 1, Class::Blanks);
            if stands(s, end, ',') && p < next <= s.len() {
                lemma_no_integer_items(t, a, b, s, next);
            }
        }
    }
}

/// Reading the rest of a tuple comes to no large exponent where no type begins like an integer's.
proof fn lemma_no_integer_fields(t: Seq<char>, a: int, b: int, s: Seq<char>, p: int, first: bool)
    requires
        0 <= a,
        forall|k: int|
            0 <= k < t.len() && (#[trigger] t[k] == 'u' || t[k] == 'i') ==> k > 0 && 'a' <= t[k - 1]
                <= 'z',
        a == 0 || (a <= t.len() && (t[a - 1] == '(' || t[a - 1] == ',')) || a >= b,
    ensures
        !(walk_fields(t, a, b, s, p, first) is Overflows),
    decreases b - a, 1int, 0int,
{
    let here = run_end(s, p, Class::Blanks);
    if 0 <= a < b <= t.len() && (first || stands(s, here, ',')) {
        let from = if first {
            here
        } else {
            run_end(s, here + 1, Class::Blanks)
        };
        let field = field_end(t, a, b, 0);
        assert(same_name(t, a, b, t, 0));
        lemma_field_moves(t, a, b, t, 0, 0);
        lemma_no_integer_overflows(t, a, field, s, from, Some(')'));
        if let Walk::Ended(end) = walk(t, a, field, s, from, Some(')')) {
            let rest = if field < b {
                field + 1
            } else {
                b
            };
            lemma_no_integer_fields(t, rest, b, s, end, false);
        }
    }
}

} // verus!
