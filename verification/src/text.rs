//! Text: the parts before and behind the first colon, and joined lines.

use vstd::prelude::*;
use vstd::string::*;

verus! {

/// The position of the first colon at or behind `from`, or the length where there is none.
pub open spec fn colon_from(s: Seq<char>, from: int) -> int
    decreases s.len() - from,
{
    if from >= s.len() {
        s.len() as int
    } else if s[from] == ':' {
        from
    } else {
        colon_from(s, from + 1)
    }
}

/// Whether there is a colon in the text.
pub open spec fn has_colon(s: Seq<char>) -> bool {
    s.contains(':')
}

/// The text before the first colon: all of it where there is none.
pub open spec fn before_colon(s: Seq<char>) -> Seq<char> {
    s.take(colon_from(s, 0))
}

/// The text between the first colon and the second, or the end where there is no second.
pub open spec fn behind_colon(s: Seq<char>) -> Seq<char>
    recommends
        has_colon(s),
{
    let first = colon_from(s, 0);
    s.subrange(first + 1, colon_from(s, first + 1))
}

/// What `colon_from` is: a position that holds a colon, or the end, with no colon before it.
pub proof fn lemma_colon_from(s: Seq<char>, from: int)
    requires
        0 <= from <= s.len(),
    ensures
        from <= colon_from(s, from) <= s.len(),
        colon_from(s, from) < s.len() ==> s[colon_from(s, from)] == ':',
        forall|i: int| from <= i < colon_from(s, from) ==> s[i] != ':',
    decreases s.len() - from,
{
    if from < s.len() && s[from] != ':' {
        lemma_colon_from(s, from + 1);
    }
}

/// Finds the first colon at or behind a position.
fn find_colon(s: &str, from: usize, len: usize) -> (r: usize)
    requires
        len == s@.len(),
        from <= len,
    ensures
        r == colon_from(s@, from as int),
{
    let mut i: usize = from;
    while i < len
        invariant
            from <= i <= len,
            len == s@.len(),
            colon_from(s@, from as int) == colon_from(s@, i as int),
        decreases len - i,
    {
        if s.get_char(i) == ':' {
            return i;
        }
        i = i + 1;
    }
    i
}

/// The text before the first colon and the text between it and the second, if there is a
/// colon.
pub fn split_at_colon(s: &str) -> (r: Option<(&str, &str)>)
    ensures
        r is Some <==> has_colon(s@),
        r matches Some((path, name)) ==> path@ == before_colon(s@) && name@ == behind_colon(s@),
{
    let len: usize = s.unicode_len();
    let first: usize = find_colon(s, 0, len);
    proof {
        lemma_colon_from(s@, 0);
    }
    if first == len {
        assert(!has_colon(s@));
        return None;
    }
    let second: usize = find_colon(s, first + 1, len);
    proof {
        lemma_colon_from(s@, first + 1);
    }
    assert(s@[first as int] == ':');
    Some((s.substring_char(0, first), s.substring_char(first + 1, second)))
}

/// The lines with a line break between each two.
pub open spec fn joined(lines: Seq<Seq<char>>) -> Seq<char>
    decreases lines.len(),
{
    if lines.len() == 0 {
        seq![]
    } else if lines.len() == 1 {
        lines[0]
    } else {
        joined(lines.drop_last()).push('\n') + lines.last()
    }
}

/// The texts of strings.
pub open spec fn texts(strings: Seq<String>) -> Seq<Seq<char>> {
    strings.map_values(|s: String| s@)
}

/// Joins lines with line breaks.
pub fn join_lines(lines: &Vec<String>) -> (r: String)
    ensures
        r@ == joined(texts(lines@)),
{
    let mut out = String::new();
    let mut i: usize = 0;
    while i < lines.len()
        invariant
            i <= lines.len(),
            out@ == joined(texts(lines@).take(i as int)),
        decreases lines.len() - i,
    {
        let ghost before = texts(lines@).take(i as int);
        if i > 0 {
            proof {
                reveal_strlit("\n");
            }
            out.append("\n");
            assert(out@ == joined(before).push('\n'));
        }
        out.append(lines[i].as_str());
        i = i + 1;
        proof {
            let now = texts(lines@).take(i as int);
            assert(now.drop_last() == before);
            assert(now.last() == lines@[i - 1]@);
            if i == 1 {
                assert(joined(before) == Seq::<char>::empty());
            }
        }
    }
    assert(texts(lines@).take(i as int) == texts(lines@));
    out
}

/// A number in decimal digits.
pub open spec fn decimal(n: nat) -> Seq<char>
    decreases n,
{
    let digit = ('0' as int + n % 10) as char;
    if n < 10 {
        seq![digit]
    } else {
        decimal(n / 10).push(digit)
    }
}

/// The digit of a number below ten.
fn digit_text(n: usize) -> (r: &'static str)
    requires
        n < 10,
    ensures
        r@ == seq![('0' as int + n) as char],
{
    proof {
        reveal_strlit("0");
        reveal_strlit("1");
        reveal_strlit("2");
        reveal_strlit("3");
        reveal_strlit("4");
        reveal_strlit("5");
        reveal_strlit("6");
        reveal_strlit("7");
        reveal_strlit("8");
        reveal_strlit("9");
    }
    match n {
        0 => "0",
        1 => "1",
        2 => "2",
        3 => "3",
        4 => "4",
        5 => "5",
        6 => "6",
        7 => "7",
        8 => "8",
        _ => "9",
    }
}

/// Writes a number in decimal digits.
pub fn write_decimal(n: usize) -> (r: String)
    ensures
        r@ == decimal(n as nat),
    decreases n,
{
    let digit = digit_text(n % 10);
    if n < 10 {
        digit.to_string()
    } else {
        let mut out = write_decimal(n / 10);
        out.append(digit);
        assert(out@ =~= decimal(n as nat));
        out
    }
}

/// A path and a name with a colon between them are told apart again, with or without another colon
/// and more text behind them.
pub proof fn path_and_name_are_told_apart(path: Seq<char>, name: Seq<char>, more: Seq<char>)
    requires
        !path.contains(':'),
        !name.contains(':'),
    ensures
        ({
            let id = path.push(':') + name;
            &&& has_colon(id)
            &&& before_colon(id) == path
            &&& behind_colon(id) == name
        }),
        ({
            let id = path.push(':') + name.push(':') + more;
            &&& has_colon(id)
            &&& before_colon(id) == path
            &&& behind_colon(id) == name
        }),
{
    let short = path.push(':') + name;
    let long = path.push(':') + name.push(':') + more;
    assert(short.take(path.len() as int) =~= path);
    assert(short.subrange(path.len() as int + 1, path.len() as int + 1 + name.len()) =~= name);
    lemma_first_two_colons(path, name, short);
    assert(long.take(path.len() as int) =~= path);
    assert(long.subrange(path.len() as int + 1, path.len() as int + 1 + name.len()) =~= name);
    lemma_first_two_colons(path, name, long);
}

/// Where a text begins with a path, a colon and a name, and goes on with a colon or not at all.
proof fn lemma_first_two_colons(path: Seq<char>, name: Seq<char>, id: Seq<char>)
    requires
        !path.contains(':'),
        !name.contains(':'),
        id.len() >= path.len() + 1 + name.len(),
        id.take(path.len() as int) == path,
        id[path.len() as int] == ':',
        id.subrange(path.len() as int + 1, path.len() as int + 1 + name.len()) == name,
        id.len() == path.len() + 1 + name.len() || id[(path.len() + 1 + name.len()) as int] == ':',
    ensures
        has_colon(id),
        before_colon(id) == path,
        behind_colon(id) == name,
{
    let first = path.len() as int;
    let second = first + 1 + name.len();
    lemma_colon_from(id, 0);
    lemma_colon_from(id, first + 1);
    assert(id.contains(id[first]));
    let a = colon_from(id, 0);
    if a < first {
        assert(id.take(first)[a] == ':');
        assert(path.contains(path[a]));
    }
    assert(a == first);
    let b = colon_from(id, first + 1);
    if b < second {
        assert(id.subrange(first + 1, second)[b - first - 1] == ':');
        assert(name.contains(name[b - first - 1]));
    }
    assert(b == second);
}

/// A text without a colon has no name behind one, and all of it stands before one.
pub proof fn text_without_colon_is_no_path_and_name(s: Seq<char>)
    requires
        forall|i: int| 0 <= i < s.len() ==> #[trigger] s[i] != ':',
    ensures
        !has_colon(s),
        before_colon(s) == s,
{
    lemma_colon_from(s, 0);
    assert(s.take(s.len() as int) =~= s);
}

/// Joined lines stand one below the other: what is joined from two groups of lines is what is
/// joined from each, with a line break between; no line and one line are joined to themselves.
pub proof fn joined_lines_stand_one_below_the_other(
    line: Seq<char>,
    above: Seq<Seq<char>>,
    below: Seq<Seq<char>>,
)
    ensures
        joined(Seq::<Seq<char>>::empty()) == Seq::<char>::empty(),
        joined(seq![line]) == line,
        above.len() > 0 && below.len() > 0 ==> joined(above + below) == joined(above).push('\n')
            + joined(below),
    decreases below.len(),
{
    if above.len() > 0 && below.len() > 0 {
        let all = above + below;
        let front = below.drop_last();
        assert(all.drop_last() =~= above + front);
        assert(all.last() == below.last());
        if below.len() == 1 {
            assert(above + front =~= above);
            assert(joined(below) == below[0]);
        } else {
            joined_lines_stand_one_below_the_other(line, above, front);
            assert(joined(all) =~= joined(above).push('\n') + joined(below));
        }
    }
}

/// The texts of strings are those that the strings hold, in the same order.
pub proof fn texts_are_what_strings_hold(strings: Seq<String>)
    ensures
        texts(strings).len() == strings.len(),
        forall|i: int| 0 <= i < strings.len() ==> texts(strings)[i] == (#[trigger] strings[i])@,
{
}

/// A number is written in decimal: ten times a number and a digit is the number's digits and that
/// digit behind them, and a number below ten is its digit.
pub proof fn decimal_digits_stand_one_behind_the_other(n: nat, digit: nat)
    requires
        digit < 10,
    ensures
        decimal(digit) == seq![('0' as int + digit) as char],
        n > 0 ==> decimal(10 * n + digit) == decimal(n).push(('0' as int + digit) as char),
{
}

} // verus!
