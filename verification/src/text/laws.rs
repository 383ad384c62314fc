//! What the operations on text do, seen from their outcomes.

use vstd::prelude::*;

use crate::text;

verus! {

// ---- replacing --------------------------------------------------------------

/// `parts`, with `mark` between each two of them.
pub open spec fn spliced(parts: Seq<Seq<char>>, mark: Seq<char>) -> Seq<char>
    decreases parts.len(),
{
    if parts.len() == 0 {
        Seq::empty()
    } else if parts.len() == 1 {
        parts[0]
    } else {
        parts[0] + mark + spliced(parts.skip(1), mark)
    }
}

/// `outcome` is `text` with `with` wherever `pattern` stood: the two are the same
/// parts, none of which holds the pattern, put together with the one and with the
/// other.
pub open spec fn swaps(
    text: Seq<char>,
    pattern: Seq<char>,
    with: Seq<char>,
    outcome: Seq<char>,
) -> bool {
    exists|parts: Seq<Seq<char>>|
        parts.len() > 0 && #[trigger] spliced(parts, pattern) == text && spliced(parts, with)
            == outcome && (forall|i: int|
            0 <= i < parts.len() ==> !text::has_text(#[trigger] parts[i], pattern))
}

/// Replacing swaps the pattern for what replaces it, wherever it stands, and leaves
/// everything else as it is.
pub proof fn replacing_swaps_the_pattern(
    text: Seq<char>,
    pattern: Seq<char>,
    with: Seq<char>,
)
    requires
        pattern.len() > 0,
    ensures
        swaps(text, pattern, with, text::replaced(text, pattern, with)),
{
    let parts = lemma_parts(text, pattern, with);
    assert(spliced(parts, pattern) == text);
}

proof fn lemma_parts(text: Seq<char>, pattern: Seq<char>, with: Seq<char>) -> (parts: Seq<
    Seq<char>,
>)
    requires
        pattern.len() > 0,
    ensures
        parts.len() > 0,
        spliced(parts, pattern) == text,
        spliced(parts, with) == text::replaced(text, pattern, with),
        forall|i: int|
            0 <= i < parts.len() ==> !text::has_text(#[trigger] parts[i], pattern),
    decreases text.len(),
{
    let n = pattern.len() as int;
    if text.len() == 0 {
        let parts = seq![text];
        assert(!text::has_text(text, pattern));
        parts
    } else if text::begins_with(text, pattern) {
        let rest = text.skip(n);
        let behind = lemma_parts(rest, pattern, with);
        let nothing = Seq::<char>::empty();
        let parts = seq![nothing] + behind;
        assert(parts.skip(1) =~= behind);
        assert(text =~= pattern + rest) by {
            assert(text.subrange(0, n) =~= pattern);
        }
        assert(spliced(parts, pattern) =~= text);
        assert(spliced(parts, with) =~= text::replaced(text, pattern, with));
        assert forall|i: int| 0 <= i < parts.len() implies !text::has_text(
            #[trigger] parts[i],
            pattern,
        ) by {
            if i > 0 {
                assert(parts[i] == behind[i - 1]);
            }
        }
        parts
    } else {
        let rest = text.skip(1);
        let behind = lemma_parts(rest, pattern, with);
        let head = seq![text[0]] + behind[0];
        let parts = behind.update(0, head);
        assert(parts.skip(1) =~= behind.skip(1));
        assert(seq![text[0]] + rest =~= text);
        assert(spliced(parts, pattern) =~= seq![text[0]] + spliced(behind, pattern));
        assert(spliced(parts, with) =~= seq![text[0]] + spliced(behind, with));
        assert(!text::has_text(head, pattern)) by {
            if text::has_text(head, pattern) {
                let at = choose|at: int| text::occurs_at(head, pattern, at);
                if at == 0 {
                    assert(text.subrange(0, n) =~= head.subrange(0, n)) by {
                        assert(text.take(head.len() as int) =~= head) by {
                            assert(rest.take(behind[0].len() as int) =~= behind[0]);
                        }
                        assert forall|i: int| 0 <= i < n implies text[i] == head[i] by {
                            assert(text.take(head.len() as int)[i] == head[i]);
                        }
                    }
                    assert(text::begins_with(text, pattern));
                } else {
                    assert(behind[0].subrange(at - 1, at - 1 + n) =~= head.subrange(at, at + n));
                    assert(text::occurs_at(behind[0], pattern, at - 1));
                }
            }
        }
        assert forall|i: int| 0 <= i < parts.len() implies !text::has_text(
            #[trigger] parts[i],
            pattern,
        ) by {
            if i > 0 {
                assert(parts[i] == behind[i]);
            }
        }
        parts
    }
}

// ---- white space ------------------------------------------------------------

/// The code points that are white space, beside those from the tab to the carriage
/// return and the spaces of fixed width.
pub open spec fn single_blanks() -> Set<u32> {
    set![0x20u32, 0x85, 0xa0, 0x1680, 0x2028, 0x2029, 0x202f, 0x205f, 0x3000]
}

/// White space is the tab, the line feed, the carriage return and what stands between
/// them, the spaces of fixed width, and the single blanks; and nothing else.
pub proof fn white_space_is_these(c: char)
    ensures
        text::white(c) <==> 9 <= c as u32 <= 13 || 0x2000 <= c as u32 <= 0x200a
            || single_blanks().contains(c as u32),
{
}

/// Every character of the text is white space.
pub open spec fn all_white(text: Seq<char>) -> bool {
    forall|i: int| 0 <= i < text.len() ==> text::white(#[trigger] text[i])
}

/// Trimming takes nothing but white space away, from the two ends, and all of it.
pub proof fn trimming_takes_white_space_from_the_ends(text: Seq<char>)
    ensures
        exists|before: Seq<char>, after: Seq<char>| #[trigger]
            (before + text::trimmed(text) + after) == text && all_white(before) && all_white(
                after,
            ),
        text::trimmed(text).len() > 0 ==> !text::white(text::trimmed(text)[0]) && !text::white(
            text::trimmed(text).last(),
        ),
{
    text::lemma_leading_white(text);
    let n = text::leading_white(text) as int;
    let middle = text.skip(n);
    let before = text.take(n);
    lemma_trimmed_end(middle);
    let after = middle.skip(text::trimmed(text).len() as int);
    assert(before + text::trimmed(text) + after =~= text) by {
        assert(middle =~= text::trimmed(text) + after);
    }
    if text::trimmed(text).len() > 0 {
        assert(text::trimmed(text)[0] == middle[0]);
        assert(middle[0] == text[n]);
    }
}

/// A text between white space is what trimming leaves.
pub proof fn trimming_leaves_what_is_between(
    before: Seq<char>,
    middle: Seq<char>,
    after: Seq<char>,
)
    requires
        all_white(before),
        all_white(after),
        middle.len() > 0,
        !text::white(middle[0]),
        !text::white(middle.last()),
    ensures
        text::trimmed(before + middle + after) == middle,
{
    let text = before + middle + after;
    let n = text::leading_white(text) as int;
    let at = before.len() as int;
    text::lemma_leading_white(text);
    assert(text[at] == middle[0]);
    assert(n == at) by {
        if n < at {
            assert(text[n] == before[n]);
        }
    }
    assert(text.skip(n) =~= middle + after);
    lemma_trimmed_end_is(middle, after);
}

proof fn lemma_trimmed_end_is(middle: Seq<char>, after: Seq<char>)
    requires
        all_white(after),
        middle.len() > 0,
        !text::white(middle.last()),
    ensures
        text::trimmed_end(middle + after) == middle,
    decreases after.len(),
{
    let text = middle + after;
    if after.len() > 0 {
        assert(text.last() == after[after.len() - 1]);
        assert(text.drop_last() =~= middle + after.drop_last());
        lemma_trimmed_end_is(middle, after.drop_last());
    } else {
        assert(text =~= middle);
    }
}

proof fn lemma_trimmed_end(text: Seq<char>)
    ensures
        text::trimmed_end(text).len() <= text.len(),
        text::trimmed_end(text) == text.take(text::trimmed_end(text).len() as int),
        all_white(text.skip(text::trimmed_end(text).len() as int)),
        text::trimmed_end(text).len() > 0 ==> !text::white(text::trimmed_end(text).last()),
    decreases text.len(),
{
    let rest = text::trimmed_end(text);
    let n = rest.len() as int;
    if text.len() > 0 && text::white(text.last()) {
        let front = text.drop_last();
        lemma_trimmed_end(front);
        assert(text.take(n) =~= front.take(n));
        assert forall|i: int| 0 <= i < text.skip(n).len() implies text::white(
            #[trigger] text.skip(n)[i],
        ) by {
            if i < front.skip(n).len() {
                assert(text.skip(n)[i] == front.skip(n)[i]);
            }
        }
    } else {
        assert(text.take(n) =~= text);
    }
}

// ---- letters ----------------------------------------------------------------

/// The two characters are the same letter in different case: ASCII letters alone
/// have cases here.
pub open spec fn other_case(a: char, b: char) -> bool {
    ||| 'A' <= a <= 'Z' && 'a' <= b <= 'z' && b as int - a as int == 32
    ||| 'A' <= b <= 'Z' && 'a' <= a <= 'z' && a as int - b as int == 32
}

/// Two texts that agree without case are as long as each other, and each two
/// characters of them are the same, or the same letter in different case.
pub proof fn case_is_all_that_is_ignored(a: Seq<char>, b: Seq<char>)
    ensures
        text::same_ignoring_case(a, b) <==> a.len() == b.len() && forall|i: int|
            0 <= i < a.len() ==> #[trigger] a[i] == b[i] || other_case(a[i], b[i]),
{
    if a.len() == b.len() {
        assert forall|i: int| 0 <= i < a.len() implies (text::small(#[trigger] a[i])
            == text::small(b[i])) == (a[i] == b[i] || other_case(a[i], b[i])) by {
            lemma_small(a[i], b[i]);
        }
        if forall|i: int| 0 <= i < a.len() ==> #[trigger] a[i] == b[i] || other_case(a[i], b[i]) {
            assert forall|i: int| 0 <= i < a.len() implies text::small(#[trigger] a[i])
                == text::small(b[i]) by {
                assert(a[i] == b[i] || other_case(a[i], b[i]));
            }
        }
    }
}

proof fn lemma_small(a: char, b: char)
    ensures
        (text::small(a) == text::small(b)) == (a == b || other_case(a, b)),
{
}

// ---- lines ------------------------------------------------------------------

/// A line ends at a line feed, or at a carriage return and a line feed, and what
/// follows is lines of its own. What is left at the end without a line feed is a line
/// too, as it stands.
pub proof fn lines_end_at_line_feeds(line: Seq<char>, rest: Seq<char>)
    requires
        !line.contains('\n'),
    ensures
        line.len() == 0 || line.last() != '\r' ==> text::lines_of(line + seq!['\n'] + rest)
            == seq![line] + text::lines_of(rest),
        text::lines_of(line + seq!['\r', '\n'] + rest) == seq![line] + text::lines_of(rest),
        line.len() > 0 ==> text::lines_of(line) == seq![line],
        text::lines_of(Seq::empty()) == Seq::<Seq<char>>::empty(),
{
    assert forall|i: int| 0 <= i < line.len() implies line[i] != '\n' by {
        assert(line.contains(line[i]));
    }
    let n = line.len() as int;
    let plain = line + seq!['\n'] + rest;
    text::lemma_first_index_is(plain, '\n', n);
    assert(plain.take(n) =~= line);
    assert(plain.skip(n + 1) =~= rest);
    let returned = line + seq!['\r', '\n'] + rest;
    text::lemma_first_index_is(returned, '\n', n + 1);
    assert(returned.take(n + 1) =~= line + seq!['\r']);
    assert((line + seq!['\r']).drop_last() =~= line);
    assert(returned.skip(n + 2) =~= rest);
    text::lemma_first_index_is(line, '\n', n);
}

// ---- numbers ----------------------------------------------------------------

/// A text is a number exactly where it is decimal digits, at least one, after at most
/// one plus sign, and their value fits 32 bits; and then the number is that value.
pub proof fn numbers_are_decimal_digits(text: Seq<char>)
    ensures
        match text::parsed_u32(text) {
            Some(number) => exists|digits: Seq<char>| #[trigger]
                text::decimal_value(digits) == number && digits.len() > 0 && text::all_digits(
                    digits,
                ) && (text == digits || text == seq!['+'] + digits),
            None => forall|digits: Seq<char>|
                digits.len() > 0 && #[trigger] text::all_digits(digits) && (text == digits || text
                    == seq!['+'] + digits) ==> text::decimal_value(digits) > u32::MAX,
        },
{
    let digits = text::without_plus(text);
    if text.len() > 0 && text[0] == '+' {
        assert(text =~= seq!['+'] + digits);
    }
    assert forall|other: Seq<char>|
        other.len() > 0 && #[trigger] text::all_digits(other) && (text == other || text
            == seq!['+'] + other) implies other == digits by {
        assert(text::is_digit(other[0]));
        if text == seq!['+'] + other {
            assert(text.skip(1) =~= other);
        }
    }
    if text::parsed_u32(text) is Some {
        assert(text::decimal_value(digits) == text::parsed_u32(text)->0);
    }
}

// ---- layout -----------------------------------------------------------------

/// Padding a text leaves it in front, and puts nothing but spaces behind it, as many
/// as bring it to the width.
pub proof fn padding_adds_spaces_behind(text: Seq<char>, width: nat, i: int)
    ensures
        text::padded(text, width).len() == (if text.len() < width {
            width
        } else {
            text.len()
        }),
        0 <= i < text.len() ==> text::padded(text, width)[i] == text[i],
        text.len() <= i < text::padded(text, width).len() ==> text::padded(text, width)[i] == ' ',
{
}

/// Joining texts puts the separator between each two of them, and nothing else.
pub proof fn joining_puts_the_separator_between(list: Seq<Seq<char>>, separator: Seq<char>)
    ensures
        text::joined(list, separator) == spliced(list, separator),
    decreases list.len(),
{
    if list.len() > 1 {
        let front = list.drop_last();
        joining_puts_the_separator_between(front, separator);
        lemma_spliced_last(list, separator);
    }
}

proof fn lemma_spliced_last(list: Seq<Seq<char>>, separator: Seq<char>)
    requires
        list.len() > 1,
    ensures
        spliced(list, separator) == spliced(list.drop_last(), separator) + separator + list.last(),
    decreases list.len(),
{
    let rest = list.skip(1);
    reveal_with_fuel(spliced, 2);
    if list.len() == 2 {
        assert(list.drop_last()[0] == list[0]);
        assert(rest[0] == list.last());
        assert(spliced(list, separator) =~= spliced(list.drop_last(), separator) + separator
            + list.last());
    } else {
        lemma_spliced_last(rest, separator);
        assert(list.drop_last().skip(1) =~= rest.drop_last());
        assert(spliced(list, separator) =~= spliced(list.drop_last(), separator) + separator
            + list.last());
    }
}

} // verus!
