//! Text primitives: searching, replacing, splitting into lines, trimming and
//! rendering numbers. Every function is specified over the characters of its
//! arguments, so the modules above can speak about whole documents.

use vstd::prelude::*;

pub mod laws;

verus! {

// ---- searching --------------------------------------------------------------

/// `pattern` stands in `text` starting at character `at`.
pub open spec fn occurs_at(text: Seq<char>, pattern: Seq<char>, at: int) -> bool {
    0 <= at && at + pattern.len() <= text.len() && text.subrange(at, at + pattern.len()) == pattern
}

/// `pattern` stands somewhere in `text`.
pub open spec fn has_text(text: Seq<char>, pattern: Seq<char>) -> bool {
    exists|at: int| occurs_at(text, pattern, at)
}

/// `text` begins with `prefix`.
pub open spec fn begins_with(text: Seq<char>, prefix: Seq<char>) -> bool {
    occurs_at(text, prefix, 0)
}

/// The position of the first `wanted` in `text`, or the length of `text` when
/// there is none.
pub open spec fn first_index<A>(text: Seq<A>, wanted: A) -> nat
    decreases text.len(),
{
    if text.len() == 0 || text[0] == wanted {
        0
    } else {
        1 + first_index(text.skip(1), wanted)
    }
}

/// `first_index` is what its name says.
pub proof fn lemma_first_index<A>(text: Seq<A>, wanted: A)
    ensures
        first_index(text, wanted) <= text.len(),
        first_index(text, wanted) < text.len() ==> text[first_index(text, wanted) as int] == wanted,
        forall|i: int| 0 <= i < first_index(text, wanted) ==> text[i] != wanted,
    decreases text.len(),
{
    if text.len() != 0 && text[0] != wanted {
        lemma_first_index(text.skip(1), wanted);
        assert forall|i: int| 0 <= i < first_index(text, wanted) implies text[i] != wanted by {
            if i > 0 {
                assert(text.skip(1)[i - 1] == text[i]);
            }
        }
    }
}

/// An index whose character is `wanted`, with none before it, is the first.
pub proof fn lemma_first_index_is<A>(text: Seq<A>, wanted: A, at: int)
    requires
        0 <= at <= text.len(),
        at < text.len() ==> text[at] == wanted,
        forall|i: int| 0 <= i < at ==> text[i] != wanted,
    ensures
        first_index(text, wanted) == at,
{
    lemma_first_index(text, wanted);
    let found = first_index(text, wanted);
    if found < at {
        assert(text[found as int] == wanted);
    }
}

/// The characters of `text`, in order.
pub fn characters(text: &str) -> (result: Vec<char>)
    ensures
        result@ == text@,
{
    let mut result: Vec<char> = Vec::new();
    for c in it: text.chars()
        invariant
            it.seq() == text@,
            result@ == text@.take(it.index() as int),
    {
        result.push(c);
        assert(text@.take(it.index() + 1) =~= text@.take(it.index() as int).push(c));
    }
    assert(text@.take(text@.len() as int) =~= text@);
    result
}

/// Whether `pattern` stands in `text` at `at`.
fn matches_at(text: &Vec<char>, pattern: &Vec<char>, at: usize) -> (found: bool)
    requires
        at <= text@.len(),
    ensures
        found == occurs_at(text@, pattern@, at as int),
{
    if pattern.len() > text.len() - at {
        return false;
    }
    let mut i: usize = 0;
    while i < pattern.len()
        invariant
            i <= pattern@.len(),
            at + pattern@.len() <= text.len(),
            forall|j: int| 0 <= j < i ==> text@[at + j] == pattern@[j],
        decreases pattern@.len() - i,
    {
        if text[at + i] != pattern[i] {
            proof {
                let window = text@.subrange(at as int, at + pattern@.len());
                assert(window[i as int] != pattern@[i as int]);
            }
            return false;
        }
        i += 1;
    }
    assert(text@.subrange(at as int, at + pattern@.len()) =~= pattern@);
    true
}

/// Whether `pattern` stands anywhere in `text`.
pub fn contains(text: &str, pattern: &str) -> (found: bool)
    ensures
        found == has_text(text@, pattern@),
{
    let chars = characters(text);
    let wanted = characters(pattern);
    let mut at: usize = 0;
    while at < chars.len()
        invariant
            at <= chars@.len(),
            chars@ == text@,
            wanted@ == pattern@,
            forall|i: int| 0 <= i < at ==> !occurs_at(text@, pattern@, i),
        decreases chars@.len() - at,
    {
        if matches_at(&chars, &wanted, at) {
            return true;
        }
        at += 1;
    }
    matches_at(&chars, &wanted, at)
}

/// Whether `text` begins with `prefix`.
pub fn starts_with(text: &str, prefix: &str) -> (found: bool)
    ensures
        found == begins_with(text@, prefix@),
{
    let chars = characters(text);
    let wanted = characters(prefix);
    matches_at(&chars, &wanted, 0)
}

// ---- replacing --------------------------------------------------------------

/// `text` with every occurrence of `pattern`, taken from the left and without
/// overlap, replaced by `with`. An empty pattern replaces nothing.
pub open spec fn replaced(text: Seq<char>, pattern: Seq<char>, with: Seq<char>) -> Seq<char>
    decreases text.len(),
{
    if pattern.len() == 0 || text.len() == 0 {
        text
    } else if begins_with(text, pattern) {
        with + replaced(text.skip(pattern.len() as int), pattern, with)
    } else {
        seq![text[0]] + replaced(text.skip(1), pattern, with)
    }
}

/// `text` with every occurrence of the non-empty `pattern` replaced by `with`.
pub fn replace(text: &str, pattern: &str, with: &str) -> (result: String)
    requires
        pattern@.len() > 0,
    ensures
        result@ == replaced(text@, pattern@, with@),
{
    let chars = characters(text);
    let wanted = characters(pattern);
    let mut result = String::new();
    let mut at: usize = 0;
    assert(text@.skip(0) =~= text@);
    while at < chars.len()
        invariant
            at <= chars@.len(),
            chars@ == text@,
            wanted@ == pattern@,
            pattern@.len() > 0,
            replaced(text@, pattern@, with@) =~= result@ + replaced(
                text@.skip(at as int),
                pattern@,
                with@,
            ),
        decreases chars@.len() - at,
    {
        let ghost rest = text@.skip(at as int);
        if matches_at(&chars, &wanted, at) {
            assert(rest.subrange(0, pattern@.len() as int) =~= text@.subrange(
                at as int,
                at + pattern@.len(),
            ));
            assert(rest.skip(pattern@.len() as int) =~= text@.skip(at + pattern@.len()));
            result.append(with);
            at += wanted.len();
        } else {
            assert(!begins_with(rest, pattern@)) by {
                if begins_with(rest, pattern@) {
                    assert(rest.subrange(0, pattern@.len() as int) =~= text@.subrange(
                        at as int,
                        at + pattern@.len(),
                    ));
                }
            }
            assert(rest.skip(1) =~= text@.skip(at + 1));
            assert(text@.subrange(at as int, at + 1) =~= seq![rest[0]]);
            result.append(text.substring_char(at, at + 1));
            at += 1;
        }
    }
    assert(text@.skip(at as int) =~= Seq::<char>::empty());
    result
}

/// A text whose first `n` characters are no start of `pattern` keeps them.
pub proof fn lemma_replaced_keeps_front(
    text: Seq<char>,
    pattern: Seq<char>,
    with: Seq<char>,
    n: int,
)
    requires
        pattern.len() > 0,
        0 <= n <= text.len(),
        forall|i: int| 0 <= i < n ==> text[i] != pattern[0],
    ensures
        replaced(text, pattern, with) == text.take(n) + replaced(text.skip(n), pattern, with),
    decreases n,
{
    if n == 0 {
        assert(text.skip(0) =~= text);
        assert(replaced(text, pattern, with) =~= text.take(0) + replaced(text, pattern, with));
    } else {
        let rest = text.skip(1);
        assert(!begins_with(text, pattern)) by {
            if begins_with(text, pattern) {
                assert(text.subrange(0, pattern.len() as int)[0] == text[0]);
            }
        }
        lemma_replaced_keeps_front(rest, pattern, with, n - 1);
        assert(rest.skip(n - 1) =~= text.skip(n));
        assert(seq![text[0]] + rest.take(n - 1) =~= text.take(n));
        assert(replaced(text, pattern, with) =~= text.take(n) + replaced(
            text.skip(n),
            pattern,
            with,
        ));
    }
}

/// A text put in front of another moves what stands in it.
proof fn lemma_has_text_behind(front: Seq<char>, text: Seq<char>, pattern: Seq<char>)
    requires
        has_text(text, pattern),
    ensures
        has_text(front + text, pattern),
{
    let at = choose|at: int| occurs_at(text, pattern, at);
    let moved = front.len() + at;
    assert((front + text).subrange(moved, moved + pattern.len()) =~= text.subrange(
        at,
        at + pattern.len(),
    ));
    assert(occurs_at(front + text, pattern, moved));
}

/// Where a pattern stands in a text, what replaces it stands in the outcome.
pub proof fn lemma_replaced_has_replacement(
    text: Seq<char>,
    pattern: Seq<char>,
    with: Seq<char>,
)
    requires
        pattern.len() > 0,
        has_text(text, pattern),
    ensures
        has_text(replaced(text, pattern, with), with),
    decreases text.len(),
{
    let at = choose|at: int| occurs_at(text, pattern, at);
    if begins_with(text, pattern) {
        let rest = replaced(text.skip(pattern.len() as int), pattern, with);
        assert((with + rest).subrange(0, with.len() as int) =~= with);
        assert(occurs_at(replaced(text, pattern, with), with, 0));
    } else {
        let rest = text.skip(1);
        assert(rest.subrange(at - 1, at - 1 + pattern.len()) =~= text.subrange(
            at,
            at + pattern.len(),
        ));
        assert(occurs_at(rest, pattern, at - 1));
        lemma_replaced_has_replacement(rest, pattern, with);
        lemma_has_text_behind(seq![text[0]], replaced(rest, pattern, with), with);
    }
}

/// A character that the pattern does not hold parts a text: what stands before it
/// and what stands behind it are replaced on their own.
pub proof fn lemma_replaced_in_parts(
    front: Seq<char>,
    mark: char,
    back: Seq<char>,
    pattern: Seq<char>,
    with: Seq<char>,
)
    requires
        pattern.len() > 0,
        forall|i: int| 0 <= i < pattern.len() ==> #[trigger] pattern[i] != mark,
    ensures
        replaced(front + seq![mark] + back, pattern, with) == replaced(front, pattern, with)
            + seq![mark] + replaced(back, pattern, with),
    decreases front.len(),
{
    let text = front + seq![mark] + back;
    let n = pattern.len() as int;
    assert(text[front.len() as int] == mark);
    if begins_with(text, pattern) {
        assert(n <= front.len()) by {
            if front.len() < n {
                assert(text.subrange(0, n)[front.len() as int] == pattern[front.len() as int]);
            }
        }
        assert(front.subrange(0, n) =~= text.subrange(0, n));
        assert(begins_with(front, pattern));
        assert(text.skip(n) =~= front.skip(n) + seq![mark] + back);
        lemma_replaced_in_parts(front.skip(n), mark, back, pattern, with);
        assert(replaced(text, pattern, with) =~= replaced(front, pattern, with) + seq![mark]
            + replaced(back, pattern, with));
    } else if front.len() == 0 {
        assert(text.skip(1) =~= back);
        assert(replaced(front, pattern, with) =~= front);
        assert(replaced(text, pattern, with) =~= replaced(front, pattern, with) + seq![mark]
            + replaced(back, pattern, with));
    } else {
        assert(!begins_with(front, pattern)) by {
            if begins_with(front, pattern) {
                assert(text.subrange(0, n) =~= front.subrange(0, n));
            }
        }
        assert(text.skip(1) =~= front.skip(1) + seq![mark] + back);
        lemma_replaced_in_parts(front.skip(1), mark, back, pattern, with);
        assert(replaced(text, pattern, with) =~= replaced(front, pattern, with) + seq![mark]
            + replaced(back, pattern, with));
    }
}

/// A character that the pattern does not hold parts a text: the pattern stands in
/// the one part or in the other, but not across.
pub proof fn lemma_has_text_in_parts(
    front: Seq<char>,
    mark: char,
    back: Seq<char>,
    pattern: Seq<char>,
)
    requires
        forall|i: int| 0 <= i < pattern.len() ==> #[trigger] pattern[i] != mark,
    ensures
        has_text(front + seq![mark] + back, pattern) <==> has_text(front, pattern) || has_text(
            back,
            pattern,
        ),
{
    let text = front + seq![mark] + back;
    let n = pattern.len() as int;
    let m = front.len() as int;
    assert(text[m] == mark);
    if has_text(text, pattern) {
        let at = choose|at: int| occurs_at(text, pattern, at);
        if at <= m < at + n {
            assert(text.subrange(at, at + n)[m - at] == pattern[m - at]);
        } else if at + n <= m {
            assert(front.subrange(at, at + n) =~= text.subrange(at, at + n));
            assert(occurs_at(front, pattern, at));
        } else {
            let moved = at - m - 1;
            assert(back.subrange(moved, moved + n) =~= text.subrange(at, at + n));
            assert(occurs_at(back, pattern, moved));
        }
    }
    if has_text(front, pattern) {
        let at = choose|at: int| occurs_at(front, pattern, at);
        assert(text.subrange(at, at + n) =~= front.subrange(at, at + n));
        assert(occurs_at(text, pattern, at));
    }
    if has_text(back, pattern) {
        lemma_has_text_behind(front + seq![mark], back, pattern);
    }
}

/// A passage survives a replacement when it is at least as long as the pattern
/// and holds neither the pattern's first nor its last character: no occurrence of
/// the pattern can reach into it.
pub proof fn lemma_replaced_keeps_passage(
    text: Seq<char>,
    pattern: Seq<char>,
    with: Seq<char>,
    passage: Seq<char>,
)
    requires
        0 < pattern.len() <= passage.len(),
        has_text(text, passage),
        forall|i: int|
            0 <= i < passage.len() ==> #[trigger] passage[i] != pattern[0] && passage[i]
                != pattern.last(),
    ensures
        has_text(replaced(text, pattern, with), passage),
    decreases text.len(),
{
    let at = choose|at: int| occurs_at(text, passage, at);
    let end = at + passage.len();
    assert forall|i: int| at <= i < end implies text[i] == passage[i - at] by {
        assert(text.subrange(at, end)[i - at] == passage[i - at]);
    }
    if begins_with(text, pattern) {
        let n = pattern.len() as int;
        let rest = text.skip(n);
        assert(text.subrange(0, n) == pattern);
        assert(at >= n) by {
            assert(text.subrange(0, n)[0] == pattern[0]);
            assert(text.subrange(0, n)[n - 1] == pattern[n - 1]);
            if at < n {
                if at == 0 {
                    assert(passage[0] != pattern[0]);
                } else {
                    assert(text[n - 1] == passage[n - 1 - at]);
                }
            }
        }
        assert(rest.subrange(at - n, end - n) =~= text.subrange(at, end));
        assert(occurs_at(rest, passage, at - n));
        lemma_replaced_keeps_passage(rest, pattern, with, passage);
        lemma_has_text_behind(with, replaced(rest, pattern, with), passage);
    } else if at > 0 {
        let rest = text.skip(1);
        assert(rest.subrange(at - 1, end - 1) =~= text.subrange(at, end));
        assert(occurs_at(rest, passage, at - 1));
        lemma_replaced_keeps_passage(rest, pattern, with, passage);
        lemma_has_text_behind(seq![text[0]], replaced(rest, pattern, with), passage);
    } else {
        assert forall|i: int| 0 <= i < end implies text[i] != pattern[0] by {
            assert(text[i] == passage[i]);
        }
        lemma_replaced_keeps_front(text, pattern, with, end);
        let outcome = replaced(text, pattern, with);
        assert(outcome.subrange(0, end) =~= text.subrange(0, end));
        assert(occurs_at(outcome, passage, 0));
    }
}

// ---- lines ------------------------------------------------------------------

/// `line` without one carriage return at its end.
pub open spec fn without_cr(line: Seq<char>) -> Seq<char> {
    if line.len() > 0 && line.last() == '\r' {
        line.drop_last()
    } else {
        line
    }
}

/// The lines of `text`: a line ends at a line feed, or at a carriage return and
/// a line feed, or where the text ends. The line ending is not part of it, and
/// a line feed at the very end opens no further line.
pub open spec fn lines_of(text: Seq<char>) -> Seq<Seq<char>>
    decreases text.len(),
{
    if text.len() == 0 {
        Seq::empty()
    } else {
        let end = first_index(text, '\n');
        if end >= text.len() {
            seq![text]
        } else {
            seq![without_cr(text.take(end as int))] + lines_of(text.skip((end + 1) as int))
        }
    }
}

/// The characters of each text in a list.
pub open spec fn texts_of(list: Seq<&str>) -> Seq<Seq<char>> {
    Seq::new(list.len(), |i: int| list[i]@)
}

/// The characters of each owned text in a list.
pub open spec fn strings_of(list: Seq<String>) -> Seq<Seq<char>> {
    Seq::new(list.len(), |i: int| list[i]@)
}

/// The lines of `text`.
pub fn lines<'a>(text: &'a str) -> (result: Vec<&'a str>)
    ensures
        texts_of(result@) == lines_of(text@),
{
    let chars = characters(text);
    let mut result: Vec<&'a str> = Vec::new();
    let mut start: usize = 0;
    assert(text@.skip(0) =~= text@);
    while start < chars.len()
        invariant
            start <= chars@.len(),
            chars@ == text@,
            lines_of(text@) =~= texts_of(result@) + lines_of(text@.skip(start as int)),
        decreases chars@.len() - start,
    {
        let ghost rest = text@.skip(start as int);
        let ghost before = texts_of(result@);
        let mut end: usize = start;
        while end < chars.len() && chars[end] != '\n'
            invariant
                start <= end <= chars@.len(),
                chars@ == text@,
                forall|i: int| start <= i < end ==> chars@[i] != '\n',
            decreases chars@.len() - end,
        {
            end += 1;
        }
        proof {
            lemma_first_index_is(rest, '\n', end - start);
        }
        if end == chars.len() {
            let line = text.substring_char(start, end);
            assert(line@ =~= rest);
            result.push(line);
            assert(texts_of(result@) =~= before + seq![rest]);
            assert(text@.skip(end as int) =~= Seq::<char>::empty());
            start = end;
        } else {
            let stop: usize = if end > start && chars[end - 1] == '\r' {
                end - 1
            } else {
                end
            };
            let line = text.substring_char(start, stop);
            assert(rest.take(end - start) =~= text@.subrange(start as int, end as int));
            assert(line@ =~= without_cr(rest.take(end - start)));
            result.push(line);
            assert(texts_of(result@) =~= before + seq![line@]);
            assert(rest.skip(end - start + 1) =~= text@.skip(end + 1));
            start = end + 1;
        }
    }
    assert(text@.skip(start as int) =~= Seq::<char>::empty());
    result
}

/// No line of a text holds a line feed.
pub proof fn lemma_lines_hold_no_line_feed(text: Seq<char>)
    ensures
        forall|i: int, j: int|
            0 <= i < lines_of(text).len() && 0 <= j < lines_of(text)[i].len()
                ==> #[trigger] lines_of(text)[i][j] != '\n',
    decreases text.len(),
{
    if text.len() > 0 {
        lemma_first_index(text, '\n');
        let end = first_index(text, '\n') as int;
        if end < text.len() {
            lemma_lines_hold_no_line_feed(text.skip(end + 1));
            let rest = lines_of(text.skip(end + 1));
            assert forall|i: int, j: int|
                0 <= i < lines_of(text).len() && 0 <= j < lines_of(text)[i].len() implies
                #[trigger] lines_of(text)[i][j] != '\n' by {
                if i > 0 {
                    assert(lines_of(text)[i] == rest[i - 1]);
                    assert(rest[i - 1][j] != '\n');
                } else {
                    assert(lines_of(text)[0] == without_cr(text.take(end)));
                    assert(text.take(end)[j] == text[j]);
                }
            }
        }
    }
}

/// Every line of a text stands in it.
pub proof fn lemma_lines_stand_in_text(text: Seq<char>, i: int)
    requires
        0 <= i < lines_of(text).len(),
    ensures
        has_text(text, lines_of(text)[i]),
    decreases text.len(),
{
    lemma_first_index(text, '\n');
    let end = first_index(text, '\n') as int;
    let line = lines_of(text)[i];
    if end >= text.len() {
        assert(text.subrange(0, text.len() as int) =~= text);
        assert(occurs_at(text, line, 0));
    } else if i == 0 {
        assert(text.subrange(0, line.len() as int) =~= line);
        assert(occurs_at(text, line, 0));
    } else {
        let rest = text.skip(end + 1);
        lemma_lines_stand_in_text(rest, i - 1);
        assert(lines_of(rest)[i - 1] == line);
        assert(text.take(end + 1) + rest =~= text);
        lemma_has_text_behind(text.take(end + 1), rest, line);
    }
}

// ---- white space ------------------------------------------------------------

/// The characters with the Unicode property `White_Space`.
pub open spec fn white(c: char) -> bool {
    ||| '\u{9}' <= c <= '\u{d}'
    ||| c == '\u{20}'
    ||| c == '\u{85}'
    ||| c == '\u{a0}'
    ||| c == '\u{1680}'
    ||| '\u{2000}' <= c <= '\u{200a}'
    ||| c == '\u{2028}'
    ||| c == '\u{2029}'
    ||| c == '\u{202f}'
    ||| c == '\u{205f}'
    ||| c == '\u{3000}'
}

/// Whether `c` is white space.
pub fn is_white(c: char) -> (result: bool)
    ensures
        result == white(c),
{
    ('\u{9}' <= c && c <= '\u{d}') || c == '\u{20}' || c == '\u{85}' || c == '\u{a0}' || c
        == '\u{1680}' || ('\u{2000}' <= c && c <= '\u{200a}') || c == '\u{2028}' || c == '\u{2029}'
        || c == '\u{202f}' || c == '\u{205f}' || c == '\u{3000}'
}

/// How many white characters `text` begins with.
pub open spec fn leading_white(text: Seq<char>) -> nat
    decreases text.len(),
{
    if text.len() > 0 && white(text[0]) {
        1 + leading_white(text.skip(1))
    } else {
        0
    }
}

/// `text` without the white space at its end.
pub open spec fn trimmed_end(text: Seq<char>) -> Seq<char>
    decreases text.len(),
{
    if text.len() > 0 && white(text.last()) {
        trimmed_end(text.drop_last())
    } else {
        text
    }
}

/// `text` without the white space at both ends.
pub open spec fn trimmed(text: Seq<char>) -> Seq<char> {
    trimmed_end(text.skip(leading_white(text) as int))
}

/// `leading_white` counts a prefix of white characters that cannot be extended.
pub proof fn lemma_leading_white(text: Seq<char>)
    ensures
        leading_white(text) <= text.len(),
        forall|i: int| 0 <= i < leading_white(text) ==> white(text[i]),
        leading_white(text) < text.len() ==> !white(text[leading_white(text) as int]),
    decreases text.len(),
{
    if text.len() > 0 && white(text[0]) {
        lemma_leading_white(text.skip(1));
        assert forall|i: int| 0 <= i < leading_white(text) implies white(text[i]) by {
            if i > 0 {
                assert(text.skip(1)[i - 1] == text[i]);
            }
        }
    }
}

/// A text that neither begins nor ends with white space is trimmed already.
pub proof fn lemma_trimmed_already(text: Seq<char>)
    requires
        text.len() > 0,
        !white(text[0]),
        !white(text.last()),
    ensures
        trimmed(text) == text,
{
    assert(text.skip(0) =~= text);
}

/// A carriage return at the end of a line is white space: it does not matter
/// to the trimmed line.
pub proof fn lemma_trimmed_without_cr(line: Seq<char>)
    ensures
        trimmed(without_cr(line)) == trimmed(line),
{
    if line.len() > 0 && line.last() == '\r' {
        let short = line.drop_last();
        lemma_leading_white(line);
        lemma_leading_white(short);
        let n = leading_white(line) as int;
        let m = leading_white(short) as int;
        if n == line.len() {
            assert(m == short.len()) by {
                if m < short.len() {
                    assert(white(line[m]));
                }
            }
            assert(line.skip(n) =~= Seq::<char>::empty());
            assert(short.skip(m) =~= Seq::<char>::empty());
        } else {
            assert(n < short.len()) by {
                if n == short.len() {
                    assert(line[n] == line.last());
                }
            }
            assert(m == n) by {
                if m < n {
                    assert(white(line[m]));
                } else if m > n {
                    assert(white(short[n]));
                }
            }
            assert(line.skip(n).drop_last() =~= short.skip(n));
            assert(line.skip(n).last() == '\r');
        }
    }
}

/// How many white characters `text` begins with.
pub fn count_leading_white(text: &str) -> (count: usize)
    ensures
        count == leading_white(text@),
        count <= text@.len(),
{
    let chars = characters(text);
    let mut at: usize = 0;
    while at < chars.len() && is_white(chars[at])
        invariant
            at <= chars@.len(),
            chars@ == text@,
            forall|i: int| 0 <= i < at ==> white(chars@[i]),
        decreases chars@.len() - at,
    {
        at += 1;
    }
    proof {
        lemma_leading_white(text@);
        let n = leading_white(text@);
        if n < at {
            assert(white(chars@[n as int]));
        } else if n > at {
            assert(white(text@[at as int]));
        }
    }
    at
}

/// `text` without the white space at both ends.
pub fn trim<'a>(text: &'a str) -> (result: &'a str)
    ensures
        result@ == trimmed(text@),
{
    let chars = characters(text);
    let start: usize = count_leading_white(text);
    let mut end: usize = chars.len();
    let ghost whole = text@.skip(start as int);
    assert(whole =~= text@.subrange(start as int, end as int));
    while end > start && is_white(chars[end - 1])
        invariant
            start <= end <= chars@.len(),
            chars@ == text@,
            trimmed_end(whole) == trimmed_end(text@.subrange(start as int, end as int)),
        decreases end,
    {
        let ghost now = text@.subrange(start as int, end as int);
        assert(now.drop_last() =~= text@.subrange(start as int, end - 1));
        end -= 1;
    }
    text.substring_char(start, end)
}

// ---- letters ----------------------------------------------------------------

/// `c` with an ASCII capital letter made small.
pub open spec fn small(c: char) -> char {
    if 'A' <= c <= 'Z' {
        ((c as u32) + 32) as char
    } else {
        c
    }
}

/// The two texts agree when ASCII letters are compared without case.
pub open spec fn same_ignoring_case(a: Seq<char>, b: Seq<char>) -> bool {
    a.len() == b.len() && forall|i: int| 0 <= i < a.len() ==> small(#[trigger] a[i]) == small(b[i])
}

fn to_small(c: char) -> (result: u32)
    ensures
        result == small(c) as u32,
{
    if 'A' <= c && c <= 'Z' {
        (c as u32) + 32
    } else {
        c as u32
    }
}

/// Whether the two texts agree when ASCII letters are compared without case.
pub fn eq_ignoring_case(a: &str, b: &str) -> (same: bool)
    ensures
        same == same_ignoring_case(a@, b@),
{
    let left = characters(a);
    let right = characters(b);
    if left.len() != right.len() {
        return false;
    }
    let mut i: usize = 0;
    while i < left.len()
        invariant
            i <= left@.len(),
            left@.len() == right@.len(),
            left@ == a@,
            right@ == b@,
            forall|j: int| 0 <= j < i ==> small(#[trigger] left@[j]) == small(right@[j]),
        decreases left@.len() - i,
    {
        if to_small(left[i]) != to_small(right[i]) {
            assert(small(a@[i as int]) != small(b@[i as int]));
            return false;
        }
        i += 1;
    }
    true
}

// ---- numbers ----------------------------------------------------------------

/// The decimal digit for `value`.
pub open spec fn digit(value: nat) -> char {
    (('0' as u32) + value) as char
}

/// `number` written in decimal.
pub open spec fn decimal(number: nat) -> Seq<char>
    decreases number,
{
    if number < 10 {
        seq![digit(number)]
    } else {
        decimal(number / 10) + seq![digit(number % 10)]
    }
}

/// `number` written in decimal.
pub fn decimal_text(number: u64) -> (result: String)
    ensures
        result@ == decimal(number as nat),
    decreases number,
{
    proof {
        reveal_strlit("0123456789");
    }
    let low: usize = (number % 10) as usize;
    let digits: &str = "0123456789";
    let last = digits.substring_char(low, low + 1);
    assert(last@ =~= seq![digit(low as nat)]);
    if number < 10 {
        last.to_string()
    } else {
        let mut result = decimal_text(number / 10);
        result.append(last);
        result
    }
}

/// `c` is a decimal digit.
pub open spec fn is_digit(c: char) -> bool {
    '0' <= c <= '9'
}

/// A number in decimal is written in digits, and at least one.
pub proof fn lemma_decimal_digits(number: nat)
    ensures
        decimal(number).len() > 0,
        all_digits(decimal(number)),
    decreases number,
{
    if number >= 10 {
        lemma_decimal_digits(number / 10);
    }
}

/// The number that a row of decimal digits writes.
pub open spec fn decimal_value(digits: Seq<char>) -> nat
    decreases digits.len(),
{
    if digits.len() == 0 {
        0
    } else {
        decimal_value(digits.drop_last()) * 10 + ((digits.last() as u32 - '0' as u32) as nat)
    }
}

/// A number is what its decimal digits write.
pub proof fn decimal_reads_back(number: nat)
    ensures
        decimal_value(decimal(number)) == number,
        number <= u32::MAX ==> parsed_u32(decimal(number)) == Some(number as u32),
    decreases number,
{
    lemma_decimal_digits(number);
    let digits = decimal(number);
    reveal_with_fuel(decimal_value, 2);
    if number >= 10 {
        decimal_reads_back(number / 10);
        assert(digits.drop_last() =~= decimal(number / 10));
        assert(digits.last() == digit(number % 10));
    } else {
        assert(digits.drop_last() =~= Seq::<char>::empty());
    }
    assert(is_digit(digits[0]));
}

/// `text` without one plus sign at its start.
pub open spec fn without_plus(text: Seq<char>) -> Seq<char> {
    if text.len() > 0 && text[0] == '+' {
        text.skip(1)
    } else {
        text
    }
}

/// Every character of `text` is a decimal digit.
pub open spec fn all_digits(text: Seq<char>) -> bool {
    forall|i: int| 0 <= i < text.len() ==> is_digit(#[trigger] text[i])
}

/// The number in `text`: decimal digits, at least one, after at most one plus
/// sign, whose value fits 32 bits. Anything else is no number.
pub open spec fn parsed_u32(text: Seq<char>) -> Option<u32> {
    let digits = without_plus(text);
    if digits.len() > 0 && all_digits(digits) && decimal_value(digits) <= u32::MAX {
        Some(decimal_value(digits) as u32)
    } else {
        None
    }
}

proof fn lemma_decimal_value_grows(digits: Seq<char>, n: int)
    requires
        0 <= n <= digits.len(),
        all_digits(digits),
    ensures
        decimal_value(digits.take(n)) <= decimal_value(digits),
    decreases digits.len(),
{
    if n == digits.len() {
        assert(digits.take(n) =~= digits);
    } else {
        lemma_decimal_value_grows(digits.drop_last(), n);
        assert(digits.drop_last().take(n) =~= digits.take(n));
    }
}

/// The number in `text`, if it writes one that fits 32 bits.
pub fn parse_u32(text: &str) -> (result: Option<u32>)
    ensures
        result == parsed_u32(text@),
{
    let chars = characters(text);
    let start: usize = if chars.len() > 0 && chars[0] == '+' {
        1
    } else {
        0
    };
    let ghost digits = without_plus(text@);
    if start == chars.len() {
        return None;
    }
    let mut at: usize = start;
    let mut value: u32 = 0;
    while at < chars.len()
        invariant
            start <= at <= chars@.len(),
            start <= 1,
            digits == without_plus(text@),
            digits.len() > 0,
            digits.len() == chars@.len() - start,
            forall|i: int| 0 <= i < digits.len() ==> digits[i] == chars@[i + start],
            forall|i: int| 0 <= i < at - start ==> is_digit(#[trigger] digits[i]),
            value == decimal_value(digits.take(at - start)),
        decreases chars@.len() - at,
    {
        let c: char = chars[at];
        if c < '0' || '9' < c {
            assert(!is_digit(digits[at - start]));
            return None;
        }
        let low: u32 = (c as u32) - 48;
        let ghost prefix = digits.take(at - start + 1);
        assert(prefix.drop_last() =~= digits.take(at - start));
        assert(prefix.last() == c);
        if value as u64 * 10 + low as u64 > 0xffff_ffffu64 {
            proof {
                if all_digits(digits) {
                    lemma_decimal_value_grows(digits, at - start + 1);
                }
            }
            return None;
        }
        value = value * 10 + low;
        at += 1;
    }
    assert(digits.take(at - start) =~= digits);
    Some(value)
}

// ---- putting texts together -------------------------------------------------

/// `text` behind `before`.
pub fn prefixed(before: &str, text: &str) -> (result: String)
    ensures
        result@ == before@ + text@,
{
    let mut result = before.to_string();
    result.append(text);
    result
}

/// `text` between `before` and `after`.
pub fn framed(before: &str, text: &str, after: &str) -> (result: String)
    ensures
        result@ == before@ + text@ + after@,
{
    let mut result = before.to_string();
    result.append(text);
    result.append(after);
    result
}

/// The texts of `list`, with `separator` between each two.
pub open spec fn joined(list: Seq<Seq<char>>, separator: Seq<char>) -> Seq<char>
    decreases list.len(),
{
    if list.len() == 0 {
        Seq::empty()
    } else if list.len() == 1 {
        list[0]
    } else {
        joined(list.drop_last(), separator) + separator + list.last()
    }
}

/// The texts of `list`, with `separator` between each two.
pub fn join(list: &Vec<String>, separator: &str) -> (result: String)
    ensures
        result@ == joined(strings_of(list@), separator@),
{
    let mut result = String::new();
    let mut i: usize = 0;
    while i < list.len()
        invariant
            i <= list@.len(),
            result@ == joined(strings_of(list@).take(i as int), separator@),
        decreases list@.len() - i,
    {
        let ghost next = strings_of(list@).take(i + 1);
        assert(next.drop_last() =~= strings_of(list@).take(i as int));
        if i > 0 {
            result.append(separator);
        } else {
            assert(next =~= seq![list@[0]@]);
        }
        result.append(list[i].as_str());
        i += 1;
        assert(result@ =~= joined(next, separator@));
    }
    assert(strings_of(list@).take(i as int) =~= strings_of(list@));
    result
}

/// `text` followed by as many spaces as bring it to `width` characters.
pub open spec fn padded(text: Seq<char>, width: nat) -> Seq<char> {
    if text.len() < width {
        text + Seq::new((width - text.len()) as nat, |i: int| ' ')
    } else {
        text
    }
}

/// `text` followed by as many spaces as bring it to `width` characters.
pub fn pad(text: &str, width: usize) -> (result: String)
    ensures
        result@ == padded(text@, width as nat),
{
    proof {
        reveal_strlit(" ");
    }
    let mut result = text.to_string();
    let mut length: usize = text.unicode_len();
    let ghost start = length;
    while length < width
        invariant
            start == text@.len(),
            start <= length,
            length <= width || length == start,
            " "@ == seq![' '],
            result@ == text@ + Seq::new((length - start) as nat, |i: int| ' '),
        decreases width - length,
    {
        result.append(" ");
        length += 1;
        assert(result@ =~= text@ + Seq::new((length - start) as nat, |i: int| ' '));
    }
    assert(result@ =~= padded(text@, width as nat));
    result
}

// ---- quoting ----------------------------------------------------------------

/// What std's `Debug` writes for a text: the text in double quotes, with the
/// characters escaped that need it.
pub uninterp spec fn debug_quoted(text: Seq<char>) -> Seq<char>;

/// `text` as std's `Debug` writes it, by `format!` with `{:?}`. Claimed is only
/// that the outcome is a function of the text; which characters are escaped is
/// left unsaid.
#[verifier::external_body]
pub(crate) fn quote(text: &str) -> (result: String)
    ensures
        result@ == debug_quoted(text@),
{
    format!("{:?}", text)
}

} // verus!
