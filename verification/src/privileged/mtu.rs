//! Baking an MTU override into the text of a WireGuard configuration, before
//! the text is parsed, fingerprinted and stored, so that the stored text and
//! the parsed configuration always agree.

use vstd::prelude::*;

use crate::text::{decimal_text, eq_ignoring_case, lines, trim};

verus! {

// ---- the document -----------------------------------------------------------

/// A section header: the line begins, after white space, with `[`.
pub open spec fn header(line: Seq<char>) -> bool {
    let bare = crate::text::trimmed(line);
    bare.len() > 0 && bare[0] == '['
}

/// The header of the `[Interface]` section, in any case of letters.
pub open spec fn interface_header(line: Seq<char>) -> bool {
    crate::text::same_ignoring_case(crate::text::trimmed(line), "[interface]"@)
}

/// The line that follows `lines` is in an `[Interface]` section: the last
/// header among `lines` opens one.
pub open spec fn within_interface(lines: Seq<Seq<char>>) -> bool
    decreases lines.len(),
{
    if lines.len() == 0 {
        false
    } else if header(lines.last()) {
        interface_header(lines.last())
    } else {
        within_interface(lines.drop_last())
    }
}

/// The line assigns something to the key `MTU`, in any case of letters.
pub open spec fn assigns_mtu(line: Seq<char>) -> bool {
    let bare = crate::text::trimmed(line);
    let split = crate::text::first_index(bare, '=') as int;
    split < bare.len() && crate::text::same_ignoring_case(
        crate::text::trimmed(bare.take(split)),
        "mtu"@,
    )
}

/// Line `i` is an MTU directive of an `[Interface]` section.
pub open spec fn mtu_directive_at(lines: Seq<Seq<char>>, i: int) -> bool {
    0 <= i < lines.len() && !header(lines[i]) && within_interface(lines.take(i)) && assigns_mtu(
        lines[i],
    )
}

/// Some `[Interface]` section has an MTU directive.
pub open spec fn has_mtu_directive(lines: Seq<Seq<char>>) -> bool {
    exists|i: int| mtu_directive_at(lines, i)
}

/// Some line opens an `[Interface]` section.
pub open spec fn has_interface_section(lines: Seq<Seq<char>>) -> bool {
    exists|i: int| 0 <= i < lines.len() && interface_header(#[trigger] lines[i])
}

/// The directive that sets `mtu`.
pub open spec fn directive(mtu: u16) -> Seq<char> {
    "MTU = "@ + crate::text::decimal(mtu as nat)
}

/// The lines as one text, each followed by a line feed.
pub open spec fn unlines(lines: Seq<Seq<char>>) -> Seq<char>
    decreases lines.len(),
{
    if lines.len() == 0 {
        Seq::empty()
    } else {
        unlines(lines.drop_last()) + lines.last() + seq!['\n']
    }
}

/// `lines` with every MTU directive of an `[Interface]` section set to `mtu`.
pub open spec fn directives_set(lines: Seq<Seq<char>>, mtu: u16) -> Seq<Seq<char>> {
    Seq::new(
        lines.len(),
        |i: int|
            if mtu_directive_at(lines, i) {
                directive(mtu)
            } else {
                lines[i]
            },
    )
}

/// The position of the first `[Interface]` header, or the number of lines when
/// there is none.
pub open spec fn first_interface(lines: Seq<Seq<char>>) -> nat
    decreases lines.len(),
{
    if lines.len() == 0 || interface_header(lines[0]) {
        0
    } else {
        1 + first_interface(lines.skip(1))
    }
}

/// `lines` with the directive for `mtu` right after the first `[Interface]`
/// header, or unchanged when there is no such header.
pub open spec fn directive_inserted(lines: Seq<Seq<char>>, mtu: u16) -> Seq<Seq<char>> {
    let at = first_interface(lines) as int;
    if at < lines.len() {
        lines.insert(at + 1, directive(mtu))
    } else {
        lines
    }
}

/// The configuration text with the override: existing directives are set;
/// where there is none, one is put under the first `[Interface]` header. Line
/// endings come out as line feeds.
pub open spec fn mtu_applied(conf_text: Seq<char>, mtu: u16) -> Seq<char> {
    let lines = crate::text::lines_of(conf_text);
    if has_mtu_directive(lines) {
        unlines(directives_set(lines, mtu))
    } else {
        unlines(directive_inserted(crate::text::lines_of(unlines(lines)), mtu))
    }
}

// ---- the computation --------------------------------------------------------

proof fn lemma_first_interface(lines: Seq<Seq<char>>)
    ensures
        first_interface(lines) <= lines.len(),
        first_interface(lines) < lines.len() ==> interface_header(
            lines[first_interface(lines) as int],
        ),
        forall|i: int| 0 <= i < first_interface(lines) ==> !interface_header(#[trigger] lines[i]),
    decreases lines.len(),
{
    if lines.len() != 0 && !interface_header(lines[0]) {
        lemma_first_interface(lines.skip(1));
        assert forall|i: int| 0 <= i < first_interface(lines) implies !interface_header(
            #[trigger] lines[i],
        ) by {
            if i > 0 {
                assert(lines.skip(1)[i - 1] == lines[i]);
            }
        }
    }
}

/// Whether `bare`, a trimmed line, assigns something to the key `MTU`.
fn is_mtu_assignment(bare: &str) -> (result: bool)
    ensures
        result == (crate::text::first_index(bare@, '=') < bare@.len()
            && crate::text::same_ignoring_case(
            crate::text::trimmed(bare@.take(crate::text::first_index(bare@, '=') as int)),
            "mtu"@,
        )),
{
    let chars = crate::text::characters(bare);
    let mut split: usize = 0;
    while split < chars.len() && chars[split] != '='
        invariant
            split <= chars@.len(),
            chars@ == bare@,
            forall|i: int| 0 <= i < split ==> chars@[i] != '=',
        decreases chars@.len() - split,
    {
        split += 1;
    }
    proof {
        crate::text::lemma_first_index_is(bare@, '=', split as int);
    }
    if split == chars.len() {
        return false;
    }
    let key = bare.substring_char(0, split);
    assert(key@ =~= bare@.take(split as int));
    eq_ignoring_case(trim(key), "mtu")
}

/// Whether `bare`, a trimmed line, begins with `[`.
fn is_header(bare: &str) -> (result: bool)
    ensures
        result == (bare@.len() > 0 && bare@[0] == '['),
{
    bare.unicode_len() > 0 && bare.get_char(0) == '['
}

/// Appends `line` and a line feed to `text`.
fn push_line(text: &mut String, line: &str)
    ensures
        final(text)@ == old(text)@ + line@ + seq!['\n'],
{
    proof {
        reveal_strlit("\n");
    }
    text.append(line);
    text.append("\n");
    assert("\n"@ =~= seq!['\n']);
}

/// The directive that sets `mtu`.
fn directive_text(mtu: u16) -> (result: String)
    ensures
        result@ == directive(mtu),
{
    let mut result = "MTU = ".to_string();
    result.append(decimal_text(mtu as u64).as_str());
    result
}

proof fn lemma_unlines_push(lines: Seq<Seq<char>>, line: Seq<char>)
    ensures
        unlines(lines.push(line)) == unlines(lines) + line + seq!['\n'],
{
    assert(lines.push(line).drop_last() =~= lines);
}

/// The text of `conf_lines` with the directive of `mtu` under the first
/// `[Interface]` header.
fn insert_directive(conf_lines: &Vec<&str>, mtu: u16) -> (result: String)
    ensures
        result@ == unlines(directive_inserted(crate::text::texts_of(conf_lines@), mtu)),
{
    let directive_line = directive_text(mtu);
    let ghost all = crate::text::texts_of(conf_lines@);
    let ghost goal = directive_inserted(all, mtu);
    let ghost at = first_interface(all) as int;
    proof {
        lemma_first_interface(all);
    }
    let mut result = String::new();
    let mut inserted: bool = false;
    let mut i: usize = 0;
    while i < conf_lines.len()
        invariant
            i <= conf_lines@.len(),
            all == crate::text::texts_of(conf_lines@),
            goal == directive_inserted(all, mtu),
            at == first_interface(all),
            at < all.len() ==> interface_header(all[at]),
            forall|j: int| 0 <= j < at ==> !interface_header(#[trigger] all[j]),
            at <= all.len(),
            directive_line@ == directive(mtu),
            inserted == (at < i),
            result@ == unlines(goal.take(if inserted { i + 1 } else { i as int })),
        decreases conf_lines@.len() - i,
    {
        let line: &str = conf_lines[i];
        assert(line@ == all[i as int]);
        let ghost done = goal.take(if inserted { i + 1 } else { i as int });
        push_line(&mut result, line);
        proof {
            lemma_unlines_push(done, line@);
            if inserted {
                assert(goal[i + 1] == all[i as int]);
                assert(done.push(line@) =~= goal.take(i + 2));
            } else {
                assert(goal[i as int] == all[i as int]);
                assert(done.push(line@) =~= goal.take(i + 1));
            }
        }
        if !inserted && eq_ignoring_case(trim(line), "[interface]") {
            assert(at == i);
            push_line(&mut result, directive_line.as_str());
            proof {
                lemma_unlines_push(done.push(line@), directive(mtu));
                assert(goal[i + 1] == directive(mtu));
                assert(done.push(line@).push(directive(mtu)) =~= goal.take(i + 2));
            }
            inserted = true;
        }
        i += 1;
    }
    assert(goal.take(if inserted { i + 1 } else { i as int }) =~= goal);
    result
}

/// The configuration text with `mtu` as the MTU of its interface.
pub fn apply_mtu_override_to_conf_text(conf_text: &str, mtu: u16) -> (result: String)
    ensures
        result@ == mtu_applied(conf_text@, mtu),
{
    let conf_lines = lines(conf_text);
    let ghost all = crate::text::lines_of(conf_text@);
    let directive_line = directive_text(mtu);
    let mut in_interface: bool = false;
    let mut found: bool = false;
    let mut out = String::new();
    let mut i: usize = 0;
    while i < conf_lines.len()
        invariant
            i <= conf_lines@.len(),
            all == crate::text::texts_of(conf_lines@),
            directive_line@ == directive(mtu),
            in_interface == within_interface(all.take(i as int)),
            found == (exists|j: int| j < i && mtu_directive_at(all, j)),
            out@ == unlines(directives_set(all, mtu).take(i as int)),
        decreases conf_lines@.len() - i,
    {
        let line: &str = conf_lines[i];
        let bare = trim(line);
        let ghost set = directives_set(all, mtu);
        proof {
            assert(line@ == all[i as int]);
            assert(all.take(i + 1).drop_last() =~= all.take(i as int));
            assert(set.take(i + 1) =~= set.take(i as int).push(set[i as int]));
            lemma_unlines_push(set.take(i as int), set[i as int]);
        }
        let replaces: bool = if is_header(bare) {
            in_interface = eq_ignoring_case(bare, "[interface]");
            false
        } else {
            in_interface && is_mtu_assignment(bare)
        };
        assert(replaces == mtu_directive_at(all, i as int));
        if replaces {
            push_line(&mut out, directive_line.as_str());
            found = true;
        } else {
            push_line(&mut out, line);
        }
        i += 1;
    }
    let ghost set = directives_set(all, mtu);
    proof {
        assert(set.take(i as int) =~= set);
        if !found {
            assert forall|j: int| !mtu_directive_at(all, j) by {}
            assert(set =~= all);
        } else {
            assert(has_mtu_directive(all));
        }
    }
    if found {
        return out;
    }
    let again = lines(out.as_str());
    insert_directive(&again, mtu)
}

// ---- what the override guarantees -------------------------------------------

proof fn lemma_unlines_first(lines: Seq<Seq<char>>)
    requires
        lines.len() > 0,
    ensures
        unlines(lines) == lines[0] + seq!['\n'] + unlines(lines.skip(1)),
    decreases lines.len(),
{
    if lines.len() == 1 {
        assert(lines.skip(1) =~= Seq::<Seq<char>>::empty());
        assert(lines.drop_last() =~= Seq::<Seq<char>>::empty());
        assert(unlines(lines.drop_last()) =~= Seq::<char>::empty());
        assert(unlines(lines.skip(1)) =~= Seq::<char>::empty());
        assert(unlines(lines) =~= lines[0] + seq!['\n'] + unlines(lines.skip(1)));
    } else {
        lemma_unlines_first(lines.drop_last());
        assert(lines.drop_last().skip(1) =~= lines.skip(1).drop_last());
        assert(unlines(lines) =~= lines[0] + seq!['\n'] + unlines(lines.skip(1)));
    }
}

/// No text in the list holds a line feed.
spec fn single_lines(lines: Seq<Seq<char>>) -> bool {
    forall|i: int, j: int|
        0 <= i < lines.len() && 0 <= j < lines[i].len() ==> #[trigger] lines[i][j] != '\n'
}

/// Each line without one carriage return at its end.
spec fn all_without_cr(lines: Seq<Seq<char>>) -> Seq<Seq<char>> {
    Seq::new(lines.len(), |i: int| crate::text::without_cr(lines[i]))
}

/// Splitting what `unlines` put together gives the lines back, each without one
/// carriage return at its end.
proof fn lemma_lines_of_unlines(lines: Seq<Seq<char>>)
    requires
        single_lines(lines),
    ensures
        crate::text::lines_of(unlines(lines)) == all_without_cr(lines),
    decreases lines.len(),
{
    if lines.len() == 0 {
        assert(all_without_cr(lines) =~= Seq::<Seq<char>>::empty());
    } else {
        lemma_unlines_first(lines);
        let text = unlines(lines);
        let end = lines[0].len() as int;
        assert forall|i: int| 0 <= i < end implies text[i] != '\n' by {
            assert(text[i] == lines[0][i]);
        }
        crate::text::lemma_first_index_is(text, '\n', end);
        assert(text.take(end) =~= lines[0]);
        assert(text.skip(end + 1) =~= unlines(lines.skip(1)));
        let rest = lines.skip(1);
        assert(single_lines(rest)) by {
            assert forall|i: int, j: int|
                0 <= i < rest.len() && 0 <= j < rest[i].len() implies #[trigger] rest[i][j]
                != '\n' by {
                assert(rest[i] == lines[i + 1]);
                assert(lines[i + 1][j] != '\n');
            }
        }
        lemma_lines_of_unlines(rest);
        assert(all_without_cr(lines) =~= seq![crate::text::without_cr(lines[0])] + all_without_cr(
            rest,
        ));
    }
}

/// An `[Interface]` header is a header.
proof fn lemma_interface_header_is_header(line: Seq<char>)
    requires
        interface_header(line),
    ensures
        header(line),
{
    reveal_strlit("[interface]");
    let bare = crate::text::trimmed(line);
    assert(crate::text::small(bare[0]) == crate::text::small("[interface]"@[0]));
}

/// What the sections of a document depend on.
spec fn same_kind(a: Seq<char>, b: Seq<char>) -> bool {
    header(a) == header(b) && interface_header(a) == interface_header(b)
}

proof fn lemma_within_same(a: Seq<Seq<char>>, b: Seq<Seq<char>>)
    requires
        a.len() == b.len(),
        forall|i: int| 0 <= i < a.len() ==> same_kind(#[trigger] a[i], b[i]),
    ensures
        within_interface(a) == within_interface(b),
    decreases a.len(),
{
    if a.len() > 0 {
        assert(same_kind(a[a.len() - 1], b[a.len() - 1]));
        assert forall|i: int| 0 <= i < a.len() - 1 implies same_kind(
            #[trigger] a.drop_last()[i],
            b.drop_last()[i],
        ) by {
            assert(same_kind(a[i], b[i]));
        }
        lemma_within_same(a.drop_last(), b.drop_last());
    }
}

proof fn lemma_within_has_header(lines: Seq<Seq<char>>)
    requires
        within_interface(lines),
    ensures
        has_interface_section(lines),
    decreases lines.len(),
{
    if header(lines.last()) {
        assert(interface_header(lines[lines.len() - 1]));
    } else {
        lemma_within_has_header(lines.drop_last());
        let i = choose|i: int|
            0 <= i < lines.drop_last().len() && interface_header(#[trigger] lines.drop_last()[i]);
        assert(interface_header(lines[i]));
    }
}

/// The directive is one line, no header, ends in no white space, and assigns
/// the MTU.
proof fn lemma_directive(mtu: u16)
    ensures
        forall|j: int| 0 <= j < directive(mtu).len() ==> #[trigger] directive(mtu)[j] != '\n',
        crate::text::without_cr(directive(mtu)) == directive(mtu),
        !header(directive(mtu)),
        !interface_header(directive(mtu)),
        assigns_mtu(directive(mtu)),
{
    reveal_strlit("MTU = ");
    reveal_strlit("mtu");
    let digits = crate::text::decimal(mtu as nat);
    let line = directive(mtu);
    crate::text::lemma_decimal_digits(mtu as nat);
    assert(crate::text::is_digit(digits[digits.len() - 1]));
    assert(line.last() == digits.last());
    assert forall|j: int| 0 <= j < line.len() implies #[trigger] line[j] != '\n' by {
        if j >= 6 {
            assert(crate::text::is_digit(digits[j - 6]));
            assert(line[j] == digits[j - 6]);
        }
    }
    crate::text::lemma_trimmed_already(line);
    if interface_header(line) {
        lemma_interface_header_is_header(line);
    }
    crate::text::lemma_first_index_is(line, '=', 4);
    let key = line.take(4);
    assert(key =~= seq!['M', 'T', 'U', ' ']);
    assert(key.skip(0) =~= key);
    assert(key.drop_last() =~= seq!['M', 'T', 'U']);
    assert(crate::text::trimmed(key) =~= seq!['M', 'T', 'U']) by {
        reveal_with_fuel(crate::text::trimmed_end, 3);
    }
}

/// After the override, every MTU directive of an `[Interface]` section reads
/// the override, and there is one exactly when the configuration had an
/// `[Interface]` section at all.
pub proof fn mtu_override_takes_hold(conf_text: Seq<char>, mtu: u16)
    ensures
        has_mtu_directive(crate::text::lines_of(mtu_applied(conf_text, mtu)))
            <==> has_interface_section(crate::text::lines_of(conf_text)),
        forall|i: int|
            mtu_directive_at(crate::text::lines_of(mtu_applied(conf_text, mtu)), i)
                ==> #[trigger] crate::text::lines_of(mtu_applied(conf_text, mtu))[i] == directive(
                mtu,
            ),
{
    let before = crate::text::lines_of(conf_text);
    let after = crate::text::lines_of(mtu_applied(conf_text, mtu));
    crate::text::lemma_lines_hold_no_line_feed(conf_text);
    lemma_directive(mtu);
    if has_mtu_directive(before) {
        let set = directives_set(before, mtu);
        lemma_lines_of_unlines(set);
        lemma_set_directives(before, mtu);
        let witness = choose|i: int| mtu_directive_at(before, i);
        assert(mtu_directive_at(after, witness));
        lemma_within_has_header(before.take(witness));
        let at = choose|i: int|
            0 <= i < before.take(witness).len() && interface_header(
                #[trigger] before.take(witness)[i],
            );
        assert(interface_header(before[at]));
    } else {
        lemma_lines_of_unlines(before);
        let base = crate::text::lines_of(unlines(before));
        lemma_without_cr_keeps_sections(before);
        crate::text::lemma_lines_hold_no_line_feed(unlines(before));
        lemma_inserted_directive(base, mtu);
        lemma_first_interface(base);
        if has_interface_section(before) {
            let at = choose|i: int| 0 <= i < before.len() && interface_header(#[trigger] before[i]);
            assert(same_kind(before[at], base[at]));
            assert(interface_header(base[at]));
        }
        if first_interface(base) < base.len() {
            let at = first_interface(base) as int;
            assert(same_kind(before[at], base[at]));
            assert(interface_header(before[at]));
            assert(mtu_directive_at(after, at + 1));
        }
    }
}

/// No line of `text` ends in a carriage return.
pub open spec fn plain_endings(text: Seq<char>) -> bool {
    forall|i: int| 0 < i < text.len() && text[i] == '\n' ==> #[trigger] text[i - 1] != '\r'
}

/// The last override wins: whatever was overridden before does not show. A text that
/// comes out with a line that ends in a carriage return is left out, for a further
/// override takes that carriage return for a part of the line's ending.
pub proof fn last_mtu_override_wins(conf_text: Seq<char>, first: u16, second: u16)
    requires
        plain_endings(mtu_applied(conf_text, first)),
    ensures
        mtu_applied(mtu_applied(conf_text, first), second) == mtu_applied(conf_text, second),
{
    let before = crate::text::lines_of(conf_text);
    crate::text::lemma_lines_hold_no_line_feed(conf_text);
    lemma_directive(first);
    if has_mtu_directive(before) {
        let set = directives_set(before, first);
        lemma_set_directives(before, first);
        lemma_lines_come_back(set);
        let witness = choose|i: int| mtu_directive_at(before, i);
        assert(mtu_directive_at(set, witness));
        assert(directives_set(set, second) =~= directives_set(before, second)) by {
            assert forall|i: int| 0 <= i < before.len() implies directives_set(set, second)[i]
                == directives_set(before, second)[i] by {
                assert(mtu_directive_at(before, i) == mtu_directive_at(set, i));
            }
        }
    } else {
        let base = crate::text::lines_of(unlines(before));
        let inserted = directive_inserted(base, first);
        let at = first_interface(base) as int;
        lemma_lines_of_unlines(before);
        lemma_without_cr_keeps_sections(before);
        crate::text::lemma_lines_hold_no_line_feed(unlines(before));
        lemma_first_interface(base);
        lemma_inserted_is_single_lines(base, first);
        lemma_inserted_directive(base, first);
        lemma_lines_come_back(inserted);
        if at < base.len() {
            assert(mtu_directive_at(inserted, at + 1));
            assert(directives_set(inserted, second) =~= directive_inserted(base, second)) by {
                assert forall|i: int| 0 <= i < inserted.len() implies directives_set(
                    inserted,
                    second,
                )[i] == directive_inserted(base, second)[i] by {
                    assert(mtu_directive_at(inserted, i) <==> i == at + 1);
                }
            }
        }
    }
}

/// A configuration without carriage returns comes out of an override without any.
pub proof fn mtu_override_brings_no_carriage_return(conf_text: Seq<char>, mtu: u16)
    requires
        !conf_text.contains('\r'),
    ensures
        !mtu_applied(conf_text, mtu).contains('\r'),
        plain_endings(mtu_applied(conf_text, mtu)),
{
    let before = crate::text::lines_of(conf_text);
    lemma_lines_without(conf_text);
    lemma_directive(mtu);
    reveal_strlit("MTU = ");
    crate::text::lemma_decimal_digits(mtu as nat);
    let line = directive(mtu);
    assert(!line.contains('\r')) by {
        let digits = crate::text::decimal(mtu as nat);
        assert forall|j: int| 0 <= j < line.len() implies #[trigger] line[j] != '\r' by {
            if j >= 6 {
                assert(crate::text::is_digit(digits[j - 6]));
                assert(line[j] == digits[j - 6]);
            }
        }
    }
    if has_mtu_directive(before) {
        lemma_unlines_without(directives_set(before, mtu));
    } else {
        lemma_unlines_without(before);
        lemma_lines_without(unlines(before));
        lemma_first_interface(crate::text::lines_of(unlines(before)));
        lemma_unlines_without(directive_inserted(crate::text::lines_of(unlines(before)), mtu));
    }
    let after = mtu_applied(conf_text, mtu);
    assert forall|i: int| 0 < i < after.len() && after[i] == '\n' implies #[trigger] after[i - 1]
        != '\r' by {
        assert(after.contains(after[i - 1]));
    }
}

proof fn lemma_lines_without(text: Seq<char>)
    requires
        !text.contains('\r'),
    ensures
        forall|i: int|
            0 <= i < crate::text::lines_of(text).len() ==> !(
            #[trigger] crate::text::lines_of(text)[i]).contains('\r'),
{
    let all = crate::text::lines_of(text);
    assert forall|i: int| 0 <= i < all.len() implies !(#[trigger] all[i]).contains('\r') by {
        if all[i].contains('\r') {
            let j = choose|j: int| 0 <= j < all[i].len() && all[i][j] == '\r';
            crate::text::lemma_lines_stand_in_text(text, i);
            let at = choose|at: int| crate::text::occurs_at(text, all[i], at);
            assert(text.subrange(at, at + all[i].len())[j] == '\r');
            assert(text[at + j] == '\r');
        }
    }
}

proof fn lemma_unlines_without(lines: Seq<Seq<char>>)
    requires
        forall|i: int| 0 <= i < lines.len() ==> !(#[trigger] lines[i]).contains('\r'),
    ensures
        !unlines(lines).contains('\r'),
    decreases lines.len(),
{
    if lines.len() > 0 {
        let front = unlines(lines.drop_last());
        let last = lines.last();
        assert forall|i: int| 0 <= i < lines.drop_last().len() implies !(
        #[trigger] lines.drop_last()[i]).contains('\r') by {
            assert(!lines[i].contains('\r'));
        }
        lemma_unlines_without(lines.drop_last());
        assert(!lines[lines.len() - 1].contains('\r'));
        assert forall|j: int| 0 <= j < unlines(lines).len() implies unlines(lines)[j] != '\r' by {
            if j < front.len() {
                assert(front.contains(front[j]));
            } else if j < front.len() + last.len() {
                assert(last.contains(last[j - front.len()]));
            }
        }
    }
}

/// Lines that end in no carriage return come back as they were put together.
proof fn lemma_lines_come_back(lines: Seq<Seq<char>>)
    requires
        single_lines(lines),
        plain_endings(unlines(lines)),
    ensures
        crate::text::lines_of(unlines(lines)) == lines,
        all_without_cr(lines) == lines,
{
    lemma_lines_of_unlines(lines);
    assert forall|i: int| 0 <= i < lines.len() implies crate::text::without_cr(
        #[trigger] lines[i],
    ) == lines[i] by {
        lemma_plain_line(lines, i);
    }
    assert(all_without_cr(lines) =~= lines);
}

proof fn lemma_plain_line(lines: Seq<Seq<char>>, i: int)
    requires
        plain_endings(unlines(lines)),
        0 <= i < lines.len(),
    ensures
        lines[i].len() > 0 ==> lines[i].last() != '\r',
    decreases lines.len(),
{
    let text = unlines(lines);
    let front = unlines(lines.drop_last());
    let last = lines.last();
    if i == lines.len() - 1 {
        let end = text.len() - 1;
        assert(text[end] == '\n');
        if last.len() > 0 {
            assert(text[end - 1] == last.last());
        }
    } else {
        assert forall|j: int| 0 < j < front.len() && front[j] == '\n' implies #[trigger] front[j
            - 1] != '\r' by {
            assert(text[j] == front[j]);
            assert(text[j - 1] == front[j - 1]);
        }
        lemma_plain_line(lines.drop_last(), i);
    }
}

proof fn lemma_without_cr_keeps_sections(lines: Seq<Seq<char>>)
    ensures
        forall|i: int|
            0 <= i < lines.len() ==> same_kind(#[trigger] lines[i], all_without_cr(lines)[i]),
        forall|i: int|
            mtu_directive_at(lines, i) == #[trigger] mtu_directive_at(all_without_cr(lines), i),
{
    let bare = all_without_cr(lines);
    assert forall|i: int| 0 <= i < lines.len() implies same_kind(#[trigger] lines[i], bare[i]) by {
        crate::text::lemma_trimmed_without_cr(lines[i]);
    }
    assert forall|i: int| mtu_directive_at(lines, i) == #[trigger] mtu_directive_at(bare, i) by {
        if 0 <= i < lines.len() {
            crate::text::lemma_trimmed_without_cr(lines[i]);
            assert forall|j: int| 0 <= j < i implies same_kind(
                #[trigger] lines.take(i)[j],
                bare.take(i)[j],
            ) by {
                assert(same_kind(lines[j], bare[j]));
            }
            lemma_within_same(lines.take(i), bare.take(i));
        }
    }
}

proof fn lemma_set_directives(before: Seq<Seq<char>>, mtu: u16)
    requires
        single_lines(before),
    ensures
        single_lines(directives_set(before, mtu)),
        forall|i: int|
            mtu_directive_at(before, i) == #[trigger] mtu_directive_at(
                all_without_cr(directives_set(before, mtu)),
                i,
            ),
        forall|i: int|
            mtu_directive_at(before, i) ==> #[trigger] all_without_cr(
                directives_set(before, mtu),
            )[i] == directive(mtu),
{
    let set = directives_set(before, mtu);
    let after = all_without_cr(set);
    lemma_directive(mtu);
    assert forall|i: int, j: int|
        0 <= i < set.len() && 0 <= j < set[i].len() implies #[trigger] set[i][j] != '\n' by {
        if !mtu_directive_at(before, i) {
            assert(before[i][j] != '\n');
        }
    }
    assert forall|i: int| 0 <= i < before.len() implies same_kind(#[trigger] before[i], set[i]) by {
        if mtu_directive_at(before, i) && interface_header(before[i]) {
            lemma_interface_header_is_header(before[i]);
        }
    }
    lemma_without_cr_keeps_sections(set);
    assert forall|i: int| mtu_directive_at(before, i) == #[trigger] mtu_directive_at(after, i) by {
        assert(mtu_directive_at(set, i) == mtu_directive_at(after, i));
        if 0 <= i < before.len() {
            assert forall|j: int| 0 <= j < i implies same_kind(
                #[trigger] before.take(i)[j],
                set.take(i)[j],
            ) by {
                assert(same_kind(before[j], set[j]));
            }
            lemma_within_same(before.take(i), set.take(i));
            assert(same_kind(before[i], set[i]));
        }
    }
}

proof fn lemma_inserted_is_single_lines(base: Seq<Seq<char>>, mtu: u16)
    requires
        single_lines(base),
    ensures
        single_lines(directive_inserted(base, mtu)),
{
    let inserted = directive_inserted(base, mtu);
    let at = first_interface(base) as int;
    lemma_directive(mtu);
    lemma_first_interface(base);
    assert forall|i: int, j: int|
        0 <= i < inserted.len() && 0 <= j < inserted[i].len() implies #[trigger] inserted[i][j]
        != '\n' by {
        if at < base.len() && i > at + 1 {
            assert(inserted[i] == base[i - 1]);
            assert(base[i - 1][j] != '\n');
        } else if at == base.len() || i <= at {
            assert(inserted[i] == base[i]);
            assert(base[i][j] != '\n');
        }
    }
}

proof fn lemma_inserted_directive(base: Seq<Seq<char>>, mtu: u16)
    requires
        single_lines(base),
        !has_mtu_directive(base),
    ensures
        ({
            let after = crate::text::lines_of(unlines(directive_inserted(base, mtu)));
            let at = first_interface(base) as int;
            &&& at == base.len() ==> !has_mtu_directive(after)
            &&& at < base.len() ==> forall|i: int|
                #[trigger] mtu_directive_at(after, i) <==> i == at + 1
            &&& forall|i: int| mtu_directive_at(after, i) ==> #[trigger] after[i] == directive(mtu)
        }),
{
    let inserted = directive_inserted(base, mtu);
    let at = first_interface(base) as int;
    lemma_directive(mtu);
    lemma_first_interface(base);
    lemma_inserted_is_single_lines(base, mtu);
    lemma_lines_of_unlines(inserted);
    lemma_without_cr_keeps_sections(inserted);
    let after = all_without_cr(inserted);
    if at == base.len() {
        assert forall|i: int| !mtu_directive_at(after, i) by {
            assert(mtu_directive_at(inserted, i) == mtu_directive_at(after, i));
            assert(!mtu_directive_at(base, i));
        }
    } else {
        assert forall|i: int| mtu_directive_at(after, i) <==> i == at + 1 by {
            assert(mtu_directive_at(inserted, i) == mtu_directive_at(after, i));
            if 0 <= i <= at {
                assert(inserted.take(i) =~= base.take(i));
                assert(!mtu_directive_at(base, i));
            } else if i == at + 1 {
                assert(inserted.take(i).last() == base[at]);
                lemma_interface_header_is_header(base[at]);
            } else if at + 1 < i < inserted.len() {
                lemma_within_after_insert(base, mtu, i);
                assert(inserted[i] == base[i - 1]);
                assert(!mtu_directive_at(base, i - 1));
            }
        }
        assert(after[at + 1] == directive(mtu));
    }
}

proof fn lemma_within_after_insert(base: Seq<Seq<char>>, mtu: u16, i: int)
    requires
        first_interface(base) < base.len(),
        first_interface(base) + 1 < i <= base.len() + 1,
    ensures
        within_interface(directive_inserted(base, mtu).take(i)) == within_interface(
            base.take(i - 1),
        ),
    decreases i,
{
    let at = first_interface(base) as int;
    let inserted = directive_inserted(base, mtu);
    lemma_directive(mtu);
    let now = inserted.take(i);
    assert(now.drop_last() =~= inserted.take(i - 1));
    if i == at + 2 {
        assert(now.last() == directive(mtu));
        assert(inserted.take(i - 1) =~= base.take(i - 1));
    } else {
        lemma_within_after_insert(base, mtu, i - 1);
        assert(now.last() == base[i - 2]);
        assert(base.take(i - 1).last() == base[i - 2]);
        assert(base.take(i - 1).drop_last() =~= base.take(i - 2));
    }
}

// ---- what the override leaves alone -----------------------------------------

/// `line` without the carriage returns at its end.
pub open spec fn without_crs(line: Seq<char>) -> Seq<char>
    decreases line.len(),
{
    if line.len() > 0 && line.last() == '\r' {
        without_crs(line.drop_last())
    } else {
        line
    }
}

/// The lines that are not MTU directives of an `[Interface]` section, in their
/// order.
pub open spec fn other_lines(lines: Seq<Seq<char>>) -> Seq<Seq<char>>
    decreases lines.len(),
{
    if lines.len() == 0 {
        Seq::empty()
    } else {
        let before = other_lines(lines.drop_last());
        if mtu_directive_at(lines, lines.len() - 1) {
            before
        } else {
            before.push(lines.last())
        }
    }
}

/// `after` is `before`, or lost one or two carriage returns at its end.
spec fn shed(before: Seq<char>, after: Seq<char>) -> bool {
    ||| after == before
    ||| after == crate::text::without_cr(before)
    ||| after == crate::text::without_cr(crate::text::without_cr(before))
}

proof fn lemma_shed(before: Seq<char>, after: Seq<char>)
    requires
        shed(before, after),
    ensures
        without_crs(after) == without_crs(before),
        before.len() == 0 || before.last() != '\r' ==> after == before,
{
    reveal_with_fuel(without_crs, 3);
}

proof fn lemma_directive_in_front(lines: Seq<Seq<char>>, i: int)
    requires
        0 <= i < lines.len() - 1,
    ensures
        mtu_directive_at(lines.drop_last(), i) == mtu_directive_at(lines, i),
{
    assert(lines.drop_last().take(i) =~= lines.take(i));
}

/// Where the same lines of two documents are directives, and the others differ in
/// carriage returns only, so do the other lines as a whole.
proof fn lemma_other_lines_shed(a: Seq<Seq<char>>, b: Seq<Seq<char>>)
    requires
        a.len() == b.len(),
        forall|i: int| 0 <= i < a.len() ==> mtu_directive_at(a, i) == #[trigger] mtu_directive_at(b, i),
        forall|i: int| 0 <= i < a.len() && !mtu_directive_at(a, i) ==> shed(#[trigger] a[i], b[i]),
    ensures
        other_lines(a).len() == other_lines(b).len(),
        forall|i: int|
            0 <= i < other_lines(a).len() ==> shed(#[trigger] other_lines(a)[i], other_lines(b)[i]),
    decreases a.len(),
{
    if a.len() > 0 {
        let front_a = a.drop_last();
        let front_b = b.drop_last();
        assert forall|i: int| 0 <= i < front_a.len() implies mtu_directive_at(front_a, i)
            == #[trigger] mtu_directive_at(front_b, i) by {
            lemma_directive_in_front(a, i);
            lemma_directive_in_front(b, i);
            assert(mtu_directive_at(a, i) == mtu_directive_at(b, i));
        }
        assert forall|i: int| 0 <= i < front_a.len() && !mtu_directive_at(front_a, i) implies shed(
            #[trigger] front_a[i],
            front_b[i],
        ) by {
            lemma_directive_in_front(a, i);
            assert(shed(a[i], b[i]));
        }
        lemma_other_lines_shed(front_a, front_b);
        let last = a.len() - 1;
        assert(mtu_directive_at(a, last) == mtu_directive_at(b, last));
        if !mtu_directive_at(a, last) {
            assert(shed(a[last], b[last]));
        }
    }
}

/// Without directives, the other lines are all of them.
proof fn lemma_all_other_lines(lines: Seq<Seq<char>>)
    requires
        !has_mtu_directive(lines),
    ensures
        other_lines(lines) == lines,
    decreases lines.len(),
{
    if lines.len() > 0 {
        let front = lines.drop_last();
        assert forall|i: int| !mtu_directive_at(front, i) by {
            if 0 <= i < front.len() {
                lemma_directive_in_front(lines, i);
            }
            assert(!mtu_directive_at(lines, i));
        }
        lemma_all_other_lines(front);
        assert(!mtu_directive_at(lines, lines.len() - 1));
        assert(front.push(lines.last()) =~= lines);
    }
}

/// Of a document with one directive, the other lines are all but that.
proof fn lemma_all_but_one(lines: Seq<Seq<char>>, at: int)
    requires
        0 <= at < lines.len(),
        forall|i: int| #[trigger] mtu_directive_at(lines, i) <==> i == at,
    ensures
        other_lines(lines) == lines.remove(at),
    decreases lines.len(),
{
    let front = lines.drop_last();
    let last = lines.len() - 1;
    assert(mtu_directive_at(lines, last) <==> last == at);
    if at == last {
        assert forall|i: int| !mtu_directive_at(front, i) by {
            if 0 <= i < front.len() {
                lemma_directive_in_front(lines, i);
            }
            assert(mtu_directive_at(lines, i) <==> i == at);
        }
        lemma_all_other_lines(front);
        assert(lines.remove(at) =~= front);
    } else {
        assert forall|i: int| #[trigger] mtu_directive_at(front, i) <==> i == at by {
            if 0 <= i < front.len() {
                lemma_directive_in_front(lines, i);
            }
            assert(mtu_directive_at(lines, i) <==> i == at);
        }
        lemma_all_but_one(front, at);
        assert(lines.remove(at) =~= front.remove(at).push(lines.last()));
    }
}

/// Everything but the MTU survives an override: the lines of the overridden text
/// that are not MTU directives of an `[Interface]` section are, in their order,
/// exactly the lines of the configuration that are not, but for carriage returns
/// at their ends; and where no line of the configuration ends in one, to the
/// letter.
pub proof fn all_but_the_mtu_survives(conf_text: Seq<char>, mtu: u16)
    ensures
        ({
            let before = other_lines(crate::text::lines_of(conf_text));
            let after = other_lines(crate::text::lines_of(mtu_applied(conf_text, mtu)));
            &&& after.len() == before.len()
            &&& forall|i: int|
                0 <= i < before.len() ==> without_crs(#[trigger] after[i]) == without_crs(before[i])
            &&& forall|i: int|
                0 <= i < before.len() && (before[i].len() == 0 || before[i].last() != '\r')
                    ==> #[trigger] after[i] == before[i]
        }),
{
    let lines = crate::text::lines_of(conf_text);
    let result = crate::text::lines_of(mtu_applied(conf_text, mtu));
    let before = other_lines(lines);
    let after = other_lines(result);
    crate::text::lemma_lines_hold_no_line_feed(conf_text);
    assert(after.len() == before.len() && forall|i: int|
        0 <= i < before.len() ==> shed(before[i], #[trigger] after[i])) by {
        if has_mtu_directive(lines) {
            let set = directives_set(lines, mtu);
            lemma_set_directives(lines, mtu);
            lemma_lines_of_unlines(set);
            lemma_other_lines_shed(lines, result);
            assert forall|i: int| 0 <= i < before.len() implies shed(
                before[i],
                #[trigger] after[i],
            ) by {
                assert(shed(other_lines(lines)[i], other_lines(result)[i]));
            }
        } else {
            let base = crate::text::lines_of(unlines(lines));
            let inserted = directive_inserted(base, mtu);
            let at = first_interface(base) as int;
            lemma_lines_of_unlines(lines);
            lemma_without_cr_keeps_sections(lines);
            crate::text::lemma_lines_hold_no_line_feed(unlines(lines));
            assert forall|i: int| !mtu_directive_at(base, i) by {
                assert(mtu_directive_at(lines, i) == mtu_directive_at(base, i));
            }
            lemma_first_interface(base);
            lemma_inserted_is_single_lines(base, mtu);
            lemma_inserted_directive(base, mtu);
            lemma_lines_of_unlines(inserted);
            lemma_all_other_lines(lines);
            if at < base.len() {
                lemma_all_but_one(result, at + 1);
                assert forall|i: int| 0 <= i < before.len() implies shed(
                    before[i],
                    #[trigger] after[i],
                ) by {
                    assert(base[i] == crate::text::without_cr(lines[i]));
                    if i <= at {
                        assert(inserted[i] == base[i]);
                    } else {
                        assert(inserted[i + 1] == base[i]);
                    }
                }
            } else {
                lemma_all_other_lines(result);
            }
        }
    }
    assert forall|i: int| 0 <= i < before.len() implies without_crs(#[trigger] after[i])
        == without_crs(before[i]) && (before[i].len() == 0 || before[i].last() != '\r'
        ==> after[i] == before[i]) by {
        lemma_shed(before[i], after[i]);
    }
}

/// After the override, every MTU directive of an `[Interface]` section is `MTU = `
/// and the number asked for, in decimal digits.
pub proof fn mtu_override_reads_back(conf_text: Seq<char>, mtu: u16, i: int)
    requires
        mtu_directive_at(crate::text::lines_of(mtu_applied(conf_text, mtu)), i),
    ensures
        exists|digits: Seq<char>| #[trigger]
            crate::text::all_digits(digits) && digits.len() > 0 && crate::text::lines_of(
                mtu_applied(conf_text, mtu),
            )[i] == "MTU = "@ + digits && crate::text::decimal_value(digits) == mtu,
{
    mtu_override_takes_hold(conf_text, mtu);
    let digits = crate::text::decimal(mtu as nat);
    crate::text::lemma_decimal_digits(mtu as nat);
    crate::text::decimal_reads_back(mtu as nat);
    assert(crate::text::lines_of(mtu_applied(conf_text, mtu))[i] == directive(mtu));
    assert(crate::text::all_digits(digits));
}

/// The override sets directives where they stand. Where there is none, it puts one
/// right below the first `[Interface]` header, and nowhere else.
pub proof fn mtu_override_stays_in_place(conf_text: Seq<char>, mtu: u16, header_at: int, i: int)
    requires
        0 <= header_at < crate::text::lines_of(conf_text).len(),
        interface_header(crate::text::lines_of(conf_text)[header_at]),
        forall|j: int|
            0 <= j < header_at ==> !interface_header(
                #[trigger] crate::text::lines_of(conf_text)[j],
            ),
    ensures
        has_mtu_directive(crate::text::lines_of(conf_text)) ==> (mtu_directive_at(
            crate::text::lines_of(mtu_applied(conf_text, mtu)),
            i,
        ) <==> mtu_directive_at(crate::text::lines_of(conf_text), i)),
        !has_mtu_directive(crate::text::lines_of(conf_text)) ==> (mtu_directive_at(
            crate::text::lines_of(mtu_applied(conf_text, mtu)),
            i,
        ) <==> i == header_at + 1),
{
    let lines = crate::text::lines_of(conf_text);
    crate::text::lemma_lines_hold_no_line_feed(conf_text);
    if has_mtu_directive(lines) {
        let set = directives_set(lines, mtu);
        lemma_set_directives(lines, mtu);
        lemma_lines_of_unlines(set);
        assert(mtu_directive_at(lines, i) == mtu_directive_at(all_without_cr(set), i));
    } else {
        let base = crate::text::lines_of(unlines(lines));
        lemma_lines_of_unlines(lines);
        lemma_without_cr_keeps_sections(lines);
        crate::text::lemma_lines_hold_no_line_feed(unlines(lines));
        assert forall|j: int| !mtu_directive_at(base, j) by {
            assert(mtu_directive_at(lines, j) == mtu_directive_at(base, j));
        }
        lemma_first_interface(base);
        lemma_inserted_directive(base, mtu);
        let at = first_interface(base) as int;
        assert(same_kind(lines[header_at], base[header_at]));
        assert(interface_header(base[header_at]));
        if at < header_at {
            assert(same_kind(lines[at], base[at]));
        }
    }
}

// ---- what is taken for what -------------------------------------------------

/// Only white space stands in `line` from `start` up to `end`.
pub open spec fn blank_between(line: Seq<char>, start: int, end: int) -> bool {
    forall|i: int| start <= i < end ==> crate::text::white(#[trigger] line[i])
}

/// The key `MTU` stands in `line` at `at`, in any case of letters.
pub open spec fn key_at(line: Seq<char>, at: int) -> bool {
    &&& 0 <= at && at + 3 <= line.len()
    &&& line[at] == 'm' || line[at] == 'M'
    &&& line[at + 1] == 't' || line[at + 1] == 'T'
    &&& line[at + 2] == 'u' || line[at + 2] == 'U'
}

/// A line assigns the MTU exactly when it is the key, in any case of letters, and an
/// equals sign, with nothing but white space before the key and between the two.
pub proof fn mtu_assignments_are_recognised(line: Seq<char>)
    ensures
        assigns_mtu(line) <==> exists|at: int, sign: int|
            {
                &&& #[trigger] key_at(line, at)
                &&& at + 3 <= sign < line.len()
                &&& #[trigger] line[sign] == '='
                &&& blank_between(line, 0, at)
                &&& blank_between(line, at + 3, sign)
            },
{
    reveal_strlit("mtu");
    let bare = crate::text::trimmed(line);
    let split = crate::text::first_index(bare, '=') as int;
    crate::text::lemma_first_index(bare, '=');
    if assigns_mtu(line) {
        let key = bare.take(split);
        let word = crate::text::trimmed(key);
        crate::text::laws::trimming_takes_white_space_from_the_ends(line);
        let (before, after) = choose|before: Seq<char>, after: Seq<char>| #[trigger]
            (before + bare + after) == line && crate::text::laws::all_white(before)
                && crate::text::laws::all_white(after);
        crate::text::laws::trimming_takes_white_space_from_the_ends(key);
        let (left, right) = choose|left: Seq<char>, right: Seq<char>| #[trigger]
            (left + word + right) == key && crate::text::laws::all_white(left)
                && crate::text::laws::all_white(right);
        crate::text::laws::case_is_all_that_is_ignored(word, "mtu"@);
        assert(word.len() == 3);
        assert(left.len() == 0) by {
            if left.len() > 0 {
                assert(key[0] == left[0]);
                assert(key[0] == bare[0]);
                assert(crate::text::white(left[0]));
            }
        }
        let at = before.len() as int;
        let sign = at + split;
        assert forall|i: int| 0 <= i < split implies line[at + i] == key[i] by {
            assert(line[at + i] == bare[i]);
        }
        assert(word[0] == "mtu"@[0] || crate::text::laws::other_case(word[0], "mtu"@[0]));
        assert(word[1] == "mtu"@[1] || crate::text::laws::other_case(word[1], "mtu"@[1]));
        assert(word[2] == "mtu"@[2] || crate::text::laws::other_case(word[2], "mtu"@[2]));
        assert(key[0] == word[0] && key[1] == word[1] && key[2] == word[2]);
        assert(line[at] == key[0] && line[at + 1] == key[1] && line[at + 2] == key[2]);
        assert(key_at(line, at));
        assert(line[sign] == bare[split]);
        assert(blank_between(line, 0, at)) by {
            assert forall|i: int| 0 <= i < at implies crate::text::white(#[trigger] line[i]) by {
                assert(line[i] == before[i]);
            }
        }
        assert(blank_between(line, at + 3, sign)) by {
            assert forall|i: int| at + 3 <= i < sign implies crate::text::white(
                #[trigger] line[i],
            ) by {
                assert(line[i] == key[i - at]);
                assert(key[i - at] == right[i - at - 3]);
            }
        }
    }
    if exists|at: int, sign: int|
        {
            &&& #[trigger] key_at(line, at)
            &&& at + 3 <= sign < line.len()
            &&& #[trigger] line[sign] == '='
            &&& blank_between(line, 0, at)
            &&& blank_between(line, at + 3, sign)
        } {
        let (at, sign) = choose|at: int, sign: int|
            {
                &&& #[trigger] key_at(line, at)
                &&& at + 3 <= sign < line.len()
                &&& #[trigger] line[sign] == '='
                &&& blank_between(line, 0, at)
                &&& blank_between(line, at + 3, sign)
            };
        lemma_assignment(line, at, sign);
    }
}

proof fn lemma_assignment(line: Seq<char>, at: int, sign: int)
    requires
        key_at(line, at),
        at + 3 <= sign < line.len(),
        line[sign] == '=',
        blank_between(line, 0, at),
        blank_between(line, at + 3, sign),
    ensures
        assigns_mtu(line),
{
    reveal_strlit("mtu");
    let bare = crate::text::trimmed(line);
    crate::text::laws::trimming_takes_white_space_from_the_ends(line);
    let (before, after) = choose|before: Seq<char>, after: Seq<char>| #[trigger]
        (before + bare + after) == line && crate::text::laws::all_white(before)
            && crate::text::laws::all_white(after);
    let from = before.len() as int;
    let to = from + bare.len();
    assert(from <= at) by {
        if at < from {
            assert(line[at] == before[at]);
        }
    }
    assert(sign < to) by {
        if to <= sign {
            assert(line[sign] == after[sign - to]);
        }
    }
    assert(from == at) by {
        if from < at {
            assert(line[from] == bare[0]);
            assert(crate::text::white(line[from]));
        }
    }
    let split = sign - at;
    assert forall|i: int| 0 <= i < split implies bare[i] != '=' by {
        assert(bare[i] == line[at + i]);
        if i >= 3 {
            assert(crate::text::white(line[at + i]));
        }
    }
    assert(bare[split] == line[sign]);
    crate::text::lemma_first_index_is(bare, '=', split);
    let key = bare.take(split);
    let word = line.subrange(at, at + 3);
    let gap = line.subrange(at + 3, sign);
    let nothing = Seq::<char>::empty();
    assert(crate::text::laws::all_white(gap)) by {
        assert forall|i: int| 0 <= i < gap.len() implies crate::text::white(#[trigger] gap[i]) by {
            assert(gap[i] == line[at + 3 + i]);
        }
    }
    assert(key =~= nothing + word + gap) by {
        assert forall|i: int| 0 <= i < split implies key[i] == line[at + i] by {}
    }
    crate::text::laws::trimming_leaves_what_is_between(nothing, word, gap);
    crate::text::laws::case_is_all_that_is_ignored(word, "mtu"@);
    assert forall|i: int| 0 <= i < word.len() implies #[trigger] word[i] == "mtu"@[i]
        || crate::text::laws::other_case(word[i], "mtu"@[i]) by {
        assert(word[i] == line[at + i]);
    }
}

/// A line is a header exactly when the first character of it that is not white space is
/// an opening bracket; and it opens an `[Interface]` section exactly when it is that
/// name in brackets, in any case of letters, and else nothing but white space.
pub proof fn headers_are_recognised(line: Seq<char>)
    ensures
        header(line) <==> exists|at: int|
            0 <= at < line.len() && #[trigger] line[at] == '[' && blank_between(line, 0, at),
        interface_header(line) <==> exists|before: Seq<char>, name: Seq<char>, after: Seq<char>|
            line == #[trigger] (before + name + after) && crate::text::laws::all_white(before)
                && crate::text::laws::all_white(after) && crate::text::same_ignoring_case(
                name,
                "[interface]"@,
            ),
{
    reveal_strlit("[interface]");
    let bare = crate::text::trimmed(line);
    crate::text::laws::trimming_takes_white_space_from_the_ends(line);
    let (before, after) = choose|before: Seq<char>, after: Seq<char>| #[trigger]
        (before + bare + after) == line && crate::text::laws::all_white(before)
            && crate::text::laws::all_white(after);
    let from = before.len() as int;
    if header(line) {
        assert(line[from] == bare[0]);
        assert(blank_between(line, 0, from)) by {
            assert forall|i: int| 0 <= i < from implies crate::text::white(#[trigger] line[i]) by {
                assert(line[i] == before[i]);
            }
        }
    }
    if exists|at: int|
        0 <= at < line.len() && #[trigger] line[at] == '[' && blank_between(line, 0, at) {
        let at = choose|at: int|
            0 <= at < line.len() && #[trigger] line[at] == '[' && blank_between(line, 0, at);
        if at < from {
            assert(line[at] == before[at]);
            assert(false);
        }
        if from + bare.len() <= at {
            assert(line[at] == after[at - from - bare.len()]);
            assert(false);
        }
        if from < at {
            assert(line[from] == bare[0]);
            assert(crate::text::white(line[from]));
            assert(false);
        }
        assert(bare[0] == line[at]);
    }
    if exists|before: Seq<char>, name: Seq<char>, after: Seq<char>|
        line == #[trigger] (before + name + after) && crate::text::laws::all_white(before)
            && crate::text::laws::all_white(after) && crate::text::same_ignoring_case(
            name,
            "[interface]"@,
        ) {
        let (left, name, right) = choose|
            before: Seq<char>,
            name: Seq<char>,
            after: Seq<char>,
        |
            line == #[trigger] (before + name + after) && crate::text::laws::all_white(before)
                && crate::text::laws::all_white(after) && crate::text::same_ignoring_case(
                name,
                "[interface]"@,
            );
        crate::text::laws::case_is_all_that_is_ignored(name, "[interface]"@);
        assert(name[0] == "[interface]"@[0] || crate::text::laws::other_case(
            name[0],
            "[interface]"@[0],
        ));
        assert(name[10] == "[interface]"@[10] || crate::text::laws::other_case(
            name[10],
            "[interface]"@[10],
        ));
        crate::text::laws::trimming_leaves_what_is_between(left, name, right);
    }
}

/// A line is an MTU directive of an `[Interface]` section exactly when it assigns the
/// MTU, is no header, and the last header above it opens such a section.
pub proof fn directives_belong_to_the_section_above(lines: Seq<Seq<char>>, i: int)
    ensures
        mtu_directive_at(lines, i) <==> {
            &&& 0 <= i < lines.len()
            &&& assigns_mtu(lines[i])
            &&& !header(lines[i])
            &&& exists|above: int|
                {
                    &&& 0 <= above < i
                    &&& interface_header(#[trigger] lines[above])
                    &&& forall|j: int| above < j < i ==> !header(#[trigger] lines[j])
                }
        },
{
    if 0 <= i < lines.len() {
        lemma_section_above(lines, i);
    }
}

proof fn lemma_section_above(lines: Seq<Seq<char>>, i: int)
    requires
        0 <= i <= lines.len(),
    ensures
        within_interface(lines.take(i)) <==> exists|above: int|
            {
                &&& 0 <= above < i
                &&& interface_header(#[trigger] lines[above])
                &&& forall|j: int| above < j < i ==> !header(#[trigger] lines[j])
            },
    decreases i,
{
    if i > 0 {
        let front = lines.take(i);
        assert(front.drop_last() =~= lines.take(i - 1));
        assert(front.last() == lines[i - 1]);
        lemma_section_above(lines, i - 1);
        if interface_header(lines[i - 1]) {
            lemma_interface_header_is_header(lines[i - 1]);
        }
        if !header(lines[i - 1]) {
            if within_interface(lines.take(i - 1)) {
                let above = choose|above: int|
                    {
                        &&& 0 <= above < i - 1
                        &&& interface_header(#[trigger] lines[above])
                        &&& forall|j: int| above < j < i - 1 ==> !header(#[trigger] lines[j])
                    };
                assert(interface_header(lines[above]));
            }
        }
    }
}

} // verus!
