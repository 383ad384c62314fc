//! The launchd plist of the privileged daemon.

use vstd::prelude::*;

use crate::launchctl::xml_escape;
use crate::text::{contains, count_leading_white, decimal_text, lines, replace};

verus! {

/// The name under which launchd knows the daemon.
pub const LABEL: &'static str = "me.pansen.wgd.privileged";

/// Where launchd looks for the daemon's plist.
pub const PLIST_PATH: &'static str = "/Library/LaunchDaemons/me.pansen.wgd.privileged.plist";

/// What the binary's path replaces in a template.
pub const BIN_PLACEHOLDER: &'static str = "@WGD_BIN@";

/// What marks the line that the socket's group replaces in a template.
pub const SOCK_GROUP_MARKER: &'static str = "@SOCK_PATH_GROUP@";

/// The template that is used unless the user brings another.
pub const PLIST_TEMPLATE: &'static str = "<?xml version=\"1.0\" encoding=\"UTF-8\"?>
<!DOCTYPE plist PUBLIC \"-//Apple//DTD PLIST 1.0//EN\" \"http://www.apple.com/DTDs/PropertyList-1.0.dtd\">
<plist version=\"1.0\">
<dict>
    <key>Label</key>
    <string>me.pansen.wgd.privileged</string>
    <key>ProgramArguments</key>
    <array>
        <string>@WGD_BIN@</string>
        <string>privileged</string>
        <string>--serve</string>
    </array>
    <key>Sockets</key>
    <dict>
        <key>Control</key>
        <dict>
            <key>SockPathName</key>
            <string>/var/run/wgd/privileged.sock</string>
            <key>SockPathMode</key>
            <integer>432</integer>
            <!-- @SOCK_PATH_GROUP@ -->
        </dict>
    </dict>
    <key>StandardOutPath</key>
    <string>/var/log/wgd/privileged.out.log</string>
    <key>StandardErrorPath</key>
    <string>/var/log/wgd/privileged.err.log</string>
</dict>
</plist>
";

/// Why a template cannot be used.
#[derive(Debug, Clone, Copy, PartialEq, Eq, Structural)]
pub enum PlistError {
    NoBinaryPlaceholder,
    NoGroupMarker,
    BinaryPlaceholderLeft,
    GroupMarkerLeft,
    NoLabel,
}

impl PlistError {
    /// The error in words.
    pub open spec fn text(self) -> Seq<char> {
        match self {
            PlistError::NoBinaryPlaceholder => "plist template is missing the @WGD_BIN@ placeholder"@,
            PlistError::NoGroupMarker =>
                "plist template is missing the @SOCK_PATH_GROUP@ marker comment"@,
            PlistError::BinaryPlaceholderLeft => "rendered plist still contains @WGD_BIN@"@,
            PlistError::GroupMarkerLeft =>
                "rendered plist still contains the @SOCK_PATH_GROUP@ marker"@,
            PlistError::NoLabel =>
                "rendered plist is missing the expected launchd Label `me.pansen.wgd.privileged` (custom template?)"@,
        }
    }

    /// The error in words.
    pub fn message(&self) -> (result: String)
        ensures
            result@ == self.text(),
    {
        match self {
            PlistError::NoBinaryPlaceholder =>
                "plist template is missing the @WGD_BIN@ placeholder".to_string(),
            PlistError::NoGroupMarker =>
                "plist template is missing the @SOCK_PATH_GROUP@ marker comment".to_string(),
            PlistError::BinaryPlaceholderLeft => "rendered plist still contains @WGD_BIN@".to_string(),
            PlistError::GroupMarkerLeft =>
                "rendered plist still contains the @SOCK_PATH_GROUP@ marker".to_string(),
            PlistError::NoLabel =>
                "rendered plist is missing the expected launchd Label `me.pansen.wgd.privileged` (custom template?)".to_string(),
        }
    }
}

// ---- rendering --------------------------------------------------------------

/// The position of the first line that holds `marker`, or the number of lines
/// when there is none.
pub open spec fn marked_line(lines: Seq<Seq<char>>, marker: Seq<char>) -> nat
    decreases lines.len(),
{
    if lines.len() == 0 || crate::text::has_text(lines[0], marker) {
        0
    } else {
        1 + marked_line(lines.skip(1), marker)
    }
}

/// `template` has a line that holds the group marker.
pub open spec fn has_marked_line(template: Seq<char>) -> bool {
    marked_line(crate::text::lines_of(template), SOCK_GROUP_MARKER@) < crate::text::lines_of(
        template,
    ).len()
}

/// The line of `template` that the socket's group replaces.
pub open spec fn group_line(template: Seq<char>) -> Seq<char> {
    crate::text::lines_of(template)[marked_line(
        crate::text::lines_of(template),
        SOCK_GROUP_MARKER@,
    ) as int]
}

/// The white space that `line` begins with.
pub open spec fn indent(line: Seq<char>) -> Seq<char> {
    line.take(crate::text::leading_white(line) as int)
}

/// The entry that gives the socket to the group `gid`.
pub open spec fn group_entry(indent: Seq<char>, gid: u32) -> Seq<char> {
    indent + "<key>SockPathGroup</key>\n"@ + indent + "<integer>"@ + crate::text::decimal(
        gid as nat,
    ) + "</integer>"@
}

/// `template` with the socket's group in the place of the marked line.
pub open spec fn with_group(template: Seq<char>, gid: u32) -> Seq<char> {
    let line = group_line(template);
    crate::text::replaced(template, line, group_entry(indent(line), gid))
}

/// `template` with the socket's group and the binary's path in their places.
pub open spec fn filled_in(template: Seq<char>, daemon_binary: Seq<char>, gid: u32) -> Seq<char> {
    crate::text::replaced(
        with_group(template, gid),
        BIN_PLACEHOLDER@,
        crate::launchctl::escaped(daemon_binary),
    )
}

/// The plist that a template yields, or why it yields none. A template without
/// the two places to fill in is refused; and so is an outcome in which one of
/// them is still there, or which does not carry the daemon's label.
pub open spec fn rendering(template: Seq<char>, daemon_binary: Seq<char>, gid: u32) -> Result<
    Seq<char>,
    PlistError,
> {
    let plist = filled_in(template, daemon_binary, gid);
    if !crate::text::has_text(template, BIN_PLACEHOLDER@) {
        Err(PlistError::NoBinaryPlaceholder)
    } else if !has_marked_line(template) {
        Err(PlistError::NoGroupMarker)
    } else if crate::text::has_text(plist, BIN_PLACEHOLDER@) {
        Err(PlistError::BinaryPlaceholderLeft)
    } else if crate::text::has_text(plist, SOCK_GROUP_MARKER@) {
        Err(PlistError::GroupMarkerLeft)
    } else if !crate::text::has_text(plist, LABEL@) {
        Err(PlistError::NoLabel)
    } else {
        Ok(plist)
    }
}

/// Why a template yields no plist for the binary, if it does not. It is rendered
/// for root's own group here; every other group is refused alike.
pub open spec fn refusal(template: Seq<char>, daemon_binary: Seq<char>) -> Option<PlistError> {
    match rendering(template, daemon_binary, 0) {
        Ok(_) => None,
        Err(error) => Some(error),
    }
}

proof fn lemma_marked_line(lines: Seq<Seq<char>>, marker: Seq<char>)
    ensures
        marked_line(lines, marker) <= lines.len(),
        marked_line(lines, marker) < lines.len() ==> crate::text::has_text(
            lines[marked_line(lines, marker) as int],
            marker,
        ),
        forall|i: int|
            0 <= i < marked_line(lines, marker) ==> !crate::text::has_text(
                #[trigger] lines[i],
                marker,
            ),
    decreases lines.len(),
{
    if lines.len() != 0 && !crate::text::has_text(lines[0], marker) {
        lemma_marked_line(lines.skip(1), marker);
        assert forall|i: int| 0 <= i < marked_line(lines, marker) implies !crate::text::has_text(
            #[trigger] lines[i],
            marker,
        ) by {
            if i > 0 {
                assert(lines.skip(1)[i - 1] == lines[i]);
            }
        }
    }
}

/// The line of `template` that holds the group marker, if there is one.
fn find_group_line<'a>(template: &'a str) -> (result: Option<&'a str>)
    ensures
        result is Some <==> has_marked_line(template@),
        result matches Some(line) ==> line@ == group_line(template@),
{
    let all = lines(template);
    let ghost texts = crate::text::lines_of(template@);
    proof {
        lemma_marked_line(texts, SOCK_GROUP_MARKER@);
    }
    let mut i: usize = 0;
    while i < all.len()
        invariant
            i <= all@.len(),
            texts == crate::text::texts_of(all@),
            texts == crate::text::lines_of(template@),
            i <= marked_line(texts, SOCK_GROUP_MARKER@) <= texts.len(),
            marked_line(texts, SOCK_GROUP_MARKER@) < texts.len() ==> crate::text::has_text(
                texts[marked_line(texts, SOCK_GROUP_MARKER@) as int],
                SOCK_GROUP_MARKER@,
            ),
            forall|j: int|
                0 <= j < marked_line(texts, SOCK_GROUP_MARKER@) ==> !crate::text::has_text(
                    #[trigger] texts[j],
                    SOCK_GROUP_MARKER@,
                ),
        decreases all@.len() - i,
    {
        assert(texts[i as int] == all@[i as int]@);
        if contains(all[i], SOCK_GROUP_MARKER) {
            return Some(all[i]);
        }
        i += 1;
    }
    None
}

/// Whether `template` yields a plist for the binary, and if not, why. The group
/// does not matter to that, so it need not exist yet.
pub fn check_template(template: &str, daemon_binary: &str) -> (result: Result<(), PlistError>)
    ensures
        match result {
            Ok(_) => refusal(template@, daemon_binary@) is None,
            Err(error) => refusal(template@, daemon_binary@) == Some(error),
        },
{
    match render_plist_from(template, daemon_binary, 0) {
        Ok(_) => Ok(()),
        Err(error) => Err(error),
    }
}

/// Renders the daemon's plist: `template` with the path of the daemon's binary
/// and the group that may use its socket.
pub fn render_plist_from(template: &str, daemon_binary: &str, gid: u32) -> (result: Result<
    String,
    PlistError,
>)
    ensures
        match result {
            Ok(plist) => rendering(template@, daemon_binary@, gid) == Ok::<Seq<char>, PlistError>(
                plist@,
            ),
            Err(error) => rendering(template@, daemon_binary@, gid) == Err::<
                Seq<char>,
                PlistError,
            >(error),
        },
{
    if !contains(template, BIN_PLACEHOLDER) {
        return Err(PlistError::NoBinaryPlaceholder);
    }
    let marker_line = match find_group_line(template) {
        Some(line) => line,
        None => return Err(PlistError::NoGroupMarker),
    };
    let blank = marker_line.substring_char(0, count_leading_white(marker_line));
    assert(blank@ =~= indent(marker_line@));
    let mut group = blank.to_string();
    group.append("<key>SockPathGroup</key>\n");
    group.append(blank);
    group.append("<integer>");
    group.append(decimal_text(gid as u64).as_str());
    group.append("</integer>");
    proof {
        reveal_strlit("@SOCK_PATH_GROUP@");
        reveal_strlit("@WGD_BIN@");
        lemma_marked_line(crate::text::lines_of(template@), SOCK_GROUP_MARKER@);
        assert(marker_line@.len() > 0);
    }
    let rendered = replace(
        replace(template, marker_line, group.as_str()).as_str(),
        BIN_PLACEHOLDER,
        xml_escape(daemon_binary).as_str(),
    );
    if contains(rendered.as_str(), BIN_PLACEHOLDER) {
        return Err(PlistError::BinaryPlaceholderLeft);
    }
    if contains(rendered.as_str(), SOCK_GROUP_MARKER) {
        return Err(PlistError::GroupMarkerLeft);
    }
    if !contains(rendered.as_str(), LABEL) {
        return Err(PlistError::NoLabel);
    }
    Ok(rendered)
}

// ---- laws -------------------------------------------------------------------

/// Rendering fails closed: whatever the template, a plist that comes out of it
/// holds neither of the two places to fill in, and carries the daemon's label.
pub proof fn rendering_fails_closed(
    template: Seq<char>,
    daemon_binary: Seq<char>,
    gid: u32,
    plist: Seq<char>,
)
    requires
        rendering(template, daemon_binary, gid) == Ok::<Seq<char>, PlistError>(plist),
    ensures
        !crate::text::has_text(plist, BIN_PLACEHOLDER@),
        !crate::text::has_text(plist, SOCK_GROUP_MARKER@),
        crate::text::has_text(plist, LABEL@),
{
}

/// None of the characters that the group entry is parted at, and no digit first.
spec fn apart_from_entry(pattern: Seq<char>) -> bool {
    &&& pattern.len() > 0
    &&& !crate::text::is_digit(pattern[0])
    &&& forall|i: int|
        0 <= i < pattern.len() ==> #[trigger] pattern[i] != '<' && pattern[i] != '>'
}

/// The entry up to the bracket before the number.
spec fn entry_front(indent: Seq<char>) -> Seq<char> {
    indent + "<key>SockPathGroup</key>\n"@ + indent + "<integer"@
}

/// What the number writes is neither replaced nor found: it holds digits alone.
proof fn lemma_number_is_inert(gid: u32, pattern: Seq<char>, with: Seq<char>, wanted: Seq<char>)
    requires
        apart_from_entry(pattern),
        apart_from_entry(wanted),
    ensures
        crate::text::replaced(crate::text::decimal(gid as nat), pattern, with)
            == crate::text::decimal(gid as nat),
        !crate::text::has_text(crate::text::decimal(gid as nat), wanted),
{
    let digits = crate::text::decimal(gid as nat);
    crate::text::lemma_decimal_digits(gid as nat);
    crate::text::lemma_replaced_keeps_front(digits, pattern, with, digits.len() as int);
    assert(digits.skip(digits.len() as int) =~= Seq::<char>::empty());
    if crate::text::has_text(digits, wanted) {
        let at = choose|at: int| crate::text::occurs_at(digits, wanted, at);
        assert(digits.subrange(at, at + wanted.len())[0] == wanted[0]);
        assert(crate::text::is_digit(digits[at]));
    }
}

/// A text that begins with the group entry, taken apart at the entry's brackets.
proof fn lemma_entry_in_parts(
    front: Seq<char>,
    indent: Seq<char>,
    gid: u32,
    back: Seq<char>,
    pattern: Seq<char>,
    with: Seq<char>,
    wanted: Seq<char>,
)
    requires
        apart_from_entry(pattern),
        apart_from_entry(wanted),
    ensures
        crate::text::has_text(
            crate::text::replaced(front + group_entry(indent, gid) + back, pattern, with),
            wanted,
        ) <==> {
            ||| crate::text::has_text(
                crate::text::replaced(front + entry_front(indent), pattern, with),
                wanted,
            )
            ||| crate::text::has_text(
                crate::text::replaced("/integer"@, pattern, with),
                wanted,
            )
            ||| crate::text::has_text(crate::text::replaced(back, pattern, with), wanted)
        },
{
    reveal_strlit("<integer>");
    reveal_strlit("<integer");
    reveal_strlit("</integer>");
    reveal_strlit("/integer");
    let digits = crate::text::decimal(gid as nat);
    let ahead = front + entry_front(indent);
    let slash = "/integer"@;
    let last = slash + seq!['>'] + back;
    let number = digits + seq!['<'] + last;
    assert("<integer>"@ =~= "<integer"@ + seq!['>']);
    assert("</integer>"@ =~= seq!['<'] + slash + seq!['>']);
    assert(front + group_entry(indent, gid) + back =~= ahead + seq!['>'] + number);
    lemma_number_is_inert(gid, pattern, with, wanted);
    crate::text::lemma_replaced_in_parts(ahead, '>', number, pattern, with);
    crate::text::lemma_replaced_in_parts(digits, '<', last, pattern, with);
    crate::text::lemma_replaced_in_parts(slash, '>', back, pattern, with);
    crate::text::lemma_has_text_in_parts(
        crate::text::replaced(ahead, pattern, with),
        '>',
        crate::text::replaced(number, pattern, with),
        wanted,
    );
    crate::text::lemma_has_text_in_parts(
        digits,
        '<',
        crate::text::replaced(last, pattern, with),
        wanted,
    );
    crate::text::lemma_has_text_in_parts(
        crate::text::replaced(slash, pattern, with),
        '>',
        crate::text::replaced(back, pattern, with),
        wanted,
    );
}

/// Whether `wanted` comes out does not depend on which group is put in.
proof fn lemma_group_does_not_matter(
    front: Seq<char>,
    text: Seq<char>,
    line: Seq<char>,
    indent: Seq<char>,
    gid: u32,
    other: u32,
    pattern: Seq<char>,
    with: Seq<char>,
    wanted: Seq<char>,
)
    requires
        line.len() > 0,
        apart_from_entry(pattern),
        apart_from_entry(wanted),
    ensures
        crate::text::has_text(
            crate::text::replaced(
                front + crate::text::replaced(text, line, group_entry(indent, gid)),
                pattern,
                with,
            ),
            wanted,
        ) == crate::text::has_text(
            crate::text::replaced(
                front + crate::text::replaced(text, line, group_entry(indent, other)),
                pattern,
                with,
            ),
            wanted,
        ),
    decreases text.len(),
{
    let one = group_entry(indent, gid);
    let two = group_entry(indent, other);
    if text.len() == 0 {
    } else if crate::text::begins_with(text, line) {
        let rest = text.skip(line.len() as int);
        let nothing = Seq::<char>::empty();
        let first = crate::text::replaced(rest, line, one);
        let second = crate::text::replaced(rest, line, two);
        lemma_group_does_not_matter(
            nothing,
            rest,
            line,
            indent,
            gid,
            other,
            pattern,
            with,
            wanted,
        );
        assert(nothing + first =~= first);
        assert(nothing + second =~= second);
        lemma_entry_in_parts(front, indent, gid, first, pattern, with, wanted);
        lemma_entry_in_parts(front, indent, other, second, pattern, with, wanted);
        assert(front + (one + first) =~= front + one + first);
        assert(front + (two + second) =~= front + two + second);
    } else {
        let rest = text.skip(1);
        let longer = front.push(text[0]);
        lemma_group_does_not_matter(
            longer,
            rest,
            line,
            indent,
            gid,
            other,
            pattern,
            with,
            wanted,
        );
        let first = crate::text::replaced(rest, line, one);
        let second = crate::text::replaced(rest, line, two);
        assert(front + (seq![text[0]] + first) =~= longer + first);
        assert(front + (seq![text[0]] + second) =~= longer + second);
    }
}

/// Whether a template is refused, and why, does not depend on the group: neither
/// the label nor a place to fill in can reach into the group's entry.
pub proof fn refusal_is_the_same_for_every_group(
    template: Seq<char>,
    daemon_binary: Seq<char>,
    gid: u32,
)
    ensures
        match rendering(template, daemon_binary, gid) {
            Ok(_) => refusal(template, daemon_binary) is None,
            Err(error) => refusal(template, daemon_binary) == Some(error),
        },
{
    reveal_strlit("@WGD_BIN@");
    reveal_strlit("@SOCK_PATH_GROUP@");
    reveal_strlit("me.pansen.wgd.privileged");
    if has_marked_line(template) {
        let line = group_line(template);
        let path = crate::launchctl::escaped(daemon_binary);
        let nothing = Seq::<char>::empty();
        lemma_marked_line(crate::text::lines_of(template), SOCK_GROUP_MARKER@);
        assert(line.len() > 0);
        assert(nothing + with_group(template, gid) =~= with_group(template, gid));
        assert(nothing + with_group(template, 0) =~= with_group(template, 0));
        lemma_group_does_not_matter(
            nothing,
            template,
            line,
            indent(line),
            gid,
            0,
            BIN_PLACEHOLDER@,
            path,
            BIN_PLACEHOLDER@,
        );
        lemma_group_does_not_matter(
            nothing,
            template,
            line,
            indent(line),
            gid,
            0,
            BIN_PLACEHOLDER@,
            path,
            SOCK_GROUP_MARKER@,
        );
        lemma_group_does_not_matter(
            nothing,
            template,
            line,
            indent(line),
            gid,
            0,
            BIN_PLACEHOLDER@,
            path,
            LABEL@,
        );
    }
}

/// A rendered plist gives the daemon's socket to the group, indented as the
/// marked line was: filling in the binary's path cannot damage the entry.
pub proof fn rendered_plist_names_the_group(
    template: Seq<char>,
    daemon_binary: Seq<char>,
    gid: u32,
    plist: Seq<char>,
)
    requires
        rendering(template, daemon_binary, gid) == Ok::<Seq<char>, PlistError>(plist),
    ensures
        crate::text::has_text(plist, group_entry(indent(group_line(template)), gid)),
{
    reveal_strlit("@SOCK_PATH_GROUP@");
    reveal_strlit("@WGD_BIN@");
    reveal_strlit("<key>SockPathGroup</key>\n");
    reveal_strlit("<integer>");
    reveal_strlit("</integer>");
    let all = crate::text::lines_of(template);
    lemma_marked_line(all, SOCK_GROUP_MARKER@);
    let line = group_line(template);
    let entry = group_entry(indent(line), gid);
    crate::text::lemma_lines_stand_in_text(
        template,
        marked_line(all, SOCK_GROUP_MARKER@) as int,
    );
    assert(line.len() > 0);
    crate::text::lemma_replaced_has_replacement(template, line, entry);
    crate::text::lemma_leading_white(line);
    crate::text::lemma_decimal_digits(gid as nat);
    assert forall|i: int| 0 <= i < entry.len() implies #[trigger] entry[i] != '@' by {
        let blank = indent(line);
        let key = "<key>SockPathGroup</key>\n"@;
        let open = "<integer>"@;
        let digits = crate::text::decimal(gid as nat);
        let close = "</integer>"@;
        let a = blank.len() as int;
        let b = a + key.len();
        let c = b + blank.len();
        let d = c + open.len();
        let e = d + digits.len();
        if i < a {
            assert(entry[i] == line[i]);
            assert(crate::text::white(line[i]));
        } else if i < b {
            assert(entry[i] == key[i - a]);
        } else if i < c {
            assert(entry[i] == line[i - b]);
            assert(crate::text::white(line[i - b]));
        } else if i < d {
            assert(entry[i] == open[i - c]);
        } else if i < e {
            assert(entry[i] == digits[i - d]);
            assert(crate::text::is_digit(digits[i - d]));
        } else {
            assert(entry[i] == close[i - e]);
        }
    }
    crate::text::lemma_replaced_keeps_passage(
        with_group(template, gid),
        BIN_PLACEHOLDER@,
        crate::launchctl::escaped(daemon_binary),
        entry,
    );
}

/// A rendered plist names the daemon's binary, where the place for it is not
/// itself part of what the socket's group replaces.
pub proof fn rendered_plist_names_the_binary(
    template: Seq<char>,
    daemon_binary: Seq<char>,
    gid: u32,
    plist: Seq<char>,
)
    requires
        rendering(template, daemon_binary, gid) == Ok::<Seq<char>, PlistError>(plist),
        crate::text::has_text(with_group(template, gid), BIN_PLACEHOLDER@),
    ensures
        crate::text::has_text(plist, crate::launchctl::escaped(daemon_binary)),
{
    reveal_strlit("@WGD_BIN@");
    crate::text::lemma_replaced_has_replacement(
        with_group(template, gid),
        BIN_PLACEHOLDER@,
        crate::launchctl::escaped(daemon_binary),
    );
}

/// `entry` gives the daemon's socket to the group `gid`, and is indented as `line` is.
pub open spec fn gives_group(entry: Seq<char>, line: Seq<char>, gid: u32) -> bool {
    exists|blank: Seq<char>, rest: Seq<char>, digits: Seq<char>|
        {
            &&& line == #[trigger] (blank + rest)
            &&& crate::text::laws::all_white(blank)
            &&& rest.len() > 0 ==> !crate::text::white(rest[0])
            &&& digits.len() > 0
            &&& crate::text::all_digits(digits)
            &&& #[trigger] crate::text::decimal_value(digits) == gid
            &&& entry == blank + "<key>SockPathGroup</key>\n"@ + blank + "<integer>"@ + digits
                + "</integer>"@
        }
}

/// `line` is the first line of the template that holds the group marker.
pub open spec fn first_marked(template: Seq<char>, line: Seq<char>) -> bool {
    exists|at: int|
        {
            &&& 0 <= at < crate::text::lines_of(template).len()
            &&& line == #[trigger] crate::text::lines_of(template)[at]
            &&& crate::text::has_text(line, "@SOCK_PATH_GROUP@"@)
            &&& forall|j: int|
                0 <= j < at ==> !crate::text::has_text(
                    #[trigger] crate::text::lines_of(template)[j],
                    "@SOCK_PATH_GROUP@"@,
                )
        }
}

/// `plist` is the template with the first line that holds the group marker swapped
/// for an entry of the group, and then the place for the binary swapped for its path;
/// nothing else is changed.
pub open spec fn fills_in(
    template: Seq<char>,
    daemon_binary: Seq<char>,
    gid: u32,
    plist: Seq<char>,
) -> bool {
    exists|line: Seq<char>, entry: Seq<char>, grouped: Seq<char>|
        {
            &&& first_marked(template, line)
            &&& gives_group(entry, line, gid)
            &&& #[trigger] crate::text::laws::swaps(template, line, entry, grouped)
            &&& crate::text::laws::swaps(
                grouped,
                "@WGD_BIN@"@,
                crate::launchctl::escaped(daemon_binary),
                plist,
            )
        }
}

/// Rendering fills the template in and does nothing else to it. It is refused exactly
/// where a place to fill in is missing, or where one is left or the label is missing
/// once all is filled in.
pub proof fn rendering_fills_the_template_in(
    template: Seq<char>,
    daemon_binary: Seq<char>,
    gid: u32,
)
    ensures
        match rendering(template, daemon_binary, gid) {
            Ok(plist) => fills_in(template, daemon_binary, gid, plist),
            Err(PlistError::NoBinaryPlaceholder) => !crate::text::has_text(
                template,
                "@WGD_BIN@"@,
            ),
            Err(PlistError::NoGroupMarker) => forall|i: int|
                0 <= i < crate::text::lines_of(template).len() ==> !crate::text::has_text(
                    #[trigger] crate::text::lines_of(template)[i],
                    "@SOCK_PATH_GROUP@"@,
                ),
            Err(PlistError::BinaryPlaceholderLeft) => exists|plist: Seq<char>| #[trigger]
                fills_in(template, daemon_binary, gid, plist) && crate::text::has_text(
                    plist,
                    "@WGD_BIN@"@,
                ),
            Err(PlistError::GroupMarkerLeft) => exists|plist: Seq<char>| #[trigger]
                fills_in(template, daemon_binary, gid, plist) && crate::text::has_text(
                    plist,
                    "@SOCK_PATH_GROUP@"@,
                ),
            Err(PlistError::NoLabel) => exists|plist: Seq<char>| #[trigger]
                fills_in(template, daemon_binary, gid, plist) && !crate::text::has_text(
                    plist,
                    "me.pansen.wgd.privileged"@,
                ),
        },
{
    let all = crate::text::lines_of(template);
    lemma_marked_line(all, SOCK_GROUP_MARKER@);
    if has_marked_line(template) {
        reveal_strlit("@SOCK_PATH_GROUP@");
        reveal_strlit("@WGD_BIN@");
        let at = marked_line(all, SOCK_GROUP_MARKER@) as int;
        let line = all[at];
        assert(line.len() > 0);
        let blank = indent(line);
        let rest = line.skip(blank.len() as int);
        let digits = crate::text::decimal(gid as nat);
        let entry = group_entry(blank, gid);
        let grouped = with_group(template, gid);
        let path = crate::launchctl::escaped(daemon_binary);
        crate::text::lemma_leading_white(line);
        crate::text::lemma_decimal_digits(gid as nat);
        crate::text::decimal_reads_back(gid as nat);
        assert(line =~= blank + rest);
        assert(gives_group(entry, line, gid)) by {
            assert(line == blank + rest);
            assert(crate::text::decimal_value(digits) == gid);
        }
        crate::text::laws::replacing_swaps_the_pattern(template, line, entry);
        crate::text::laws::replacing_swaps_the_pattern(grouped, BIN_PLACEHOLDER@, path);
        assert(first_marked(template, line)) by {
            assert(line == crate::text::lines_of(template)[at]);
        }
        assert(crate::text::laws::swaps(template, line, entry, grouped));
        assert(fills_in(template, daemon_binary, gid, filled_in(template, daemon_binary, gid)));
    }
}

} // verus!
