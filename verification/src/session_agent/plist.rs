//! The launchd plist of the session agent.

use vstd::prelude::*;

use crate::launchctl::xml_escape;
use crate::text::{contains, replace};

verus! {

/// The name under which launchd knows the agent.
pub const LABEL: &'static str = "me.pansen.wgd.session-agent";

/// What the binary's path replaces in the template.
pub const BIN_PLACEHOLDER: &'static str = "@WGD_BIN@";

/// What the user's home directory replaces in the template.
pub const HOME_PLACEHOLDER: &'static str = "@WGD_HOME@";

/// The template of the agent's plist.
pub const PLIST_TEMPLATE: &'static str = "<?xml version=\"1.0\" encoding=\"UTF-8\"?>
<!DOCTYPE plist PUBLIC \"-//Apple//DTD PLIST 1.0//EN\" \"http://www.apple.com/DTDs/PropertyList-1.0.dtd\">
<plist version=\"1.0\">
<dict>
    <key>Label</key>
    <string>me.pansen.wgd.session-agent</string>
    <key>ProgramArguments</key>
    <array>
        <string>@WGD_BIN@</string>
        <string>launchd</string>
        <string>agent</string>
        <string>run</string>
    </array>
    <key>RunAtLoad</key>
    <true/>
    <key>KeepAlive</key>
    <true/>
    <key>LimitLoadToSessionType</key>
    <string>Aqua</string>
    <key>StandardOutPath</key>
    <string>@WGD_HOME@/Library/Logs/wgd-session-agent.out.log</string>
    <key>StandardErrorPath</key>
    <string>@WGD_HOME@/Library/Logs/wgd-session-agent.err.log</string>
</dict>
</plist>
";

/// Why a template cannot be used.
#[derive(Debug, Clone, Copy, PartialEq, Eq, Structural)]
pub enum AgentPlistError {
    NoBinaryPlaceholder,
    NoHomePlaceholder,
    BinaryPlaceholderLeft,
    HomePlaceholderLeft,
    NoLabel,
}

impl AgentPlistError {
    /// The error in words.
    pub open spec fn text(self) -> Seq<char> {
        match self {
            AgentPlistError::NoBinaryPlaceholder =>
                "plist template is missing the @WGD_BIN@ placeholder"@,
            AgentPlistError::NoHomePlaceholder =>
                "plist template is missing the @WGD_HOME@ placeholder"@,
            AgentPlistError::BinaryPlaceholderLeft => "rendered plist still contains @WGD_BIN@"@,
            AgentPlistError::HomePlaceholderLeft => "rendered plist still contains @WGD_HOME@"@,
            AgentPlistError::NoLabel =>
                "rendered plist is missing the expected launchd Label `me.pansen.wgd.session-agent` (custom template?)"@,
        }
    }

    /// The error in words.
    pub fn message(&self) -> (result: String)
        ensures
            result@ == self.text(),
    {
        match self {
            AgentPlistError::NoBinaryPlaceholder =>
                "plist template is missing the @WGD_BIN@ placeholder".to_string(),
            AgentPlistError::NoHomePlaceholder =>
                "plist template is missing the @WGD_HOME@ placeholder".to_string(),
            AgentPlistError::BinaryPlaceholderLeft =>
                "rendered plist still contains @WGD_BIN@".to_string(),
            AgentPlistError::HomePlaceholderLeft =>
                "rendered plist still contains @WGD_HOME@".to_string(),
            AgentPlistError::NoLabel =>
                "rendered plist is missing the expected launchd Label `me.pansen.wgd.session-agent` (custom template?)".to_string(),
        }
    }
}

/// `template` with the binary's path in its place.
pub open spec fn with_binary(template: Seq<char>, bin: Seq<char>) -> Seq<char> {
    crate::text::replaced(template, BIN_PLACEHOLDER@, crate::launchctl::escaped(bin))
}

/// `template` with the binary's path and the home directory in their places.
pub open spec fn filled_in(template: Seq<char>, bin: Seq<char>, home: Seq<char>) -> Seq<char> {
    crate::text::replaced(
        with_binary(template, bin),
        HOME_PLACEHOLDER@,
        crate::launchctl::escaped(home),
    )
}

/// The plist that a template yields, or why it yields none. A template without
/// the two places to fill in is refused; and so is an outcome in which one of
/// them is still there, or which does not carry the agent's label.
pub open spec fn rendering(template: Seq<char>, bin: Seq<char>, home: Seq<char>) -> Result<
    Seq<char>,
    AgentPlistError,
> {
    let plist = filled_in(template, bin, home);
    if !crate::text::has_text(template, BIN_PLACEHOLDER@) {
        Err(AgentPlistError::NoBinaryPlaceholder)
    } else if !crate::text::has_text(template, HOME_PLACEHOLDER@) {
        Err(AgentPlistError::NoHomePlaceholder)
    } else if crate::text::has_text(plist, BIN_PLACEHOLDER@) {
        Err(AgentPlistError::BinaryPlaceholderLeft)
    } else if crate::text::has_text(plist, HOME_PLACEHOLDER@) {
        Err(AgentPlistError::HomePlaceholderLeft)
    } else if !crate::text::has_text(plist, LABEL@) {
        Err(AgentPlistError::NoLabel)
    } else {
        Ok(plist)
    }
}

/// Renders the agent's plist: `template` with the path of the binary and the
/// user's home directory.
pub fn render_plist(template: &str, bin: &str, home: &str) -> (result: Result<
    String,
    AgentPlistError,
>)
    ensures
        match result {
            Ok(plist) => rendering(template@, bin@, home@) == Ok::<Seq<char>, AgentPlistError>(
                plist@,
            ),
            Err(error) => rendering(template@, bin@, home@) == Err::<Seq<char>, AgentPlistError>(
                error,
            ),
        },
{
    if !contains(template, BIN_PLACEHOLDER) {
        return Err(AgentPlistError::NoBinaryPlaceholder);
    }
    if !contains(template, HOME_PLACEHOLDER) {
        return Err(AgentPlistError::NoHomePlaceholder);
    }
    proof {
        reveal_strlit("@WGD_BIN@");
        reveal_strlit("@WGD_HOME@");
    }
    let rendered = replace(
        replace(template, BIN_PLACEHOLDER, xml_escape(bin).as_str()).as_str(),
        HOME_PLACEHOLDER,
        xml_escape(home).as_str(),
    );
    if contains(rendered.as_str(), BIN_PLACEHOLDER) {
        return Err(AgentPlistError::BinaryPlaceholderLeft);
    }
    if contains(rendered.as_str(), HOME_PLACEHOLDER) {
        return Err(AgentPlistError::HomePlaceholderLeft);
    }
    if !contains(rendered.as_str(), LABEL) {
        return Err(AgentPlistError::NoLabel);
    }
    Ok(rendered)
}

/// Rendering fails closed: whatever the template, a plist that comes out of it
/// holds neither of the two places to fill in, and carries the agent's label.
pub proof fn rendering_fails_closed(
    template: Seq<char>,
    bin: Seq<char>,
    home: Seq<char>,
    plist: Seq<char>,
)
    requires
        rendering(template, bin, home) == Ok::<Seq<char>, AgentPlistError>(plist),
    ensures
        !crate::text::has_text(plist, BIN_PLACEHOLDER@),
        !crate::text::has_text(plist, HOME_PLACEHOLDER@),
        crate::text::has_text(plist, LABEL@),
{
}

/// A rendered plist names the user's home directory, where the place for it
/// survives the filling in of the binary's path.
pub proof fn rendered_plist_names_the_home(
    template: Seq<char>,
    bin: Seq<char>,
    home: Seq<char>,
    plist: Seq<char>,
)
    requires
        rendering(template, bin, home) == Ok::<Seq<char>, AgentPlistError>(plist),
        crate::text::has_text(with_binary(template, bin), HOME_PLACEHOLDER@),
    ensures
        crate::text::has_text(plist, crate::launchctl::escaped(home)),
{
    reveal_strlit("@WGD_HOME@");
    crate::text::lemma_replaced_has_replacement(
        with_binary(template, bin),
        HOME_PLACEHOLDER@,
        crate::launchctl::escaped(home),
    );
}

/// A rendered plist names the binary, where its path is as long as the place for
/// the home directory at least and holds no at sign, as paths of binaries do.
pub proof fn rendered_plist_names_the_binary(
    template: Seq<char>,
    bin: Seq<char>,
    home: Seq<char>,
    plist: Seq<char>,
)
    requires
        rendering(template, bin, home) == Ok::<Seq<char>, AgentPlistError>(plist),
        crate::launchctl::escaped(bin).len() >= HOME_PLACEHOLDER@.len(),
        !crate::launchctl::escaped(bin).contains('@'),
    ensures
        crate::text::has_text(plist, crate::launchctl::escaped(bin)),
{
    reveal_strlit("@WGD_BIN@");
    reveal_strlit("@WGD_HOME@");
    crate::text::lemma_replaced_has_replacement(
        template,
        BIN_PLACEHOLDER@,
        crate::launchctl::escaped(bin),
    );
    crate::text::lemma_replaced_keeps_passage(
        with_binary(template, bin),
        HOME_PLACEHOLDER@,
        crate::launchctl::escaped(home),
        crate::launchctl::escaped(bin),
    );
}

/// `plist` is the template with the places for the binary swapped for its path, and
/// then the places for the home directory swapped for its path; nothing else is
/// changed.
pub open spec fn fills_in(
    template: Seq<char>,
    bin: Seq<char>,
    home: Seq<char>,
    plist: Seq<char>,
) -> bool {
    exists|named: Seq<char>| #[trigger]
        crate::text::laws::swaps(template, "@WGD_BIN@"@, crate::launchctl::escaped(bin), named)
            && crate::text::laws::swaps(
            named,
            "@WGD_HOME@"@,
            crate::launchctl::escaped(home),
            plist,
        )
}

/// Rendering fills the template in and does nothing else to it. It is refused exactly
/// where a place to fill in is missing, or where one is left or the label is missing
/// once all is filled in.
pub proof fn rendering_fills_the_template_in(
    template: Seq<char>,
    bin: Seq<char>,
    home: Seq<char>,
)
    ensures
        match rendering(template, bin, home) {
            Ok(plist) => fills_in(template, bin, home, plist),
            Err(AgentPlistError::NoBinaryPlaceholder) => !crate::text::has_text(
                template,
                "@WGD_BIN@"@,
            ),
            Err(AgentPlistError::NoHomePlaceholder) => !crate::text::has_text(
                template,
                "@WGD_HOME@"@,
            ),
            Err(AgentPlistError::BinaryPlaceholderLeft) => exists|plist: Seq<char>| #[trigger]
                fills_in(template, bin, home, plist) && crate::text::has_text(plist, "@WGD_BIN@"@),
            Err(AgentPlistError::HomePlaceholderLeft) => exists|plist: Seq<char>| #[trigger]
                fills_in(template, bin, home, plist) && crate::text::has_text(
                    plist,
                    "@WGD_HOME@"@,
                ),
            Err(AgentPlistError::NoLabel) => exists|plist: Seq<char>| #[trigger]
                fills_in(template, bin, home, plist) && !crate::text::has_text(
                    plist,
                    "me.pansen.wgd.session-agent"@,
                ),
        },
{
    reveal_strlit("@WGD_BIN@");
    reveal_strlit("@WGD_HOME@");
    let named = with_binary(template, bin);
    crate::text::laws::replacing_swaps_the_pattern(
        template,
        BIN_PLACEHOLDER@,
        crate::launchctl::escaped(bin),
    );
    crate::text::laws::replacing_swaps_the_pattern(
        named,
        HOME_PLACEHOLDER@,
        crate::launchctl::escaped(home),
    );
    assert(fills_in(template, bin, home, filled_in(template, bin, home)));
}

} // verus!
