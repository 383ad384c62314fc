//! That what is printed of a connection is what is so of it.

use vstd::prelude::*;

use crate::connection_cli::steps;
use crate::connection_cli::steps::CliReport;
use crate::privileged_api::{ConnectionStartMode, ConnectionSummary, PeerSummary};
use crate::text;

verus! {

/// `cell` is `shown`, with as many spaces behind it as bring it to the width.
pub open spec fn column(cell: Seq<char>, shown: Seq<char>, width: nat) -> bool {
    &&& cell.len() == (if shown.len() < width {
        width
    } else {
        shown.len()
    })
    &&& forall|i: int|
        0 <= i < cell.len() ==> #[trigger] cell[i] == (if i < shown.len() {
            shown[i]
        } else {
            ' '
        })
}

/// `shown` writes the number, or is a dash where there is none.
pub open spec fn number_shown(shown: Seq<char>, number: Option<nat>) -> bool {
    match number {
        Some(number) => shown.len() > 0 && text::all_digits(shown) && text::decimal_value(shown)
            == number,
        None => shown == "-"@,
    }
}

/// `shown` is the text, or a dash where there is none.
pub open spec fn text_shown(shown: Seq<char>, given: Option<String>) -> bool {
    match given {
        Some(given) => shown == given@,
        None => shown == "-"@,
    }
}

/// `shown` says whether something is so.
pub open spec fn flag_shown(shown: Seq<char>, flag: bool) -> bool {
    if flag {
        shown == "true"@
    } else {
        shown == "false"@
    }
}

/// `shown` says which start mode it is.
pub open spec fn mode_shown(shown: Seq<char>, mode: ConnectionStartMode) -> bool {
    match mode {
        ConnectionStartMode::Manual => shown == "Manual"@,
        ConnectionStartMode::Automatic => shown == "Automatic"@,
    }
}

/// The owner's number, if there is one.
pub open spec fn owner_of(conn: ConnectionSummary) -> Option<nat> {
    match conn.owner_uid {
        Some(uid) => Some(uid as nat),
        None => None,
    }
}

/// The MTU, if there is one.
pub open spec fn mtu_of(conn: ConnectionSummary) -> Option<nat> {
    match conn.mtu {
        Some(mtu) => Some(mtu as nat),
        None => None,
    }
}

proof fn lemma_number(number: nat)
    ensures
        number_shown(text::decimal(number), Some(number)),
{
    text::lemma_decimal_digits(number);
    text::decimal_reads_back(number);
}

/// The line shows the connection: its id, its name, whether it is global, its owner, its
/// start mode, whether it is up, and its interface.
pub open spec fn line_shows(line: Seq<char>, conn: ConnectionSummary) -> bool {
    exists|
        name: Seq<char>,
        global: Seq<char>,
        owner: Seq<char>,
        mode: Seq<char>,
        connected: Seq<char>,
        number: Seq<char>,
        kind: Seq<char>,
    |
        {
            &&& line == #[trigger] (conn.id.text@ + "  "@ + name + "  global="@ + global
                + "  owner="@ + owner + "  mode="@ + mode + "  connected="@ + connected
                + "  interface="@ + conn.interface@)
            &&& column(
                name,
                if conn.name is Some {
                    conn.name->0@
                } else {
                    "-"@
                },
                20,
            )
            &&& column(
                global,
                if conn.global {
                    "true"@
                } else {
                    "false"@
                },
                5,
            )
            &&& number_shown(number, owner_of(conn))
            &&& #[trigger] column(owner, number, 6)
            &&& mode_shown(kind, conn.start_mode)
            &&& #[trigger] column(mode, kind, 9)
            &&& column(
                connected,
                if conn.connected {
                    "true"@
                } else {
                    "false"@
                },
                5,
            )
        }
}

proof fn lemma_column(shown: Seq<char>, width: nat)
    ensures
        column(text::padded(shown, width), shown, width),
{
}

/// A list has a line for each connection, in their order, which shows it; and an empty
/// list says that there are none.
pub proof fn lists_show_each_connection(list: Vec<ConnectionSummary>, i: int)
    ensures
        list@.len() == 0 ==> steps::report_lines(CliReport::Listed(list)) == seq![
            "No stored connections."@,
        ],
        list@.len() > 0 ==> steps::report_lines(CliReport::Listed(list)).len() == list@.len(),
        0 <= i < list@.len() ==> line_shows(
            steps::report_lines(CliReport::Listed(list))[i],
            list@[i],
        ),
{
    if 0 <= i < list@.len() {
        let conn = list@[i];
        let line = steps::report_lines(CliReport::Listed(list))[i];
        let name = text::padded(steps::or_dash(conn.name), 20);
        let global = text::padded(steps::flag_text(conn.global), 5);
        let number = steps::owner_text(conn.owner_uid);
        let owner = text::padded(number, 6);
        let kind = steps::mode_text(conn.start_mode);
        let mode = text::padded(kind, 9);
        let connected = text::padded(steps::flag_text(conn.connected), 5);
        if let Some(uid) = conn.owner_uid {
            lemma_number(uid as nat);
        }
        lemma_column(steps::or_dash(conn.name), 20);
        lemma_column(steps::flag_text(conn.global), 5);
        lemma_column(number, 6);
        lemma_column(kind, 9);
        lemma_column(steps::flag_text(conn.connected), 5);
        assert(line == conn.id.text@ + "  "@ + name + "  global="@ + global + "  owner="@ + owner
            + "  mode="@ + mode + "  connected="@ + connected + "  interface="@ + conn.interface@);
        assert(column(owner, number, 6));
        assert(column(mode, kind, 9));
        assert(line_shows(line, conn));
    }
}

/// `line` is `label` and then something that is shown of the connection.
pub open spec fn labelled(line: Seq<char>, label: Seq<char>, shown: Seq<char>) -> bool {
    line == label + shown
}

/// The line is labelled, and shows the text.
pub open spec fn text_line(line: Seq<char>, label: Seq<char>, given: Option<String>) -> bool {
    exists|shown: Seq<char>| #[trigger] labelled(line, label, shown) && text_shown(shown, given)
}

/// The line is labelled, and says whether something is so.
pub open spec fn flag_line(line: Seq<char>, label: Seq<char>, flag: bool) -> bool {
    exists|shown: Seq<char>| #[trigger] labelled(line, label, shown) && flag_shown(shown, flag)
}

/// The line is labelled, and writes the number.
pub open spec fn number_line(line: Seq<char>, label: Seq<char>, number: Option<nat>) -> bool {
    exists|shown: Seq<char>| #[trigger] labelled(line, label, shown) && number_shown(shown, number)
}

/// The line is labelled, and says which start mode it is.
pub open spec fn mode_line(line: Seq<char>, label: Seq<char>, mode: ConnectionStartMode) -> bool {
    exists|shown: Seq<char>| #[trigger] labelled(line, label, shown) && mode_shown(shown, mode)
}

/// The line shows the peer: its key, its addresses, its endpoint, and whether it has a
/// preshared key.
pub open spec fn peer_shown(line: Seq<char>, peer: PeerSummary) -> bool {
    exists|endpoint: Seq<char>, keyed: Seq<char>|
        {
            &&& line == #[trigger] ("  "@ + peer.public_key@ + "  allowed_ips=["@
                + text::laws::spliced(text::strings_of(peer.allowed_ips@), ", "@) + "]  endpoint="@
                + endpoint + "  has_preshared_key="@ + keyed)
            &&& text_shown(endpoint, peer.endpoint)
            &&& flag_shown(keyed, peer.has_preshared_key)
        }
}

/// A connection is shown line by line: what it is, its fingerprint where that is known,
/// each of its peers in their order, and when it was created and changed.
pub proof fn connections_are_shown_in_full(conn: ConnectionSummary, i: int)
    ensures
        ({
            let lines = steps::report_lines(CliReport::Shown(conn));
            let more: int = if conn.fingerprint is Some {
                1
            } else {
                0
            };
            let peers = conn.peers@.len() as int;
            &&& lines.len() == 13 + more + peers
            &&& lines[0] == "id:          "@ + conn.id.text@
            &&& text_line(lines[1], "name:        "@, conn.name)
            &&& flag_line(lines[2], "global:      "@, conn.global)
            &&& number_line(lines[3], "owner_uid:   "@, owner_of(conn))
            &&& mode_line(lines[4], "start_mode:  "@, conn.start_mode)
            &&& lines[5] == "interface:   "@ + conn.interface@
            &&& flag_line(lines[6], "connected:   "@, conn.connected)
            &&& lines[7] == "addresses:   "@ + text::laws::spliced(
                text::strings_of(conn.addresses@),
                ", "@,
            )
            &&& lines[8] == "dns_servers: "@ + text::laws::spliced(
                text::strings_of(conn.dns_servers@),
                ", "@,
            )
            &&& number_line(lines[9], "mtu:         "@, mtu_of(conn))
            &&& conn.fingerprint is Some ==> lines[10] == "fingerprint: "@ + conn.fingerprint->0@
            &&& lines[10 + more] == "peers:"@
            &&& 0 <= i < peers ==> peer_shown(lines[11 + more + i], conn.peers@[i])
            &&& number_line(
                lines[11 + more + peers],
                "created_at:  "@,
                Some(conn.created_at as nat),
            )
            &&& number_line(
                lines[12 + more + peers],
                "updated_at:  "@,
                Some(conn.updated_at as nat),
            )
        }),
{
    let lines = steps::report_lines(CliReport::Shown(conn));
    let more: int = if conn.fingerprint is Some {
        1
    } else {
        0
    };
    let peers = conn.peers@.len() as int;
    if let Some(uid) = conn.owner_uid {
        lemma_number(uid as nat);
    }
    if let Some(mtu) = conn.mtu {
        lemma_number(mtu as nat);
    }
    lemma_number(conn.created_at as nat);
    lemma_number(conn.updated_at as nat);
    text::laws::joining_puts_the_separator_between(text::strings_of(conn.addresses@), ", "@);
    text::laws::joining_puts_the_separator_between(text::strings_of(conn.dns_servers@), ", "@);
    assert(labelled(lines[1], "name:        "@, steps::or_dash(conn.name)));
    assert(labelled(lines[2], "global:      "@, steps::flag_text(conn.global)));
    assert(labelled(lines[3], "owner_uid:   "@, steps::owner_text(conn.owner_uid)));
    assert(labelled(lines[4], "start_mode:  "@, steps::mode_text(conn.start_mode)));
    assert(labelled(lines[6], "connected:   "@, steps::flag_text(conn.connected)));
    assert(labelled(lines[9], "mtu:         "@, steps::mtu_text(conn.mtu)));
    assert(labelled(
        lines[11 + more + peers],
        "created_at:  "@,
        text::decimal(conn.created_at as nat),
    ));
    assert(labelled(
        lines[12 + more + peers],
        "updated_at:  "@,
        text::decimal(conn.updated_at as nat),
    ));
    if 0 <= i < peers {
        let peer = conn.peers@[i];
        text::laws::joining_puts_the_separator_between(text::strings_of(peer.allowed_ips@), ", "@);
        assert(lines[11 + more + i] == steps::peer_line(peer));
        assert(peer_shown(steps::peer_line(peer), peer)) by {
            let endpoint = steps::or_dash(peer.endpoint);
            let keyed = steps::flag_text(peer.has_preshared_key);
            assert(steps::peer_line(peer) == "  "@ + peer.public_key@ + "  allowed_ips=["@
                + text::laws::spliced(text::strings_of(peer.allowed_ips@), ", "@) + "]  endpoint="@
                + endpoint + "  has_preshared_key="@ + keyed);
        }
    }
}

} // verus!
