//! Where the daemon's binary may stand. launchd runs it as root, so neither the
//! path that was invoked nor the file behind it may be within a user's reach.

use vstd::prelude::*;

use crate::paths::{is_rooted, is_within, PathText};
use crate::text::starts_with;

verus! {

/// What is wrong with the place of a binary.
#[derive(Debug, Clone, Copy, PartialEq, Eq, Structural)]
pub enum LocationFault {
    NotAbsolute,
    UserWritable,
    InHome,
}

/// A path that the daemon must not run from.
#[derive(Debug)]
pub struct LocationError {
    pub fault: LocationFault,
    pub path: String,
}

impl LocationFault {
    /// What is wrong, in the words before the path.
    pub open spec fn before(self) -> Seq<char> {
        match self {
            LocationFault::NotAbsolute =>
                "refusing to install a launchd daemon that runs a non-absolute path ("@,
            LocationFault::UserWritable =>
                "refusing to install a launchd daemon that runs a binary from a user-writable location ("@,
            LocationFault::InHome =>
                "refusing to install a launchd daemon that runs a binary from the invoking user's home directory ("@,
        }
    }

    /// What to do about it, in the words after the path.
    pub open spec fn after(self) -> Seq<char> {
        match self {
            LocationFault::NotAbsolute =>
                "); install a build from a system location such as /usr/local/bin with root-owned parent directories"@,
            _ =>
                "); place the wgd binary in a system location such as /usr/local/bin with root-owned parent directories"@,
        }
    }
}

impl LocationError {
    /// The error in words.
    pub open spec fn text(self) -> Seq<char> {
        self.fault.before() + self.path@ + self.fault.after()
    }

    /// The error in words.
    pub fn message(&self) -> (result: String)
        ensures
            result@ == self.text(),
    {
        let before = match self.fault {
            LocationFault::NotAbsolute =>
                "refusing to install a launchd daemon that runs a non-absolute path (",
            LocationFault::UserWritable =>
                "refusing to install a launchd daemon that runs a binary from a user-writable location (",
            LocationFault::InHome =>
                "refusing to install a launchd daemon that runs a binary from the invoking user's home directory (",
        };
        let after = match self.fault {
            LocationFault::NotAbsolute =>
                "); install a build from a system location such as /usr/local/bin with root-owned parent directories",
            _ =>
                "); place the wgd binary in a system location such as /usr/local/bin with root-owned parent directories",
        };
        let mut result = before.to_string();
        result.append(self.path.as_str());
        result.append(after);
        result
    }
}

/// `path` begins with one of the directories that ordinary users control.
pub open spec fn user_controlled(path: Seq<char>) -> bool {
    ||| crate::text::begins_with(path, "/opt/homebrew/"@)
    ||| crate::text::begins_with(path, "/Users/"@)
    ||| crate::text::begins_with(path, "/tmp/"@)
    ||| crate::text::begins_with(path, "/private/tmp/"@)
    ||| crate::text::begins_with(path, "/var/folders/"@)
    ||| crate::text::begins_with(path, "/private/var/folders/"@)
    ||| crate::text::begins_with(path, "/var/tmp/"@)
    ||| crate::text::begins_with(path, "/private/var/tmp/"@)
}

/// What is wrong with `path`, if anything, where the invoking user's home is
/// `home`, if it is known. The directories that ordinary users control have texts for
/// names; a home may be anything, so it is told by its bytes.
pub open spec fn fault_of(path: PathText, home: Option<PathText>) -> Option<LocationFault> {
    if !crate::paths::rooted(path.bytes@) {
        Some(LocationFault::NotAbsolute)
    } else if user_controlled(path.text@) {
        Some(LocationFault::UserWritable)
    } else if home matches Some(home) && crate::paths::path_within(path.bytes@, home.bytes@) {
        Some(LocationFault::InHome)
    } else {
        None
    }
}

/// The first of the two paths that is at fault, and its fault.
pub open spec fn location_fault(
    invoked: PathText,
    resolved: PathText,
    home: Option<PathText>,
) -> Option<(LocationFault, Seq<char>)> {
    match fault_of(invoked, home) {
        Some(fault) => Some((fault, invoked.text@)),
        None => match fault_of(resolved, home) {
            Some(fault) => Some((fault, resolved.text@)),
            None => None,
        },
    }
}

/// The home that is known, if one is.
pub open spec fn known(home: Option<&PathText>) -> Option<PathText> {
    match home {
        Some(home) => Some(*home),
        None => None,
    }
}

/// Refuses a binary in a place that an ordinary user controls. Both the path as
/// it was invoked and the file that it resolves to have to pass.
pub fn validate_binary_location(
    invoked: &PathText,
    resolved: &PathText,
    invoking_user_home: Option<&PathText>,
) -> (result: Result<(), LocationError>)
    ensures
        match result {
            Ok(_) => location_fault(*invoked, *resolved, known(invoking_user_home)) is None,
            Err(error) => location_fault(*invoked, *resolved, known(invoking_user_home)) == Some(
                (error.fault, error.path@),
            ),
        },
{
    match validate_one(invoked, invoking_user_home) {
        Ok(_) => validate_one(resolved, invoking_user_home),
        Err(error) => Err(error),
    }
}

fn is_user_controlled(path: &str) -> (result: bool)
    ensures
        result == user_controlled(path@),
{
    starts_with(path, "/opt/homebrew/") || starts_with(path, "/Users/") || starts_with(path, "/tmp/")
        || starts_with(path, "/private/tmp/") || starts_with(path, "/var/folders/") || starts_with(
        path,
        "/private/var/folders/",
    ) || starts_with(path, "/var/tmp/") || starts_with(path, "/private/var/tmp/")
}

/// Refuses one path that an ordinary user controls.
pub fn validate_one(path: &PathText, invoking_user_home: Option<&PathText>) -> (result: Result<
    (),
    LocationError,
>)
    ensures
        match result {
            Ok(_) => fault_of(*path, known(invoking_user_home)) is None,
            Err(error) => error.path == path.text && fault_of(*path, known(invoking_user_home))
                == Some(error.fault),
        },
{
    if !is_rooted(path.bytes.as_slice()) {
        return Err(LocationError { fault: LocationFault::NotAbsolute, path: path.text.clone() });
    }
    if is_user_controlled(path.text.as_str()) {
        return Err(LocationError { fault: LocationFault::UserWritable, path: path.text.clone() });
    }
    if let Some(home) = invoking_user_home {
        if is_within(path.bytes.as_slice(), home.bytes.as_slice()) {
            return Err(LocationError { fault: LocationFault::InHome, path: path.text.clone() });
        }
    }
    Ok(())
}

/// The directories that ordinary users can write to.
pub open spec fn open_directories() -> Seq<Seq<char>> {
    seq![
        "/opt/homebrew/"@,
        "/Users/"@,
        "/tmp/"@,
        "/private/tmp/"@,
        "/var/folders/"@,
        "/private/var/folders/"@,
        "/var/tmp/"@,
        "/private/var/tmp/"@,
    ]
}

/// The path begins at the root and stands in none of the directories that ordinary
/// users can write to, nor in the home, if one is known.
pub open spec fn out_of_reach(path: PathText, home: Option<PathText>) -> bool {
    &&& path.bytes@.len() > 0 && path.bytes@[0] == 47
    &&& forall|i: int|
        0 <= i < open_directories().len() ==> !crate::text::begins_with(
            path.text@,
            #[trigger] open_directories()[i],
        )
    &&& home is Some ==> !crate::paths::path_within(path.bytes@, home->0.bytes@)
}

proof fn lemma_open_directories(path: Seq<char>)
    ensures
        user_controlled(path) <==> exists|i: int|
            0 <= i < open_directories().len() && crate::text::begins_with(
                path,
                #[trigger] open_directories()[i],
            ),
{
    let all = open_directories();
    assert(all[0] == "/opt/homebrew/"@);
    assert(all[1] == "/Users/"@);
    assert(all[2] == "/tmp/"@);
    assert(all[3] == "/private/tmp/"@);
    assert(all[4] == "/var/folders/"@);
    assert(all[5] == "/private/var/folders/"@);
    assert(all[6] == "/var/tmp/"@);
    assert(all[7] == "/private/var/tmp/"@);
}

/// A binary is accepted exactly where both the path that was invoked and the file
/// behind it are out of reach; otherwise the first of them that is not is named.
pub proof fn accepted_binaries_are_out_of_reach(
    invoked: PathText,
    resolved: PathText,
    home: Option<PathText>,
)
    ensures
        match location_fault(invoked, resolved, home) {
            None => out_of_reach(invoked, home) && out_of_reach(resolved, home),
            Some((fault, path)) => if out_of_reach(invoked, home) {
                !out_of_reach(resolved, home) && path == resolved.text@ && faulty(
                    resolved,
                    home,
                    fault,
                )
            } else {
                path == invoked.text@ && faulty(invoked, home, fault)
            },
        },
{
    lemma_open_directories(invoked.text@);
    lemma_open_directories(resolved.text@);
}

/// The path is at fault in this way.
pub open spec fn faulty(path: PathText, home: Option<PathText>, fault: LocationFault) -> bool {
    match fault {
        LocationFault::NotAbsolute => !(path.bytes@.len() > 0 && path.bytes@[0] == 47),
        LocationFault::UserWritable => exists|i: int|
            0 <= i < open_directories().len() && crate::text::begins_with(
                path.text@,
                #[trigger] open_directories()[i],
            ),
        LocationFault::InHome => home is Some && crate::paths::path_within(
            path.bytes@,
            home->0.bytes@,
        ),
    }
}

} // verus!
