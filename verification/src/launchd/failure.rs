//! Why a command on the daemon did not go through.

use vstd::prelude::*;

use crate::launchd::location::LocationError;
use crate::launchd::plist::PlistError;
use crate::text::{prefixed, trim};

verus! {

/// Why a command on the daemon did not go through. `cause` is what the operating
/// system or a program said.
#[derive(Debug)]
pub enum LaunchdError {
    NeedsRoot { hint: String },
    NoInvokingUser,
    ExeUnknown { cause: String },
    Unresolved { path: String, cause: String },
    Location(LocationError),
    Untrusted { cause: String },
    NotUtf8 { path: String },
    TemplateUnreadable { path: String, cause: String },
    Plist(PlistError),
    GroupToolFailed { cause: String },
    MembershipUnknown { cause: String },
    ProgramFailed { cause: String },
    GroupMissing,
    CreateFailed { path: String, cause: String },
    ChmodFailed { path: String, cause: String },
    ChownFailed { path: String, cause: String },
    RightNeedsRoot,
    RightToolFailed { cause: String },
    RightToolLost { cause: String },
    RightRefused { status: String, stderr: String },
    RightUnwritten { cause: String },
    DraftUnwritten { cause: String },
    DraftChmodFailed { cause: String },
    DraftChownFailed { cause: String },
    DraftNotInstalled { cause: String },
    DaemonMissing { cause: String },
    RemoveFailed { cause: String },
}

impl LaunchdError {
    /// The error in words.
    pub open spec fn text(self) -> Seq<char> {
        match self {
            LaunchdError::NeedsRoot { hint } =>
                "this command must run as root; try: sudo wgd launchd "@ + hint@,
            LaunchdError::NoInvokingUser =>
                "could not determine the invoking user (SUDO_USER is unset); run this via `sudo wgd launchd install` from your normal account, or add yourself to the wgd group manually with: sudo dseditgroup -o edit -a <user> -t user wgd"@,
            LaunchdError::ExeUnknown { cause: _ } =>
                "failed to determine the running wgd binary path"@,
            LaunchdError::Unresolved { path, cause: _ } => "failed to resolve "@ + path@,
            LaunchdError::Location(error) => error.text(),
            LaunchdError::Untrusted { cause } => cause@,
            LaunchdError::NotUtf8 { path } => "wgd binary path is not valid UTF-8: "@ + path@,
            LaunchdError::TemplateUnreadable { path, cause: _ } => "failed to read plist template "@
                + path@,
            LaunchdError::Plist(error) => error.text(),
            LaunchdError::GroupToolFailed { cause: _ } => "failed to run /usr/sbin/dseditgroup"@,
            LaunchdError::MembershipUnknown { cause: _ } => "failed to check wgd group membership"@,
            LaunchdError::ProgramFailed { cause } => cause@,
            LaunchdError::GroupMissing => "group wgd not found after creation"@,
            LaunchdError::CreateFailed { path, cause: _ } => "failed to create "@ + path@,
            LaunchdError::ChmodFailed { path, cause: _ } => "failed to chmod "@ + path@,
            LaunchdError::ChownFailed { path, cause: _ } => "failed to chown "@ + path@,
            LaunchdError::RightNeedsRoot =>
                "registering the wgd authorization rule requires root; start the privileged service via launchd or sudo"@,
            LaunchdError::RightToolFailed { cause: _ } =>
                "failed to run security authorizationdb write"@,
            LaunchdError::RightToolLost { cause: _ } =>
                "failed to wait for security authorizationdb write"@,
            LaunchdError::RightRefused { status, stderr } =>
                "failed to register the me.pansen.wgd.modify-connection authorization right ("@
                + status@ + "): "@ + crate::text::trimmed(stderr@),
            LaunchdError::RightUnwritten { cause: _ } =>
                "failed to write the wgd authorization rule"@,
            LaunchdError::DraftUnwritten { cause: _ } =>
                "failed to write /Library/LaunchDaemons/me.pansen.wgd.privileged.plist.tmp"@,
            LaunchdError::DraftChmodFailed { cause: _ } =>
                "failed to chmod /Library/LaunchDaemons/me.pansen.wgd.privileged.plist.tmp"@,
            LaunchdError::DraftChownFailed { cause: _ } =>
                "failed to chown /Library/LaunchDaemons/me.pansen.wgd.privileged.plist.tmp"@,
            LaunchdError::DraftNotInstalled { cause: _ } =>
                "failed to install /Library/LaunchDaemons/me.pansen.wgd.privileged.plist"@,
            LaunchdError::DaemonMissing { cause: _ } =>
                "daemon not installed? run: sudo wgd launchd install"@,
            LaunchdError::RemoveFailed { cause } => cause@,
        }
    }

    /// The error in words.
    pub fn message(&self) -> (result: String)
        ensures
            result@ == self.text(),
    {
        match self {
            LaunchdError::NeedsRoot { hint } => prefixed(
                "this command must run as root; try: sudo wgd launchd ",
                hint.as_str(),
            ),
            LaunchdError::NoInvokingUser =>
                "could not determine the invoking user (SUDO_USER is unset); run this via `sudo wgd launchd install` from your normal account, or add yourself to the wgd group manually with: sudo dseditgroup -o edit -a <user> -t user wgd".to_string(),
            LaunchdError::ExeUnknown { cause: _ } =>
                "failed to determine the running wgd binary path".to_string(),
            LaunchdError::Unresolved { path, cause: _ } => prefixed(
                "failed to resolve ",
                path.as_str(),
            ),
            LaunchdError::Location(error) => error.message(),
            LaunchdError::Untrusted { cause } => cause.clone(),
            LaunchdError::NotUtf8 { path } => prefixed(
                "wgd binary path is not valid UTF-8: ",
                path.as_str(),
            ),
            LaunchdError::TemplateUnreadable { path, cause: _ } => prefixed(
                "failed to read plist template ",
                path.as_str(),
            ),
            LaunchdError::Plist(error) => error.message(),
            LaunchdError::GroupToolFailed { cause: _ } =>
                "failed to run /usr/sbin/dseditgroup".to_string(),
            LaunchdError::MembershipUnknown { cause: _ } =>
                "failed to check wgd group membership".to_string(),
            LaunchdError::ProgramFailed { cause } => cause.clone(),
            LaunchdError::GroupMissing => "group wgd not found after creation".to_string(),
            LaunchdError::CreateFailed { path, cause: _ } => prefixed(
                "failed to create ",
                path.as_str(),
            ),
            LaunchdError::ChmodFailed { path, cause: _ } => prefixed(
                "failed to chmod ",
                path.as_str(),
            ),
            LaunchdError::ChownFailed { path, cause: _ } => prefixed(
                "failed to chown ",
                path.as_str(),
            ),
            LaunchdError::RightNeedsRoot =>
                "registering the wgd authorization rule requires root; start the privileged service via launchd or sudo".to_string(),
            LaunchdError::RightToolFailed { cause: _ } =>
                "failed to run security authorizationdb write".to_string(),
            LaunchdError::RightToolLost { cause: _ } =>
                "failed to wait for security authorizationdb write".to_string(),
            LaunchdError::RightRefused { status, stderr } => {
                let mut result = prefixed(
                    "failed to register the me.pansen.wgd.modify-connection authorization right (",
                    status.as_str(),
                );
                result.append("): ");
                result.append(trim(stderr.as_str()));
                result
            },
            LaunchdError::RightUnwritten { cause: _ } =>
                "failed to write the wgd authorization rule".to_string(),
            LaunchdError::DraftUnwritten { cause: _ } =>
                "failed to write /Library/LaunchDaemons/me.pansen.wgd.privileged.plist.tmp".to_string(),
            LaunchdError::DraftChmodFailed { cause: _ } =>
                "failed to chmod /Library/LaunchDaemons/me.pansen.wgd.privileged.plist.tmp".to_string(),
            LaunchdError::DraftChownFailed { cause: _ } =>
                "failed to chown /Library/LaunchDaemons/me.pansen.wgd.privileged.plist.tmp".to_string(),
            LaunchdError::DraftNotInstalled { cause: _ } =>
                "failed to install /Library/LaunchDaemons/me.pansen.wgd.privileged.plist".to_string(),
            LaunchdError::DaemonMissing { cause: _ } =>
                "daemon not installed? run: sudo wgd launchd install".to_string(),
            LaunchdError::RemoveFailed { cause } => cause.clone(),
        }
    }

    /// What lies behind the error, where the error does not say it itself.
    pub open spec fn behind(self) -> Option<String> {
        match self {
            LaunchdError::ExeUnknown { cause } => Some(cause),
            LaunchdError::Unresolved { path: _, cause } => Some(cause),
            LaunchdError::TemplateUnreadable { path: _, cause } => Some(cause),
            LaunchdError::GroupToolFailed { cause } => Some(cause),
            LaunchdError::MembershipUnknown { cause } => Some(cause),
            LaunchdError::CreateFailed { path: _, cause } => Some(cause),
            LaunchdError::ChmodFailed { path: _, cause } => Some(cause),
            LaunchdError::ChownFailed { path: _, cause } => Some(cause),
            LaunchdError::RightToolFailed { cause } => Some(cause),
            LaunchdError::RightToolLost { cause } => Some(cause),
            LaunchdError::RightUnwritten { cause } => Some(cause),
            LaunchdError::DraftUnwritten { cause } => Some(cause),
            LaunchdError::DraftChmodFailed { cause } => Some(cause),
            LaunchdError::DraftChownFailed { cause } => Some(cause),
            LaunchdError::DraftNotInstalled { cause } => Some(cause),
            LaunchdError::DaemonMissing { cause } => Some(cause),
            _ => None,
        }
    }

    /// What lies behind the error, where the error does not say it itself.
    pub fn cause(&self) -> (result: Option<String>)
        ensures
            result == self.behind(),
    {
        match self {
            LaunchdError::ExeUnknown { cause } => Some(cause.clone()),
            LaunchdError::Unresolved { path: _, cause } => Some(cause.clone()),
            LaunchdError::TemplateUnreadable { path: _, cause } => Some(cause.clone()),
            LaunchdError::GroupToolFailed { cause } => Some(cause.clone()),
            LaunchdError::MembershipUnknown { cause } => Some(cause.clone()),
            LaunchdError::CreateFailed { path: _, cause } => Some(cause.clone()),
            LaunchdError::ChmodFailed { path: _, cause } => Some(cause.clone()),
            LaunchdError::ChownFailed { path: _, cause } => Some(cause.clone()),
            LaunchdError::RightToolFailed { cause } => Some(cause.clone()),
            LaunchdError::RightToolLost { cause } => Some(cause.clone()),
            LaunchdError::RightUnwritten { cause } => Some(cause.clone()),
            LaunchdError::DraftUnwritten { cause } => Some(cause.clone()),
            LaunchdError::DraftChmodFailed { cause } => Some(cause.clone()),
            LaunchdError::DraftChownFailed { cause } => Some(cause.clone()),
            LaunchdError::DraftNotInstalled { cause } => Some(cause.clone()),
            LaunchdError::DaemonMissing { cause } => Some(cause.clone()),
            _ => None,
        }
    }
}

/// What the operating system or a program said to cause the error.
pub open spec fn told_cause(error: LaunchdError) -> Option<String> {
    match error {
        LaunchdError::ExeUnknown { cause } => Some(cause),
        LaunchdError::Unresolved { path: _, cause } => Some(cause),
        LaunchdError::Untrusted { cause } => Some(cause),
        LaunchdError::TemplateUnreadable { path: _, cause } => Some(cause),
        LaunchdError::GroupToolFailed { cause } => Some(cause),
        LaunchdError::MembershipUnknown { cause } => Some(cause),
        LaunchdError::ProgramFailed { cause } => Some(cause),
        LaunchdError::CreateFailed { path: _, cause } => Some(cause),
        LaunchdError::ChmodFailed { path: _, cause } => Some(cause),
        LaunchdError::ChownFailed { path: _, cause } => Some(cause),
        LaunchdError::RightToolFailed { cause } => Some(cause),
        LaunchdError::RightToolLost { cause } => Some(cause),
        LaunchdError::RightUnwritten { cause } => Some(cause),
        LaunchdError::DraftUnwritten { cause } => Some(cause),
        LaunchdError::DraftChmodFailed { cause } => Some(cause),
        LaunchdError::DraftChownFailed { cause } => Some(cause),
        LaunchdError::DraftNotInstalled { cause } => Some(cause),
        LaunchdError::DaemonMissing { cause } => Some(cause),
        LaunchdError::RemoveFailed { cause } => Some(cause),
        _ => None,
    }
}

/// No cause is lost: an error with a cause is told in the words of the cause, or with the
/// cause behind it; and no other error has one behind it.
pub proof fn causes_are_told(error: LaunchdError)
    ensures
        match told_cause(error) {
            Some(cause) => error.behind() == Some(cause) || (error.behind() is None && error.text()
                == cause@),
            None => error.behind() is None,
        },
{
}

} // verus!
