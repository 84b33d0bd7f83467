//! Where files are looked for.
use vstd::prelude::*;

verus! {

/// The variable that names the home directory.
pub const HOME_VARIABLE: &'static str = "HOME";

/// The variable that names the home directory where the first does not.
pub const PROFILE_VARIABLE: &'static str = "USERPROFILE";

/// The directory below the home directory that `ssh` keeps its keys in.
pub const SSH_DIRECTORY: &'static str = ".ssh";

/// The home directory, out of the values of the two variables: the first that is set counts.
pub fn home_dir<T>(home: Option<T>, user_profile: Option<T>) -> (r: Option<T>)
    ensures
        r == if home is Some {
            home
        } else {
            user_profile
        },
{
    match home {
        Some(path) => Some(path),
        None => user_profile,
    }
}

/// Where the dialog that asks for a key starts.
#[derive(Debug, Clone, Copy, PartialEq, Eq, Structural)]
pub enum KeyDialogStart {
    /// Wherever the system likes.
    Anywhere,
    /// In the home directory.
    Home,
    /// In the directory that `ssh` keeps its keys in.
    SshDirectory,
}

/// Where the dialog that asks for a key starts: in the directory of `ssh`, where there is one,
/// else in the home directory, where that is known.
pub fn key_dialog_start(home_known: bool, ssh_directory_exists: bool) -> (r: KeyDialogStart)
    ensures
        r == KeyDialogStart::Anywhere <==> !home_known,
        r == KeyDialogStart::SshDirectory <==> home_known && ssh_directory_exists,
        r == KeyDialogStart::Home <==> home_known && !ssh_directory_exists,
{
    if !home_known {
        KeyDialogStart::Anywhere
    } else if ssh_directory_exists {
        KeyDialogStart::SshDirectory
    } else {
        KeyDialogStart::Home
    }
}

/// The variables and the directory go by the names that the system knows them under.
pub proof fn lemma_path_names()
    ensures
        HOME_VARIABLE@ == "HOME"@,
        PROFILE_VARIABLE@ == "USERPROFILE"@,
        SSH_DIRECTORY@ == ".ssh"@,
{
}

} // verus!
