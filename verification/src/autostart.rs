//! Auto-start at login: the entry of the current user's Run key that the
//! settings call for.
use vstd::prelude::*;

verus! {

/// The Run key, under HKEY_CURRENT_USER.
pub const RUN_KEY_PATH: &'static str = "Software\\Microsoft\\Windows\\CurrentVersion\\Run";

/// The name of this application's value in the Run key.
pub const VALUE_NAME: &'static str = "BreakReminderRs";

/// The change to make to the Run key.
#[derive(Clone, Debug)]
pub enum RunKeyChange {
    /// Write the value `VALUE_NAME` with this data.
    SetValue { data: String },
    /// Delete the value `VALUE_NAME`; that it is already absent is no error.
    DeleteValue,
    /// Leave the key alone (the executable's path is not valid UTF-8).
    Skip,
}

/// The path in double quotes.
pub open spec fn quoted(path: Seq<char>) -> Seq<char> {
    seq!['"'] + path + seq!['"']
}

/// Reconciles the Run key with the auto-start setting: enabled writes the
/// executable's full path in double quotes; disabled deletes the value. `exe_path`
/// is none when the path is not valid UTF-8, and then nothing is written.
pub fn apply(enabled: bool, exe_path: Option<&str>) -> (r: RunKeyChange)
    ensures
        !enabled ==> r is DeleteValue,
        enabled && exe_path is None ==> r is Skip,
        enabled && exe_path is Some ==> (r matches RunKeyChange::SetValue { data } && data@
            == quoted(exe_path.unwrap()@)),
{
    if !enabled {
        return RunKeyChange::DeleteValue;
    }
    match exe_path {
        Some(path) => {
            let mut data = String::from_str("\"");
            data.append(path);
            data.append("\"");
            proof {
                reveal_strlit("\"");
                assert(data@ =~= quoted(path@));
            }
            RunKeyChange::SetValue { data }
        },
        None => RunKeyChange::Skip,
    }
}

/// Whether a failure to delete the value is worth reporting: not when the
/// value was already absent.
pub fn delete_failure_reported(value_was_absent: bool) -> (r: bool)
    ensures
        r == !value_was_absent,
{
    !value_was_absent
}

} // verus!
