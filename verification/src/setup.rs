//! Setting up the Ren'Py import libraries: which Python runs the setup
//! script, what it is told, and how its outcome is reported.

use vstd::prelude::*;

verus! {

/// The interpreters tried for the setup script, in order.
pub open spec fn python_candidate(i: int) -> Seq<char> {
    if i == 0 {
        "python3"@
    } else if i == 1 {
        "python"@
    } else {
        "py"@
    }
}

/// The interpreters tried for the setup script, in order.
pub fn python_candidates() -> (r: Vec<&'static str>)
    ensures
        r@.len() == 3,
        forall|i: int| 0 <= i < 3 ==> #[trigger] r@[i]@ == python_candidate(i),
{
    let mut r: Vec<&'static str> = Vec::new();
    r.push("python3");
    r.push("python");
    r.push("py");
    r
}

/// The interpreter to use, given the position of the first candidate that
/// answered `--version`: that candidate, or `python3` when none did.
pub fn pick_python_exe(first_working: Option<usize>) -> (r: &'static str)
    ensures
        first_working is Some && first_working->0 < 3 ==> r@ == python_candidate(
            first_working->0 as int,
        ),
        first_working is None || first_working->0 >= 3 ==> r@ == "python3"@,
{
    match first_working {
        Some(0) => "python3",
        Some(1) => "python",
        Some(2) => "py",
        _ => "python3",
    }
}

/// What the setup script is told to work on.
pub enum SetupArgument<P> {
    /// The Ren'Py SDK folder given by the user.
    Directory(P),
    /// A flag asking the script to find the library itself.
    Flag(&'static str),
}

/// What the setup script is told: the given folder, else `--detect`.
pub fn setup_argument<P>(renpy_dir: Option<P>) -> (r: SetupArgument<P>)
    ensures
        renpy_dir is Some ==> r == SetupArgument::<P>::Directory(renpy_dir->0),
        renpy_dir is None ==> (r matches SetupArgument::Flag(f) && f@ == "--detect"@),
{
    match renpy_dir {
        Some(d) => SetupArgument::Directory(d),
        None => SetupArgument::Flag("--detect"),
    }
}

/// Why the setup failed.
#[derive(Debug, Clone, Copy, PartialEq, Eq, Structural)]
pub enum SetupError {
    /// The setup script is not in `scripts/`.
    ScriptMissing,
    /// The interpreter could not be started.
    LaunchFailed,
    /// The script ran and reported a failure.
    ExitedWithError,
}

impl SetupError {
    /// The message reported for this error.
    pub fn message(&self) -> (r: &'static str)
        ensures
            *self == SetupError::ScriptMissing ==> r@
                == "setup_renpy_includes.py not found in scripts/"@,
            *self == SetupError::LaunchFailed ==> r@
                == "Failed to run setup_renpy_includes.py"@,
            *self == SetupError::ExitedWithError ==> r@
                == "setup_renpy_includes.py exited with error"@,
    {
        match self {
            SetupError::ScriptMissing => "setup_renpy_includes.py not found in scripts/",
            SetupError::LaunchFailed => "Failed to run setup_renpy_includes.py",
            SetupError::ExitedWithError => "setup_renpy_includes.py exited with error",
        }
    }
}

/// The setup may go on only when its script exists.
pub fn check_setup_script(script_exists: bool) -> (r: Result<(), SetupError>)
    ensures
        script_exists ==> r is Ok,
        !script_exists ==> r == Err::<(), SetupError>(SetupError::ScriptMissing),
{
    if script_exists {
        Ok(())
    } else {
        Err(SetupError::ScriptMissing)
    }
}

/// The outcome of running the script: `None` when it could not be started,
/// else whether it exited successfully.
pub fn setup_exit_outcome(status: Option<bool>) -> (r: Result<(), SetupError>)
    ensures
        status is None ==> r == Err::<(), SetupError>(SetupError::LaunchFailed),
        status == Some(false) ==> r == Err::<(), SetupError>(SetupError::ExitedWithError),
        status == Some(true) ==> r is Ok,
{
    match status {
        None => Err(SetupError::LaunchFailed),
        Some(false) => Err(SetupError::ExitedWithError),
        Some(true) => Ok(()),
    }
}

} // verus!
