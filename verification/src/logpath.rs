//! Resolution of the extension's log-file path: the file
//! `wordcomplete.log` inside an `xi-core` directory under the
//! platform's local-data directory.
//!
//! Only the lookup of the local-data directory itself is the platform's
//! business; the joining of the path components is plain logic.  Paths
//! are handled as strings with `/` between components.

use vstd::prelude::*;

verus! {

use vstd::string::StringExecFns;

/// Failure to resolve the log file's location.
#[derive(Debug, Clone, Copy, PartialEq, Eq, Structural)]
pub enum PathError {
    /// The platform offers no local data directory.
    NoDataDirectory,
}

impl PathError {
    /// A human-readable description of the failure.
    pub fn message(&self) -> (r: String)
        ensures
            r@ == "No standard logging directory known for this platform"@,
    {
        "No standard logging directory known for this platform".to_owned()
    }
}

/// Relies on `dirs::data_local_dir`: the platform's local-data
/// directory for the current user, or `None` when the platform defines
/// none.  The result depends on the environment, so nothing is claimed
/// of the returned path; it is handed on as a string.
#[verifier::external_body]
fn data_local_dir_string() -> (r: Option<String>) {
    match dirs::data_local_dir() {
        Some(p) => Some(p.to_string_lossy().into_owned()),
        None => None,
    }
}

/// `base` and `component` joined with a `/` separator.
fn join_path(base: String, component: &str) -> (r: String)
    ensures
        r@ == base@ + seq!['/'] + component@,
{
    proof {
        reveal_strlit("/");
        assert("/"@ =~= seq!['/']);
    }
    let mut r = base;
    r.append("/");
    r.append(component);
    r
}

/// The directory named `directory` inside the platform's local-data
/// directory.  Fails exactly when the platform offers no local-data
/// directory; success depends on the environment, so the base of the
/// returned path is existentially stated.
pub fn get_logging_directory_path(directory: &str) -> (r: Result<String, PathError>)
    ensures
        r matches Ok(p) ==> exists|base: Seq<char>| p@ == base + seq!['/'] + directory@,
        r matches Err(e) ==> e == PathError::NoDataDirectory,
{
    match data_local_dir_string() {
        Some(base) => {
            let ghost b = base@;
            let p = join_path(base, directory);
            proof {
                assert(p@ == b + seq!['/'] + directory@);
            }
            Ok(p)
        },
        None => Err(PathError::NoDataDirectory),
    }
}

/// The full path of the extension's log file: `wordcomplete.log` inside
/// an `xi-core` directory under the platform's local-data directory.
pub fn generate_logging_path() -> (r: Result<String, PathError>)
    ensures
        r matches Ok(p) ==> exists|base: Seq<char>|
            p@ == base + seq!['/'] + "xi-core"@ + seq!['/'] + "wordcomplete.log"@,
        r matches Err(e) ==> e == PathError::NoDataDirectory,
{
    match get_logging_directory_path("xi-core") {
        Ok(dir) => {
            let ghost d = dir@;
            let p = join_path(dir, "wordcomplete.log");
            proof {
                let base = choose|base: Seq<char>| d == base + seq!['/'] + "xi-core"@;
                assert(p@ =~= base + seq!['/'] + "xi-core"@ + seq!['/'] + "wordcomplete.log"@);
            }
            Ok(p)
        },
        Err(e) => Err(e),
    }
}

} // verus!
