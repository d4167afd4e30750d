//! Where witness generation runs, decided from where its artifact resides.
use vstd::prelude::*;

verus! {

/// Where a constraint system or a witness generator resides.
pub enum FileLocation {
    PathBuf(String),
    URL(String),
}

/// The two witness generators: an out-of-process program that blocks the
/// caller, and a sandboxed module whose generation the caller awaits.
#[derive(Clone, Copy, Debug, PartialEq, Eq, Structural)]
pub enum WitnessBackend {
    Blocking,
    Suspendable,
}

/// The ways a run can fail.
#[derive(Clone, Debug)]
pub enum DriverError {
    /// The run was configured in a way no run can use.
    ConfigurationViolation,
    /// The witness generator rejected a step's input.
    WitnessGenerationFailure(String),
    /// The proving engine rejected a step circuit.
    FoldFailure(String),
    /// The scratch witness file could not be removed after a finished run.
    ResourceCleanupFailure(String),
    /// Stored parameters or a stored proof could not be read back.
    SerializationFailure(String),
}

/// A local path whose file name, with a non-empty stem, ends in `.wasm`.
pub open spec fn is_module_path(p: Seq<char>) -> bool {
    let n = p.len();
    &&& n >= 6
    &&& p[n - 6] != '/'
    &&& p[n - 5] == '.'
    &&& p[n - 4] == 'w'
    &&& p[n - 3] == 'a'
    &&& p[n - 2] == 's'
    &&& p[n - 1] == 'm'
}

pub open spec fn backend_for(loc: FileLocation) -> WitnessBackend {
    match loc {
        FileLocation::URL(_) => WitnessBackend::Suspendable,
        FileLocation::PathBuf(p) => if is_module_path(p@) {
            WitnessBackend::Suspendable
        } else {
            WitnessBackend::Blocking
        },
    }
}

/// Whether a local path names a sandboxed witness module.
pub fn is_module_path_str(p: &str) -> (r: bool)
    ensures
        r == is_module_path(p@),
{
    let n = p.unicode_len();
    if n < 6 {
        return false;
    }
    p.get_char(n - 6) != '/' && p.get_char(n - 5) == '.' && p.get_char(n - 4) == 'w'
        && p.get_char(n - 3) == 'a' && p.get_char(n - 2) == 's' && p.get_char(n - 1) == 'm'
}

/// A remote artifact, or a local sandboxed module, goes to the suspendable
/// backend; any other local path to the blocking one.
pub fn select_backend(loc: &FileLocation) -> (r: WitnessBackend)
    ensures
        r == backend_for(*loc),
{
    match loc {
        FileLocation::URL(_) => WitnessBackend::Suspendable,
        FileLocation::PathBuf(p) => if is_module_path_str(p.as_str()) {
            WitnessBackend::Suspendable
        } else {
            WitnessBackend::Blocking
        },
    }
}

/// The path that the blocking backend runs. It cannot fetch a remote artifact:
/// a URL is a configuration violation.
pub fn blocking_generator_path(loc: &FileLocation) -> (r: Result<&String, DriverError>)
    ensures
        match *loc {
            FileLocation::PathBuf(p) => r matches Ok(q) && *q == p,
            FileLocation::URL(_) => r matches Err(DriverError::ConfigurationViolation),
        },
{
    match loc {
        FileLocation::PathBuf(p) => Ok(p),
        FileLocation::URL(_) => Err(DriverError::ConfigurationViolation),
    }
}

} // verus!
