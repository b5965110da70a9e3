use vstd::prelude::*;

verus! {

/// The classes of fatal fault, each ending the process with its own status.
#[derive(Clone, Copy, Debug, PartialEq, Eq, Structural)]
pub enum Fault {
    /// An unrecognized command-line option.
    Usage,
    /// The media library holds no playable file.
    LibraryEmpty,
    /// The motion sensor could not be read.
    Sensor,
    /// The queue store could not be opened, read or written.
    Storage,
}

/// The process exit status of each fault class (the sysexits conventions).
pub open spec fn exit_status(f: Fault) -> i32 {
    match f {
        Fault::Usage => 74,
        Fault::LibraryEmpty => 65,
        Fault::Sensor => 69,
        Fault::Storage => 73,
    }
}

/// Relies on exitcode::IOERR: the sysexits status for an I/O error, 74.
#[verifier::external_body]
fn io_error_status() -> (r: i32)
    ensures
        r == 74,
{
    exitcode::IOERR
}

/// Relies on exitcode::DATAERR: the sysexits status for bad input data, 65.
#[verifier::external_body]
fn data_error_status() -> (r: i32)
    ensures
        r == 65,
{
    exitcode::DATAERR
}

/// Relies on exitcode::UNAVAILABLE: the sysexits status for an unavailable service, 69.
#[verifier::external_body]
fn unavailable_status() -> (r: i32)
    ensures
        r == 69,
{
    exitcode::UNAVAILABLE
}

/// Relies on exitcode::CANTCREAT: the sysexits status for an output file that
/// cannot be created, 73.
#[verifier::external_body]
fn cant_create_status() -> (r: i32)
    ensures
        r == 73,
{
    exitcode::CANTCREAT
}

impl Fault {
    /// The exit status with which the process ends on this fault.
    pub fn exit_code(&self) -> (r: i32)
        ensures
            r == exit_status(*self),
    {
        match self {
            Fault::Usage => io_error_status(),
            Fault::LibraryEmpty => data_error_status(),
            Fault::Sensor => unavailable_status(),
            Fault::Storage => cant_create_status(),
        }
    }
}

/// Each fault class ends the process with a status of its own.
pub proof fn lemma_exit_status_distinct(a: Fault, b: Fault)
    requires
        a != b,
    ensures
        exit_status(a) != exit_status(b),
{
}

} // verus!
