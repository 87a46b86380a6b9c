use vstd::prelude::*;

verus! {

/// Errors that can occur when accessing the GPIO peripheral.
#[derive(Debug, PartialEq, Eq, Structural, Copy, Clone)]
pub enum Error {
    /// The register layout of the running hardware could not be identified.
    UnknownPeripheral,
    /// The device files could not be opened for read/write access.
    PermissionDenied,
    /// A facade instance is already live.
    InstanceExists,
    /// An operating-system failure of a device operation, by its error number.
    Io(i32),
    /// An asynchronous interrupt worker terminated abnormally.
    ThreadPanic,
}

/// The description of each error.
pub open spec fn error_name(e: Error) -> Seq<char> {
    match e {
        Error::UnknownPeripheral => "unknown peripheral"@,
        Error::PermissionDenied => "insufficient permissions on the GPIO device files"@,
        Error::InstanceExists => "an instance of Gpio already exists"@,
        Error::Io(_) => "I/O error"@,
        Error::ThreadPanic => "interrupt polling thread panicked"@,
    }
}

impl Error {
    /// A short description of the error.
    pub fn to_string(&self) -> (r: String)
        ensures
            r@ == error_name(*self),
    {
        let s: &str = match self {
            Error::UnknownPeripheral => "unknown peripheral",
            Error::PermissionDenied => "insufficient permissions on the GPIO device files",
            Error::InstanceExists => "an instance of Gpio already exists",
            Error::Io(_) => "I/O error",
            Error::ThreadPanic => "interrupt polling thread panicked",
        };
        s.to_owned()
    }
}

} // verus!
