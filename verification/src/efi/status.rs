//! Status codes returned by EFI routines

use vstd::prelude::*;

verus! {

/// Warning codes returned by EFI routines
#[derive(Debug, Clone, Copy, PartialEq, Eq, Structural)]
pub enum Warning {
    /// The string contained one or more characters that the device could not
    /// render and were skipped
    UnknownGlyph,
    /// The handle was closed, but the file was not deleted
    DeleteFailure,
    /// The handle was closed, but the data to the file was not flushed properly
    WriteFailure,
    /// The resulting buffer was too small, and the data was truncated
    BufferTooSmall,
    /// The data has not been updated within the timeframe set by local policy
    StaleData,
    /// The resulting buffer contains UEFI-compliant file system
    FileSystem,
    /// The operation will be processed across a system reset
    ResetRequired,
    /// Warning not defined by the UEFI spec, likely OEM defined
    Undefined,
}

/// The warning that a raw warning code stands for
pub open spec fn spec_warning_from(val: usize) -> Warning {
    if val == 1 { Warning::UnknownGlyph }
    else if val == 2 { Warning::DeleteFailure }
    else if val == 3 { Warning::WriteFailure }
    else if val == 4 { Warning::BufferTooSmall }
    else if val == 5 { Warning::StaleData }
    else if val == 6 { Warning::FileSystem }
    else if val == 7 { Warning::ResetRequired }
    else { Warning::Undefined }
}

impl Warning {
    /// Convert a raw warning code into a `Warning`
    pub fn from(val: usize) -> (w: Warning)
        ensures
            w == spec_warning_from(val),
    {
        match val {
            1 => Warning::UnknownGlyph,
            2 => Warning::DeleteFailure,
            3 => Warning::WriteFailure,
            4 => Warning::BufferTooSmall,
            5 => Warning::StaleData,
            6 => Warning::FileSystem,
            7 => Warning::ResetRequired,
            _ => Warning::Undefined,
        }
    }
}

/// Error codes returned by EFI routines
#[derive(Debug, Clone, Copy, PartialEq, Eq, Structural)]
pub enum Error {
    /// Image failed to load
    LoadError,
    /// A parameter was incorrect
    InvalidParameter,
    /// The operation is not supported
    Unsupported,
    /// The buffer was not the proper size for the request
    BadBufferSize,
    /// The buffer is not large enough to hold the requested data
    BufferTooSmall,
    /// There is no data pending upon return
    NotReady,
    /// The physical device reported an error while attempting the operation
    DeviceError,
    /// The device cannot be written to
    WriteProtected,
    /// A resource has run out
    OutOfResources,
    /// An inconsistency was detected on the file system
    VolumeCorrupted,
    /// There is no more space on the file system
    VolumeFull,
    /// The device does not contain any medium to perform the operation
    NoMedia,
    /// The medium in the device has changed since the last access
    MediaChanged,
    /// The item was not found
    NotFound,
    /// Access was denied
    AccessDenied,
    /// The server was not found or did not respond to the request
    NoResponse,
    /// A mapping to a device does not exist
    NoMapping,
    /// The timeout time expired
    Timeout,
    /// The protocol has not been started
    NotStarted,
    /// The protocol has already been started
    AlreadyStarted,
    /// The operation was aborted
    Aborted,
    /// An ICMP error occurred during the network operation
    IcmpError,
    /// A TFTP error occurred during the network operation
    TftpError,
    /// A protocol error occurred during the network operation
    ProtocolError,
    /// An internal version was incompatible with the requested version
    IncompatibleVersion,
    /// The function was not performed due to a security violation
    SecurityViolation,
    /// A CRC error was detected
    CrcError,
    /// Beginning or end of media was reached
    EndOfMedia,
    /// The end of the file was reached
    EndOfFile,
    /// The language specified was invalid
    InvalidLanguage,
    /// The security status of the data is unknown or compromised
    CompromisedData,
    /// There is an address conflict address allocation
    IpAddressConflict,
    /// A HTTP error occurred during the network operation
    HttpError,
    /// Error not defined by the UEFI spec, likely OEM defined
    Undefined,
}

/// The error that a raw error code stands for
pub open spec fn spec_error_from(val: usize) -> Error {
    if val == 1 { Error::LoadError }
    else if val == 2 { Error::InvalidParameter }
    else if val == 3 { Error::Unsupported }
    else if val == 4 { Error::BadBufferSize }
    else if val == 5 { Error::BufferTooSmall }
    else if val == 6 { Error::NotReady }
    else if val == 7 { Error::DeviceError }
    else if val == 8 { Error::WriteProtected }
    else if val == 9 { Error::OutOfResources }
    else if val == 10 { Error::VolumeCorrupted }
    else if val == 11 { Error::VolumeFull }
    else if val == 12 { Error::NoMedia }
    else if val == 13 { Error::MediaChanged }
    else if val == 14 { Error::NotFound }
    else if val == 15 { Error::AccessDenied }
    else if val == 16 { Error::NoResponse }
    else if val == 17 { Error::NoMapping }
    else if val == 18 { Error::Timeout }
    else if val == 19 { Error::NotStarted }
    else if val == 20 { Error::AlreadyStarted }
    else if val == 21 { Error::Aborted }
    else if val == 22 { Error::IcmpError }
    else if val == 23 { Error::TftpError }
    else if val == 24 { Error::ProtocolError }
    else if val == 25 { Error::IncompatibleVersion }
    else if val == 26 { Error::SecurityViolation }
    else if val == 27 { Error::CrcError }
    else if val == 28 { Error::EndOfMedia }
    else if val == 31 { Error::EndOfFile }
    else if val == 32 { Error::InvalidLanguage }
    else if val == 33 { Error::CompromisedData }
    else if val == 34 { Error::IpAddressConflict }
    else if val == 35 { Error::HttpError }
    else { Error::Undefined }
}

impl Error {
    /// Convert a raw error code into an `Error`
    pub fn from(val: usize) -> (e: Error)
        ensures
            e == spec_error_from(val),
    {
        match val {
            1 => Error::LoadError,
            2 => Error::InvalidParameter,
            3 => Error::Unsupported,
            4 => Error::BadBufferSize,
            5 => Error::BufferTooSmall,
            6 => Error::NotReady,
            7 => Error::DeviceError,
            8 => Error::WriteProtected,
            9 => Error::OutOfResources,
            10 => Error::VolumeCorrupted,
            11 => Error::VolumeFull,
            12 => Error::NoMedia,
            13 => Error::MediaChanged,
            14 => Error::NotFound,
            15 => Error::AccessDenied,
            16 => Error::NoResponse,
            17 => Error::NoMapping,
            18 => Error::Timeout,
            19 => Error::NotStarted,
            20 => Error::AlreadyStarted,
            21 => Error::Aborted,
            22 => Error::IcmpError,
            23 => Error::TftpError,
            24 => Error::ProtocolError,
            25 => Error::IncompatibleVersion,
            26 => Error::SecurityViolation,
            27 => Error::CrcError,
            28 => Error::EndOfMedia,
            31 => Error::EndOfFile,
            32 => Error::InvalidLanguage,
            33 => Error::CompromisedData,
            34 => Error::IpAddressConflict,
            35 => Error::HttpError,
            _ => Error::Undefined,
        }
    }
}

/// Status codes returned by EFI routines
#[derive(Debug, Clone, Copy, PartialEq, Eq, Structural)]
pub enum Status {
    /// Operation completed successfully
    Success,
    /// Operation completed with a warning
    Warning(Warning),
    /// Operation failed with an error
    Error(Error),
}

/// The status that a raw status value stands for: a success when zero, an
/// error when the highest bit of the native word is set (the error code being
/// the other bits), and a warning otherwise (the warning code being the value)
pub open spec fn spec_status_from(val: usize) -> Status {
    if val == 0 {
        Status::Success
    } else if val > usize::MAX / 2 {
        Status::Error(spec_error_from((val - (usize::MAX / 2 + 1)) as usize))
    } else {
        Status::Warning(spec_warning_from(val))
    }
}

impl Status {
    /// Convert a raw status value into a `Status`. Looking at the highest bit
    /// of the native word keeps the meaning independent of the word size.
    pub fn from(val: usize) -> (s: Status)
        ensures
            s == spec_status_from(val),
    {
        let high = usize::MAX / 2;
        if val == 0 {
            Status::Success
        } else if val > high {
            Status::Error(Error::from(val - (high + 1)))
        } else {
            Status::Warning(Warning::from(val))
        }
    }
}

} // verus!
