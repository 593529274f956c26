//! Status codes of the telemetry provider.

use vstd::prelude::*;

verus! {

/// The call succeeded.
pub const RM_STATUS_OK: i32 = 0;

/// An argument was refused.
pub const RM_STATUS_INVALID_ARG: i32 = 1;

/// The process lacks administrator rights.
pub const RM_STATUS_NOT_ADMIN: i32 = 2;

/// The operating system is not supported.
pub const RM_STATUS_UNSUPPORTED_OS: i32 = 3;

/// The processor is not an AMD one.
pub const RM_STATUS_NOT_AMD: i32 = 4;

/// The Ryzen Master driver is missing or did not start.
pub const RM_STATUS_DRIVER: i32 = 5;

/// The processor model is not supported.
pub const RM_STATUS_UNSUPPORTED_CPU: i32 = 6;

/// Memory could not be allocated.
pub const RM_STATUS_ALLOC_FAILED: i32 = 7;

/// The sensor library did not initialise.
pub const RM_STATUS_SDK_INIT_FAILED: i32 = 8;

/// A reading could not be taken.
pub const RM_STATUS_READ_FAILED: i32 = 9;

/// What the provider answered to a call. `Success` is the only success value.
#[derive(Clone, Copy, Debug, PartialEq, Eq, Structural)]
pub enum ProviderStatus {
    Success,
    InvalidArg,
    NotAdmin,
    UnsupportedOs,
    NotAmd,
    DriverMissing,
    UnsupportedCpu,
    AllocFailed,
    InitFailed,
    ReadFailed,
    /// A code outside the documented ones, kept as it came.
    Unknown(i32),
}

/// The status that a raw provider code stands for.
pub open spec fn status_of_code(code: int) -> ProviderStatus {
    if code == 0 {
        ProviderStatus::Success
    } else if code == 1 {
        ProviderStatus::InvalidArg
    } else if code == 2 {
        ProviderStatus::NotAdmin
    } else if code == 3 {
        ProviderStatus::UnsupportedOs
    } else if code == 4 {
        ProviderStatus::NotAmd
    } else if code == 5 {
        ProviderStatus::DriverMissing
    } else if code == 6 {
        ProviderStatus::UnsupportedCpu
    } else if code == 7 {
        ProviderStatus::AllocFailed
    } else if code == 8 {
        ProviderStatus::InitFailed
    } else if code == 9 {
        ProviderStatus::ReadFailed
    } else {
        ProviderStatus::Unknown(code as i32)
    }
}

/// The text shown for a raw provider code.
pub open spec fn status_text(code: int) -> Seq<char> {
    if code == 0 {
        "ok"@
    } else if code == 1 {
        "invalid argument"@
    } else if code == 2 {
        "admin privileges required"@
    } else if code == 3 {
        "unsupported Windows version"@
    } else if code == 4 {
        "non-AMD CPU detected"@
    } else if code == 5 {
        "Ryzen Master driver missing or failed to start"@
    } else if code == 6 {
        "unsupported CPU model"@
    } else if code == 7 {
        "allocation failure"@
    } else if code == 8 {
        "SDK initialization failed"@
    } else if code == 9 {
        "telemetry read failed"@
    } else {
        "unknown error"@
    }
}

impl ProviderStatus {
    /// The raw code of this status.
    pub open spec fn code_of(self) -> int {
        match self {
            ProviderStatus::Success => 0,
            ProviderStatus::InvalidArg => 1,
            ProviderStatus::NotAdmin => 2,
            ProviderStatus::UnsupportedOs => 3,
            ProviderStatus::NotAmd => 4,
            ProviderStatus::DriverMissing => 5,
            ProviderStatus::UnsupportedCpu => 6,
            ProviderStatus::AllocFailed => 7,
            ProviderStatus::InitFailed => 8,
            ProviderStatus::ReadFailed => 9,
            ProviderStatus::Unknown(code) => code as int,
        }
    }

    /// Whether the status is the success value. No other status is a
    /// success, whatever code it carries.
    pub open spec fn succeeded(self) -> bool {
        self == ProviderStatus::Success
    }

    /// Whether the status is the one that its code is classified as: a
    /// status is `Unknown` only for a code outside the documented ones.
    pub open spec fn canonical(self) -> bool {
        self matches ProviderStatus::Unknown(code) ==> code < 0 || code > 9
    }

    /// The text shown for this status.
    pub open spec fn text_of(self) -> Seq<char> {
        match self {
            ProviderStatus::Unknown(_) => "unknown error"@,
            _ => status_text(self.code_of()),
        }
    }

    /// Classifies a raw provider code.
    pub fn from_code(code: i32) -> (status: ProviderStatus)
        ensures
            status == status_of_code(code as int),
            status.code_of() == code,
            status.canonical(),
            status.succeeded() <==> code == 0,
    {
        match code {
            0 => ProviderStatus::Success,
            1 => ProviderStatus::InvalidArg,
            2 => ProviderStatus::NotAdmin,
            3 => ProviderStatus::UnsupportedOs,
            4 => ProviderStatus::NotAmd,
            5 => ProviderStatus::DriverMissing,
            6 => ProviderStatus::UnsupportedCpu,
            7 => ProviderStatus::AllocFailed,
            8 => ProviderStatus::InitFailed,
            9 => ProviderStatus::ReadFailed,
            _ => ProviderStatus::Unknown(code),
        }
    }

    /// The raw code, as it is surfaced in diagnostics.
    pub fn code(&self) -> (code: i32)
        ensures
            code == self.code_of(),
    {
        match self {
            ProviderStatus::Success => RM_STATUS_OK,
            ProviderStatus::InvalidArg => RM_STATUS_INVALID_ARG,
            ProviderStatus::NotAdmin => RM_STATUS_NOT_ADMIN,
            ProviderStatus::UnsupportedOs => RM_STATUS_UNSUPPORTED_OS,
            ProviderStatus::NotAmd => RM_STATUS_NOT_AMD,
            ProviderStatus::DriverMissing => RM_STATUS_DRIVER,
            ProviderStatus::UnsupportedCpu => RM_STATUS_UNSUPPORTED_CPU,
            ProviderStatus::AllocFailed => RM_STATUS_ALLOC_FAILED,
            ProviderStatus::InitFailed => RM_STATUS_SDK_INIT_FAILED,
            ProviderStatus::ReadFailed => RM_STATUS_READ_FAILED,
            ProviderStatus::Unknown(code) => *code,
        }
    }

    /// Whether the call succeeded. Every other status counts as a failure, and
    /// all failures are treated alike.
    pub fn is_ok(&self) -> (ok: bool)
        ensures
            ok == self.succeeded(),
    {
        match self {
            ProviderStatus::Success => true,
            _ => false,
        }
    }

    /// The text shown for this status.
    pub fn message(&self) -> (message: &'static str)
        ensures
            message@ == self.text_of(),
    {
        match self {
            ProviderStatus::Unknown(_) => "unknown error",
            _ => status_message(self.code()),
        }
    }
}

/// Classifying a code loses nothing and invents nothing: the status keeps
/// the code and its text, it is `Unknown` only for a code outside the
/// documented ones, and it is the success value for code zero alone.
pub proof fn law_classification(code: i32)
    ensures
        status_of_code(code as int).code_of() == code,
        status_of_code(code as int).canonical(),
        status_of_code(code as int).text_of() == status_text(code as int),
        status_of_code(code as int).succeeded() <==> code == 0,
        status_of_code(code as int) is Unknown <==> code < 0 || code > 9,
{
}

/// The text shown for a raw provider code; `unknown error` for a code outside
/// the documented ones.
pub fn status_message(code: i32) -> (message: &'static str)
    ensures
        message@ == status_text(code as int),
{
    match code {
        0 => "ok",
        1 => "invalid argument",
        2 => "admin privileges required",
        3 => "unsupported Windows version",
        4 => "non-AMD CPU detected",
        5 => "Ryzen Master driver missing or failed to start",
        6 => "unsupported CPU model",
        7 => "allocation failure",
        8 => "SDK initialization failed",
        9 => "telemetry read failed",
        _ => "unknown error",
    }
}

} // verus!
