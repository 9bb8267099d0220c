//! Failures of the device layer.
use vstd::prelude::*;
use vstd::string::StringExecFns;

verus! {

/// Remediation hint that a permission failure carries.
pub const PERMISSION_HINT: &'static str =
    "Ensure that you have permission, for example using a udev rule or sudo.";

/// The operating system's reason for a failed open or write.
#[derive(Clone, Copy, Debug, PartialEq, Eq)]
pub enum IoFailure {
    /// Access to the device was denied.
    PermissionDenied,
    /// The operation did not finish within the timeout of the port.
    TimedOut,
    /// Any other reason.
    Other,
}

/// Category of a serial port failure.
#[derive(Clone, Copy, Debug, PartialEq, Eq)]
pub enum SerialErrorKind {
    /// The device is not available: in use, or disconnected.
    NoDevice,
    /// A parameter was incorrect.
    InvalidInput,
    /// The cause is not known.
    Unknown,
    /// An input/output failure, with the operating system's reason.
    Io(IoFailure),
}

/// A failure reported by the serial transport.
#[derive(Clone, Debug, PartialEq, Eq)]
pub struct SerialError {
    /// Category of the failure.
    pub kind: SerialErrorKind,
    /// Description for the end user.
    pub description: String,
}

/// Typed outcome of a failed device operation.
#[derive(Clone, Debug, PartialEq, Eq)]
pub enum LedMatrixError {
    /// The transport failed; the cause is kept as it was reported.
    SerialPort(SerialError),
    /// No compatible panel is attached.
    NoDevicesFound,
    /// Access to the device was denied; carries a remediation hint.
    PermissionDenied(String),
}

impl SerialError {
    /// Whether the failure is a denied access.
    pub open spec fn is_permission_denied(self) -> bool {
        self.kind == SerialErrorKind::Io(IoFailure::PermissionDenied)
    }
}

impl LedMatrixError {
    /// Whether `self` is the error that the transport failure `cause` is
    /// reported as: a denied access becomes `PermissionDenied` with the
    /// remediation hint, every other failure is wrapped unchanged.
    pub open spec fn reports(self, cause: SerialError) -> bool {
        match self {
            LedMatrixError::PermissionDenied(hint) => cause.is_permission_denied() && hint@
                == PERMISSION_HINT@,
            LedMatrixError::SerialPort(wrapped) => !cause.is_permission_denied() && wrapped
                == cause,
            LedMatrixError::NoDevicesFound => false,
        }
    }

    /// Text of the error for the end user.
    pub open spec fn spec_message(self) -> Seq<char> {
        match self {
            LedMatrixError::SerialPort(cause) => "Serial port error: "@ + cause.description@,
            LedMatrixError::NoDevicesFound => "No LED Matrix devices found"@,
            LedMatrixError::PermissionDenied(hint) => "Permission denied: "@ + hint@,
        }
    }

    /// Text of the error for the end user: what failed, and for a transport
    /// failure or a denied access the description or the hint behind it.
    pub fn message(&self) -> (text: String)
        ensures
            text@ == self.spec_message(),
    {
        match self {
            LedMatrixError::SerialPort(cause) => "Serial port error: ".to_owned().concat(
                cause.description.as_str(),
            ),
            LedMatrixError::NoDevicesFound => "No LED Matrix devices found".to_owned(),
            LedMatrixError::PermissionDenied(hint) => "Permission denied: ".to_owned().concat(
                hint.as_str(),
            ),
        }
    }

    /// Classifies a failure of the transport.
    pub fn from_transport(cause: SerialError) -> (error: LedMatrixError)
        ensures
            error.reports(cause),
    {
        match cause.kind {
            SerialErrorKind::Io(IoFailure::PermissionDenied) => LedMatrixError::PermissionDenied(
                PERMISSION_HINT.to_owned(),
            ),
            _ => LedMatrixError::SerialPort(cause),
        }
    }
}

/// Whether `result` is what a transaction with the given transport outcome
/// returns: success for a completed write, the classified error otherwise.
pub open spec fn concludes(
    outcome: Result<(), SerialError>,
    result: Result<(), LedMatrixError>,
) -> bool {
    match outcome {
        Ok(_) => result is Ok,
        Err(cause) => result is Err && result->Err_0.reports(cause),
    }
}

/// Result of one open, write and close transaction, from what the transport
/// reported for it.
pub fn transaction_result(outcome: Result<(), SerialError>) -> (result: Result<(), LedMatrixError>)
    ensures
        concludes(outcome, result),
{
    match outcome {
        Ok(_) => Ok(()),
        Err(cause) => Err(LedMatrixError::from_transport(cause)),
    }
}

} // verus!
