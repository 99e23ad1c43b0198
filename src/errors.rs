use crate::interface::DriverError;
use vstd::prelude::*;

verus! {

/// Why the strip could not be set up.
#[derive(Clone, Copy, Debug, PartialEq, Eq)]
pub enum PixelsError {
    NotSupported,
    Setup,
    Permissions,
    OutOfMemory,
    Other,
}

/// The class of setup failure that each driver error belongs to.
pub open spec fn pixels_error_of(e: DriverError) -> PixelsError {
    match e {
        DriverError::OutOfMemory => PixelsError::OutOfMemory,
        DriverError::HwNotSupported => PixelsError::NotSupported,
        DriverError::MemLock | DriverError::Mmap | DriverError::Dma => PixelsError::Permissions,
        DriverError::PcmSetup | DriverError::PwmSetup | DriverError::SpiSetup
        | DriverError::SpiTransfer | DriverError::IllegalGpio | DriverError::GpioInit => {
            PixelsError::Setup
        },
        _ => PixelsError::Other,
    }
}

impl PixelsError {
    /// The message shown for the error.
    pub fn message(&self) -> (r: &'static str) {
        match self {
            PixelsError::NotSupported => "unsupported hardware, must be running on a Raspberry Pi",
            PixelsError::Setup => "failed to connect to LEDs",
            PixelsError::Permissions => "invalid permissions, are you running as root?",
            PixelsError::OutOfMemory => "out of memory",
            PixelsError::Other => "an unknown error occurred",
        }
    }
}

impl From<DriverError> for PixelsError {
    fn from(e: DriverError) -> (r: PixelsError) {
        match e {
            DriverError::OutOfMemory => PixelsError::OutOfMemory,
            DriverError::HwNotSupported => PixelsError::NotSupported,
            DriverError::MemLock | DriverError::Mmap | DriverError::Dma => PixelsError::Permissions,
            DriverError::PcmSetup | DriverError::PwmSetup | DriverError::SpiSetup
            | DriverError::SpiTransfer | DriverError::IllegalGpio | DriverError::GpioInit => {
                PixelsError::Setup
            },
            _ => PixelsError::Other,
        }
    }
}

impl vstd::std_specs::convert::FromSpecImpl<DriverError> for PixelsError {
    open spec fn obeys_from_spec() -> bool {
        true
    }

    open spec fn from_spec(e: DriverError) -> PixelsError {
        pixels_error_of(e)
    }
}

} // verus!
