//! Service configuration and command-line switches, as plain data. Reading
//! them in — argument parsing, the settings file — is the surrounding
//! program's job; the one rule a configuration must satisfy before a driver
//! may be built from it is checked here.

use vstd::prelude::*;

use crate::hx711::CalibrationError;

verus! {

/// Runtime settings of the scale service.
#[derive(Clone, Debug)]
pub struct ServiceConfig {
    /// Data-out pin number.
    pub dout: u8,
    /// Clock pin number.
    pub dt_sck: u8,
    /// Raw code under no load: the zero calibration point.
    pub offset: u32,
    /// Raw code under one kilogram: the reference calibration point.
    pub calibration: u32,
    /// Seconds between reads.
    pub backoff: u64,
    /// Consecutive-failure bound of the read loop.
    pub retry: u8,
    /// File to stream readings to; standard output when unset.
    pub output_file: Option<String>,
    /// Path of the broadcast socket.
    pub socket_location: Option<String>,
}

impl ServiceConfig {
    /// Flags a zero-width calibration window before any driver is built from
    /// this configuration: succeeds exactly when the two calibration codes
    /// differ.
    pub fn validate(&self) -> (r: Result<(), CalibrationError>)
        ensures
            r is Ok <==> self.offset != self.calibration,
            r matches Err(e) ==> e == CalibrationError::ZeroCalibrationSpan,
    {
        if self.offset == self.calibration {
            Err(CalibrationError::ZeroCalibrationSpan)
        } else {
            Ok(())
        }
    }
}

/// Command-line switches of the service.
#[derive(Clone, Debug)]
pub struct Args {
    /// Run the calibration procedure instead of the read loop.
    pub calibrate: bool,
    /// Settings file to read, overriding the default location.
    pub settings_path: Option<String>,
    /// Verbose output.
    pub verbose: bool,
}

} // verus!
