//! Command selection and display units.
//!
//! The command-line front end parses arguments into these types and
//! asks them which measurements to run and how to scale a result for
//! display.  Throughput is carried internally in bytes per second;
//! a display value is `8 * bytes_per_second` divided by the unit's
//! divisor, and this module states that ratio exactly so the front
//! end only performs the final division.

use vstd::prelude::*;

verus! {

/// A parsed command line: which measurements to run, the unit for
/// display, and whether to log verbosely.
#[derive(Debug, Clone, Copy, PartialEq, Eq, Structural)]
pub struct Cli {
    pub command: Commands,
    pub unit: SpeedUnit,
    pub verbose: bool,
}

/// The subcommand: both measurements, download only, or upload only.
#[derive(Debug, Clone, Copy, PartialEq, Eq, Structural)]
pub enum Commands {
    Start,
    Download,
    Upload,
}

impl Commands {
    /// Whether this command asks for a download measurement.
    pub fn runs_download(&self) -> (b: bool)
        ensures
            b == (*self is Start || *self is Download),
    {
        match self {
            Commands::Start => true,
            Commands::Download => true,
            Commands::Upload => false,
        }
    }

    /// Whether this command asks for an upload measurement.
    pub fn runs_upload(&self) -> (b: bool)
        ensures
            b == (*self is Start || *self is Upload),
    {
        match self {
            Commands::Start => true,
            Commands::Download => false,
            Commands::Upload => true,
        }
    }
}

/// A unit in which a throughput is displayed: bits, kilobits,
/// megabits or gigabits per second.
#[derive(Debug, Clone, Copy, PartialEq, Eq, Structural)]
pub enum SpeedUnit {
    Bps,
    Kbps,
    Mbps,
    Gbps,
}

impl SpeedUnit {
    /// The label of this unit.
    pub open spec fn spec_str(self) -> Seq<char> {
        match self {
            SpeedUnit::Bps => "bps"@,
            SpeedUnit::Kbps => "Kbps"@,
            SpeedUnit::Mbps => "Mbps"@,
            SpeedUnit::Gbps => "Gbps"@,
        }
    }

    /// How many bits per second make one displayed unit.
    pub open spec fn spec_divisor(self) -> u64 {
        match self {
            SpeedUnit::Bps => 1,
            SpeedUnit::Kbps => 1_000,
            SpeedUnit::Mbps => 1_000_000,
            SpeedUnit::Gbps => 1_000_000_000,
        }
    }

    /// The label of this unit, for display.
    pub fn as_str(&self) -> (s: &'static str)
        ensures
            s@ == self.spec_str(),
    {
        match self {
            SpeedUnit::Bps => "bps",
            SpeedUnit::Kbps => "Kbps",
            SpeedUnit::Mbps => "Mbps",
            SpeedUnit::Gbps => "Gbps",
        }
    }

    /// How many bits per second make one displayed unit.
    pub fn divisor(&self) -> (d: u64)
        ensures
            d == self.spec_divisor(),
    {
        match self {
            SpeedUnit::Bps => 1,
            SpeedUnit::Kbps => 1_000,
            SpeedUnit::Mbps => 1_000_000,
            SpeedUnit::Gbps => 1_000_000_000,
        }
    }

    /// The exact value of a throughput in this unit, as a ratio: the
    /// displayed value is `r.0 / r.1`.  The numerator is the rate in
    /// bits per second, the denominator the unit's divisor; the front
    /// end performs the one division in its own numeric type.
    pub fn convert_ratio(&self, bytes_per_second: u64) -> (r: (u64, u64))
        requires
            8 * bytes_per_second <= u64::MAX,
        ensures
            r.0 == 8 * bytes_per_second,
            r.1 == self.spec_divisor(),
    {
        (bytes_per_second * 8, self.divisor())
    }
}

} // verus!
