//! The outcome of one invocation: the confirmation line printed on success
//! (unless quiet) and the message reported when the hardware driver fails.

use crate::numbers::dec_chars;
use crate::numbers::dec_string;
use crate::selectors::ClockOutput;
use crate::selectors::Pll;
use vstd::prelude::*;
use vstd::string::*;

verus! {

/// A failure reported by the chip driver while initializing the module or
/// applying the frequency setting.
#[derive(Clone, Copy, Debug, PartialEq, Eq, Structural)]
pub enum DriverError {
    /// An I2C transaction with the chip failed.
    CommunicationError,
    /// The driver rejected one of the requested settings.
    InvalidParameter,
}

impl DriverError {
    /// The text that reports this failure.
    pub open spec fn text(self) -> Seq<char> {
        match self {
            DriverError::CommunicationError => "CommunicationError"@,
            DriverError::InvalidParameter => "InvalidParameter"@,
        }
    }

    /// The printed report of this failure.
    pub fn message(&self) -> (r: String)
        ensures
            r@ == self.text(),
    {
        match self {
            DriverError::CommunicationError => "CommunicationError".to_owned(),
            DriverError::InvalidParameter => "InvalidParameter".to_owned(),
        }
    }
}

/// The confirmation line for a completed setting, dot included, newline not.
pub open spec fn confirmation_text(clk: ClockOutput, pll: Pll, freq: u32) -> Seq<char> {
    "Clk "@ + clk.text() + " set to "@ + dec_chars(freq as int) + " Hz using PLL "@ + pll.text()
        + "."@
}

/// The line to print after the frequency was set: none when quiet, else the
/// confirmation text for the settings that were applied.
pub fn confirmation(quiet: bool, clk: ClockOutput, pll: Pll, freq: u32) -> (r: Option<String>)
    ensures
        r is Some <==> !quiet,
        r matches Some(s) ==> s@ == confirmation_text(clk, pll, freq),
{
    if quiet {
        None
    } else {
        let mut s = "Clk ".to_owned();
        s.append(clk.label());
        s.append(" set to ");
        let freq_text = dec_string(freq);
        s.append(freq_text.as_str());
        s.append(" Hz using PLL ");
        s.append(pll.label());
        s.append(".");
        proof {
            assert(s@ =~= confirmation_text(clk, pll, freq));
        }
        Some(s)
    }
}

/// Decides how the invocation ends once the driver has answered: a driver
/// failure becomes the error report and no confirmation line is produced;
/// success yields the confirmation line, or none when quiet.
pub fn conclude(quiet: bool, clk: ClockOutput, pll: Pll, freq: u32, outcome: Result<
    (),
    DriverError,
>) -> (r: Result<Option<String>, String>)
    ensures
        outcome is Ok ==> (r matches Ok(line) && (line is Some <==> !quiet) && (line matches Some(
            s,
        ) ==> s@ == confirmation_text(clk, pll, freq))),
        outcome matches Err(e) ==> (r matches Err(m) && m@ == e.text()),
{
    match outcome {
        Ok(()) => Ok(confirmation(quiet, clk, pll, freq)),
        Err(e) => Err(e.message()),
    }
}

} // verus!
