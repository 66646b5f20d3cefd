//! The two selector arguments: which clock-output pin to program and which
//! internal PLL feeds it, each parsed from a one-character command-line
//! option and printed back in the confirmation line.

use vstd::prelude::*;
use vstd::string::*;

verus! {

/// One of the chip's three physical clock-output pins.
#[derive(Clone, Copy, Debug, PartialEq, Eq, Structural)]
pub enum ClockOutput {
    Clk0,
    Clk1,
    Clk2,
}

/// One of the chip's two internal PLL blocks.
#[derive(Clone, Copy, Debug, PartialEq, Eq, Structural)]
pub enum Pll {
    A,
    B,
}

impl ClockOutput {
    /// The one-character text that names this output: `"0"`, `"1"` or `"2"`.
    pub open spec fn text(self) -> Seq<char> {
        match self {
            ClockOutput::Clk0 => "0"@,
            ClockOutput::Clk1 => "1"@,
            ClockOutput::Clk2 => "2"@,
        }
    }

    /// The printed name of this output.
    pub fn label(&self) -> (r: &'static str)
        ensures
            r@ == self.text(),
    {
        match self {
            ClockOutput::Clk0 => "0",
            ClockOutput::Clk1 => "1",
            ClockOutput::Clk2 => "2",
        }
    }
}

impl Pll {
    /// The one-character text that names this PLL: `"A"` or `"B"`.
    pub open spec fn text(self) -> Seq<char> {
        match self {
            Pll::A => "A"@,
            Pll::B => "B"@,
        }
    }

    /// The printed name of this PLL.
    pub fn label(&self) -> (r: &'static str)
        ensures
            r@ == self.text(),
    {
        match self {
            Pll::A => "A",
            Pll::B => "B",
        }
    }
}

/// The clock output used when the command line names none.
pub fn default_clk() -> (r: ClockOutput)
    ensures
        r == ClockOutput::Clk0,
{
    ClockOutput::Clk0
}

/// The PLL used when the command line names none.
pub fn default_pll() -> (r: Pll)
    ensures
        r == Pll::A,
{
    Pll::A
}

/// Parses the clock-output option: exactly `"0"`, `"1"` and `"2"` name the
/// three outputs; every other text is refused.
pub fn arg_clk(val: &str) -> (r: Result<ClockOutput, String>)
    ensures
        val@ == "0"@ ==> r == Ok::<ClockOutput, String>(ClockOutput::Clk0),
        val@ == "1"@ ==> r == Ok::<ClockOutput, String>(ClockOutput::Clk1),
        val@ == "2"@ ==> r == Ok::<ClockOutput, String>(ClockOutput::Clk2),
        r matches Ok(c) ==> val@ == c.text(),
        r matches Err(m) ==> m@ == "PLL must be \"0\", \"1\", or \"2\""@,
{
    proof {
        reveal_strlit("0");
        reveal_strlit("1");
        reveal_strlit("2");
    }
    if val.unicode_len() == 1 {
        let c = val.get_char(0);
        if c == '0' {
            proof {
                assert(val@ =~= "0"@);
            }
            return Ok(ClockOutput::Clk0);
        }
        if c == '1' {
            proof {
                assert(val@ =~= "1"@);
            }
            return Ok(ClockOutput::Clk1);
        }
        if c == '2' {
            proof {
                assert(val@ =~= "2"@);
            }
            return Ok(ClockOutput::Clk2);
        }
    }
    Err("PLL must be \"0\", \"1\", or \"2\"".to_owned())
}

/// Parses the PLL option: exactly `"A"` and `"B"` name the two PLLs; every
/// other text is refused.
pub fn arg_pll(val: &str) -> (r: Result<Pll, String>)
    ensures
        val@ == "A"@ ==> r == Ok::<Pll, String>(Pll::A),
        val@ == "B"@ ==> r == Ok::<Pll, String>(Pll::B),
        r matches Ok(p) ==> val@ == p.text(),
        r matches Err(m) ==> m@ == "PLL must be \"A\" or \"B\""@,
{
    proof {
        reveal_strlit("A");
        reveal_strlit("B");
    }
    if val.unicode_len() == 1 {
        let c = val.get_char(0);
        if c == 'A' {
            proof {
                assert(val@ =~= "A"@);
            }
            return Ok(Pll::A);
        }
        if c == 'B' {
            proof {
                assert(val@ =~= "B"@);
            }
            return Ok(Pll::B);
        }
    }
    Err("PLL must be \"A\" or \"B\"".to_owned())
}

} // verus!
