//! The GPIO operator: which lines to acquire, with which flags, and the
//! table of the lines that were acquired, by role.

use vstd::prelude::*;
use crate::config::{
    GpioConfig,
    GpioPinConfig,
    GpioPinDirection,
    GpioPinDrive,
    GpioPinFunction,
    GpioPinLevel,
};
use crate::gpiod::GpioPin;

verus! {

/// Line flag: the line is an input.
pub const GPIO_V2_LINE_FLAG_INPUT: u64 = 0x04;

/// Line flag: the line is an output.
pub const GPIO_V2_LINE_FLAG_OUTPUT: u64 = 0x08;

/// Line flag: the output is open drain.
pub const GPIO_V2_LINE_FLAG_OPEN_DRAIN: u64 = 0x40;

/// What to ask the kernel for in order to acquire one line.
#[derive(Clone, Copy, Debug)]
pub struct LineRequest {
    /// The line to acquire.
    pub pin: GpioPin,
    /// Direction and drive, as line flags.
    pub flags: u64,
    /// The value that the line's output starts with: 0 or 1.
    pub initial_value: u64,
    /// The role under which the acquired line is kept.
    pub function: GpioPinFunction,
}

/// Why a pin of the configuration is left out.
#[derive(Clone, Copy, Debug, PartialEq, Eq, Structural)]
pub enum PinSkip {
    /// The pin's entry could not be read.
    InvalidConfig,
    /// The pin names a chip that was not found.
    InvalidChip,
}

/// The flag of a direction.
pub open spec fn direction_flag(direction: GpioPinDirection) -> u64 {
    match direction {
        GpioPinDirection::In => GPIO_V2_LINE_FLAG_INPUT,
        GpioPinDirection::Out => GPIO_V2_LINE_FLAG_OUTPUT,
    }
}

/// The flag of a drive mode. Push-pull, which is also the mode of a pin that
/// names none, sets no flag.
pub open spec fn drive_flag(drive: Option<GpioPinDrive>) -> u64 {
    match drive {
        Some(GpioPinDrive::OpenDrain) => GPIO_V2_LINE_FLAG_OPEN_DRAIN,
        _ => 0,
    }
}

/// The line flags of a pin: its direction, and open drain where configured.
/// The two never share a bit, so the flags are their sum.
pub open spec fn line_flags_of(config: GpioPinConfig) -> u64 {
    (direction_flag(config.direction) + drive_flag(config.drive)) as u64
}

/// The value that a pin's output starts with: 1 for high, 0 for low and for a
/// pin that names no level.
pub open spec fn initial_value_of(config: GpioPinConfig) -> u64 {
    match config.initial_level {
        Some(GpioPinLevel::High) => 1,
        _ => 0,
    }
}

/// What becomes of one entry of the pin table when `chip_count` chips were
/// found: an entry that could not be read is skipped, then one whose chip is
/// out of range; any other is acquired.
pub open spec fn planned(config: Option<GpioPinConfig>, chip_count: usize) -> Result<
    LineRequest,
    PinSkip,
> {
    match config {
        None => Err(PinSkip::InvalidConfig),
        Some(c) => if c.chip >= chip_count {
            Err(PinSkip::InvalidChip)
        } else {
            Ok(
                LineRequest {
                    pin: GpioPin { chip: c.chip, offset: c.offset },
                    flags: line_flags_of(c),
                    initial_value: initial_value_of(c),
                    function: c.function,
                },
            )
        },
    }
}

/// The line flags of a pin.
pub fn line_flags(config: &GpioPinConfig) -> (flags: u64)
    ensures
        flags == line_flags_of(*config),
{
    let mut flags: u64 = match config.direction {
        GpioPinDirection::In => GPIO_V2_LINE_FLAG_INPUT,
        GpioPinDirection::Out => GPIO_V2_LINE_FLAG_OUTPUT,
    };
    if let Some(drive) = config.drive {
        match drive {
            GpioPinDrive::OpenDrain => {
                flags = flags + GPIO_V2_LINE_FLAG_OPEN_DRAIN;
            },
            GpioPinDrive::PushPull => {},
        }
    }
    flags
}

/// The value that a pin's output starts with.
pub fn initial_value(config: &GpioPinConfig) -> (value: u64)
    ensures
        value == initial_value_of(*config),
{
    match config.initial_level {
        Some(GpioPinLevel::High) => 1,
        _ => 0,
    }
}

/// Decides what becomes of one entry of the pin table when `chip_count` chips
/// were found.
pub fn plan_pin(config: &Option<GpioPinConfig>, chip_count: usize) -> (plan: Result<
    LineRequest,
    PinSkip,
>)
    ensures
        plan == planned(*config, chip_count),
{
    match config {
        None => Err(PinSkip::InvalidConfig),
        Some(c) => {
            if c.chip as usize >= chip_count {
                Err(PinSkip::InvalidChip)
            } else {
                Ok(
                    LineRequest {
                        pin: GpioPin { chip: c.chip, offset: c.offset },
                        flags: line_flags(c),
                        initial_value: initial_value(c),
                        function: c.function,
                    },
                )
            }
        },
    }
}

/// Decides for every entry of the pin table, in the table's order, what
/// becomes of it. Without a configuration there is nothing to acquire.
pub fn plan_lines(config: Option<&GpioConfig>, chip_count: usize) -> (plans: Vec<
    Result<LineRequest, PinSkip>,
>)
    ensures
        config is None ==> plans@.len() == 0,
        config matches Some(c) ==> plans@.len() == c.pins@.len() && forall|i: int|
            0 <= i < c.pins@.len() ==> plans@[i] == planned(c.pins@[i].config, chip_count),
{
    let mut plans: Vec<Result<LineRequest, PinSkip>> = Vec::new();
    if let Some(c) = config {
        let mut i: usize = 0;
        while i < c.pins.len()
            invariant
                i <= c.pins@.len(),
                plans@.len() == i,
                forall|k: int| 0 <= k < i ==> plans@[k] == planned(c.pins@[k].config, chip_count),
            decreases c.pins@.len() - i,
        {
            plans.push(plan_pin(&c.pins[i].config, chip_count));
            i += 1;
        }
    }
    plans
}

/// A reset line: the name it was configured under and its handle.
struct ResetLine {
    name: String,
    line: i32,
}

/// Whether some reset line bears `name`.
spec fn named(lines: Seq<ResetLine>, name: Seq<char>) -> bool {
    exists|i: int| 0 <= i < lines.len() && #[trigger] lines[i].name@ == name
}

/// Where the reset line that bears `name` stands.
spec fn position(lines: Seq<ResetLine>, name: Seq<char>) -> int {
    choose|i: int| 0 <= i < lines.len() && #[trigger] lines[i].name@ == name
}

/// The lines that the operator holds.
pub struct OperatorView {
    /// The reset lines, by the name they were configured under.
    pub reset_lines: Map<Seq<char>, i32>,
    /// The blink lines, in the order in which they were acquired.
    pub blink_lines: Seq<i32>,
}

/// The acquired lines, each under one of the two roles. A line is known by
/// its handle, a number that the owner of the hardware handles gave it.
pub struct Operator {
    ext_reset_lines: Vec<ResetLine>,
    blink_lines: Vec<i32>,
}

impl View for Operator {
    type V = OperatorView;

    closed spec fn view(&self) -> OperatorView {
        OperatorView {
            reset_lines: Map::new(
                |name: Seq<char>| named(self.ext_reset_lines@, name),
                |name: Seq<char>| self.ext_reset_lines@[position(self.ext_reset_lines@, name)].line,
            ),
            blink_lines: self.blink_lines@,
        }
    }
}

impl Operator {
    /// No two reset lines bear the same name.
    pub closed spec fn wf(&self) -> bool {
        forall|i: int, j: int|
            #![trigger self.ext_reset_lines@[i], self.ext_reset_lines@[j]]
            0 <= i < j < self.ext_reset_lines@.len() ==> self.ext_reset_lines@[i].name@
                != self.ext_reset_lines@[j].name@
    }

    /// An operator that holds no line.
    pub fn new() -> (operator: Self)
        ensures
            operator.wf(),
            operator@.reset_lines == Map::<Seq<char>, i32>::empty(),
            operator@.blink_lines == Seq::<i32>::empty(),
    {
        Operator { ext_reset_lines: Vec::new(), blink_lines: Vec::new() }
    }

    /// Where the reset line that bears `name` stands in the table, if any does.
    fn find(&self, name: &String) -> (found: Option<usize>)
        requires
            self.wf(),
        ensures
            found is None <==> !named(self.ext_reset_lines@, name@),
            found matches Some(i) ==> i < self.ext_reset_lines@.len()
                && self.ext_reset_lines@[i as int].name@ == name@ && i == position(
                self.ext_reset_lines@,
                name@,
            ),
    {
        let mut i: usize = 0;
        while i < self.ext_reset_lines.len()
            invariant
                self.wf(),
                i <= self.ext_reset_lines@.len(),
                forall|k: int| 0 <= k < i ==> self.ext_reset_lines@[k].name@ != name@,
            decreases self.ext_reset_lines@.len() - i,
        {
            if self.ext_reset_lines[i].name == *name {
                proof {
                    let p = position(self.ext_reset_lines@, name@);
                    assert(0 <= p < self.ext_reset_lines@.len() && self.ext_reset_lines@[p].name@
                        == name@);
                }
                return Some(i);
            }
            i += 1;
        }
        None
    }

    /// The handle of the reset line that was configured under `name`.
    pub fn lookup(&self, name: &String) -> (line: Option<i32>)
        requires
            self.wf(),
        ensures
            line == (if self@.reset_lines.contains_key(name@) {
                Some(self@.reset_lines[name@])
            } else {
                None
            }),
    {
        match self.find(name) {
            Some(i) => Some(self.ext_reset_lines[i].line),
            None => None,
        }
    }

    /// The handles of the blink lines.
    pub fn blink_lines(&self) -> (lines: &Vec<i32>)
        ensures
            lines@ == self@.blink_lines,
    {
        &self.blink_lines
    }

    /// Keeps an acquired line under its role. A reset line is kept under the
    /// name it was configured under, in place of any line kept under that name
    /// before; a blink line joins the others.
    pub fn install(&mut self, name: String, function: GpioPinFunction, line: i32)
        requires
            old(self).wf(),
        ensures
            final(self).wf(),
            function == GpioPinFunction::ExtReset ==> final(self)@.reset_lines == old(
                self,
            )@.reset_lines.insert(name@, line) && final(self)@.blink_lines == old(self)@.blink_lines,
            function == GpioPinFunction::LivenessBlink ==> final(self)@.reset_lines == old(
                self,
            )@.reset_lines && final(self)@.blink_lines == old(self)@.blink_lines.push(line),
    {
        match function {
            GpioPinFunction::LivenessBlink => {
                self.blink_lines.push(line);
            },
            GpioPinFunction::ExtReset => {
                let ghost before = self.ext_reset_lines@;
                let ghost key = name@;
                match self.find(&name) {
                    Some(i) => {
                        self.ext_reset_lines.set(i, ResetLine { name, line });
                    },
                    None => {
                        self.ext_reset_lines.push(ResetLine { name, line });
                    },
                }
                proof {
                    let after = self.ext_reset_lines@;
                    assert forall|n: Seq<char>| named(after, n) <==> (n == key || named(
                        before,
                        n,
                    )) by {
                        if named(before, n) {
                            let p = position(before, n);
                            assert(after[p].name@ == n);
                        }
                        if n == key {
                            let p = if named(before, key) {
                                position(before, key)
                            } else {
                                before.len() as int
                            };
                            assert(after[p].name@ == n);
                        }
                        if named(after, n) && n != key {
                            let p = position(after, n);
                            assert(before[p].name@ == n);
                        }
                    }
                    assert forall|n: Seq<char>| named(after, n) implies after[position(
                        after,
                        n,
                    )].line == (if n == key {
                        line
                    } else {
                        before[position(before, n)].line
                    }) by {
                        let p = position(after, n);
                        if n == key {
                            let q = if named(before, key) {
                                position(before, key)
                            } else {
                                before.len() as int
                            };
                            assert(after[q].name@ == key);
                            assert(p == q);
                        } else {
                            assert(before[p].name@ == n);
                            let q = position(before, n);
                            assert(after[q].name@ == n);
                            assert(p == q);
                        }
                    }
                }
            },
        }
    }
}

} // verus!
