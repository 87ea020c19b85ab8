//! The commands that the board understands and their encoding on the wire.
use vstd::prelude::*;
use vstd::string::StringExecFns;

verus! {

/// An operation of the board. Each one is sent as a single opcode byte,
/// followed by the operation's arguments, if it has any.
#[derive(Clone, Copy, Debug, PartialEq, Eq, Structural)]
pub enum Command {
    /// Set the colour of the ThunderBorg LED
    SetLed,
    /// Get the colour of the ThunderBorg LED
    GetLed,
    /// Set motor A PWM rate in a forwards direction
    SetMotorAForward,
    /// Set motor A PWM rate in a reverse direction
    SetMotorAReverse,
    /// Get motor A direction and PWM rate
    GetMotorA,
    /// Set motor B PWM rate in a forwards direction
    SetMotorBForward,
    /// Set motor B PWM rate in a reverse direction
    SetMotorBReverse,
    /// Get motor B direction and PWM rate
    GetMotorB,
    /// Switch everything off
    AllOff,
    /// Get the drive fault flag for motor A, indicates faults such as
    /// short-circuits and under voltage
    GetDriveFaultFlagA,
    /// Get the drive fault flag for motor B, indicates faults such as
    /// short-circuits and under voltage
    GetDriveFaultFlagB,
    /// Set all motors PWM rate in a forwards direction
    SetMotorsForward,
    /// Set all motors PWM rate in a reverse direction
    SetMotorsReverse,
    /// Get the battery voltage reading
    GetBatteryVoltage,
    /// Get the board identifier
    GetId,
}

/// The opcode byte that stands for `command` on the wire.
pub open spec fn opcode(command: Command) -> u8 {
    match command {
        Command::SetLed => 0x01,
        Command::GetLed => 0x02,
        Command::SetMotorAForward => 0x08,
        Command::SetMotorAReverse => 0x09,
        Command::GetMotorA => 0x0A,
        Command::SetMotorBForward => 0x0B,
        Command::SetMotorBReverse => 0x0C,
        Command::GetMotorB => 0x0D,
        Command::AllOff => 0x0E,
        Command::GetDriveFaultFlagA => 0x0F,
        Command::GetDriveFaultFlagB => 0x10,
        Command::SetMotorsForward => 0x11,
        Command::SetMotorsReverse => 0x12,
        Command::GetBatteryVoltage => 0x15,
        Command::GetId => 0x99,
    }
}

/// The name under which `command` appears in diagnostics.
pub open spec fn display_name(command: Command) -> Seq<char> {
    match command {
        Command::SetLed => "SetLed"@,
        Command::GetLed => "GetLed"@,
        Command::SetMotorAForward => "SetMotorAForward"@,
        Command::SetMotorAReverse => "SetMotorAReverse"@,
        Command::GetMotorA => "GetMotorA"@,
        Command::SetMotorBForward => "SetMotorBForward"@,
        Command::SetMotorBReverse => "SetMotorBReverse"@,
        Command::GetMotorB => "GetMotorB"@,
        Command::AllOff => "AllOff"@,
        Command::GetDriveFaultFlagA => "GetDriveFaultFlagA"@,
        Command::GetDriveFaultFlagB => "GetDriveFaultFlagB"@,
        Command::SetMotorsForward => "SetMotorsForward"@,
        Command::SetMotorsReverse => "SetMotorsReverse"@,
        Command::GetBatteryVoltage => "GetBatteryVoltage"@,
        Command::GetId => "GetId"@,
    }
}

/// The lower-case hexadecimal digit for a value below sixteen.
pub open spec fn hex_digit(nibble: u8) -> Seq<char> {
    if nibble == 0 {
        "0"@
    } else if nibble == 1 {
        "1"@
    } else if nibble == 2 {
        "2"@
    } else if nibble == 3 {
        "3"@
    } else if nibble == 4 {
        "4"@
    } else if nibble == 5 {
        "5"@
    } else if nibble == 6 {
        "6"@
    } else if nibble == 7 {
        "7"@
    } else if nibble == 8 {
        "8"@
    } else if nibble == 9 {
        "9"@
    } else if nibble == 10 {
        "a"@
    } else if nibble == 11 {
        "b"@
    } else if nibble == 12 {
        "c"@
    } else if nibble == 13 {
        "d"@
    } else if nibble == 14 {
        "e"@
    } else {
        "f"@
    }
}

/// A byte in lower-case hexadecimal, without leading zeros.
pub open spec fn hex(byte: u8) -> Seq<char> {
    if byte < 16 {
        hex_digit(byte)
    } else {
        hex_digit(byte / 16) + hex_digit(byte % 16)
    }
}

/// What diagnostics print for `command`: its name, then its opcode in
/// hexadecimal inside round brackets.
pub open spec fn description(command: Command) -> Seq<char> {
    display_name(command) + " (0x"@ + hex(opcode(command)) + ")"@
}

fn hex_digit_str(nibble: u8) -> (digit: &'static str)
    ensures
        digit@ == hex_digit(nibble),
{
    if nibble == 0 {
        "0"
    } else if nibble == 1 {
        "1"
    } else if nibble == 2 {
        "2"
    } else if nibble == 3 {
        "3"
    } else if nibble == 4 {
        "4"
    } else if nibble == 5 {
        "5"
    } else if nibble == 6 {
        "6"
    } else if nibble == 7 {
        "7"
    } else if nibble == 8 {
        "8"
    } else if nibble == 9 {
        "9"
    } else if nibble == 10 {
        "a"
    } else if nibble == 11 {
        "b"
    } else if nibble == 12 {
        "c"
    } else if nibble == 13 {
        "d"
    } else if nibble == 14 {
        "e"
    } else {
        "f"
    }
}

impl Command {
    /// The opcode byte of this command.
    #[inline]
    pub fn to_wire(&self) -> (byte: u8)
        ensures
            byte == opcode(*self),
    {
        match *self {
            Command::SetLed => 1,
            Command::GetLed => 2,
            Command::SetMotorAForward => 8,
            Command::SetMotorAReverse => 9,
            Command::GetMotorA => 10,
            Command::SetMotorBForward => 11,
            Command::SetMotorBReverse => 12,
            Command::GetMotorB => 13,
            Command::AllOff => 14,
            Command::GetDriveFaultFlagA => 15,
            Command::GetDriveFaultFlagB => 16,
            Command::SetMotorsForward => 17,
            Command::SetMotorsReverse => 18,
            Command::GetBatteryVoltage => 21,
            Command::GetId => 0x99,
        }
    }

    /// The name of this command in diagnostics.
    pub fn name(&self) -> (name: &'static str)
        ensures
            name@ == display_name(*self),
    {
        match *self {
            Command::SetLed => "SetLed",
            Command::GetLed => "GetLed",
            Command::SetMotorAForward => "SetMotorAForward",
            Command::SetMotorAReverse => "SetMotorAReverse",
            Command::GetMotorA => "GetMotorA",
            Command::SetMotorBForward => "SetMotorBForward",
            Command::SetMotorBReverse => "SetMotorBReverse",
            Command::GetMotorB => "GetMotorB",
            Command::AllOff => "AllOff",
            Command::GetDriveFaultFlagA => "GetDriveFaultFlagA",
            Command::GetDriveFaultFlagB => "GetDriveFaultFlagB",
            Command::SetMotorsForward => "SetMotorsForward",
            Command::SetMotorsReverse => "SetMotorsReverse",
            Command::GetBatteryVoltage => "GetBatteryVoltage",
            Command::GetId => "GetId",
        }
    }

    /// The text that diagnostics print for this command, such as
    /// `GetId (0x99)`.
    pub fn to_string(&self) -> (text: String)
        ensures
            text@ == description(*self),
    {
        let byte: u8 = self.to_wire();
        let mut text = String::from_str(self.name());
        text.append(" (0x");
        if byte >= 16 {
            text.append(hex_digit_str(byte / 16));
            text.append(hex_digit_str(byte % 16));
        } else {
            text.append(hex_digit_str(byte));
        }
        text.append(")");
        assert(text@ =~= description(*self));
        text
    }
}

/// No two commands share an opcode: whoever reads an opcode knows the
/// command.
pub proof fn lemma_opcode_injective(a: Command, b: Command)
    requires
        opcode(a) == opcode(b),
    ensures
        a == b,
{
}

} // verus!
