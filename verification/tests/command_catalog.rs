use thunderborg::command::Command;

const ALL: [Command; 15] = [
    Command::SetLed,
    Command::GetLed,
    Command::SetMotorAForward,
    Command::SetMotorAReverse,
    Command::GetMotorA,
    Command::SetMotorBForward,
    Command::SetMotorBReverse,
    Command::GetMotorB,
    Command::AllOff,
    Command::GetDriveFaultFlagA,
    Command::GetDriveFaultFlagB,
    Command::SetMotorsForward,
    Command::SetMotorsReverse,
    Command::GetBatteryVoltage,
    Command::GetId,
];

#[test]
fn opcodes_match_the_board_table() {
    let table: [u8; 15] = [
        0x01, 0x02, 0x08, 0x09, 0x0A, 0x0B, 0x0C, 0x0D, 0x0E, 0x0F, 0x10, 0x11, 0x12, 0x15, 0x99,
    ];
    for (command, opcode) in ALL.iter().zip(table.iter()) {
        assert_eq!(command.to_wire(), *opcode);
    }
}

#[test]
fn opcodes_are_distinct() {
    for (i, a) in ALL.iter().enumerate() {
        for (j, b) in ALL.iter().enumerate() {
            assert_eq!(a.to_wire() == b.to_wire(), i == j);
        }
    }
}

#[test]
fn opcodes_are_stable() {
    for command in ALL.iter() {
        assert_eq!(command.to_wire(), command.to_wire());
    }
}

#[test]
fn names_of_the_commands() {
    let names = [
        "SetLed",
        "GetLed",
        "SetMotorAForward",
        "SetMotorAReverse",
        "GetMotorA",
        "SetMotorBForward",
        "SetMotorBReverse",
        "GetMotorB",
        "AllOff",
        "GetDriveFaultFlagA",
        "GetDriveFaultFlagB",
        "SetMotorsForward",
        "SetMotorsReverse",
        "GetBatteryVoltage",
        "GetId",
    ];
    for (command, name) in ALL.iter().zip(names.iter()) {
        assert_eq!(command.name(), *name);
    }
}

#[test]
fn text_is_name_and_opcode_in_hexadecimal() {
    assert_eq!(Command::SetLed.to_string(), "SetLed (0x1)");
    assert_eq!(Command::GetMotorA.to_string(), "GetMotorA (0xa)");
    assert_eq!(Command::SetMotorBForward.to_string(), "SetMotorBForward (0xb)");
    assert_eq!(Command::SetMotorBReverse.to_string(), "SetMotorBReverse (0xc)");
    assert_eq!(Command::AllOff.to_string(), "AllOff (0xe)");
    assert_eq!(Command::GetDriveFaultFlagA.to_string(), "GetDriveFaultFlagA (0xf)");
    assert_eq!(Command::GetDriveFaultFlagB.to_string(), "GetDriveFaultFlagB (0x10)");
    assert_eq!(Command::GetBatteryVoltage.to_string(), "GetBatteryVoltage (0x15)");
    assert_eq!(Command::GetId.to_string(), "GetId (0x99)");
}

#[test]
fn text_agrees_with_the_formatter() {
    for command in ALL.iter() {
        assert_eq!(
            command.to_string(),
            format!("{} (0x{:x})", command.name(), command.to_wire())
        );
    }
}
