//! The protocol controller: what is sent to the board, when an exchange is
//! repeated, and what the board's answers mean.
//!
//! The controller never touches the bus. Every operation is a step function:
//! it is first called with [`Event::Start`] and answers with the
//! [`Action`] to perform; it is then called again with the event that reports
//! how the action went, until it answers [`Step::Done`].
use crate::binary32::{below_zero, is_nan, is_negative, INFINITY};
use crate::command::{opcode, Command};
use crate::frame::{Frame, I2C_MAX_LEN};
use crate::power::{
    clamp_motor_power, clamped, lemma_clamped_in_range, motor_power_to_byte, power_byte,
};
use crate::voltage::{voltage, volts};
use vstd::prelude::*;

verus! {

/// I2C value representing on
pub const I2C_VALUE_ON: u8 = 1;

/// I2C value representing off
pub const I2C_VALUE_OFF: u8 = 0;

/// How often one command is written and its response read before the
/// exchange is given up.
pub const I2C_COMMAND_NUM_ATTEMPTS: usize = 3;

/// The identifier by which a ThunderBorg answers `GetId`.
pub const THUNDERBORG_ID: u8 = 0x15;

/// The address of the board on the bus.
pub const THUNDERBORG_SLAVE_ADDR: u16 = 0x15;

/// The number of the I2C bus that the board is attached to.
pub const THUNDERBORG_BUS: u8 = 1;

/// One response of the board: the opcode it answers, then the payload.
pub type I2CResponse = [u8; I2C_MAX_LEN];

/// Why an operation failed.
#[derive(Clone, Copy, Debug, PartialEq, Eq)]
pub enum ControllerError {
    /// The bus could not be opened.
    TransportUnavailable,
    /// The device that answered the handshake is no ThunderBorg.
    UnexpectedDevice,
    /// A write or a read failed on the bus.
    Io,
    /// No response repeated the opcode of the command, in any attempt.
    EchoMismatch { command: Command },
}

/// What the owner of the bus reports to the controller.
#[derive(Clone, Copy, Debug, PartialEq, Eq)]
pub enum Event {
    /// Nothing was performed yet: the operation begins.
    Start,
    /// The bus was opened, or the frame was written.
    Completed,
    /// The opcode was written and this response was read.
    Frame(I2CResponse),
    /// The action failed on the bus.
    Failed,
}

/// What the controller asks the owner of the bus to do.
#[derive(Debug, PartialEq, Eq)]
pub enum Action {
    /// Open the bus for the device at this address.
    Open { bus: u8, address: u16 },
    /// Write the frame in one transfer.
    Write(Frame),
    /// Write the opcode as a single byte, then read one response of
    /// `I2C_MAX_LEN` bytes.
    Exchange { opcode: u8 },
}

/// An action as contracts see it, with the bytes of a frame written out.
pub enum Request {
    Open { bus: u8, address: u16 },
    Write(Seq<u8>),
    Exchange { opcode: u8 },
}

impl View for Action {
    type V = Request;

    open spec fn view(&self) -> Request {
        match *self {
            Action::Open { bus, address } => Request::Open { bus, address },
            Action::Write(frame) => Request::Write(frame@),
            Action::Exchange { opcode } => Request::Exchange { opcode },
        }
    }
}

/// The answer of an operation to an event.
#[derive(Debug, PartialEq, Eq)]
pub enum Step<T> {
    /// The action to perform next; its result is to be reported to the same
    /// operation.
    Perform(Action),
    /// The operation is over.
    Done(Result<T, ControllerError>),
}

/// A step as contracts see it.
pub enum Outcome<T> {
    Perform(Request),
    Done(Result<T, ControllerError>),
}

impl<T> View for Step<T> {
    type V = Outcome<T>;

    open spec fn view(&self) -> Outcome<T> {
        match *self {
            Step::Perform(action) => Outcome::Perform(action@),
            Step::Done(result) => Outcome::Done(result),
        }
    }
}

/// An exchange that is under way.
#[derive(Clone, Copy, Debug, PartialEq, Eq)]
pub struct Pending {
    /// The command whose response is awaited.
    pub command: Command,
    /// How many attempts are left, the one under way included.
    pub attempts_left: usize,
}

/// The state of an exchange that has just begun.
pub open spec fn fresh(command: Command) -> Pending {
    Pending { command, attempts_left: I2C_COMMAND_NUM_ATTEMPTS }
}

/// The request to write the opcode of `command` and read a response.
pub open spec fn exchange_request(command: Command) -> Request {
    Request::Exchange { opcode: opcode(command) }
}

/// How an exchange for `command` answers an event.
///
/// A failure on the bus ends it at once. A response counts only if an
/// exchange for this very command is under way: one that repeats the opcode
/// is the result; after any other the exchange is repeated while attempts are
/// left, and fails when none is. Every other event begins the exchange.
pub open spec fn exchange_outcome(
    pending: Option<Pending>,
    command: Command,
    event: Event,
) -> Outcome<I2CResponse> {
    match event {
        Event::Failed => Outcome::Done(Err(ControllerError::Io)),
        Event::Frame(response) => match pending {
            Some(exchange) => if exchange.command != command {
                Outcome::Perform(exchange_request(command))
            } else if response[0] == opcode(command) {
                Outcome::Done(Ok(response))
            } else if exchange.attempts_left > 1 {
                Outcome::Perform(exchange_request(command))
            } else {
                Outcome::Done(Err(ControllerError::EchoMismatch { command }))
            },
            None => Outcome::Perform(exchange_request(command)),
        },
        _ => Outcome::Perform(exchange_request(command)),
    }
}

/// The exchange that is under way after an exchange for `command` has
/// answered an event.
pub open spec fn exchange_pending(
    pending: Option<Pending>,
    command: Command,
    event: Event,
) -> Option<Pending> {
    match event {
        Event::Failed => None,
        Event::Frame(response) => match pending {
            Some(exchange) => if exchange.command != command {
                Some(fresh(command))
            } else if response[0] == opcode(command) {
                None
            } else if exchange.attempts_left > 1 {
                Some(Pending { command, attempts_left: (exchange.attempts_left - 1) as usize })
            } else {
                None
            },
            None => Some(fresh(command)),
        },
        _ => Some(fresh(command)),
    }
}

/// How a command without response answers an event: it is over once its frame
/// is written or the write has failed, and asks for the write of the opcode
/// and the arguments otherwise.
pub open spec fn command_outcome(command: Command, data: Seq<u8>, event: Event) -> Outcome<()> {
    match event {
        Event::Completed => Outcome::Done(Ok(())),
        Event::Failed => Outcome::Done(Err(ControllerError::Io)),
        _ => Outcome::Perform(Request::Write(seq![opcode(command)] + data)),
    }
}

/// The command that sets a power: the reverse one below zero, the forward
/// one from zero on.
pub open spec fn motor_direction(forward: Command, reverse: Command, power: u32) -> Command {
    if below_zero(clamped(power)) {
        reverse
    } else {
        forward
    }
}

/// How setting a motor power answers an event.
pub open spec fn motor_outcome(
    forward: Command,
    reverse: Command,
    power: u32,
    event: Event,
) -> Outcome<()> {
    command_outcome(
        motor_direction(forward, reverse, power),
        seq![power_byte(clamped(power)) as u8],
        event,
    )
}

/// The drive fault that a response reports: set unless the flag is off.
pub open spec fn fault_flag(response: I2CResponse) -> bool {
    response[1] != I2C_VALUE_OFF
}

/// How reading a drive fault flag answers an event.
pub open spec fn fault_outcome(pending: Option<Pending>, command: Command, event: Event) -> Outcome<
    bool,
> {
    match exchange_outcome(pending, command, event) {
        Outcome::Perform(request) => Outcome::Perform(request),
        Outcome::Done(Ok(response)) => Outcome::Done(Ok(fault_flag(response))),
        Outcome::Done(Err(error)) => Outcome::Done(Err(error)),
    }
}

/// The reading of the analog pin that a response carries: the high byte,
/// then the low byte.
pub open spec fn battery_reading(response: I2CResponse) -> nat {
    (response[1] * 256 + response[2]) as nat
}

/// How reading the battery voltage answers an event. The voltage is the bit
/// pattern of a binary32 number.
pub open spec fn voltage_outcome(pending: Option<Pending>, event: Event) -> Outcome<u32> {
    match exchange_outcome(pending, Command::GetBatteryVoltage, event) {
        Outcome::Perform(request) => Outcome::Perform(request),
        Outcome::Done(Ok(response)) => Outcome::Done(Ok(volts(battery_reading(response)))),
        Outcome::Done(Err(error)) => Outcome::Done(Err(error)),
    }
}

/// The frame that switches everything off.
pub open spec fn stop_frame() -> Seq<u8> {
    seq![opcode(Command::AllOff), 0u8]
}

/// How far a handshake has come.
pub struct HandshakeState {
    /// Whether the bus has been opened.
    pub opened: bool,
    /// The exchange of the identifier that is under way, if one is.
    pub pending: Option<Pending>,
}

/// The request to open the bus that the board is attached to.
pub open spec fn open_request() -> Request {
    Request::Open { bus: THUNDERBORG_BUS, address: THUNDERBORG_SLAVE_ADDR }
}

/// How the handshake answers an event.
///
/// While the bus is not open, the handshake asks for it to be opened, and
/// fails if that fails. Once it is open, the identifier is exchanged; the
/// handshake gives a controller if the response carries the identifier of a
/// ThunderBorg, and fails if it carries another or the exchange fails.
pub open spec fn init_outcome(state: HandshakeState, event: Event) -> Outcome<Controller> {
    if !state.opened {
        match event {
            Event::Completed => Outcome::Perform(exchange_request(Command::GetId)),
            Event::Failed => Outcome::Done(Err(ControllerError::TransportUnavailable)),
            _ => Outcome::Perform(open_request()),
        }
    } else {
        match exchange_outcome(state.pending, Command::GetId, event) {
            Outcome::Perform(request) => Outcome::Perform(request),
            Outcome::Done(Ok(response)) => if response[1] == THUNDERBORG_ID {
                Outcome::Done(Ok(Controller::idle()))
            } else {
                Outcome::Done(Err(ControllerError::UnexpectedDevice))
            },
            Outcome::Done(Err(error)) => Outcome::Done(Err(error)),
        }
    }
}

/// How far the handshake has come after it has answered an event. A
/// handshake that gave a controller starts over: the bus now belongs to the
/// controller.
pub open spec fn init_state(state: HandshakeState, event: Event) -> HandshakeState {
    if !state.opened {
        match event {
            Event::Completed => HandshakeState {
                opened: true,
                pending: Some(fresh(Command::GetId)),
            },
            _ => HandshakeState { opened: false, pending: None },
        }
    } else if init_outcome(state, event) matches Outcome::Done(Ok(_)) {
        HandshakeState { opened: false, pending: None }
    } else {
        HandshakeState {
            opened: true,
            pending: exchange_pending(state.pending, Command::GetId, event),
        }
    }
}

/// The course of an exchange whose cycles the board answers with
/// `responses`, first to last: how many of them are read, and the outcome
/// after the last one that is read.
pub open spec fn exchange_course(
    pending: Option<Pending>,
    command: Command,
    responses: Seq<I2CResponse>,
) -> (nat, Outcome<I2CResponse>)
    decreases responses.len(),
{
    if responses.len() == 0 {
        (0, Outcome::Perform(exchange_request(command)))
    } else {
        let event = Event::Frame(responses[0]);
        let outcome = exchange_outcome(pending, command, event);
        match outcome {
            Outcome::Done(_) => (1, outcome),
            Outcome::Perform(_) => {
                let rest = exchange_course(
                    exchange_pending(pending, command, event),
                    command,
                    responses.skip(1),
                );
                (rest.0 + 1, rest.1)
            },
        }
    }
}

/// A session with a board that has identified itself as a ThunderBorg.
///
/// There is no other way to a `Controller` than a handshake that succeeded,
/// see [`Controller::new`].
#[derive(Debug, PartialEq, Eq)]
pub struct Controller {
    pending: Option<Pending>,
}

impl View for Controller {
    type V = Option<Pending>;

    /// The exchange that is under way, if one is.
    closed spec fn view(&self) -> Option<Pending> {
        self.pending
    }
}

/// A handshake: the way to a [`Controller`].
#[derive(Debug)]
pub struct Handshake {
    opened: bool,
    session: Controller,
}

impl View for Handshake {
    type V = HandshakeState;

    closed spec fn view(&self) -> HandshakeState {
        HandshakeState { opened: self.opened, pending: self.session.pending }
    }
}

impl Handshake {
    /// A handshake in which nothing has happened yet.
    pub fn new() -> (handshake: Handshake)
        ensures
            handshake@ == (HandshakeState { opened: false, pending: None }),
    {
        Handshake { opened: false, session: Controller { pending: None } }
    }

    /// Ends a handshake that gave no controller. If the bus was opened, the
    /// frame that switches everything off is to be written to it, once and
    /// whether or not the write succeeds.
    pub fn close(self) -> (frame: Option<Frame>)
        ensures
            match frame {
                Some(bytes) => self@.opened && bytes@ == stop_frame(),
                None => !self@.opened,
            },
    {
        if self.opened {
            Some(self.session.close())
        } else {
            None
        }
    }
}

impl Controller {
    /// The controller in which no exchange is under way.
    pub closed spec fn idle() -> Controller {
        Controller { pending: None }
    }

    /// Sets up the session with the board: opens the bus, asks the device for
    /// its identifier and checks that it is a ThunderBorg.
    pub fn new(handshake: &mut Handshake, event: Event) -> (step: Step<Controller>)
        ensures
            step@ == init_outcome(old(handshake)@, event),
            final(handshake)@ == init_state(old(handshake)@, event),
            step matches Step::Done(Ok(controller)) ==> controller@ is None,
    {
        let event = if handshake.opened {
            event
        } else {
            match event {
                Event::Completed => {
                    handshake.opened = true;
                    Event::Start
                },
                Event::Failed => {
                    handshake.session.pending = None;
                    return Step::Done(Err(ControllerError::TransportUnavailable));
                },
                _ => {
                    handshake.session.pending = None;
                    return Step::Perform(
                        Action::Open { bus: THUNDERBORG_BUS, address: THUNDERBORG_SLAVE_ADDR },
                    );
                },
            }
        };
        match handshake.session.command_with_response(Command::GetId, event) {
            Step::Perform(action) => Step::Perform(action),
            Step::Done(Ok(response)) => {
                if response[1] == THUNDERBORG_ID {
                    handshake.opened = false;
                    Step::Done(Ok(Controller { pending: None }))
                } else {
                    Step::Done(Err(ControllerError::UnexpectedDevice))
                }
            },
            Step::Done(Err(error)) => Step::Done(Err(error)),
        }
    }

    /// Ends the session. The frame that switches everything off is to be
    /// written to the bus, once and whether or not the write succeeds: the
    /// session is over either way.
    pub fn close(self) -> (frame: Frame)
        ensures
            frame@ == stop_frame(),
    {
        let data = [0u8];
        assert(data@ =~= seq![0u8]);
        let frame = Frame::encode(Command::AllOff.to_wire(), &data);
        assert(frame@ =~= stop_frame());
        frame
    }

    /// Runs a command without response, `data` being its arguments.
    pub fn command(&mut self, command: Command, data: &[u8], event: Event) -> (step: Step<()>)
        requires
            data@.len() < I2C_MAX_LEN,
        ensures
            step@ == command_outcome(command, data@, event),
            final(self)@ is None,
    {
        self.pending = None;
        match event {
            Event::Completed => Step::Done(Ok(())),
            Event::Failed => Step::Done(Err(ControllerError::Io)),
            _ => Step::Perform(Action::Write(Frame::encode(command.to_wire(), data))),
        }
    }

    /// Runs a command and obtains the response to it.
    pub fn command_with_response(&mut self, command: Command, event: Event) -> (step: Step<
        I2CResponse,
    >)
        ensures
            step@ == exchange_outcome(old(self)@, command, event),
            final(self)@ == exchange_pending(old(self)@, command, event),
    {
        let wire_command = command.to_wire();
        let mut attempt: usize = I2C_COMMAND_NUM_ATTEMPTS;
        match event {
            Event::Failed => {
                self.pending = None;
                return Step::Done(Err(ControllerError::Io));
            },
            Event::Frame(response) => {
                if let Some(exchange) = self.pending {
                    if exchange.command == command {
                        if response[0] == wire_command {
                            self.pending = None;
                            return Step::Done(Ok(response));
                        }
                        if exchange.attempts_left <= 1 {
                            self.pending = None;
                            return Step::Done(Err(ControllerError::EchoMismatch { command }));
                        }
                        attempt = exchange.attempts_left - 1;
                    }
                }
            },
            _ => {},
        }
        self.pending = Some(Pending { command, attempts_left: attempt });
        Step::Perform(Action::Exchange { opcode: wire_command })
    }

    /// Sets a motor power with the forward or the reverse command.
    pub fn motor_command(
        &mut self,
        forward_command: Command,
        reverse_command: Command,
        power: u32,
        event: Event,
    ) -> (step: Step<()>)
        requires
            !is_nan(power),
        ensures
            step@ == motor_outcome(forward_command, reverse_command, power, event),
            final(self)@ is None,
    {
        proof {
            lemma_clamped_in_range(power);
        }
        let power = clamp_motor_power(power);
        let power_bytes = [motor_power_to_byte(power)];
        assert(power_bytes@ =~= seq![power_bytes[0]]);
        if is_negative(power) {
            self.command(reverse_command, &power_bytes, event)
        } else {
            self.command(forward_command, &power_bytes, event)
        }
    }

    /// Sets the colour of the LED.
    pub fn set_led(&mut self, red: u8, green: u8, blue: u8, event: Event) -> (step: Step<()>)
        ensures
            step@ == command_outcome(Command::SetLed, seq![red, green, blue], event),
            final(self)@ is None,
    {
        let colour = [red, green, blue];
        assert(colour@ =~= seq![red, green, blue]);
        self.command(Command::SetLed, &colour, event)
    }

    /// Sets the power of both motors. `power` is the bit pattern of a
    /// binary32 number.
    pub fn set_motors(&mut self, power: u32, event: Event) -> (step: Step<()>)
        requires
            !is_nan(power),
        ensures
            step@ == motor_outcome(
                Command::SetMotorsForward,
                Command::SetMotorsReverse,
                power,
                event,
            ),
            final(self)@ is None,
    {
        self.motor_command(Command::SetMotorsForward, Command::SetMotorsReverse, power, event)
    }

    /// Sets the power of motor A.
    pub fn set_motor_a(&mut self, power: u32, event: Event) -> (step: Step<()>)
        requires
            !is_nan(power),
        ensures
            step@ == motor_outcome(
                Command::SetMotorAForward,
                Command::SetMotorAReverse,
                power,
                event,
            ),
            final(self)@ is None,
    {
        self.motor_command(Command::SetMotorAForward, Command::SetMotorAReverse, power, event)
    }

    /// Sets the power of motor B.
    pub fn set_motor_b(&mut self, power: u32, event: Event) -> (step: Step<()>)
        requires
            !is_nan(power),
        ensures
            step@ == motor_outcome(
                Command::SetMotorBForward,
                Command::SetMotorBReverse,
                power,
                event,
            ),
            final(self)@ is None,
    {
        self.motor_command(Command::SetMotorBForward, Command::SetMotorBReverse, power, event)
    }

    /// Reads the drive fault flag of motor A.
    pub fn get_drive_fault_a(&mut self, event: Event) -> (step: Step<bool>)
        ensures
            step@ == fault_outcome(old(self)@, Command::GetDriveFaultFlagA, event),
            final(self)@ == exchange_pending(old(self)@, Command::GetDriveFaultFlagA, event),
    {
        match self.command_with_response(Command::GetDriveFaultFlagA, event) {
            Step::Perform(action) => Step::Perform(action),
            Step::Done(Ok(response)) => Step::Done(Ok(response[1] != I2C_VALUE_OFF)),
            Step::Done(Err(error)) => Step::Done(Err(error)),
        }
    }

    /// Reads the drive fault flag of motor B.
    pub fn get_drive_fault_b(&mut self, event: Event) -> (step: Step<bool>)
        ensures
            step@ == fault_outcome(old(self)@, Command::GetDriveFaultFlagB, event),
            final(self)@ == exchange_pending(old(self)@, Command::GetDriveFaultFlagB, event),
    {
        match self.command_with_response(Command::GetDriveFaultFlagB, event) {
            Step::Perform(action) => Step::Perform(action),
            Step::Done(Ok(response)) => Step::Done(Ok(response[1] != I2C_VALUE_OFF)),
            Step::Done(Err(error)) => Step::Done(Err(error)),
        }
    }

    /// Reads the battery voltage, as the bit pattern of a binary32 number
    /// of volts.
    pub fn get_battery_voltage(&mut self, event: Event) -> (step: Step<u32>)
        ensures
            step@ == voltage_outcome(old(self)@, event),
            final(self)@ == exchange_pending(old(self)@, Command::GetBatteryVoltage, event),
            step matches Step::Done(Ok(bits)) ==> bits < INFINITY,
    {
        match self.command_with_response(Command::GetBatteryVoltage, event) {
            Step::Perform(action) => Step::Perform(action),
            Step::Done(Ok(voltage_bytes)) => {
                let high: u16 = voltage_bytes[1] as u16;
                assert(high << 8 == high * 256) by (bit_vector)
                    requires
                        high < 256,
                ;
                let raw_voltage: u16 = (high << 8) + (voltage_bytes[2] as u16);
                Step::Done(Ok(voltage(raw_voltage)))
            },
            Step::Done(Err(error)) => Step::Done(Err(error)),
        }
    }

    /// Switches everything off.
    pub fn stop(&mut self, event: Event) -> (step: Step<()>)
        ensures
            step@ == command_outcome(Command::AllOff, seq![0u8], event),
            final(self)@ is None,
    {
        let data = [0u8];
        assert(data@ =~= seq![0u8]);
        self.command(Command::AllOff, &data, event)
    }
}

/// An exchange is over after at most `I2C_COMMAND_NUM_ATTEMPTS` cycles,
/// whatever the board answers. It ends with the first response that repeats
/// the opcode, which is its result; if none of them does, it ends after
/// exactly that many cycles, with `EchoMismatch`.
pub proof fn lemma_exchange_attempts(command: Command, responses: Seq<I2CResponse>)
    requires
        responses.len() >= I2C_COMMAND_NUM_ATTEMPTS,
    ensures
        ({
            let (cycles, outcome) = exchange_course(Some(fresh(command)), command, responses);
            &&& 1 <= cycles <= I2C_COMMAND_NUM_ATTEMPTS
            &&& forall|i: int| 0 <= i < cycles - 1 ==> responses[i][0] != opcode(command)
            &&& if responses[cycles - 1][0] == opcode(command) {
                outcome == Outcome::Done(Ok(responses[cycles - 1]))
            } else {
                &&& cycles == I2C_COMMAND_NUM_ATTEMPTS
                &&& outcome == Outcome::<I2CResponse>::Done(
                    Err(ControllerError::EchoMismatch { command }),
                )
            }
        }),
{
    reveal_with_fuel(exchange_course, 4);
    assert(responses.skip(1)[0] == responses[1]);
    assert(responses.skip(1).skip(1)[0] == responses[2]);
}

/// A failure on the bus is never repeated: it ends the operation at once.
pub proof fn lemma_failure_is_final(pending: Option<Pending>, command: Command, data: Seq<u8>)
    ensures
        exchange_outcome(pending, command, Event::Failed) == Outcome::<I2CResponse>::Done(
            Err(ControllerError::Io),
        ),
        exchange_pending(pending, command, Event::Failed) is None,
        command_outcome(command, data, Event::Failed) == Outcome::<()>::Done(
            Err(ControllerError::Io),
        ),
{
}

/// A handshake gives a controller only on a response that repeats the
/// opcode of `GetId` and carries the identifier of a ThunderBorg; on a
/// response that repeats the opcode and carries another identifier it fails
/// with `UnexpectedDevice`.
pub proof fn lemma_handshake_checks_identifier(state: HandshakeState, event: Event)
    ensures
        init_outcome(state, event) matches Outcome::Done(Ok(_)) ==> {
            &&& state.opened
            &&& state.pending matches Some(exchange)
            &&& exchange.command == Command::GetId
            &&& event matches Event::Frame(response)
            &&& response[0] == opcode(Command::GetId)
            &&& response[1] == THUNDERBORG_ID
        },
        state.opened && state.pending == Some(fresh(Command::GetId)) ==> forall|
            response: I2CResponse,
        |
            response[0] == opcode(Command::GetId) && response[1] != THUNDERBORG_ID ==> (
            #[trigger] init_outcome(state, Event::Frame(response)))
                == Outcome::<Controller>::Done(Err(ControllerError::UnexpectedDevice)),
{
}

} // verus!
