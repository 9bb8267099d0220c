//! Device layer: the constants of the wire protocol, the commands and their
//! frames, and the locator that picks the panels out of the serial ports of the
//! host.
use vstd::prelude::*;
use crate::device::led_matrix::{LedMatrix, PatternId};
use crate::error::{LedMatrixError, SerialError};

pub mod bitmap;
pub mod led_matrix;
pub mod matrix_ops;
pub mod util;

verus! {

/// USB vendor id of a panel.
pub const FRAMEWORK_VID: u16 = 0x32AC;

/// USB product id of a panel.
pub const LED_MATRIX_PID: u16 = 0x0020;

/// Time, in milliseconds, after which a write on the port gives up.
pub const SERIAL_TIMEOUT_MS: u64 = 20;

/// Speed of the serial link.
pub const BAUD_RATE: u32 = 115_200;

/// Number of columns of the panel.
pub const LED_MATRIX_WIDTH: usize = 9;

/// Number of rows of the panel.
pub const LED_MATRIX_HEIGHT: usize = 34;

/// Size of the buffer in which a frame is assembled.
pub const COMMAND_BUFFER_SIZE: usize = 64;

/// Number of bytes that hold one bit per cell of the panel.
pub const MATRIX_BUFFER_SIZE: usize = (LED_MATRIX_WIDTH * LED_MATRIX_HEIGHT + 7) / 8;

/// Number of bytes of a frame before its payload: the magic and the command code.
pub const FRAME_HEADER_SIZE: usize = 3;

/// The two bytes that open every frame.
pub const FWK_MAGIC: [u8; 2] = [0x32, 0xAC];

/// A command of the device, with the payload that its kind fixes.
#[derive(Debug, Clone, Copy, PartialEq, Eq)]
pub enum Command {
    /// Sets the brightness to a raw level; the device does any clamping.
    Brightness(u8),
    /// Selects a built-in pattern by its id.
    Pattern(PatternId),
    /// Shows a packed black-and-white image.
    DisplayBwImage([u8; MATRIX_BUFFER_SIZE]),
}

impl Command {
    /// Code of the command on the wire.
    pub open spec fn spec_code(&self) -> u8 {
        match self {
            Command::Brightness(_) => 0x00,
            Command::Pattern(_) => 0x01,
            Command::DisplayBwImage(_) => 0x06,
        }
    }

    /// Payload of the command on the wire.
    pub open spec fn payload(self) -> Seq<u8> {
        match self {
            Command::Brightness(level) => seq![level],
            Command::Pattern(id) => seq![id],
            Command::DisplayBwImage(bits) => bits@,
        }
    }

    /// The bytes written for the command: magic, code, payload.
    pub open spec fn wire(self) -> Seq<u8> {
        FWK_MAGIC@.push(self.spec_code()) + self.payload()
    }

    /// Code of the command on the wire.
    #[verifier::when_used_as_spec(spec_code)]
    pub fn code(&self) -> (code: u8)
        ensures
            code == self.spec_code(),
    {
        match self {
            Command::Brightness(_) => 0x00,
            Command::Pattern(_) => 0x01,
            Command::DisplayBwImage(_) => 0x06,
        }
    }
}

/// Every command fits the frame buffer. Its bytes on the wire are the magic,
/// then the code of the command, then the payload, which the kind of the
/// command fixes: one byte for a brightness or a pattern, the packed image for
/// an image.
pub proof fn lemma_wire_layout(command: Command)
    ensures
        command.payload().len() == (if command is DisplayBwImage {
            MATRIX_BUFFER_SIZE as int
        } else {
            1
        }),
        command.wire().len() == FRAME_HEADER_SIZE + command.payload().len(),
        command.wire().len() <= COMMAND_BUFFER_SIZE,
        command.wire()[0] == 0x32,
        command.wire()[1] == 0xAC,
        command.wire()[2] == command.spec_code(),
        command.wire().skip(FRAME_HEADER_SIZE as int) == command.payload(),
{
    assert(command.wire().skip(FRAME_HEADER_SIZE as int) =~= command.payload());
}

/// One command laid out for the wire, in a zeroed buffer of fixed size.
#[derive(Debug, PartialEq, Eq)]
pub struct CommandFrame {
    buffer: [u8; COMMAND_BUFFER_SIZE],
    len: usize,
}

impl View for CommandFrame {
    type V = Seq<u8>;

    /// The bytes that are written: the meaningful prefix of the buffer.
    closed spec fn view(&self) -> Seq<u8> {
        self.buffer@.take(self.len as int)
    }
}

impl Clone for CommandFrame {
    fn clone(&self) -> (copy: CommandFrame)
        ensures
            copy == *self,
    {
        proof {
            use_type_invariant(self);
        }
        CommandFrame { buffer: self.buffer, len: self.len }
    }
}

impl CommandFrame {
    /// The whole buffer, padding included.
    pub closed spec fn padded(self) -> Seq<u8> {
        self.buffer@
    }

    #[verifier::type_invariant]
    spec fn inv(self) -> bool {
        &&& FRAME_HEADER_SIZE <= self.len <= COMMAND_BUFFER_SIZE
        &&& forall|i: int| self.len <= i < COMMAND_BUFFER_SIZE ==> self.buffer[i] == 0
    }

    /// A frame is the written bytes followed by zeros up to the buffer size.
    pub open spec fn wf(self) -> bool {
        &&& FRAME_HEADER_SIZE <= self@.len() <= COMMAND_BUFFER_SIZE
        &&& self.padded().len() == COMMAND_BUFFER_SIZE
        &&& self.padded().take(self@.len() as int) == self@
        &&& forall|i: int| self@.len() <= i < COMMAND_BUFFER_SIZE ==> self.padded()[i] == 0
    }

    /// Lays out a command: magic at offset 0, code at offset 2, payload from
    /// offset 3 on, and zeros behind it.
    pub fn new(command: &Command) -> (frame: CommandFrame)
        ensures
            frame@ == command.wire(),
            frame.wf(),
    {
        let mut buffer = [0u8; COMMAND_BUFFER_SIZE];
        buffer[0] = FWK_MAGIC[0];
        buffer[1] = FWK_MAGIC[1];
        buffer[2] = command.code();
        let len: usize = match command {
            Command::Brightness(level) => {
                buffer[3] = *level;
                4
            },
            Command::Pattern(id) => {
                buffer[3] = *id;
                4
            },
            Command::DisplayBwImage(bits) => {
                for i in 0..MATRIX_BUFFER_SIZE
                    invariant
                        buffer[0] == FWK_MAGIC[0],
                        buffer[1] == FWK_MAGIC[1],
                        buffer[2] == command.spec_code(),
                        forall|j: int| 0 <= j < i ==> buffer[FRAME_HEADER_SIZE + j] == bits[j],
                        forall|j: int|
                            FRAME_HEADER_SIZE + i <= j < COMMAND_BUFFER_SIZE ==> buffer[j] == 0,
                {
                    buffer[FRAME_HEADER_SIZE + i] = bits[i];
                }
                FRAME_HEADER_SIZE + MATRIX_BUFFER_SIZE
            },
        };
        let frame = CommandFrame { buffer, len };
        assert(frame@ =~= command.wire());
        frame
    }

    /// Number of bytes that are written.
    pub fn len(&self) -> (len: usize)
        ensures
            len == self@.len(),
            FRAME_HEADER_SIZE <= len <= COMMAND_BUFFER_SIZE,
    {
        proof {
            use_type_invariant(self);
        }
        self.len
    }

    /// The bytes that are written, without the padding.
    pub fn to_vec(&self) -> (bytes: Vec<u8>)
        ensures
            bytes@ == self@,
    {
        proof {
            use_type_invariant(self);
        }
        let mut bytes: Vec<u8> = Vec::new();
        for i in 0..self.len
            invariant
                self.len <= COMMAND_BUFFER_SIZE,
                bytes@ == self.buffer@.take(i as int),
        {
            bytes.push(self.buffer[i]);
            assert(self.buffer@.take(i + 1) =~= self.buffer@.take(i as int).push(
                self.buffer[i as int],
            ));
        }
        bytes
    }

    /// The whole buffer: the written bytes, then zeros.
    pub fn buffer(&self) -> (buffer: &[u8; COMMAND_BUFFER_SIZE])
        ensures
            buffer@ == self.padded(),
            self.wf(),
    {
        proof {
            use_type_invariant(self);
        }
        &self.buffer
    }
}

/// USB identity of a serial port.
#[derive(Debug, Clone, Copy, PartialEq, Eq)]
pub struct UsbPortInfo {
    /// Vendor id.
    pub vid: u16,
    /// Product id.
    pub pid: u16,
}

/// How a serial port is attached to the host.
#[derive(Debug, Clone, Copy, PartialEq, Eq)]
pub enum SerialPortType {
    /// Attached over USB, with its identity.
    UsbPort(UsbPortInfo),
    /// A permanent port on the PCI bus.
    PciPort,
    /// Attached over Bluetooth.
    BluetoothPort,
    /// The attachment cannot be determined.
    Unknown,
}

/// A serial port as the host enumerates it.
#[derive(Debug, Clone, PartialEq, Eq)]
pub struct SerialPortInfo {
    /// Name under which the port is opened.
    pub port_name: String,
    /// How the port is attached.
    pub port_type: SerialPortType,
}

/// Whether a USB identity is that of a panel.
pub open spec fn spec_is_led_matrix_device(info: UsbPortInfo) -> bool {
    info.vid == FRAMEWORK_VID && info.pid == LED_MATRIX_PID
}

/// Whether a port is a panel: a USB port with the identity of a panel.
pub open spec fn is_matrix_port(port: SerialPortInfo) -> bool {
    port.port_type matches SerialPortType::UsbPort(info) && spec_is_led_matrix_device(info)
}

/// The name of a port, if the port is a panel.
pub open spec fn matrix_port_name() -> spec_fn(SerialPortInfo) -> Option<Seq<char>> {
    |port: SerialPortInfo|
        if is_matrix_port(port) {
            Some(port.port_name@)
        } else {
            None
        }
}

/// The names of the ports that are panels, in the order of the enumeration.
pub open spec fn matrix_port_names(ports: Seq<SerialPortInfo>) -> Seq<Seq<char>> {
    ports.filter_map(matrix_port_name())
}

/// The port names of a list of device handles.
pub open spec fn device_names(devices: Seq<LedMatrix>) -> Seq<Seq<char>> {
    Seq::new(devices.len(), |i: int| devices[i]@)
}

/// Whether `found` is the outcome of a discovery over what the enumeration
/// of the ports gave.
///
/// A failed enumeration is a transport error. An enumeration without a panel
/// is `NoDevicesFound`. Otherwise there is one handle for each panel, in the
/// order of the enumeration, and none for any other port.
pub open spec fn discovers(
    enumerated: Result<Vec<SerialPortInfo>, SerialError>,
    found: Result<Vec<LedMatrix>, LedMatrixError>,
) -> bool {
    match enumerated {
        Err(cause) => found == Err::<Vec<LedMatrix>, LedMatrixError>(
            LedMatrixError::SerialPort(cause),
        ),
        Ok(ports) => if matrix_port_names(ports@).len() == 0 {
            found == Err::<Vec<LedMatrix>, LedMatrixError>(LedMatrixError::NoDevicesFound)
        } else {
            found is Ok && device_names(found->Ok_0@) == matrix_port_names(ports@)
        },
    }
}

/// The discovered names are those of the panels and of no other port: a name
/// is among them exactly if a panel among the ports has it, and there is none
/// exactly if no port is a panel.
pub proof fn lemma_matrix_port_names(ports: Seq<SerialPortInfo>, name: Seq<char>)
    ensures
        matrix_port_names(ports).contains(name) <==> exists|i: int|
            0 <= i < ports.len() && is_matrix_port(#[trigger] ports[i]) && ports[i].port_name@
                == name,
        matrix_port_names(ports).len() == 0 <==> forall|i: int|
            0 <= i < ports.len() ==> !is_matrix_port(#[trigger] ports[i]),
        matrix_port_names(ports).len() <= ports.len(),
    decreases ports.len(),
{
    if ports.len() > 0 {
        let rest = ports.drop_last();
        let last = ports.last();
        lemma_matrix_port_names(rest, name);
        if is_matrix_port(last) {
            assert(matrix_port_names(ports) == matrix_port_names(rest) + seq![last.port_name@]);
            assert(matrix_port_names(ports).last() == last.port_name@);
            assert(ports[ports.len() - 1] == last);
        } else {
            assert(matrix_port_names(ports) == matrix_port_names(rest));
        }
        assert forall|i: int| 0 <= i < rest.len() implies rest[i] == ports[i] by {}
        if matrix_port_names(ports).contains(name) {
            if matrix_port_names(rest).contains(name) {
                let i = choose|i: int|
                    0 <= i < rest.len() && is_matrix_port(#[trigger] rest[i]) && rest[i].port_name@
                        == name;
                assert(is_matrix_port(ports[i]) && ports[i].port_name@ == name);
            } else {
                let k = choose|k: int|
                    0 <= k < matrix_port_names(ports).len() && matrix_port_names(ports)[k] == name;
                assert(k == matrix_port_names(rest).len()) by {
                    if k < matrix_port_names(rest).len() {
                        assert(matrix_port_names(rest)[k] == name);
                    }
                }
                assert(is_matrix_port(ports[ports.len() - 1]) && ports[ports.len()
                    - 1].port_name@ == name);
            }
        }
        if exists|i: int|
            0 <= i < ports.len() && is_matrix_port(#[trigger] ports[i]) && ports[i].port_name@
                == name {
            let i = choose|i: int|
                0 <= i < ports.len() && is_matrix_port(#[trigger] ports[i]) && ports[i].port_name@
                    == name;
            if i < rest.len() {
                assert(is_matrix_port(rest[i]) && rest[i].port_name@ == name);
                let k = choose|k: int|
                    0 <= k < matrix_port_names(rest).len() && matrix_port_names(rest)[k] == name;
                assert(matrix_port_names(ports)[k] == name);
            } else {
                assert(matrix_port_names(ports)[matrix_port_names(rest).len() as int] == name);
            }
        }
        if matrix_port_names(ports).len() == 0 {
            assert forall|i: int| 0 <= i < ports.len() implies !is_matrix_port(
                #[trigger] ports[i],
            ) by {
                if i < rest.len() {
                    assert(!is_matrix_port(rest[i]));
                }
            }
        }
    }
}

/// Whether a USB identity is that of a panel.
pub fn is_led_matrix_device(info: &UsbPortInfo) -> (hit: bool)
    ensures
        hit == spec_is_led_matrix_device(*info),
{
    info.vid == FRAMEWORK_VID && info.pid == LED_MATRIX_PID
}

/// Picks the panels out of the enumerated serial ports and makes a device
/// handle for each. Ports that are not attached over USB, or that have another
/// identity, are skipped.
pub fn discover_devices(enumerated: Result<Vec<SerialPortInfo>, SerialError>) -> (found: Result<
    Vec<LedMatrix>,
    LedMatrixError,
>)
    ensures
        discovers(enumerated, found),
{
    let ports = match enumerated {
        Ok(ports) => ports,
        Err(cause) => {
            return Err(LedMatrixError::SerialPort(cause));
        },
    };
    let mut devices: Vec<LedMatrix> = Vec::new();
    for i in 0..ports.len()
        invariant
            device_names(devices@) == matrix_port_names(ports@.take(i as int)),
    {
        proof {
            ports@.lemma_filter_map_take_succ(matrix_port_name(), i as int);
        }
        match &ports[i].port_type {
            SerialPortType::UsbPort(info) if is_led_matrix_device(info) => {
                devices.push(LedMatrix::new(ports[i].port_name.clone()));
            },
            _ => {},
        }
        assert(device_names(devices@) =~= matrix_port_names(ports@.take(i + 1)));
    }
    assert(ports@.take(ports.len() as int) =~= ports@);
    if devices.is_empty() {
        Err(LedMatrixError::NoDevicesFound)
    } else {
        Ok(devices)
    }
}

} // verus!
