//! Device handle: the operations on one panel.
//!
//! Every operation is one transaction: the port is opened, one frame is
//! written, and the port is released. An operation here yields the transaction
//! to perform; the host performs it and reports its outcome.
use vstd::prelude::*;
use crate::device::bitmap::{encode, grid_of, packed};
use crate::device::{
    Command, CommandFrame, BAUD_RATE, FWK_MAGIC, LED_MATRIX_HEIGHT, LED_MATRIX_WIDTH,
    SERIAL_TIMEOUT_MS,
};

verus! {

/// Id of a built-in pattern of the device.
pub type PatternId = u8;

/// Handle of one panel. It owns the name of the port and nothing else: no
/// connection is kept between operations.
#[derive(Debug, Clone, PartialEq, Eq)]
pub struct LedMatrix {
    port_name: String,
}

/// One transaction with a panel: the port to open, how to open it, and the
/// frame to write. Nothing is read back.
#[derive(Debug, Clone, PartialEq, Eq)]
pub struct Transmission {
    /// Name of the port to open.
    pub port_name: String,
    /// Speed to open the port with.
    pub baud_rate: u32,
    /// Timeout of the port, in milliseconds.
    pub timeout_ms: u64,
    /// The frame to write.
    pub frame: CommandFrame,
}

impl Transmission {
    /// Whether the transaction opens the port `port_name` with the fixed
    /// settings of the link and writes exactly the bytes `wire`.
    pub open spec fn carries(self, port_name: Seq<char>, wire: Seq<u8>) -> bool {
        &&& self.port_name@ == port_name
        &&& self.baud_rate == BAUD_RATE
        &&& self.timeout_ms == SERIAL_TIMEOUT_MS
        &&& self.frame@ == wire
        &&& self.frame.wf()
    }
}

/// The bytes written to show a panel image: the image command with the packed
/// image as its payload.
pub open spec fn image_wire(matrix: [[u8; LED_MATRIX_HEIGHT]; LED_MATRIX_WIDTH]) -> Seq<u8> {
    FWK_MAGIC@.push(0x06u8) + packed(grid_of(matrix))
}

impl View for LedMatrix {
    type V = Seq<char>;

    /// The name of the port of the panel.
    closed spec fn view(&self) -> Seq<char> {
        self.port_name@
    }
}

impl LedMatrix {
    /// Handle of the panel on the named port.
    pub fn new(port_name: String) -> (device: LedMatrix)
        ensures
            device@ == port_name@,
    {
        Self { port_name }
    }

    /// The transaction that sends one command to the panel.
    pub fn send_command(&self, command: &Command) -> (transmission: Transmission)
        ensures
            transmission.carries(self@, command.wire()),
    {
        Transmission {
            port_name: self.port_name.clone(),
            baud_rate: BAUD_RATE,
            timeout_ms: SERIAL_TIMEOUT_MS,
            frame: CommandFrame::new(command),
        }
    }

    /// The transaction that shows an image on the panel. A cell is lit where
    /// its byte is `0xFF`.
    pub fn render_matrix(&self, matrix: &[[u8; LED_MATRIX_HEIGHT]; LED_MATRIX_WIDTH]) -> (transmission:
        Transmission)
        ensures
            transmission.carries(self@, image_wire(*matrix)),
    {
        let vals = encode(matrix);
        self.send_command(&Command::DisplayBwImage(vals))
    }

    /// The transaction that selects a built-in pattern. The id is sent as it
    /// is given.
    pub fn set_pattern(&self, pattern: PatternId) -> (transmission: Transmission)
        ensures
            transmission.carries(self@, Command::Pattern(pattern).wire()),
    {
        self.send_command(&Command::Pattern(pattern))
    }

    /// The transaction that sets the brightness. The level is sent as it is
    /// given.
    pub fn set_brightness(&self, brightness: u8) -> (transmission: Transmission)
        ensures
            transmission.carries(self@, Command::Brightness(brightness).wire()),
    {
        self.send_command(&Command::Brightness(brightness))
    }

    /// Name of the port of the panel.
    pub fn port_name(&self) -> (name: &str)
        ensures
            name@ == self@,
    {
        self.port_name.as_str()
    }
}

} // verus!
