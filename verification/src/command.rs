//! The command set of the LED driver chips.

use vstd::prelude::*;

verus! {

/// A command of the driver chip. Each travels as one byte at the head of a
/// frame, followed by the command's payload.
#[derive(Clone, Copy, Debug, PartialEq, Eq, Structural)]
pub enum Cmd {
    SoftReset,
    GlobalBrightness,
    ComPinCtrl,
    RowPinCtrl,
    WriteDisplay,
    SystemCtrl,
    ScrollCtrl,
}

impl Cmd {
    /// The byte that stands for the command on the wire.
    pub open spec fn code(self) -> u8 {
        match self {
            Cmd::SoftReset => 0xCC,
            Cmd::GlobalBrightness => 0x37,
            Cmd::ComPinCtrl => 0x41,
            Cmd::RowPinCtrl => 0x42,
            Cmd::WriteDisplay => 0x80,
            Cmd::SystemCtrl => 0x35,
            Cmd::ScrollCtrl => 0x20,
        }
    }
}

impl From<Cmd> for u8 {
    fn from(val: Cmd) -> (byte: u8) {
        match val {
            Cmd::SoftReset => 0xCC,
            Cmd::GlobalBrightness => 0x37,
            Cmd::ComPinCtrl => 0x41,
            Cmd::RowPinCtrl => 0x42,
            Cmd::WriteDisplay => 0x80,
            Cmd::SystemCtrl => 0x35,
            Cmd::ScrollCtrl => 0x20,
        }
    }
}

impl vstd::std_specs::convert::FromSpecImpl<Cmd> for u8 {
    open spec fn obeys_from_spec() -> bool {
        true
    }

    open spec fn from_spec(val: Cmd) -> u8 {
        val.code()
    }
}

/// The largest value that the global brightness register takes: six bits.
pub const MAX_BRIGHTNESS: u8 = 63;

/// A frame: the command's byte, then its payload.
pub open spec fn frame_of(cmd: Cmd, payload: Seq<u8>) -> Seq<u8> {
    seq![cmd.code()] + payload
}

/// Builds the frame of `cmd` with `payload`.
pub fn frame(cmd: Cmd, payload: &[u8]) -> (bytes: Vec<u8>)
    ensures
        bytes@ == frame_of(cmd, payload@),
{
    let mut bytes: Vec<u8> = Vec::new();
    bytes.push(u8::from(cmd));
    let mut i: usize = 0;
    while i < payload.len()
        invariant
            i <= payload.len(),
            bytes@ == frame_of(cmd, payload@.subrange(0, i as int)),
        decreases payload.len() - i,
    {
        bytes.push(payload[i]);
        i += 1;
    }
    bytes
}

} // verus!
