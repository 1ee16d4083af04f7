//! The driver of one sub-panel: the command sequences that bring its chip
//! up, feed it, and put it out.

use crate::bus::{views, write_requests, Request, RequestView, Side};
use crate::command::{frame, Cmd, MAX_BRIGHTNESS};
use crate::error::UnicornError;
use crate::lut::{BUFFER_BYTES, MATRIX_BYTES};
use vstd::prelude::*;

verus! {

/// The frames that bring a chip up, in the order in which it must take them:
/// soft reset, global brightness at its lowest step, scrolling off, system
/// off, a display memory of zeros, all common pins on, all row pins on,
/// system on.
pub open spec fn init_frames() -> Seq<Seq<u8>> {
    seq![
        seq![0xCCu8],
        seq![0x37u8, 0x01u8],
        seq![0x20u8, 0x00u8],
        seq![0x35u8, 0x00u8],
        display_frame(Seq::new(MATRIX_BYTES as nat, |i: int| 0u8)),
        seq![0x41u8, 0xFFu8],
        seq![0x42u8, 0xFFu8, 0xFFu8, 0xFFu8, 0xFFu8],
        seq![0x35u8, 0x03u8],
    ]
}

/// The frames that put a chip out, in order: common pins off, row pins off,
/// system off.
pub open spec fn shutdown_frames() -> Seq<Seq<u8>> {
    seq![
        seq![0x41u8, 0x00u8],
        seq![0x42u8, 0x00u8, 0x00u8, 0x00u8, 0x00u8],
        seq![0x35u8, 0x00u8],
    ]
}

/// The frame that writes `data` to a chip's display memory: the command, a
/// filler byte, then the data.
pub open spec fn display_frame(data: Seq<u8>) -> Seq<u8> {
    seq![0x80u8, 0x00u8] + data
}

/// The value that the brightness register gets for `level`: the level
/// itself up to the register's six bits, and the largest value beyond.
pub open spec fn brightness_value(level: u8) -> u8 {
    if level <= MAX_BRIGHTNESS {
        level
    } else {
        MAX_BRIGHTNESS
    }
}

/// The frame that sets a chip's global brightness to `level`.
pub open spec fn brightness_frame(level: u8) -> Seq<u8> {
    seq![0x37u8, brightness_value(level)]
}

/// A sub-panel driver as a value.
pub struct MatrixView {
    /// The sub-panel that the driver speaks to.
    pub side: Side,
    /// Where the sub-panel's bytes begin in the physical buffer.
    pub offset: nat,
    /// Whether the chip is up. A driver starts ready and ends shut down.
    pub ready: bool,
}

/// The driver of one sub-panel's chip.
#[derive(Clone, Copy, Debug)]
pub struct Matrix {
    side: Side,
    offset: usize,
    ready: bool,
}

impl View for Matrix {
    type V = MatrixView;

    closed spec fn view(&self) -> MatrixView {
        MatrixView { side: self.side, offset: self.offset as nat, ready: self.ready }
    }
}

/// The display frame for the `MATRIX_BYTES` bytes of `buf` from `offset` on.
fn display_frame_at(buf: &[u8; 448], offset: usize) -> (bytes: Vec<u8>)
    requires
        offset + MATRIX_BYTES <= BUFFER_BYTES,
    ensures
        bytes@ == display_frame(buf@.subrange(offset as int, offset + MATRIX_BYTES)),
{
    let mut bytes: Vec<u8> = Vec::with_capacity(MATRIX_BYTES + 2);
    bytes.push(u8::from(Cmd::WriteDisplay));
    bytes.push(0x00);
    let mut i: usize = 0;
    while i < MATRIX_BYTES
        invariant
            i <= MATRIX_BYTES,
            offset + MATRIX_BYTES <= BUFFER_BYTES,
            bytes@ == display_frame(buf@.subrange(offset as int, offset + i)),
        decreases MATRIX_BYTES - i,
    {
        bytes.push(buf[offset + i]);
        i += 1;
    }
    bytes
}

impl Matrix {
    #[verifier::type_invariant]
    spec fn well_formed(self) -> bool {
        self.offset + MATRIX_BYTES <= BUFFER_BYTES
    }

    /// The requests that bring the chip of `side` up. A chip that has not
    /// taken all of them is not safe to write images to.
    pub fn init_sequence(side: Side) -> (requests: Vec<Request>)
        ensures
            views(requests@) == write_requests(side, init_frames()),
    {
        let blank: [u8; 448] = [0u8; 448];
        let reset = frame(Cmd::SoftReset, &[]);
        let dim = frame(Cmd::GlobalBrightness, &[0x01]);
        let still = frame(Cmd::ScrollCtrl, &[0x00]);
        let off = frame(Cmd::SystemCtrl, &[0x00]);
        let clear = display_frame_at(&blank, 0);
        let columns = frame(Cmd::ComPinCtrl, &[0xFF]);
        let rows = frame(Cmd::RowPinCtrl, &[0xFF, 0xFF, 0xFF, 0xFF]);
        let on = frame(Cmd::SystemCtrl, &[0x03]);
        proof {
            let frames = init_frames();
            assert(reset@ =~= frames[0]);
            assert(dim@ =~= frames[1]);
            assert(still@ =~= frames[2]);
            assert(off@ =~= frames[3]);
            assert(blank@.subrange(0, MATRIX_BYTES as int) =~= Seq::new(
                MATRIX_BYTES as nat,
                |i: int| 0u8,
            ));
            assert(clear@ =~= frames[4]);
            assert(columns@ =~= frames[5]);
            assert(rows@ =~= frames[6]);
            assert(on@ =~= frames[7]);
        }
        let mut requests: Vec<Request> = Vec::new();
        requests.push(Request::Write { side, bytes: reset });
        requests.push(Request::Write { side, bytes: dim });
        requests.push(Request::Write { side, bytes: still });
        requests.push(Request::Write { side, bytes: off });
        requests.push(Request::Write { side, bytes: clear });
        requests.push(Request::Write { side, bytes: columns });
        requests.push(Request::Write { side, bytes: rows });
        requests.push(Request::Write { side, bytes: on });
        assert(views(requests@) =~= write_requests(side, init_frames()));
        requests
    }

    /// The driver of the chip of `side`, which has taken its start-up
    /// sequence, for the `MATRIX_BYTES` bytes of the physical buffer from
    /// `offset` on.
    pub fn new(side: Side, offset: usize) -> (matrix: Matrix)
        requires
            offset + MATRIX_BYTES <= BUFFER_BYTES,
        ensures
            matrix@ == (MatrixView { side, offset: offset as nat, ready: true }),
    {
        Matrix { side, offset, ready: true }
    }

    /// Whether the chip is up.
    pub fn is_ready(&self) -> (ready: bool)
        ensures
            ready == self@.ready,
    {
        self.ready
    }

    /// The request that sends the sub-panel's part of `buf` to the chip's
    /// display memory; an error once the chip is shut down.
    pub fn write_display(&self, buf: &[u8; 448]) -> (result: Result<Request, UnicornError>)
        ensures
            self@.offset + MATRIX_BYTES <= BUFFER_BYTES,
            match result {
                Ok(request) => self@.ready && request@ == (RequestView::Write {
                    side: self@.side,
                    bytes: display_frame(
                        buf@.subrange(self@.offset as int, self@.offset + MATRIX_BYTES),
                    ),
                }),
                Err(error) => !self@.ready && error == UnicornError::NotReady,
            },
    {
        proof {
            use_type_invariant(self);
        }
        if !self.ready {
            return Err(UnicornError::NotReady);
        }
        Ok(Request::Write { side: self.side, bytes: display_frame_at(buf, self.offset) })
    }

    /// The request that sets the chip's global brightness; an error once the
    /// chip is shut down. A level beyond the register's six bits counts as the
    /// largest.
    pub fn set_brightness(&self, level: u8) -> (result: Result<Request, UnicornError>)
        ensures
            match result {
                Ok(request) => self@.ready && request@ == (RequestView::Write {
                    side: self@.side,
                    bytes: brightness_frame(level),
                }),
                Err(error) => !self@.ready && error == UnicornError::NotReady,
            },
    {
        if !self.ready {
            return Err(UnicornError::NotReady);
        }
        let value: u8 = if level <= MAX_BRIGHTNESS {
            level
        } else {
            MAX_BRIGHTNESS
        };
        let bytes = frame(Cmd::GlobalBrightness, &[value]);
        assert(bytes@ =~= brightness_frame(level));
        Ok(Request::Write { side: self.side, bytes })
    }

    /// Puts the chip out and ends the driver's life. The requests are the
    /// shut-down sequence the first time, and none after that.
    pub fn shutdown(&mut self) -> (requests: Vec<Request>)
        ensures
            final(self)@ == (MatrixView { ready: false, ..old(self)@ }),
            views(requests@) == if old(self)@.ready {
                write_requests(old(self)@.side, shutdown_frames())
            } else {
                Seq::<RequestView>::empty()
            },
    {
        proof {
            use_type_invariant(&*self);
        }
        let mut requests: Vec<Request> = Vec::new();
        if self.ready {
            let side = self.side;
            let columns = frame(Cmd::ComPinCtrl, &[0x00]);
            let rows = frame(Cmd::RowPinCtrl, &[0x00, 0x00, 0x00, 0x00]);
            let off = frame(Cmd::SystemCtrl, &[0x00]);
            proof {
                let frames = shutdown_frames();
                assert(columns@ =~= frames[0]);
                assert(rows@ =~= frames[1]);
                assert(off@ =~= frames[2]);
            }
            requests.push(Request::Write { side, bytes: columns });
            requests.push(Request::Write { side, bytes: rows });
            requests.push(Request::Write { side, bytes: off });
            self.ready = false;
            assert(views(requests@) =~= write_requests(side, shutdown_frames()));
        }
        requests
    }
}

} // verus!
