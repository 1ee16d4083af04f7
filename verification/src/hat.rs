//! The panel as one display surface: a grid of pixels in memory, and the
//! exchanges that carry it to the two sub-panels.

use crate::bus::{
    all_done, lemma_done_walks_the_list, open_request, views, write_requests, Event, Exchange,
    ExchangeView, Phase, Request, RequestView, Side, Status, SPI_BUS, SPI_MODE,
};
use crate::color::RGB8;
use crate::error::UnicornError;
use crate::lut::{
    is_wired, lemma_offset_in_half, lemma_offsets_distinct, offset, pixel_index, BUFFER_BYTES,
    COLS, LUT, MATRIX_BYTES, PIXELS, ROWS,
};
use crate::matrix::{brightness_frame, display_frame, init_frames, shutdown_frames, Matrix};
use vstd::prelude::*;

verus! {

/// The panel as a value.
pub struct HatView {
    /// The logical pixels: `pixels[x][y]` is the colour at column `x`, row `y`.
    pub pixels: Seq<Seq<RGB8>>,
    /// The physical buffer: the display memory of the left chip, then that of
    /// the right chip, as last rendered.
    pub buffer: Seq<u8>,
    /// Whether the panel is up: started, and not shut down since.
    pub ready: bool,
}

impl HatView {
    /// The grid has `COLS` columns of `ROWS` pixels and the buffer
    /// `BUFFER_BYTES` bytes.
    pub open spec fn wf(self) -> bool {
        &&& is_grid(self.pixels)
        &&& self.buffer.len() == BUFFER_BYTES
    }

    /// The panel with the pixel at column `x`, row `y` set to `colour`.
    pub open spec fn with_pixel(self, x: int, y: int, colour: RGB8) -> HatView {
        HatView { pixels: self.pixels.update(x, self.pixels[x].update(y, colour)), ..self }
    }

    /// The panel with every pixel set to `colour`.
    pub open spec fn filled(self, colour: RGB8) -> HatView {
        HatView { pixels: uniform(colour), ..self }
    }
}

/// The grid `pixels` has `COLS` columns of `ROWS` pixels.
pub open spec fn is_grid(pixels: Seq<Seq<RGB8>>) -> bool {
    &&& pixels.len() == COLS
    &&& forall|x: int| 0 <= x < COLS ==> (#[trigger] pixels[x]).len() == ROWS
}

/// The grid whose every pixel is `colour`.
pub open spec fn uniform(colour: RGB8) -> Seq<Seq<RGB8>> {
    Seq::new(COLS as nat, |x: int| Seq::new(ROWS as nat, |y: int| colour))
}

/// Whether `after` is the physical buffer `before` with `pixels` rendered
/// into it: each pixel's red, green and blue stand at the three offsets that
/// the wiring table gives for it, and every byte that the table does not use
/// is as it was.
pub open spec fn renders(before: Seq<u8>, pixels: Seq<Seq<RGB8>>, after: Seq<u8>) -> bool {
    &&& after.len() == BUFFER_BYTES
    &&& forall|x: int, y: int, c: int|
        0 <= x < COLS && 0 <= y < ROWS && 0 <= c < 3
            ==> after[#[trigger] offset(pixel_index(x, y), c)] == pixels[x][y].channel(c)
    &&& forall|o: int| 0 <= o < BUFFER_BYTES && !is_wired(o) ==> after[o] == before[o]
}

/// The pixel of the grid `disp` that has position `i` in the wiring table.
spec fn pixel_at(disp: [[RGB8; 7]; 17], i: int) -> RGB8 {
    disp[i / ROWS as int][i % ROWS as int]
}

/// Whether one of the first `n` pixels of the table has a channel wired to
/// offset `o`.
spec fn wired_below(o: int, n: int) -> bool {
    exists|i: int, c: int| 0 <= i < n && 0 <= c < 3 && #[trigger] offset(i, c) == o
}

/// The first `n` pixels of the table stand in `buf` at their offsets.
spec fn rendered_below(buf: Seq<u8>, disp: [[RGB8; 7]; 17], n: int) -> bool {
    forall|i: int, c: int|
        0 <= i < n && 0 <= c < 3 ==> buf[#[trigger] offset(i, c)] == pixel_at(disp, i).channel(c)
}

/// Every byte of `buf` that none of the first `n` pixels of the table is
/// wired to is as it is in `before`.
spec fn kept_outside(buf: Seq<u8>, before: Seq<u8>, n: int) -> bool {
    forall|o: int| 0 <= o < BUFFER_BYTES && !wired_below(o, n) ==> buf[o] == before[o]
}

/// The requests that carry the physical buffer to the two chips: the left
/// half to the left chip, then the right half to the right chip.
pub open spec fn display_requests(buffer: Seq<u8>) -> Seq<RequestView> {
    seq![
        RequestView::Write {
            side: Side::Left,
            bytes: display_frame(buffer.subrange(0, MATRIX_BYTES as int)),
        },
        RequestView::Write {
            side: Side::Right,
            bytes: display_frame(buffer.subrange(MATRIX_BYTES as int, BUFFER_BYTES as int)),
        },
    ]
}

/// The requests that set the global brightness of both chips, the left one
/// first.
pub open spec fn brightness_requests(level: u8) -> Seq<RequestView> {
    seq![
        RequestView::Write { side: Side::Left, bytes: brightness_frame(level) },
        RequestView::Write { side: Side::Right, bytes: brightness_frame(level) },
    ]
}

/// The requests that put both chips out, the left one first.
pub open spec fn shutdown_requests() -> Seq<RequestView> {
    write_requests(Side::Left, shutdown_frames()) + write_requests(Side::Right, shutdown_frames())
}

/// The requests that bring the panel up on a bus clocked at `clock_hz`: open
/// the left chip's connection and start the chip, then the same for the
/// right chip.
pub open spec fn startup_requests(clock_hz: u32) -> Seq<RequestView> {
    seq![open_request(Side::Left, clock_hz)] + write_requests(Side::Left, init_frames())
        + seq![open_request(Side::Right, clock_hz)] + write_requests(Side::Right, init_frames())
}

/// The clock, in hertz, that the bus is run at where nothing else is asked
/// for.
pub const DEFAULT_SPI_SPEED_HZ: u32 = 600_000;

/// The first step of the start-up that belongs to the right chip. When it or
/// a later one fails, the left chip is up and must be put out again.
pub const STARTUP_GUARD: usize = 9;

/// The requests that follow a start-up that failed with the left chip up:
/// the left chip's shut-down sequence.
pub open spec fn startup_recovery() -> Seq<RequestView> {
    write_requests(Side::Left, shutdown_frames())
}

/// The exchange that brings the panel up on a bus clocked at `clock_hz`.
pub open spec fn startup_exchange(clock_hz: u32) -> ExchangeView {
    ExchangeView::fresh(
        startup_requests(clock_hz),
        STARTUP_GUARD as nat,
        startup_recovery(),
        Some(clock_hz),
    )
}

/// Whether the pixel with table position `i` has a channel wired to offset
/// `o`.
pub open spec fn is_channel_of(o: int, i: int) -> bool {
    o == offset(i, 0) || o == offset(i, 1) || o == offset(i, 2)
}

/// Rendering leaves no choice: the buffer before and the pixels determine
/// every byte of the buffer after.
pub proof fn lemma_rendering_is_unique(
    before: Seq<u8>,
    pixels: Seq<Seq<RGB8>>,
    one: Seq<u8>,
    other: Seq<u8>,
)
    requires
        renders(before, pixels, one),
        renders(before, pixels, other),
    ensures
        one == other,
{
    assert forall|o: int| 0 <= o < BUFFER_BYTES implies one[o] == other[o] by {
        if is_wired(o) {
            let (i, c) = choose|i: int, c: int|
                0 <= i < PIXELS && 0 <= c < 3 && #[trigger] offset(i, c) == o;
            assert(pixel_index(i / ROWS as int, i % ROWS as int) == i);
        }
    }
    assert(one =~= other);
}

/// A pixel's colour reaches the physical buffer at the three offsets of its
/// table entry and nowhere else: of two renderings into the same buffer,
/// of grids that differ in the pixel at column `x`, row `y` alone, every
/// byte but those three is the same.
pub proof fn lemma_pixel_owns_three_bytes(
    before: Seq<u8>,
    pixels: Seq<Seq<RGB8>>,
    x: int,
    y: int,
    colour: RGB8,
    plain: Seq<u8>,
    changed: Seq<u8>,
)
    requires
        is_grid(pixels),
        0 <= x < COLS,
        0 <= y < ROWS,
        renders(before, pixels, plain),
        renders(before, pixels.update(x, pixels[x].update(y, colour)), changed),
    ensures
        forall|c: int|
            0 <= c < 3 ==> changed[#[trigger] offset(pixel_index(x, y), c)] == colour.channel(c),
        forall|o: int|
            0 <= o < BUFFER_BYTES && !is_channel_of(o, pixel_index(x, y)) ==> changed[o]
                == plain[o],
{
    let other = pixels.update(x, pixels[x].update(y, colour));
    assert forall|o: int|
        0 <= o < BUFFER_BYTES && !is_channel_of(o, pixel_index(x, y)) implies changed[o]
        == plain[o] by {
        if is_wired(o) {
            let (i, c) = choose|i: int, c: int|
                0 <= i < PIXELS && 0 <= c < 3 && #[trigger] offset(i, c) == o;
            let col = i / ROWS as int;
            let row = i % ROWS as int;
            assert(pixel_index(col, row) == i);
            assert(other[col][row] == pixels[col][row]);
        }
    }
}

/// A start-up that goes through asks for eighteen requests and completes.
/// One that fails before the right chip's turn fails at once, with nothing
/// more asked of the transport. One that fails at step `STARTUP_GUARD` or
/// later, when the left chip is up, goes on with the left chip's shut-down
/// sequence and has failed after it.
pub proof fn lemma_startup_failure(clock_hz: u32, done: nat)
    requires
        done < 18,
    ensures
        ({
            let start = startup_exchange(clock_hz);
            let failed = start.replay(all_done(done)).after(Event::Failed);
            &&& start.replay(all_done(18)).phase == Phase::Completed
            &&& done < STARTUP_GUARD ==> failed.phase == Phase::Failed
            &&& done >= STARTUP_GUARD ==> {
                &&& failed.request() == Some(
                    RequestView::Write { side: Side::Left, bytes: shutdown_frames()[0] },
                )
                &&& failed.after(Event::Done).request() == Some(
                    RequestView::Write { side: Side::Left, bytes: shutdown_frames()[1] },
                )
                &&& failed.after(Event::Done).after(Event::Done).request() == Some(
                    RequestView::Write { side: Side::Left, bytes: shutdown_frames()[2] },
                )
                &&& failed.after(Event::Done).after(Event::Done).after(Event::Done).phase
                    == Phase::Failed
            }
        }),
{
    let steps = startup_requests(clock_hz);
    assert(steps.len() == 18);
    lemma_done_walks_the_list(
        steps,
        STARTUP_GUARD as nat,
        startup_recovery(),
        Some(clock_hz),
        done,
    );
    lemma_done_walks_the_list(steps, STARTUP_GUARD as nat, startup_recovery(), Some(clock_hz), 18);
}

/// The request that opens the connection to the chip of `side` on a bus
/// clocked at `clock_hz`.
fn open(side: Side, clock_hz: u32) -> (request: Request)
    ensures
        request@ == open_request(side, clock_hz),
{
    Request::Open {
        side,
        bus: SPI_BUS,
        chip_select: side.chip_select(),
        clock_hz,
        mode: SPI_MODE,
    }
}

/// The panel: its logical pixels, the physical buffer that they are rendered
/// into, and the drivers of the two sub-panels.
#[derive(Debug)]
pub struct UnicornHATMini {
    disp: [[RGB8; 7]; 17],
    left_matrix: Matrix,
    right_matrix: Matrix,
    buf: [u8; 448],
}

impl View for UnicornHATMini {
    type V = HatView;

    closed spec fn view(&self) -> HatView {
        HatView {
            pixels: Seq::new(COLS as nat, |x: int| self.disp[x]@),
            buffer: self.buf@,
            ready: self.left_matrix@.ready,
        }
    }
}

impl UnicornHATMini {
    #[verifier::type_invariant]
    spec fn well_formed(self) -> bool {
        &&& self.left_matrix@.side == Side::Left
        &&& self.left_matrix@.offset == 0
        &&& self.right_matrix@.side == Side::Right
        &&& self.right_matrix@.offset == MATRIX_BYTES
        &&& self.left_matrix@.ready == self.right_matrix@.ready
    }

    /// The exchange that brings the panel up on a bus clocked at
    /// `spi_max_speed_hz`. It opens and starts the left chip, then the right
    /// one, and stops at the first failure; if that failure comes when the
    /// left chip is already up, the left chip's shut-down sequence follows.
    pub fn startup(spi_max_speed_hz: u32) -> (exchange: Exchange)
        ensures
            exchange@ == startup_exchange(spi_max_speed_hz),
    {
        let mut steps: Vec<Request> = Vec::new();
        steps.push(open(Side::Left, spi_max_speed_hz));
        let mut left_init = Matrix::init_sequence(Side::Left);
        steps.append(&mut left_init);
        steps.push(open(Side::Right, spi_max_speed_hz));
        let mut right_init = Matrix::init_sequence(Side::Right);
        steps.append(&mut right_init);
        let mut left = Matrix::new(Side::Left, 0);
        let recovery = left.shutdown();
        assert(views(steps@) =~= startup_requests(spi_max_speed_hz));
        Exchange::startup(steps, recovery, spi_max_speed_hz)
    }

    /// The panel once `startup` has gone through: every pixel black, the
    /// physical buffer all zeros, both chips up. There is a panel only for a
    /// start-up exchange that has completed. For one that has failed the
    /// error is `SPIError`; for one that is still pending, and for an exchange
    /// that is no start-up, it is `NotReady`.
    pub fn new(startup: Exchange) -> (result: Result<UnicornHATMini, UnicornError>)
        ensures
            match result {
                Ok(hat) => {
                    &&& startup@.startup matches Some(clock_hz)
                    &&& startup@.steps == startup_requests(clock_hz)
                    &&& startup@.phase == Phase::Completed
                    &&& hat@ == (HatView {
                        pixels: uniform(RGB8::black()),
                        buffer: Seq::new(BUFFER_BYTES as nat, |o: int| 0u8),
                        ready: true,
                    })
                    &&& hat@.wf()
                    &&& forall|x: int, y: int|
                        0 <= x < COLS && 0 <= y < ROWS ==> #[trigger] hat@.pixels[x][y]
                            == RGB8::black()
                },
                Err(error) => {
                    &&& !(startup@.startup is Some && startup@.phase == Phase::Completed)
                    &&& error == if startup@.startup is Some && startup@.phase == Phase::Failed {
                        UnicornError::SPIError
                    } else {
                        UnicornError::NotReady
                    }
                },
            },
    {
        if startup.startup_clock().is_none() {
            return Err(UnicornError::NotReady);
        }
        match startup.status() {
            Status::Pending => Err(UnicornError::NotReady),
            Status::Failed => Err(UnicornError::SPIError),
            Status::Completed => {
                let hat = UnicornHATMini {
                    disp: [[RGB8::new(0, 0, 0); 7]; 17],
                    left_matrix: Matrix::new(Side::Left, 0),
                    right_matrix: Matrix::new(Side::Right, MATRIX_BYTES),
                    buf: [0u8; 448],
                };
                assert(hat@.pixels =~~= uniform(RGB8::black()));
                assert(hat@.buffer =~= Seq::new(BUFFER_BYTES as nat, |o: int| 0u8));
                Ok(hat)
            },
        }
    }

    /// Whether the panel is up.
    pub fn is_ready(&self) -> (ready: bool)
        ensures
            ready == self@.ready,
    {
        self.left_matrix.is_ready()
    }

    /// Sets the pixel at column `x`, row `y` to `rgb`. The pixel then reads
    /// back as `rgb`; no other pixel changes, and nothing is sent.
    pub fn set_pixel(&mut self, x: usize, y: usize, rgb: RGB8)
        requires
            x < COLS,
            y < ROWS,
        ensures
            final(self)@ == old(self)@.with_pixel(x as int, y as int, rgb),
            final(self)@.wf(),
            final(self)@.pixels[x as int][y as int] == rgb,
            forall|i: int, j: int|
                0 <= i < COLS && 0 <= j < ROWS && !(i == x && j == y)
                    ==> #[trigger] final(self)@.pixels[i][j] == old(self)@.pixels[i][j],
    {
        proof {
            use_type_invariant(&*self);
        }
        self.disp[x][y] = rgb;
        assert(self@.pixels =~= old(self)@.with_pixel(x as int, y as int, rgb).pixels);
    }

    /// The colour of the pixel at column `x`, row `y`.
    pub fn get_pixel(&self, x: usize, y: usize) -> (rgb: RGB8)
        requires
            x < COLS,
            y < ROWS,
        ensures
            rgb == self@.pixels[x as int][y as int],
    {
        self.disp[x][y]
    }

    /// Sets every pixel to `rgb`. Every pixel then reads back as `rgb`;
    /// nothing is sent.
    pub fn set_all(&mut self, rgb: RGB8)
        ensures
            final(self)@ == old(self)@.filled(rgb),
            final(self)@.wf(),
            forall|x: int, y: int|
                0 <= x < COLS && 0 <= y < ROWS ==> #[trigger] final(self)@.pixels[x][y] == rgb,
    {
        proof {
            use_type_invariant(&*self);
        }
        self.disp = [[rgb; 7]; 17];
        assert(self@.pixels =~~= uniform(rgb));
    }

    /// Sets every pixel to black: the same as `set_all` with black.
    pub fn clear(&mut self)
        ensures
            final(self)@ == old(self)@.filled(RGB8::black()),
            final(self)@.wf(),
    {
        self.set_all(RGB8 { r: 0, g: 0, b: 0 })
    }

    /// The exchange that sets the global brightness of both chips to
    /// `level`, the left chip first; an error once the panel is shut down.
    /// A level beyond the register's six bits counts as the largest. If the
    /// left chip takes its frame and the right one fails, the two stay at
    /// different levels until the next call.
    pub fn set_brightness(&mut self, level: u8) -> (result: Result<Exchange, UnicornError>)
        ensures
            final(self)@ == old(self)@,
            match result {
                Ok(exchange) => old(self)@.ready && exchange@ == ExchangeView::plain(
                    brightness_requests(level),
                ),
                Err(error) => !old(self)@.ready && error == UnicornError::NotReady,
            },
    {
        proof {
            use_type_invariant(&*self);
        }
        let left = self.left_matrix.set_brightness(level)?;
        let right = self.right_matrix.set_brightness(level)?;
        let mut steps: Vec<Request> = Vec::new();
        steps.push(left);
        steps.push(right);
        assert(views(steps@) =~= brightness_requests(level));
        Ok(Exchange::new(steps))
    }

    /// Renders the pixels into the physical buffer and hands out the
    /// exchange that carries the buffer to the chips: the left half in one
    /// display frame to the left chip, then the right half to the right chip.
    /// On a panel that is shut down nothing is rendered, and the result is
    /// an error.
    pub fn show(&mut self) -> (result: Result<Exchange, UnicornError>)
        ensures
            final(self)@.pixels == old(self)@.pixels,
            final(self)@.ready == old(self)@.ready,
            final(self)@.wf(),
            match result {
                Ok(exchange) => {
                    &&& old(self)@.ready
                    &&& renders(old(self)@.buffer, old(self)@.pixels, final(self)@.buffer)
                    &&& exchange@ == ExchangeView::plain(display_requests(final(self)@.buffer))
                },
                Err(error) => {
                    &&& !old(self)@.ready
                    &&& error == UnicornError::NotReady
                    &&& final(self)@ == old(self)@
                },
            },
    {
        proof {
            use_type_invariant(&*self);
        }
        if !self.left_matrix.is_ready() {
            return Err(UnicornError::NotReady);
        }
        let ghost before = self.buf@;
        let mut index: usize = 0;
        while index < PIXELS
            invariant
                index <= PIXELS,
                self.well_formed(),
                self.disp == old(self).disp,
                self.left_matrix == old(self).left_matrix,
                self.right_matrix == old(self).right_matrix,
                before == old(self).buf@,
                rendered_below(self.buf@, self.disp, index as int),
                kept_outside(self.buf@, before, index as int),
            decreases PIXELS - index,
        {
            let rgb = self.disp[index / ROWS][index % ROWS];
            let red_address = LUT[index][0];
            let green_address = LUT[index][1];
            let blue_address = LUT[index][2];
            proof {
                lemma_offset_in_half(index as int, 0);
                lemma_offset_in_half(index as int, 1);
                lemma_offset_in_half(index as int, 2);
            }
            self.buf[red_address] = rgb.r;
            self.buf[green_address] = rgb.g;
            self.buf[blue_address] = rgb.b;
            proof {
                // The three writes hit no byte of an earlier pixel, nor one
                // another.
                assert forall|i: int, c: int| 0 <= i <= index && 0 <= c < 3 implies {
                    self.buf@[#[trigger] offset(i, c)] == pixel_at(self.disp, i).channel(c)
                } by {
                    lemma_offset_in_half(i, c);
                    if offset(i, c) == red_address {
                        lemma_offsets_distinct(i, c, index as int, 0);
                    }
                    if offset(i, c) == green_address {
                        lemma_offsets_distinct(i, c, index as int, 1);
                    }
                    if offset(i, c) == blue_address {
                        lemma_offsets_distinct(i, c, index as int, 2);
                    }
                }
                // Whatever they hit is wired to this pixel.
                assert forall|o: int| 0 <= o < BUFFER_BYTES && !wired_below(o, index + 1) implies {
                    self.buf@[o] == before[o]
                } by {
                    assert(!wired_below(o, index as int));
                }
            }
            index += 1;
        }
        let left = self.left_matrix.write_display(&self.buf)?;
        let right = self.right_matrix.write_display(&self.buf)?;
        let mut steps: Vec<Request> = Vec::new();
        steps.push(left);
        steps.push(right);
        proof {
            assert(views(steps@) =~= display_requests(self@.buffer));
            assert forall|x: int, y: int, c: int|
                0 <= x < COLS && 0 <= y < ROWS && 0 <= c < 3 implies {
                self@.buffer[#[trigger] offset(pixel_index(x, y), c)]
                    == self@.pixels[x][y].channel(c)
            } by {
                assert(pixel_at(self.disp, pixel_index(x, y)) == self.disp[x][y]);
            }
            assert forall|o: int| 0 <= o < BUFFER_BYTES && !is_wired(o) implies {
                self@.buffer[o] == before[o]
            } by {
                assert(!wired_below(o, PIXELS as int));
            }
        }
        Ok(Exchange::new(steps))
    }

    /// Puts the panel out. The exchange is the shut-down sequence of the left
    /// chip, then that of the right chip. On a panel that is already shut
    /// down it holds no request, so nothing is sent a second time.
    pub fn shutdown(&mut self) -> (exchange: Exchange)
        ensures
            final(self)@ == (HatView { ready: false, ..old(self)@ }),
            exchange@ == ExchangeView::plain(
                if old(self)@.ready {
                    shutdown_requests()
                } else {
                    Seq::<RequestView>::empty()
                },
            ),
    {
        proof {
            use_type_invariant(&*self);
        }
        let mut left = self.left_matrix;
        let mut right = self.right_matrix;
        let mut steps = left.shutdown();
        let mut rest = right.shutdown();
        let ghost left_views = views(steps@);
        let ghost right_views = views(rest@);
        steps.append(&mut rest);
        assert(views(steps@) =~= left_views + right_views);
        *self = UnicornHATMini {
            disp: self.disp,
            left_matrix: left,
            right_matrix: right,
            buf: self.buf,
        };
        assert(self@.pixels =~= old(self)@.pixels);
        Exchange::new(steps)
    }
}

} // verus!
