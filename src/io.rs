use vstd::prelude::*;

verus! {

/// Number of pixels on the display.
pub const SCREEN_PIXELS: usize = 1024;
/// Number of cells on the character display.
pub const CHAR_CELLS: usize = 10;

/// First data address routed to the peripherals.
pub const IO_BASE: u8 = 240;
pub const PIXEL_X: u8 = 240;
pub const PIXEL_Y: u8 = 241;
pub const DRAW_PIXEL: u8 = 242;
pub const CLEAR_PIXEL: u8 = 243;
pub const LOAD_PIXEL: u8 = 244;
pub const BUFFER_SCREEN: u8 = 245;
pub const CLEAR_SCREEN_BUFFER: u8 = 246;
pub const WRITE_CHAR: u8 = 247;
pub const BUFFER_CHARS: u8 = 248;
pub const CLEAR_CHARS_BUFFER: u8 = 249;
pub const SHOW_NUMBER: u8 = 250;
pub const CLEAR_NUMBER: u8 = 251;
pub const SIGNED_MODE: u8 = 252;
pub const UNSIGNED_MODE: u8 = 253;
pub const RANDOM: u8 = 254;
pub const CONTROLLER: u8 = 255;

/// Controller button bits, by index.
pub const B_LEFT: u8 = 0;
pub const B_DOWN: u8 = 1;
pub const B_RIGHT: u8 = 2;
pub const B_UP: u8 = 3;
pub const B_B: u8 = 4;
pub const B_A: u8 = 5;
pub const B_SELECT: u8 = 6;
pub const B_START: u8 = 7;

/// The peripherals' state as plain values. Pixels are indexed `y * 32 + x`.
pub struct IoModel {
    pub x: u8,
    pub y: u8,
    pub staging: Seq<bool>,
    pub screen: Seq<bool>,
    pub char_staging: Seq<u8>,
    pub cursor: nat,
    pub chars: Seq<u8>,
    pub number: Option<u8>,
    pub signed: bool,
    pub rng: u32,
    pub buttons: u8,
}

impl IoModel {
    pub open spec fn wf(self) -> bool {
        &&& self.x < 32
        &&& self.y < 32
        &&& self.staging.len() == SCREEN_PIXELS
        &&& self.screen.len() == SCREEN_PIXELS
        &&& self.char_staging.len() == CHAR_CELLS
        &&& self.chars.len() == CHAR_CELLS
        &&& self.cursor <= CHAR_CELLS
    }

    /// Index of the latched pixel.
    pub open spec fn pixel(self) -> int {
        self.y * 32 + self.x
    }
}

/// A blank line of character cells (all spaces).
pub open spec fn blank_chars() -> Seq<u8> {
    Seq::new(CHAR_CELLS as nat, |i: int| 0u8)
}

/// A dark screen.
pub open spec fn dark_screen() -> Seq<bool> {
    Seq::new(SCREEN_PIXELS as nat, |i: int| false)
}

/// The peripherals right after power-on, with the random stream at `seed`.
pub open spec fn io_initial(seed: u32) -> IoModel {
    IoModel {
        x: 0,
        y: 0,
        staging: dark_screen(),
        screen: dark_screen(),
        char_staging: blank_chars(),
        cursor: 0,
        chars: blank_chars(),
        number: None,
        signed: false,
        rng: seed,
        buttons: 0,
    }
}

/// The next state of the pseudo-random stream (a 32-bit linear congruential step).
pub open spec fn rng_next(s: u32) -> u32 {
    ((s * 1103515245 + 12345) % 0x1_0000_0000) as u32
}

/// The byte a pseudo-random state yields.
pub open spec fn rng_byte(s: u32) -> u8 {
    ((s / 0x10000) % 256) as u8
}

/// The effect of storing `v` at peripheral address `addr`; addresses with no
/// store effect leave the state as it is.
pub open spec fn io_store(io: IoModel, addr: u8, v: u8) -> IoModel {
    if addr == PIXEL_X {
        IoModel { x: v % 32, ..io }
    } else if addr == PIXEL_Y {
        IoModel { y: v % 32, ..io }
    } else if addr == DRAW_PIXEL {
        IoModel { staging: io.staging.update(io.pixel(), true), ..io }
    } else if addr == CLEAR_PIXEL {
        IoModel { staging: io.staging.update(io.pixel(), false), ..io }
    } else if addr == BUFFER_SCREEN {
        IoModel { screen: io.staging, ..io }
    } else if addr == CLEAR_SCREEN_BUFFER {
        IoModel { staging: dark_screen(), ..io }
    } else if addr == WRITE_CHAR {
        if io.cursor < CHAR_CELLS {
            IoModel {
                char_staging: io.char_staging.update(io.cursor as int, v),
                cursor: io.cursor + 1,
                ..io
            }
        } else {
            io
        }
    } else if addr == BUFFER_CHARS {
        IoModel { chars: io.char_staging, ..io }
    } else if addr == CLEAR_CHARS_BUFFER {
        IoModel { char_staging: blank_chars(), cursor: 0, ..io }
    } else if addr == SHOW_NUMBER {
        IoModel { number: Some(v), ..io }
    } else if addr == CLEAR_NUMBER {
        IoModel { number: None, ..io }
    } else if addr == SIGNED_MODE {
        IoModel { signed: true, ..io }
    } else if addr == UNSIGNED_MODE {
        IoModel { signed: false, ..io }
    } else {
        io
    }
}

/// The byte a load from peripheral address `addr` gives, and the state after
/// it; addresses with no load effect read zero.
pub open spec fn io_load(io: IoModel, addr: u8) -> (u8, IoModel) {
    if addr == LOAD_PIXEL {
        (if io.screen[io.pixel()] { 1u8 } else { 0u8 }, io)
    } else if addr == RANDOM {
        (rng_byte(rng_next(io.rng)), IoModel { rng: rng_next(io.rng), ..io })
    } else if addr == CONTROLLER {
        (io.buttons, io)
    } else {
        (0u8, io)
    }
}

fn filled_bools(n: usize) -> (r: Vec<bool>)
    ensures
        r@ == Seq::new(n as nat, |i: int| false),
{
    let mut r: Vec<bool> = Vec::new();
    let mut i: usize = 0;
    while i < n
        invariant
            i <= n,
            r@ == Seq::new(i as nat, |k: int| false),
        decreases n - i,
    {
        r.push(false);
        i = i + 1;
        assert(r@ =~= Seq::new(i as nat, |k: int| false));
    }
    r
}

pub(crate) fn filled_bytes(n: usize) -> (r: Vec<u8>)
    ensures
        r@ == Seq::new(n as nat, |i: int| 0u8),
{
    let mut r: Vec<u8> = Vec::new();
    let mut i: usize = 0;
    while i < n
        invariant
            i <= n,
            r@ == Seq::new(i as nat, |k: int| 0u8),
        decreases n - i,
    {
        r.push(0u8);
        i = i + 1;
        assert(r@ =~= Seq::new(i as nat, |k: int| 0u8));
    }
    r
}

fn copy_bools(v: &Vec<bool>) -> (r: Vec<bool>)
    ensures
        r@ == v@,
{
    let mut r: Vec<bool> = Vec::new();
    let mut i: usize = 0;
    while i < v.len()
        invariant
            i <= v.len(),
            r@ == v@.subrange(0, i as int),
        decreases v.len() - i,
    {
        r.push(v[i]);
        i = i + 1;
        assert(r@ =~= v@.subrange(0, i as int));
    }
    assert(r@ =~= v@);
    r
}

fn copy_bytes(v: &Vec<u8>) -> (r: Vec<u8>)
    ensures
        r@ == v@,
{
    let mut r: Vec<u8> = Vec::new();
    let mut i: usize = 0;
    while i < v.len()
        invariant
            i <= v.len(),
            r@ == v@.subrange(0, i as int),
        decreases v.len() - i,
    {
        r.push(v[i]);
        i = i + 1;
        assert(r@ =~= v@.subrange(0, i as int));
    }
    assert(r@ =~= v@);
    r
}

/// The memory-mapped peripherals: pixel display, character display, number
/// display, pseudo-random source and controller.
pub struct Io {
    x: u8,
    y: u8,
    staging: Vec<bool>,
    screen: Vec<bool>,
    char_staging: Vec<u8>,
    cursor: usize,
    chars: Vec<u8>,
    number: Option<u8>,
    signed: bool,
    rng: u32,
    buttons: u8,
}

impl View for Io {
    type V = IoModel;

    closed spec fn view(&self) -> IoModel {
        IoModel {
            x: self.x,
            y: self.y,
            staging: self.staging@,
            screen: self.screen@,
            char_staging: self.char_staging@,
            cursor: self.cursor as nat,
            chars: self.chars@,
            number: self.number,
            signed: self.signed,
            rng: self.rng,
            buttons: self.buttons,
        }
    }
}

impl Io {
    pub fn new(seed: u32) -> (r: Io)
        ensures
            r@ == io_initial(seed),
    {
        Io {
            x: 0,
            y: 0,
            staging: filled_bools(SCREEN_PIXELS),
            screen: filled_bools(SCREEN_PIXELS),
            char_staging: filled_bytes(CHAR_CELLS),
            cursor: 0,
            chars: filled_bytes(CHAR_CELLS),
            number: None,
            signed: false,
            rng: seed,
            buttons: 0,
        }
    }

    fn pixel_index(&self) -> (r: usize)
        requires
            self@.wf(),
        ensures
            r == self@.pixel(),
            r < SCREEN_PIXELS,
    {
        self.y as usize * 32 + self.x as usize
    }

    /// Stores `v` at peripheral address `addr`.
    pub fn store(&mut self, addr: u8, v: u8)
        requires
            old(self)@.wf(),
        ensures
            final(self)@ == io_store(old(self)@, addr, v),
            final(self)@.wf(),
    {
        if addr == PIXEL_X {
            self.x = v % 32;
        } else if addr == PIXEL_Y {
            self.y = v % 32;
        } else if addr == DRAW_PIXEL {
            let p = self.pixel_index();
            self.staging.set(p, true);
        } else if addr == CLEAR_PIXEL {
            let p = self.pixel_index();
            self.staging.set(p, false);
        } else if addr == BUFFER_SCREEN {
            self.screen = copy_bools(&self.staging);
        } else if addr == CLEAR_SCREEN_BUFFER {
            self.staging = filled_bools(SCREEN_PIXELS);
        } else if addr == WRITE_CHAR {
            if self.cursor < CHAR_CELLS {
                let c = self.cursor;
                self.char_staging.set(c, v);
                self.cursor = c + 1;
            }
        } else if addr == BUFFER_CHARS {
            self.chars = copy_bytes(&self.char_staging);
        } else if addr == CLEAR_CHARS_BUFFER {
            self.char_staging = filled_bytes(CHAR_CELLS);
            self.cursor = 0;
        } else if addr == SHOW_NUMBER {
            self.number = Some(v);
        } else if addr == CLEAR_NUMBER {
            self.number = None;
        } else if addr == SIGNED_MODE {
            self.signed = true;
        } else if addr == UNSIGNED_MODE {
            self.signed = false;
        }
    }

    /// Loads from peripheral address `addr`; a random read advances the stream.
    pub fn load(&mut self, addr: u8) -> (r: u8)
        requires
            old(self)@.wf(),
        ensures
            (r, final(self)@) == io_load(old(self)@, addr),
            final(self)@.wf(),
    {
        if addr == LOAD_PIXEL {
            let p = self.pixel_index();
            if self.screen[p] {
                1
            } else {
                0
            }
        } else if addr == RANDOM {
            let s = self.rng as u64;
            assert(s * 1103515245 + 12345 < 0x1_0000_0000_0000_0000) by (nonlinear_arith)
                requires s < 0x1_0000_0000;
            let n = ((s * 1103515245 + 12345) % 0x1_0000_0000) as u32;
            self.rng = n;
            ((n / 0x10000) % 256) as u8
        } else if addr == CONTROLLER {
            self.buttons
        } else {
            0
        }
    }

    /// Restarts the pseudo-random stream at `seed`.
    pub fn set_seed(&mut self, seed: u32)
        ensures
            final(self)@ == (IoModel { rng: seed, ..old(self)@ }),
    {
        self.rng = seed;
    }

    /// Presses button `i`.
    pub fn set_button(&mut self, i: u8)
        requires
            i < 8,
        ensures
            final(self)@ == (IoModel { buttons: old(self)@.buttons | (1u8 << i), ..old(self)@ }),
    {
        self.buttons = self.buttons | (1u8 << i);
    }

    /// Releases button `i`.
    pub fn clear_button(&mut self, i: u8)
        requires
            i < 8,
        ensures
            final(self)@ == (IoModel { buttons: old(self)@.buttons & !(1u8 << i), ..old(self)@ }),
    {
        self.buttons = self.buttons & !(1u8 << i);
    }

    /// Releases every button.
    pub fn clear_buttons(&mut self)
        ensures
            final(self)@ == (IoModel { buttons: 0, ..old(self)@ }),
    {
        self.buttons = 0;
    }

    /// The pressed buttons, one bit each.
    pub fn buttons(&self) -> (r: u8)
        ensures
            r == self@.buttons,
    {
        self.buttons
    }

    /// Whether the committed pixel at `(x, y)` is lit.
    pub fn pixel(&self, x: u8, y: u8) -> (r: bool)
        requires
            self@.wf(),
            x < 32,
            y < 32,
        ensures
            r == self@.screen[y * 32 + x],
    {
        self.screen[y as usize * 32 + x as usize]
    }

    /// The committed character line, as glyph indices.
    pub fn chars(&self) -> (r: Vec<u8>)
        ensures
            r@ == self@.chars,
    {
        copy_bytes(&self.chars)
    }

    /// The number on display, if any.
    pub fn number(&self) -> (r: Option<u8>)
        ensures
            r == self@.number,
    {
        self.number
    }

    /// Whether the number display shows its value as signed.
    pub fn is_signed(&self) -> (r: bool)
        ensures
            r == self@.signed,
    {
        self.signed
    }
}

/// Drawing or clearing a pixel changes only the staging buffer: a read of the
/// latched pixel sees the committed screen until the buffer is committed, and
/// after the commit it sees what was drawn.
pub proof fn lemma_draw_then_commit(io: IoModel, v: u8, w: u8)
    requires
        io.wf(),
    ensures
        io_store(io, DRAW_PIXEL, v).screen == io.screen,
        io_load(io_store(io, DRAW_PIXEL, v), LOAD_PIXEL).0 == io_load(io, LOAD_PIXEL).0,
        io_load(io_store(io_store(io, DRAW_PIXEL, v), BUFFER_SCREEN, w), LOAD_PIXEL).0 == 1,
        io_store(io, CLEAR_PIXEL, v).screen == io.screen,
        io_load(io_store(io_store(io, CLEAR_PIXEL, v), BUFFER_SCREEN, w), LOAD_PIXEL).0 == 0,
{
    assert(io.pixel() < 1024) by (nonlinear_arith)
        requires io.x < 32, io.y < 32, io.pixel() == io.y * 32 + io.x;
}

} // verus!
