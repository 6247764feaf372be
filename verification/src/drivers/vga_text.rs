//! The VGA text console: a grid of 16-bit cells, each a character and its
//! colours, with a cursor that moves as text is written.
use vstd::prelude::*;

verus! {

/// Where the CRT controller is reached: an I/O port or a memory-mapped
/// register.
#[derive(Debug, Clone, Copy, PartialEq, Eq, Structural)]
pub enum CrtAddress {
    Io(u16),
    MmIo(usize),
}

/// The colours of the console.
#[derive(Debug, Clone, Copy, PartialEq, Eq, Structural)]
pub enum TextColor {
    Black,
    Green,
    Cyan,
    Red,
    Orange,
    Yellow,
    White,
    Custom(u32),
}

pub open spec fn spec_color_number(color: TextColor) -> u16 {
    match color {
        TextColor::Black => 0x0,
        TextColor::Green => 0xa,
        TextColor::Cyan => 0xb,
        TextColor::Red => 0x4,
        TextColor::Orange => 0xc,
        TextColor::Yellow => 0xe,
        TextColor::White => 0xf,
        TextColor::Custom(_) => 0xf,
    }
}

/// The VGA colour number of `color`; a custom colour is shown white.
pub fn text_color_to_number(color: TextColor) -> (r: u16)
    ensures
        r == spec_color_number(color),
{
    match color {
        TextColor::Black => 0x0,
        TextColor::Green => 0xa,
        TextColor::Cyan => 0xb,
        TextColor::Red => 0x4,
        TextColor::Orange => 0xc,
        TextColor::Yellow => 0xe,
        TextColor::White => 0xf,
        TextColor::Custom(_) => 0xf,
    }
}

/// The console: the cells of a `width` by `height` screen, the position
/// where the next character goes and the cursor shown on the CRT. The
/// cells stand for the video memory at `address`; a console at address 0
/// has no screen to clear or scroll.
pub struct VgaTextDriver {
    address: usize,
    width: u16,
    height: u16,
    line: u16,
    character: u16,
    crt: CrtAddress,
    cells: Vec<u16>,
    cursor: u16,
}

/// The state of the console that writing changes.
pub struct VgaState {
    pub cells: Seq<u16>,
    pub line: int,
    pub character: int,
    pub cursor: int,
}

/// The cell of character `c` in colours `front` and `back`.
pub open spec fn cell_of(c: u8, front: u16, back: u16) -> u16 {
    ((back % 8) * 0x1000 + (front % 16) * 0x100 + c) as u16
}

/// The cell of a blank written by a new line.
pub open spec fn blank_cell() -> u16 {
    cell_of(0x20, 0, 0)
}

/// The first `x < width` from `x` on for which the cell at
/// `line * width - x` is a blank.
pub open spec fn find_blank(cells: Seq<u16>, base: int, x: int, width: int) -> Option<int>
    decreases width - x,
{
    if x >= width {
        None
    } else if cells[base - x] == blank_cell() {
        Some(x)
    } else {
        find_blank(cells, base, x + 1, width)
    }
}

/// The screen after scrolling by a line: every line moves up and the last
/// one is cleared.
pub open spec fn scrolled(cells: Seq<u16>, width: int) -> Seq<u16> {
    cells.subrange(width, cells.len() as int) + Seq::new(width as nat, |i: int| 0u16)
}

/// One character of output, where `front` and `back` are colour numbers.
pub open spec fn step(s: VgaState, c: u8, front: u16, back: u16, width: int, height: int) -> VgaState {
    let u = step_scroll(step_char(s, c, front, back, width), width, height);
    VgaState { cursor: u.line * width + u.character, ..u }
}

/// The effect of character `c` on the screen and the position.
pub open spec fn step_char(s: VgaState, c: u8, front: u16, back: u16, width: int) -> VgaState {
    if c == 0x0d {
        VgaState { character: 0, ..s }
    } else if c == 0x0a {
        VgaState {
            cells: s.cells.update(s.line * width + s.character, blank_cell()),
            character: 0,
            line: s.line + 1,
            ..s
        }
    } else if c == 0x08 {
        if s.character == 0 {
            if s.line > 0 {
                let ch = match find_blank(s.cells, s.line * width, 0, width) {
                    Some(x) => width - x - 1,
                    None => 0,
                };
                VgaState { character: ch, line: s.line - 1, ..s }
            } else {
                s
            }
        } else {
            VgaState {
                cells: s.cells.update(s.line * width + s.character - 1, blank_cell()),
                character: s.character - 1,
                ..s
            }
        }
    } else {
        let cells = s.cells.update(s.line * width + s.character, cell_of(c, front, back));
        if s.character + 1 >= width {
            VgaState { cells, line: s.line + 1, character: 0, ..s }
        } else {
            VgaState { cells, character: s.character + 1, ..s }
        }
    }
}

/// The scroll that follows a step past the last line.
pub open spec fn step_scroll(t: VgaState, width: int, height: int) -> VgaState {
    if t.line >= height {
        VgaState { cells: scrolled(t.cells, width), line: t.line - 1, character: 0, ..t }
    } else {
        t
    }
}

/// The state after writing all of `buf`.
pub open spec fn write_all(s: VgaState, buf: Seq<u8>, front: u16, back: u16, width: int, height: int) -> VgaState
    decreases buf.len(),
{
    if buf.len() == 0 {
        s
    } else {
        write_all(step(s, buf[0], front, back, width, height), buf.drop_first(), front, back, width, height)
    }
}

impl VgaTextDriver {
    pub closed spec fn spec_address(&self) -> usize {
        self.address
    }

    pub closed spec fn spec_width(&self) -> int {
        self.width as int
    }

    pub closed spec fn spec_height(&self) -> int {
        self.height as int
    }

    pub closed spec fn spec_crt(&self) -> CrtAddress {
        self.crt
    }

    pub closed spec fn state(&self) -> VgaState {
        VgaState {
            cells: self.cells@,
            line: self.line as int,
            character: self.character as int,
            cursor: self.cursor as int,
        }
    }

    /// The cells fill the screen, the position lies on it, and the screen
    /// has at most `0xFFFF` cells.
    pub open spec fn wf(&self) -> bool {
        &&& 1 <= self.spec_width()
        &&& 1 <= self.spec_height()
        &&& self.spec_width() * self.spec_height() <= 0xFFFF
        &&& self.state().cells.len() == self.spec_width() * self.spec_height()
        &&& 0 <= self.state().line < self.spec_height()
        &&& 0 <= self.state().character < self.spec_width()
    }

    /// A blank console of `width` by `height` cells.
    pub fn new(address: usize, width: u16, height: u16, crt: CrtAddress) -> (r: Self)
        requires
            1 <= width,
            1 <= height,
            width * height <= 0xFFFF,
        ensures
            r.wf(),
            r.spec_address() == address,
            r.spec_width() == width,
            r.spec_height() == height,
            r.spec_crt() == crt,
            r.state().cells == Seq::new((width * height) as nat, |i: int| 0u16),
            r.state().line == 0,
            r.state().character == 0,
            r.state().cursor == 0,
    {
        let n: usize = width as usize * height as usize;
        let mut cells: Vec<u16> = Vec::new();
        let mut i: usize = 0;
        while i < n
            invariant
                i <= n,
                cells@ == Seq::new(i as nat, |k: int| 0u16),
            decreases n - i,
        {
            cells.push(0);
            i = i + 1;
            proof {
                assert(cells@ =~= Seq::new(i as nat, |k: int| 0u16));
            }
        }
        VgaTextDriver { address, width, height, line: 0, character: 0, crt, cells, cursor: 0 }
    }

    /// Clears the screen and puts the cursor home; nothing where there is
    /// no screen.
    pub fn init(&mut self)
        requires
            old(self).wf(),
        ensures
            final(self).wf(),
            final(self).spec_address() == old(self).spec_address(),
            final(self).spec_width() == old(self).spec_width(),
            final(self).spec_height() == old(self).spec_height(),
            old(self).spec_address() == 0 ==> final(self).state() == old(self).state(),
            old(self).spec_address() != 0 ==> final(self).state() == (VgaState {
                cells: Seq::new(old(self).state().cells.len(), |i: int| 0u16),
                line: 0,
                character: 0,
                cursor: 0,
            }),
    {
        if self.address == 0 {
            return;
        }
        let n = self.cells.len();
        let mut i: usize = 0;
        while i < n
            invariant
                n == self.cells@.len(),
                i <= n,
                self.wf(),
                self.spec_address() == old(self).spec_address(),
                self.spec_width() == old(self).spec_width(),
                self.spec_height() == old(self).spec_height(),
                forall|k: int| 0 <= k < i ==> self.cells@[k] == 0u16,
            decreases n - i,
        {
            self.cells.set(i, 0);
            i = i + 1;
        }
        self.line = 0;
        self.character = 0;
        self.cursor = 0;
        proof {
            assert(self.cells@ =~= Seq::new(n as nat, |i: int| 0u16));
        }
    }

    /// Moves the screen to `mapped`, the address at which its video memory
    /// was mapped; nothing where there is no screen.
    pub fn remap_buffer(&mut self, mapped: usize)
        ensures
            final(self).spec_address() == if old(self).spec_address() != 0 {
                mapped
            } else {
                0
            },
            final(self).state() == old(self).state(),
            final(self).spec_width() == old(self).spec_width(),
            final(self).spec_height() == old(self).spec_height(),
            final(self).wf() == old(self).wf(),
    {
        if self.address != 0 {
            self.address = mapped;
        }
    }

    /// The cells of the screen.
    pub fn get_cells(&self) -> (r: &Vec<u16>)
        ensures
            r@ == self.state().cells,
    {
        &self.cells
    }

    /// The cursor position to show on the CRT.
    pub fn get_cursor_position(&self) -> (r: u16)
        ensures
            r == self.state().cursor,
    {
        self.cursor
    }

    fn put_char(&mut self, c: u8, front: u16, back: u16)
        requires
            old(self).wf(),
        ensures
            final(self).wf(),
            final(self).spec_address() == old(self).spec_address(),
            final(self).spec_width() == old(self).spec_width(),
            final(self).spec_height() == old(self).spec_height(),
            final(self).state() == (VgaState {
                cells: old(self).state().cells.update(
                    old(self).state().line * old(self).spec_width() + old(self).state().character,
                    cell_of(c, front, back),
                ),
                ..old(self).state()
            }),
    {
        let t: u16 = (back % 8) * 0x1000 + (front % 16) * 0x100 + c as u16;
        proof {
            lemma_cell_index(self.line as int, self.character as int, self.width as int, self.height as int);
        }
        let index = self.line as usize * self.width as usize + self.character as usize;
        self.cells.set(index, t);
    }

    /// Shifts the lines up by one and clears the last; the position goes
    /// to the start of the line above.
    fn scroll_line(&mut self)
        requires
            old(self).spec_width() * old(self).spec_height() <= 0xFFFF,
            1 <= old(self).spec_width(),
            1 <= old(self).spec_height(),
            old(self).state().cells.len() == old(self).spec_width() * old(self).spec_height(),
            old(self).state().line == old(self).spec_height(),
            old(self).spec_address() != 0,
        ensures
            final(self).wf(),
            final(self).spec_address() == old(self).spec_address(),
            final(self).spec_width() == old(self).spec_width(),
            final(self).spec_height() == old(self).spec_height(),
            final(self).state() == (VgaState {
                cells: scrolled(old(self).state().cells, old(self).spec_width()),
                line: old(self).state().line - 1,
                character: 0,
                ..old(self).state()
            }),
    {
        let w = self.width as usize;
        let n = self.cells.len();
        let hh = self.height as usize;
        assert(w <= n) by (nonlinear_arith)
            requires
                n == w * hh,
                1 <= hh,
                w >= 1,
        ;
        let ghost old_cells = self.cells@;
        let mut i: usize = 0;
        while i < n - w
            invariant
                n == self.cells@.len() == old_cells.len(),
                w <= n,
                i <= n - w,
                forall|k: int| 0 <= k < i ==> self.cells@[k] == old_cells[k + w],
                forall|k: int| i <= k < n ==> self.cells@[k] == old_cells[k],
                self.state().line == old(self).state().line,
                self.state().character == old(self).state().character,
                self.state().cursor == old(self).state().cursor,
                self.spec_width() == old(self).spec_width(),
                self.spec_height() == old(self).spec_height(),
                self.spec_address() == old(self).spec_address(),
            decreases n - w - i,
        {
            let v = self.cells[i + w];
            self.cells.set(i, v);
            i = i + 1;
        }
        while i < n
            invariant
                n == self.cells@.len() == old_cells.len(),
                w <= n,
                n - w <= i <= n,
                forall|k: int| 0 <= k < n - w ==> self.cells@[k] == old_cells[k + w],
                forall|k: int| n - w <= k < i ==> self.cells@[k] == 0u16,
                self.state().line == old(self).state().line,
                self.state().character == old(self).state().character,
                self.state().cursor == old(self).state().cursor,
                self.spec_width() == old(self).spec_width(),
                self.spec_height() == old(self).spec_height(),
                self.spec_address() == old(self).spec_address(),
            decreases n - i,
        {
            self.cells.set(i, 0);
            i = i + 1;
        }
        self.line = self.line - 1;
        self.character = 0;
        proof {
            assert(self.cells@ =~= scrolled(old_cells, w as int));
        }
    }

    /// Writes `buf` in colours `foreground` on `background`: a carriage
    /// return goes to the start of the line, a line feed leaves a blank
    /// and goes to the next line, a backspace blanks the character before
    /// (at the start of a line it goes to the line above, after the first
    /// blank that a scan back from the start of the current line meets),
    /// and any other byte is put and the position moves on, to the next
    /// line at the end of one. Past the last line the screen scrolls.
    pub fn write(&mut self, buf: &[u8], foreground: TextColor, background: TextColor)
        requires
            old(self).wf(),
            old(self).spec_address() != 0,
        ensures
            final(self).wf(),
            final(self).spec_address() == old(self).spec_address(),
            final(self).spec_width() == old(self).spec_width(),
            final(self).spec_height() == old(self).spec_height(),
            final(self).state() == write_all(
                old(self).state(),
                buf@,
                spec_color_number(foreground),
                spec_color_number(background),
                old(self).spec_width(),
                old(self).spec_height(),
            ),
    {
        let front = text_color_to_number(foreground);
        let back = text_color_to_number(background);
        let ghost w = self.spec_width();
        let ghost h = self.spec_height();
        let mut i: usize = 0;
        assert(buf@.subrange(0, buf@.len() as int) =~= buf@);
        while i < buf.len()
            invariant
                self.wf(),
                self.spec_address() == old(self).spec_address(),
                self.spec_address() != 0,
                self.spec_width() == w,
                self.spec_height() == h,
                i <= buf@.len(),
                write_all(old(self).state(), buf@, front, back, w, h) == write_all(
                    self.state(),
                    buf@.subrange(i as int, buf@.len() as int),
                    front,
                    back,
                    w,
                    h,
                ),
            decreases buf@.len() - i,
        {
            let ghost before = self.state();
            let code = buf[i];
            self.write_one(code, front, back);
            proof {
                let rest = buf@.subrange(i as int, buf@.len() as int);
                assert(rest[0] == code);
                assert(rest.drop_first() =~= buf@.subrange(i + 1, buf@.len() as int));
            }
            i = i + 1;
        }
        proof {
            assert(buf@.subrange(i as int, buf@.len() as int) =~= Seq::<u8>::empty());
        }
    }

    /// The first `x` below the width for which the cell at `base - x` is a
    /// blank.
    fn find_blank_before(&self, base: usize) -> (r: Option<u16>)
        requires
            self.wf(),
            self.spec_width() <= base < self.state().cells.len(),
        ensures
            r is None <==> find_blank(self.state().cells, base as int, 0, self.spec_width()) is None,
            r matches Some(x) ==> find_blank(self.state().cells, base as int, 0, self.spec_width())
                == Some(x as int),
            r matches Some(x) ==> x < self.spec_width(),
    {
        let mut x: u16 = 0;
        while x < self.width
            invariant
                self.wf(),
                self.spec_width() <= base < self.state().cells.len(),
                x <= self.spec_width(),
                find_blank(self.state().cells, base as int, 0, self.spec_width()) == find_blank(
                    self.state().cells,
                    base as int,
                    x as int,
                    self.spec_width(),
                ),
            decreases self.spec_width() - x,
        {
            assert(blank_cell() == 0x20);
            if self.cells[base - x as usize] == 0x20 {
                return Some(x);
            }
            x = x + 1;
        }
        None
    }

    fn write_one(&mut self, code: u8, front: u16, back: u16)
        requires
            old(self).wf(),
            old(self).spec_address() != 0,
        ensures
            final(self).wf(),
            final(self).spec_address() == old(self).spec_address(),
            final(self).spec_width() == old(self).spec_width(),
            final(self).spec_height() == old(self).spec_height(),
            final(self).state() == step(
                old(self).state(),
                code,
                front,
                back,
                old(self).spec_width(),
                old(self).spec_height(),
            ),
    {
        let ghost s0 = self.state();
        let ghost w = self.spec_width();
        let ghost h = self.spec_height();
        if code == 0x0d {
            self.character = 0;
        } else if code == 0x0a {
            self.put_char(0x20, 0, 0);
            self.character = 0;
            self.line = self.line + 1;
        } else if code == 0x08 {
            if self.character == 0 {
                if self.line > 0 {
                    self.character = 0;
                    assert(self.line * self.width < self.width * self.height) by (nonlinear_arith)
                        requires
                            self.line < self.height,
                            self.width >= 1,
                    ;
                    assert(self.width <= self.line * self.width) by (nonlinear_arith)
                        requires
                            self.line >= 1,
                            self.width >= 1,
                    ;
                    let base = self.line as usize * self.width as usize;
                    match self.find_blank_before(base) {
                        Some(x) => {
                            self.character = self.width - x - 1;
                        },
                        None => {
                            self.character = 0;
                        },
                    }
                    self.line = self.line - 1;
                }
            } else {
                self.character = self.character - 1;
                self.put_char(0x20, 0, 0);
                }
        } else {
            self.put_char(code, front, back);
            self.character = self.character + 1;
            if self.character >= self.width {
                self.line = self.line + 1;
                self.character = 0;
            }
        }
        assert(self.state() == step_char(s0, code, front, back, w));
        if self.line >= self.height {
            self.scroll_line();
        }
        assert(self.state() == step_scroll(step_char(s0, code, front, back, w), w, h));
        proof {
            lemma_cell_index(self.line as int, self.character as int, w, h);
        }
        self.cursor = self.line * self.width + self.character;
    }
}

proof fn lemma_cell_index(line: int, character: int, width: int, height: int)
    requires
        0 <= line < height,
        0 <= character < width,
        width * height <= 0xFFFF,
    ensures
        0 <= line * width + character < width * height,
        line * width + character <= 0xFFFF,
{
    assert(line * width + character < width * height) by (nonlinear_arith)
        requires
            0 <= line < height,
            0 <= character < width,
    ;
    assert(0 <= line * width) by (nonlinear_arith)
        requires
            0 <= line,
            0 <= character < width,
    ;
}

} // verus!
