//! Mathematical model of the CHIP-8 machine.
//!
//! `Chip8View` is the abstract state of the virtual machine; one spec
//! function per instruction gives the exact state transition that the
//! executable handlers in `instructions` are proved to implement.
use vstd::prelude::*;

verus! {

/// Size of the flat address space in bytes.
pub const MEM_SIZE: usize = 4096;

/// First address of the program/data region; a ROM is copied here.
pub const ROM_BASE: usize = 0x200;

/// Largest ROM that fits between `ROM_BASE` and the top of memory.
pub const ROM_CAPACITY: usize = 3584;

/// First address of the built-in font table.
pub const FONT_BASE: usize = 0x50;

/// Total size of the font table: 16 glyphs of 5 bytes each.
pub const FONT_BYTES: usize = 80;

/// Width of the display in pixels.
pub const SCREEN_WIDTH: usize = 64;

/// Height of the display in pixels.
pub const SCREEN_HEIGHT: usize = 32;

/// Number of cells in the display buffer.
pub const SCREEN_CELLS: usize = 2048;

/// Maximum number of return addresses the call stack holds.
pub const STACK_DEPTH: usize = 16;

/// Number of general-purpose registers.
pub const REG_COUNT: usize = 16;

/// Number of keys on the keypad.
pub const KEY_COUNT: usize = 16;

/// Value of a display cell that is on; an off cell is `0`.
pub const PIXEL_ON: u32 = 0xFFFF_FFFF;

/// The explicit failure signals of the machine.
///
/// `EmptyRom` and `RomTooLarge` are configuration errors reported by
/// `load_rom` before any cycle runs; the others are runtime invariant
/// violations that abort the affected instruction.
#[derive(Clone, Copy, Debug, PartialEq, Eq, Structural)]
pub enum VmError {
    EmptyRom,
    RomTooLarge,
    StackUnderflow,
    StackOverflow,
    ProgramCounterOutOfRange,
    AddressOutOfRange,
    KeyOutOfRange,
}

/// Abstract state of the machine: every field of the executable `Chip8`
/// as a mathematical value.
#[verifier::ext_equal]
pub struct Chip8View {
    pub mem: Seq<u8>,
    pub disp: Seq<u32>,
    pub pc: u16,
    pub index: u16,
    pub stack: Seq<u16>,
    pub delay: u8,
    pub sound: u8,
    pub keys: Seq<u8>,
    pub regs: Seq<u8>,
    pub opcode: u16,
}

impl Chip8View {
    /// Well-formedness: the sizes fixed by the architecture, and every
    /// display cell either fully off or fully on.
    pub open spec fn wf(self) -> bool {
        &&& self.mem.len() == MEM_SIZE
        &&& self.disp.len() == SCREEN_CELLS
        &&& self.stack.len() <= STACK_DEPTH
        &&& self.keys.len() == KEY_COUNT
        &&& self.regs.len() == REG_COUNT
        &&& forall|p: int|
            0 <= p < SCREEN_CELLS ==> self.disp[p] == 0u32 || self.disp[p] == PIXEL_ON
    }
}

/// The 80 bytes of the built-in font: one 5-byte glyph per hexadecimal digit.
pub open spec fn font_table() -> Seq<u8> {
    seq![
        0xF0u8, 0x90, 0x90, 0x90, 0xF0,  // 0
        0x20, 0x60, 0x20, 0x20, 0x70,  // 1
        0xF0, 0x10, 0xF0, 0x80, 0xF0,  // 2
        0xF0, 0x10, 0xF0, 0x10, 0xF0,  // 3
        0x90, 0x90, 0xF0, 0x10, 0x10,  // 4
        0xF0, 0x80, 0xF0, 0x10, 0xF0,  // 5
        0xF0, 0x80, 0xF0, 0x90, 0xF0,  // 6
        0xF0, 0x10, 0x20, 0x40, 0x40,  // 7
        0xF0, 0x90, 0xF0, 0x90, 0xF0,  // 8
        0xF0, 0x90, 0xF0, 0x10, 0xF0,  // 9
        0xF0, 0x90, 0xF0, 0x90, 0x90,  // A
        0xE0, 0x90, 0xE0, 0x90, 0xE0,  // B
        0xF0, 0x80, 0x80, 0x80, 0xF0,  // C
        0xE0, 0x90, 0x90, 0x90, 0xE0,  // D
        0xF0, 0x80, 0xF0, 0x80, 0xF0,  // E
        0xF0, 0x80, 0xF0, 0x80, 0x80,  // F
    ]
}

/// The machine state right after construction: cleared memory but for the
/// font table, cleared display, program counter at the start of the ROM
/// region.
pub open spec fn initial_state() -> Chip8View {
    Chip8View {
        mem: Seq::new(
            MEM_SIZE as nat,
            |i: int|
                if FONT_BASE <= i < FONT_BASE + FONT_BYTES {
                    font_table()[i - FONT_BASE]
                } else {
                    0u8
                },
        ),
        disp: Seq::new(SCREEN_CELLS as nat, |i: int| 0u32),
        pc: ROM_BASE as u16,
        index: 0,
        stack: Seq::empty(),
        delay: 0,
        sound: 0,
        keys: Seq::new(KEY_COUNT as nat, |i: int| 0u8),
        regs: Seq::new(REG_COUNT as nat, |i: int| 0u8),
        opcode: 0,
    }
}

// ---------------------------------------------------------------------------
// Fields of an instruction word.
// ---------------------------------------------------------------------------
/// Top nibble of an opcode: selects the instruction family.
pub open spec fn op_family(op: u16) -> u16 {
    (op >> 12) & 0xF
}

/// The `X` register selector of an opcode.
pub open spec fn op_x(op: u16) -> int {
    ((op >> 8) & 0xF) as int
}

/// The `Y` register selector of an opcode.
pub open spec fn op_y(op: u16) -> int {
    ((op >> 4) & 0xF) as int
}

/// The 4-bit immediate of an opcode.
pub open spec fn op_n(op: u16) -> u16 {
    op & 0xF
}

/// The 8-bit immediate of an opcode.
pub open spec fn op_nn(op: u16) -> u8 {
    (op & 0xFF) as u8
}

/// The 12-bit address immediate of an opcode.
pub open spec fn op_nnn(op: u16) -> u16 {
    op & 0xFFF
}

/// Bounds of the opcode fields, proved once and used wherever a field
/// indexes a register file or memory.
pub proof fn lemma_op_fields(op: u16)
    by (bit_vector)
    ensures
        (op >> 12) & 0xF < 16,
        (op >> 8) & 0xF < 16,
        (op >> 4) & 0xF < 16,
        op & 0xF < 16,
        op & 0xFF < 256,
        op & 0xFFF < 4096,
{
}

// ---------------------------------------------------------------------------
// Small arithmetic helpers.
// ---------------------------------------------------------------------------
/// The program counter after a "skip": two bytes further, modulo the
/// 16-bit register width.  In normal operation the counter never comes
/// near the wrap, which exists only to make the function total.
pub open spec fn pc_skip(pc: u16) -> u16 {
    vstd::wrapping::u16_specs::wrapping_add(pc, 2)
}

/// The program counter moved back over the instruction word just fetched.
pub open spec fn pc_rewind(pc: u16) -> u16 {
    vstd::wrapping::u16_specs::wrapping_sub(pc, 2)
}

/// 8-bit wrapping sum.
pub open spec fn add8(a: u8, b: u8) -> u8 {
    ((a + b) % 256) as u8
}

/// 8-bit wrapping difference.
pub open spec fn sub8(a: u8, b: u8) -> u8 {
    (((a + 256) - b) % 256) as u8
}

// ---------------------------------------------------------------------------
// Instruction semantics, one transition per opcode pattern.  The fallible
// ones come with a `can_` guard; their handlers fail exactly when the
// guard does not hold and leave the state unchanged.
// ---------------------------------------------------------------------------
/// `00E0`: every display cell off.
pub open spec fn spec_00e0(s: Chip8View) -> Chip8View {
    Chip8View { disp: Seq::new(SCREEN_CELLS as nat, |i: int| 0u32), ..s }
}

/// `00EE` is defined only on a nonempty call stack.
pub open spec fn can_00ee(s: Chip8View) -> bool {
    s.stack.len() > 0
}

/// `00EE`: return from a subroutine.
pub open spec fn spec_00ee(s: Chip8View) -> Chip8View {
    Chip8View { pc: s.stack.last(), stack: s.stack.drop_last(), ..s }
}

/// `1NNN`: unconditional jump.
pub open spec fn spec_1nnn(s: Chip8View) -> Chip8View {
    Chip8View { pc: op_nnn(s.opcode), ..s }
}

/// `2NNN` is defined only while the call stack has room.
pub open spec fn can_2nnn(s: Chip8View) -> bool {
    s.stack.len() < STACK_DEPTH
}

/// `2NNN`: call a subroutine.
pub open spec fn spec_2nnn(s: Chip8View) -> Chip8View {
    Chip8View { stack: s.stack.push(s.pc), pc: op_nnn(s.opcode), ..s }
}

/// `3XNN`: skip if `V[X] == NN`.
pub open spec fn spec_3xnn(s: Chip8View) -> Chip8View {
    if s.regs[op_x(s.opcode)] == op_nn(s.opcode) {
        Chip8View { pc: pc_skip(s.pc), ..s }
    } else {
        s
    }
}

/// `4XNN`: skip if `V[X] != NN`.
pub open spec fn spec_4xnn(s: Chip8View) -> Chip8View {
    if s.regs[op_x(s.opcode)] != op_nn(s.opcode) {
        Chip8View { pc: pc_skip(s.pc), ..s }
    } else {
        s
    }
}

/// `5XY0`: skip if `V[X] == V[Y]`.
pub open spec fn spec_5xy0(s: Chip8View) -> Chip8View {
    if s.regs[op_x(s.opcode)] == s.regs[op_y(s.opcode)] {
        Chip8View { pc: pc_skip(s.pc), ..s }
    } else {
        s
    }
}

/// `9XY0`: skip if `V[X] != V[Y]`.
pub open spec fn spec_9xy0(s: Chip8View) -> Chip8View {
    if s.regs[op_x(s.opcode)] != s.regs[op_y(s.opcode)] {
        Chip8View { pc: pc_skip(s.pc), ..s }
    } else {
        s
    }
}

/// `6XNN`: load an immediate.
pub open spec fn spec_6xnn(s: Chip8View) -> Chip8View {
    Chip8View { regs: s.regs.update(op_x(s.opcode), op_nn(s.opcode)), ..s }
}

/// `7XNN`: add an immediate, wrapping, no flag.
pub open spec fn spec_7xnn(s: Chip8View) -> Chip8View {
    Chip8View {
        regs: s.regs.update(op_x(s.opcode), add8(s.regs[op_x(s.opcode)], op_nn(s.opcode))),
        ..s
    }
}

/// `8XY0`: copy `V[Y]` into `V[X]`.
pub open spec fn spec_8xy0(s: Chip8View) -> Chip8View {
    Chip8View { regs: s.regs.update(op_x(s.opcode), s.regs[op_y(s.opcode)]), ..s }
}

/// `8XY1`: bitwise or.
pub open spec fn spec_8xy1(s: Chip8View) -> Chip8View {
    Chip8View {
        regs: s.regs.update(op_x(s.opcode), s.regs[op_x(s.opcode)] | s.regs[op_y(s.opcode)]),
        ..s
    }
}

/// `8XY2`: bitwise and.
pub open spec fn spec_8xy2(s: Chip8View) -> Chip8View {
    Chip8View {
        regs: s.regs.update(op_x(s.opcode), s.regs[op_x(s.opcode)] & s.regs[op_y(s.opcode)]),
        ..s
    }
}

/// `8XY3`: bitwise exclusive or.
pub open spec fn spec_8xy3(s: Chip8View) -> Chip8View {
    Chip8View {
        regs: s.regs.update(op_x(s.opcode), s.regs[op_x(s.opcode)] ^ s.regs[op_y(s.opcode)]),
        ..s
    }
}

/// `8XY4`: wrapping sum; `V[F]` becomes the carry out of bit 7.
/// `V[X]` is written first, so with `X = F` the flag wins.
pub open spec fn spec_8xy4(s: Chip8View) -> Chip8View {
    let total = s.regs[op_x(s.opcode)] + s.regs[op_y(s.opcode)];
    Chip8View {
        regs: s.regs.update(op_x(s.opcode), (total % 256) as u8).update(
            15,
            if total > 255 {
                1u8
            } else {
                0u8
            },
        ),
        ..s
    }
}

/// `8XY5`: wrapping difference `V[X] - V[Y]`; `V[F]` is 1 exactly when no
/// borrow occurred.
pub open spec fn spec_8xy5(s: Chip8View) -> Chip8View {
    let a = s.regs[op_x(s.opcode)];
    let b = s.regs[op_y(s.opcode)];
    Chip8View {
        regs: s.regs.update(op_x(s.opcode), sub8(a, b)).update(
            15,
            if a >= b {
                1u8
            } else {
                0u8
            },
        ),
        ..s
    }
}

/// `8XY7`: wrapping difference `V[Y] - V[X]`, flag by the same no-borrow rule.
pub open spec fn spec_8xy7(s: Chip8View) -> Chip8View {
    let a = s.regs[op_x(s.opcode)];
    let b = s.regs[op_y(s.opcode)];
    Chip8View {
        regs: s.regs.update(op_x(s.opcode), sub8(b, a)).update(
            15,
            if b >= a {
                1u8
            } else {
                0u8
            },
        ),
        ..s
    }
}

/// `8XY6`: `V[F]` takes the low bit of `V[X]`, then `V[X]` shifts right.
/// Policy for the historical quirk: the shift reads and writes `V[X]`,
/// ignoring `V[Y]`.  The flag is written first, so with `X = F` the
/// shifted value wins.
pub open spec fn spec_8xy6(s: Chip8View) -> Chip8View {
    let v = s.regs[op_x(s.opcode)];
    Chip8View { regs: s.regs.update(15, v & 1).update(op_x(s.opcode), v / 2), ..s }
}

/// `8XYE`: `V[F]` takes the high bit of `V[X]`, then `V[X]` shifts left,
/// wrapping.  Same quirk policy and write order as `8XY6`.
pub open spec fn spec_8xye(s: Chip8View) -> Chip8View {
    let v = s.regs[op_x(s.opcode)];
    Chip8View {
        regs: s.regs.update(15, v / 128).update(op_x(s.opcode), ((v * 2) % 256) as u8),
        ..s
    }
}

/// `ANNN`: load the index register.
pub open spec fn spec_annn(s: Chip8View) -> Chip8View {
    Chip8View { index: op_nnn(s.opcode), ..s }
}

/// `BNNN`: jump to `NNN + V[0]`.  Policy for the historical quirk: the
/// offset always comes from `V[0]`.  The sum is at most `0xFFF + 0xFF`
/// and never wraps.
pub open spec fn spec_bnnn(s: Chip8View) -> Chip8View {
    Chip8View { pc: (op_nnn(s.opcode) + s.regs[0]) as u16, ..s }
}

/// `CXNN`: `NN` masked with a random word; `r` is the word the generator
/// returned.
pub open spec fn spec_cxnn(s: Chip8View, r: u16) -> Chip8View {
    Chip8View { regs: s.regs.update(op_x(s.opcode), ((s.opcode & 0xFF) & r) as u8), ..s }
}

// ---------------------------------------------------------------------------
// The draw instruction.
// ---------------------------------------------------------------------------
/// Left sprite column on screen: `V[X]` wrapped once into the grid.
pub open spec fn draw_x0(s: Chip8View) -> int {
    (s.regs[op_x(s.opcode)] as int) % 64
}

/// Top sprite row on screen: `V[Y]` wrapped once into the grid.
pub open spec fn draw_y0(s: Chip8View) -> int {
    (s.regs[op_y(s.opcode)] as int) % 32
}

/// How many sprite rows land on the screen; rows below the bottom edge
/// are clipped and their bytes never read.
pub open spec fn rows_visible(s: Chip8View) -> int {
    if op_n(s.opcode) as int <= 32 - draw_y0(s) {
        op_n(s.opcode) as int
    } else {
        32 - draw_y0(s)
    }
}

/// `DXYN` is defined only while every sprite byte it reads lies in memory.
pub open spec fn can_dxyn(s: Chip8View) -> bool {
    rows_visible(s) == 0 || s.index + rows_visible(s) <= MEM_SIZE
}

/// Whether sprite row `row`, column `col` (each from the sprite's own
/// origin) is a lit pixel.
pub open spec fn sprite_pixel(s: Chip8View, row: int, col: int) -> bool {
    (s.mem[s.index + row] >> ((7 - col) as u8)) & 1 == 1
}

/// Whether display cell `p` is toggled by the draw: it lies under the
/// sprite and the sprite pixel over it is lit.  Cells that a wide or tall
/// sprite would map past the right or bottom edge have no `p` at all,
/// which is exactly the clipping policy.
pub open spec fn cell_hit(s: Chip8View, p: int) -> bool {
    let row = p / 64 - draw_y0(s);
    let col = p % 64 - draw_x0(s);
    0 <= row < op_n(s.opcode) as int && 0 <= col < 8 && sprite_pixel(s, row, col)
}

/// A display cell flipped by XOR.
pub open spec fn toggle(c: u32) -> u32 {
    if c == 0 {
        PIXEL_ON
    } else {
        0u32
    }
}

/// The display after the draw: hit cells toggled, all others untouched.
pub open spec fn draw_disp(s: Chip8View) -> Seq<u32> {
    Seq::new(
        SCREEN_CELLS as nat,
        |p: int|
            if cell_hit(s, p) {
                toggle(s.disp[p])
            } else {
                s.disp[p]
            },
    )
}

/// Whether the draw turns any lit cell off.
pub open spec fn draw_collision(s: Chip8View) -> bool {
    exists|p: int| 0 <= p < SCREEN_CELLS && cell_hit(s, p) && s.disp[p] != 0
}

/// Scan order of the draw loops: row by row, each row left to right.
pub open spec fn scan_before(row: int, col: int, rowk: int, colk: int) -> bool {
    row < rowk || (row == rowk && col < colk)
}

/// `cell_hit` restricted to the sprite pixels strictly before `(rowk, colk)`
/// in scan order: the part of the draw already done.
pub open spec fn cell_hit_upto(s: Chip8View, p: int, rowk: int, colk: int) -> bool {
    let row = p / 64 - draw_y0(s);
    let col = p % 64 - draw_x0(s);
    0 <= row < op_n(s.opcode) as int && 0 <= col < 8 && scan_before(row, col, rowk, colk)
        && sprite_pixel(s, row, col)
}

/// The display after the draw has processed the sprite pixels strictly
/// before `(rowk, colk)`.
pub open spec fn draw_disp_upto(s: Chip8View, rowk: int, colk: int) -> Seq<u32> {
    Seq::new(
        SCREEN_CELLS as nat,
        |p: int|
            if cell_hit_upto(s, p, rowk, colk) {
                toggle(s.disp[p])
            } else {
                s.disp[p]
            },
    )
}

/// Whether the draw has turned a lit cell off among the sprite pixels
/// strictly before `(rowk, colk)`.
pub open spec fn draw_collision_upto(s: Chip8View, rowk: int, colk: int) -> bool {
    exists|p: int| 0 <= p < SCREEN_CELLS && cell_hit_upto(s, p, rowk, colk) && s.disp[p] != 0
}

/// Before any pixel is processed the display is untouched and no
/// collision has been seen.
pub proof fn lemma_draw_start(s: Chip8View)
    requires
        s.wf(),
    ensures
        draw_disp_upto(s, 0, 0) == s.disp,
        !draw_collision_upto(s, 0, 0),
{
    assert forall|p: int| 0 <= p < SCREEN_CELLS implies !cell_hit_upto(s, p, 0, 0) by {
        let row = p / 64 - draw_y0(s);
        let col = p % 64 - draw_x0(s);
        assert(0 <= row && 0 <= col ==> !scan_before(row, col, 0, 0));
    }
    assert(draw_disp_upto(s, 0, 0) =~= s.disp);
}

/// A sprite pixel that is dark, or would land past the right edge,
/// changes nothing when the scan moves over it.
pub proof fn lemma_draw_skip(s: Chip8View, row: int, col: int)
    requires
        s.wf(),
        0 <= row < rows_visible(s),
        0 <= col < 8,
        !(sprite_pixel(s, row, col) && draw_x0(s) + col < 64),
    ensures
        draw_disp_upto(s, row, col + 1) == draw_disp_upto(s, row, col),
        draw_collision_upto(s, row, col + 1) == draw_collision_upto(s, row, col),
{
    assert forall|p: int| 0 <= p < SCREEN_CELLS implies cell_hit_upto(s, p, row, col + 1)
        == cell_hit_upto(s, p, row, col) by {
        let r = p / 64 - draw_y0(s);
        let c = p % 64 - draw_x0(s);
        if cell_hit_upto(s, p, row, col + 1) && !cell_hit_upto(s, p, row, col) {
            assert(r == row && c == col);
            assert(0 <= p % 64 < 64);
            assert(sprite_pixel(s, row, col) && draw_x0(s) + col < 64);
        }
    }
    assert(draw_disp_upto(s, row, col + 1) =~= draw_disp_upto(s, row, col));
    if draw_collision_upto(s, row, col + 1) {
        let p = choose|p: int|
            0 <= p < SCREEN_CELLS && cell_hit_upto(s, p, row, col + 1) && s.disp[p] != 0;
        assert(cell_hit_upto(s, p, row, col));
    }
    if draw_collision_upto(s, row, col) {
        let p = choose|p: int|
            0 <= p < SCREEN_CELLS && cell_hit_upto(s, p, row, col) && s.disp[p] != 0;
        assert(cell_hit_upto(s, p, row, col + 1));
    }
}

/// A lit sprite pixel that lands on the grid toggles exactly one cell,
/// one the scan has not touched before, and contributes its collision.
pub proof fn lemma_draw_toggle(s: Chip8View, row: int, col: int)
    requires
        s.wf(),
        0 <= row < rows_visible(s),
        0 <= col < 8,
        sprite_pixel(s, row, col),
        draw_x0(s) + col < 64,
    ensures
        ({
            let p0 = (draw_y0(s) + row) * 64 + draw_x0(s) + col;
            &&& 0 <= p0 < SCREEN_CELLS
            &&& !cell_hit_upto(s, p0, row, col)
            &&& cell_hit_upto(s, p0, row, col + 1)
            &&& draw_disp_upto(s, row, col)[p0] == s.disp[p0]
            &&& draw_disp_upto(s, row, col + 1) == draw_disp_upto(s, row, col).update(
                p0,
                toggle(s.disp[p0]),
            )
            &&& draw_collision_upto(s, row, col + 1) == (draw_collision_upto(s, row, col)
                || s.disp[p0] != 0)
        }),
{
    let p0 = (draw_y0(s) + row) * 64 + draw_x0(s) + col;
    assert(0 <= draw_y0(s) + row < 32);
    vstd::arithmetic::div_mod::lemma_fundamental_div_mod_converse(
        p0,
        64,
        draw_y0(s) + row,
        draw_x0(s) + col,
    );
    assert(p0 / 64 - draw_y0(s) == row && p0 % 64 - draw_x0(s) == col);
    assert(cell_hit_upto(s, p0, row, col + 1));
    assert forall|p: int|
        0 <= p < SCREEN_CELLS && p != p0 implies cell_hit_upto(s, p, row, col + 1)
        == cell_hit_upto(s, p, row, col) by {
        let r = p / 64 - draw_y0(s);
        let c = p % 64 - draw_x0(s);
        if r == row && c == col {
            vstd::arithmetic::div_mod::lemma_fundamental_div_mod(p, 64);
            assert(p == p0);
        }
    }
    assert(draw_disp_upto(s, row, col + 1) =~= draw_disp_upto(s, row, col).update(
        p0,
        toggle(s.disp[p0]),
    ));
    if draw_collision_upto(s, row, col) {
        let p = choose|p: int|
            0 <= p < SCREEN_CELLS && cell_hit_upto(s, p, row, col) && s.disp[p] != 0;
        assert(cell_hit_upto(s, p, row, col + 1));
        assert(draw_collision_upto(s, row, col + 1));
    }
    if s.disp[p0] != 0 {
        assert(draw_collision_upto(s, row, col + 1));
    }
    if draw_collision_upto(s, row, col + 1) {
        let p = choose|p: int|
            0 <= p < SCREEN_CELLS && cell_hit_upto(s, p, row, col + 1) && s.disp[p] != 0;
        if p != p0 {
            assert(cell_hit_upto(s, p, row, col));
        }
    }
}

/// Finishing a row of eight pixels is the same as standing at the start
/// of the next row.
pub proof fn lemma_draw_row(s: Chip8View, row: int)
    requires
        s.wf(),
    ensures
        draw_disp_upto(s, row, 8) == draw_disp_upto(s, row + 1, 0),
        draw_collision_upto(s, row, 8) == draw_collision_upto(s, row + 1, 0),
{
    assert forall|p: int| 0 <= p < SCREEN_CELLS implies cell_hit_upto(s, p, row, 8)
        == cell_hit_upto(s, p, row + 1, 0) by {
        let c = p % 64 - draw_x0(s);
        assert(cell_hit_upto(s, p, row, 8) ==> c < 8);
    }
    assert(draw_disp_upto(s, row, 8) =~= draw_disp_upto(s, row + 1, 0));
    if draw_collision_upto(s, row, 8) {
        let p = choose|p: int|
            0 <= p < SCREEN_CELLS && cell_hit_upto(s, p, row, 8) && s.disp[p] != 0;
        assert(cell_hit_upto(s, p, row + 1, 0));
    }
    if draw_collision_upto(s, row + 1, 0) {
        let p = choose|p: int|
            0 <= p < SCREEN_CELLS && cell_hit_upto(s, p, row + 1, 0) && s.disp[p] != 0;
        assert(cell_hit_upto(s, p, row, 8));
    }
}

/// Once the scan stands past every visible row, the partial draw is the
/// whole draw: rows clipped at the bottom edge have no cell on the grid.
pub proof fn lemma_draw_complete(s: Chip8View)
    requires
        s.wf(),
    ensures
        draw_disp_upto(s, rows_visible(s), 0) == draw_disp(s),
        draw_collision_upto(s, rows_visible(s), 0) == draw_collision(s),
{
    assert forall|p: int| 0 <= p < SCREEN_CELLS implies cell_hit_upto(s, p, rows_visible(s), 0)
        == cell_hit(s, p) by {
        assert(0 <= p / 64 < 32);
        assert(p / 64 - draw_y0(s) < 32 - draw_y0(s));
    }
    assert(draw_disp_upto(s, rows_visible(s), 0) =~= draw_disp(s));
    if draw_collision_upto(s, rows_visible(s), 0) {
        let p = choose|p: int|
            0 <= p < SCREEN_CELLS && cell_hit_upto(s, p, rows_visible(s), 0) && s.disp[p] != 0;
        assert(cell_hit(s, p));
    }
    if draw_collision(s) {
        let p = choose|p: int| 0 <= p < SCREEN_CELLS && cell_hit(s, p) && s.disp[p] != 0;
        assert(cell_hit_upto(s, p, rows_visible(s), 0));
    }
}

/// `DXYN`: XOR the sprite into the display and set `V[F]` to the
/// collision flag.
pub open spec fn spec_dxyn(s: Chip8View) -> Chip8View {
    Chip8View {
        disp: draw_disp(s),
        regs: s.regs.update(
            15,
            if draw_collision(s) {
                1u8
            } else {
                0u8
            },
        ),
        ..s
    }
}

// ---------------------------------------------------------------------------
// Keypad and timer instructions.
// ---------------------------------------------------------------------------
/// `EX9E`/`EXA1` are defined only while `V[X]` names one of the 16 keys.
pub open spec fn can_exkk(s: Chip8View) -> bool {
    s.regs[op_x(s.opcode)] < KEY_COUNT
}

/// `EX9E`: skip if the key named by `V[X]` is held.
pub open spec fn spec_ex9e(s: Chip8View) -> Chip8View {
    if s.keys[s.regs[op_x(s.opcode)] as int] != 0 {
        Chip8View { pc: pc_skip(s.pc), ..s }
    } else {
        s
    }
}

/// `EXA1`: skip if the key named by `V[X]` is not held.
pub open spec fn spec_exa1(s: Chip8View) -> Chip8View {
    if s.keys[s.regs[op_x(s.opcode)] as int] == 0 {
        Chip8View { pc: pc_skip(s.pc), ..s }
    } else {
        s
    }
}

/// `FX07`: read the delay timer.
pub open spec fn spec_fx07(s: Chip8View) -> Chip8View {
    Chip8View { regs: s.regs.update(op_x(s.opcode), s.delay), ..s }
}

/// `FX15`: load the delay timer.
pub open spec fn spec_fx15(s: Chip8View) -> Chip8View {
    Chip8View { delay: s.regs[op_x(s.opcode)], ..s }
}

/// `FX18`: load the sound timer.
pub open spec fn spec_fx18(s: Chip8View) -> Chip8View {
    Chip8View { sound: s.regs[op_x(s.opcode)], ..s }
}

/// `FX1E`: 16-bit add of `V[X]` into the index register, no carry flag.
pub open spec fn spec_fx1e(s: Chip8View) -> Chip8View {
    Chip8View {
        index: vstd::wrapping::u16_specs::wrapping_add(s.index, s.regs[op_x(s.opcode)] as u16),
        ..s
    }
}

/// Index of the lowest held key at or above `k`, or `KEY_COUNT` when none is.
pub open spec fn first_key_from(keys: Seq<u8>, k: int) -> int
    decreases KEY_COUNT - k,
{
    if k < 0 || k >= KEY_COUNT {
        KEY_COUNT as int
    } else if keys[k] != 0 {
        k
    } else {
        first_key_from(keys, k + 1)
    }
}

/// Scanning for the first held key can start past any all-zero prefix.
pub proof fn lemma_first_key_prefix(keys: Seq<u8>, k: int)
    requires
        0 <= k <= KEY_COUNT,
        forall|j: int| 0 <= j < k ==> keys[j] == 0,
    ensures
        first_key_from(keys, 0) == first_key_from(keys, k),
    decreases k,
{
    if k > 0 {
        lemma_first_key_prefix(keys, k - 1);
    }
}

/// `FX0A`: while no key is held the program counter moves back onto this
/// instruction, so the next cycle executes it again; once a key is held,
/// its index lands in `V[X]` and execution moves on.
pub open spec fn spec_fx0a(s: Chip8View) -> Chip8View {
    let k = first_key_from(s.keys, 0);
    if k < KEY_COUNT {
        Chip8View { regs: s.regs.update(op_x(s.opcode), k as u8), ..s }
    } else {
        Chip8View { pc: pc_rewind(s.pc), ..s }
    }
}

/// `FX29`: point the index register at the font glyph for `V[X]`.
pub open spec fn spec_fx29(s: Chip8View) -> Chip8View {
    Chip8View { index: (FONT_BASE + s.regs[op_x(s.opcode)] * 5) as u16, ..s }
}

/// `FX33` is defined only while its three target bytes lie in memory.
pub open spec fn can_fx33(s: Chip8View) -> bool {
    s.index + 3 <= MEM_SIZE
}

/// `FX33`: the decimal digits of `V[X]`, hundreds first, stored at the
/// index register.
pub open spec fn spec_fx33(s: Chip8View) -> Chip8View {
    let v = s.regs[op_x(s.opcode)];
    Chip8View {
        mem: s.mem.update(s.index as int, v / 100).update(
            s.index + 1,
            (v / 10) % 10,
        ).update(s.index + 2, v % 10),
        ..s
    }
}

/// `FX55`/`FX65` are defined only while the `X + 1` transferred bytes lie
/// in memory.
pub open spec fn can_fxreg(s: Chip8View) -> bool {
    s.index + op_x(s.opcode) + 1 <= MEM_SIZE
}

/// `FX55`: store `V[0..=X]` at the index register.  Policy for the
/// historical quirk: the index register itself is left unchanged.
pub open spec fn spec_fx55(s: Chip8View) -> Chip8View {
    Chip8View {
        mem: Seq::new(
            MEM_SIZE as nat,
            |i: int|
                if s.index <= i <= s.index + op_x(s.opcode) {
                    s.regs[i - s.index]
                } else {
                    s.mem[i]
                },
        ),
        ..s
    }
}

/// `FX65`: load `V[0..=X]` from the index register.  Same quirk policy
/// as `FX55`.
pub open spec fn spec_fx65(s: Chip8View) -> Chip8View {
    Chip8View {
        regs: Seq::new(
            REG_COUNT as nat,
            |i: int|
                if i <= op_x(s.opcode) {
                    s.mem[s.index + i]
                } else {
                    s.regs[i]
                },
        ),
        ..s
    }
}

// ---------------------------------------------------------------------------
// Decode, fetch, and the whole cycle.
// ---------------------------------------------------------------------------
/// Route an already-fetched opcode to its transition.  An opcode matching
/// no known pattern is a no-op.  `r` is the word the random generator
/// returned, read only by `CXNN`.
pub open spec fn spec_decode(s: Chip8View, r: u16) -> Result<Chip8View, VmError> {
    let fam = op_family(s.opcode);
    if fam == 0x0 {
        let low = op_n(s.opcode);
        if low == 0x0 {
            Ok(spec_00e0(s))
        } else if low == 0xE {
            if can_00ee(s) {
                Ok(spec_00ee(s))
            } else {
                Err(VmError::StackUnderflow)
            }
        } else {
            Ok(s)
        }
    } else if fam == 0x1 {
        Ok(spec_1nnn(s))
    } else if fam == 0x2 {
        if can_2nnn(s) {
            Ok(spec_2nnn(s))
        } else {
            Err(VmError::StackOverflow)
        }
    } else if fam == 0x3 {
        Ok(spec_3xnn(s))
    } else if fam == 0x4 {
        Ok(spec_4xnn(s))
    } else if fam == 0x5 {
        Ok(spec_5xy0(s))
    } else if fam == 0x6 {
        Ok(spec_6xnn(s))
    } else if fam == 0x7 {
        Ok(spec_7xnn(s))
    } else if fam == 0x8 {
        let low = op_n(s.opcode);
        if low == 0x0 {
            Ok(spec_8xy0(s))
        } else if low == 0x1 {
            Ok(spec_8xy1(s))
        } else if low == 0x2 {
            Ok(spec_8xy2(s))
        } else if low == 0x3 {
            Ok(spec_8xy3(s))
        } else if low == 0x4 {
            Ok(spec_8xy4(s))
        } else if low == 0x5 {
            Ok(spec_8xy5(s))
        } else if low == 0x6 {
            Ok(spec_8xy6(s))
        } else if low == 0x7 {
            Ok(spec_8xy7(s))
        } else if low == 0xE {
            Ok(spec_8xye(s))
        } else {
            Ok(s)
        }
    } else if fam == 0x9 {
        Ok(spec_9xy0(s))
    } else if fam == 0xA {
        Ok(spec_annn(s))
    } else if fam == 0xB {
        Ok(spec_bnnn(s))
    } else if fam == 0xC {
        Ok(spec_cxnn(s, r))
    } else if fam == 0xD {
        if can_dxyn(s) {
            Ok(spec_dxyn(s))
        } else {
            Err(VmError::AddressOutOfRange)
        }
    } else if fam == 0xE {
        let low = op_nn(s.opcode);
        if low == 0x9E {
            if can_exkk(s) {
                Ok(spec_ex9e(s))
            } else {
                Err(VmError::KeyOutOfRange)
            }
        } else if low == 0xA1 {
            if can_exkk(s) {
                Ok(spec_exa1(s))
            } else {
                Err(VmError::KeyOutOfRange)
            }
        } else {
            Ok(s)
        }
    } else {
        let low = op_nn(s.opcode);
        if low == 0x07 {
            Ok(spec_fx07(s))
        } else if low == 0x0A {
            Ok(spec_fx0a(s))
        } else if low == 0x15 {
            Ok(spec_fx15(s))
        } else if low == 0x18 {
            Ok(spec_fx18(s))
        } else if low == 0x1E {
            Ok(spec_fx1e(s))
        } else if low == 0x29 {
            Ok(spec_fx29(s))
        } else if low == 0x33 {
            if can_fx33(s) {
                Ok(spec_fx33(s))
            } else {
                Err(VmError::AddressOutOfRange)
            }
        } else if low == 0x55 {
            if can_fxreg(s) {
                Ok(spec_fx55(s))
            } else {
                Err(VmError::AddressOutOfRange)
            }
        } else if low == 0x65 {
            if can_fxreg(s) {
                Ok(spec_fx65(s))
            } else {
                Err(VmError::AddressOutOfRange)
            }
        } else {
            Ok(s)
        }
    }
}

/// The fetch may only read both instruction bytes from memory.
pub open spec fn can_fetch(s: Chip8View) -> bool {
    s.pc + 1 < MEM_SIZE
}

/// Read the big-endian instruction word at the program counter and step
/// over it, before any dispatch.
pub open spec fn spec_fetch(s: Chip8View) -> Chip8View {
    Chip8View {
        opcode: ((s.mem[s.pc as int] as u16) << 8) | (s.mem[s.pc + 1] as u16),
        pc: pc_skip(s.pc),
        ..s
    }
}

/// After each executed instruction both timers count down toward zero,
/// saturating there.
pub open spec fn spec_tick(s: Chip8View) -> Chip8View {
    Chip8View {
        delay: if s.delay > 0 {
            (s.delay - 1) as u8
        } else {
            0u8
        },
        sound: if s.sound > 0 {
            (s.sound - 1) as u8
        } else {
            0u8
        },
        ..s
    }
}

/// One whole machine cycle: fetch, decode and execute, then tick the
/// timers.  A program counter that cannot fetch is fatal before any
/// mutation; a failing instruction is fatal after the fetch.
pub open spec fn spec_step(s: Chip8View, r: u16) -> Result<Chip8View, VmError> {
    if !can_fetch(s) {
        Err(VmError::ProgramCounterOutOfRange)
    } else {
        match spec_decode(spec_fetch(s), r) {
            Ok(s2) => Ok(spec_tick(s2)),
            Err(e) => Err(e),
        }
    }
}

/// What `decode` guarantees for one possible random word `r`: the result
/// and the state move exactly as `spec_decode` says, and a failing
/// instruction changes nothing.
pub open spec fn decode_outcome(
    pre: Chip8View,
    post: Chip8View,
    res: Result<(), VmError>,
    r: u16,
) -> bool {
    match spec_decode(pre, r) {
        Ok(s) => res == Ok::<(), VmError>(()) && post == s,
        Err(e) => res == Err::<(), VmError>(e) && post == pre,
    }
}

/// What `cycle` guarantees for one possible random word `r`, given that
/// the fetch itself was possible: on success the state moves as
/// `spec_step` says; on an instruction failure the fetch has happened and
/// nothing else.
pub open spec fn cycle_outcome(
    pre: Chip8View,
    post: Chip8View,
    res: Result<(), VmError>,
    r: u16,
) -> bool {
    match spec_step(pre, r) {
        Ok(s) => res == Ok::<(), VmError>(()) && post == s,
        Err(e) => res == Err::<(), VmError>(e) && post == spec_fetch(pre),
    }
}

} // verus!
