//! Laws of the instruction set that span more than one transition, each
//! proved once and for all states.
use crate::model::{
    add8, can_00ee, can_2nnn, can_dxyn, cell_hit, draw_collision, draw_x0, draw_y0,
    lemma_op_fields, op_n, op_nn, op_x, op_y, rows_visible, spec_00e0, spec_00ee, spec_2nnn,
    spec_6xnn, spec_7xnn, spec_dxyn, sprite_pixel, toggle, Chip8View, SCREEN_CELLS,
};
use vstd::prelude::*;

verus! {

/// `6XNN` followed immediately by reading `V[X]` yields exactly `NN`, for
/// every register selector and every immediate.
pub proof fn lemma_load_then_read(s: Chip8View)
    requires
        s.wf(),
    ensures
        spec_6xnn(s).regs[op_x(s.opcode)] == op_nn(s.opcode),
{
    lemma_op_fields(s.opcode);
}

/// `7XNN` adds with wraparound and sets no flag: the sum register wraps
/// modulo 256 (`0xFF + 0x01` gives `0x00`), and the flag register keeps
/// its value whenever it is not itself the sum register.
pub proof fn lemma_add_wraps_without_flag(s: Chip8View)
    requires
        s.wf(),
    ensures
        spec_7xnn(s).regs[op_x(s.opcode)] == add8(s.regs[op_x(s.opcode)], op_nn(s.opcode)),
        s.regs[op_x(s.opcode)] == 0xFF && op_nn(s.opcode) == 0x01 ==> spec_7xnn(s).regs[op_x(
            s.opcode,
        )] == 0x00,
        op_x(s.opcode) != 15 ==> spec_7xnn(s).regs[15] == s.regs[15],
{
    lemma_op_fields(s.opcode);
}

/// `00E0` leaves every display cell off, regardless of prior draw state.
pub proof fn lemma_clear_all_off(s: Chip8View)
    requires
        s.wf(),
    ensures
        forall|p: int| 0 <= p < SCREEN_CELLS ==> spec_00e0(s).disp[p] == 0,
{
}

/// A `2NNN` call followed by `00EE` restores the machine whole: in
/// particular the program counter is back at its value right after the
/// call instruction's own fetch advance.
pub proof fn lemma_call_return_round_trip(s: Chip8View)
    requires
        s.wf(),
        can_2nnn(s),
    ensures
        can_00ee(spec_2nnn(s)),
        spec_00ee(spec_2nnn(s)) == s,
{
    assert(spec_2nnn(s).stack.drop_last() =~= s.stack);
    assert(spec_00ee(spec_2nnn(s)) =~= s);
}

/// Drawing one sprite twice at one position toggles every touched cell
/// back, restoring the display exactly; the second draw reports a
/// collision precisely when the first draw lit some cell that was off.
/// The register selectors must not name the flag register, which the
/// first draw overwrites.
pub proof fn lemma_draw_twice_cancels(s: Chip8View)
    requires
        s.wf(),
        can_dxyn(s),
        op_x(s.opcode) != 15,
        op_y(s.opcode) != 15,
    ensures
        can_dxyn(spec_dxyn(s)),
        forall|p: int| 0 <= p < SCREEN_CELLS ==> spec_dxyn(spec_dxyn(s)).disp[p] == s.disp[p],
        spec_dxyn(spec_dxyn(s)).regs[15] == 1 <==> exists|p: int|
            0 <= p < SCREEN_CELLS && cell_hit(s, p) && s.disp[p] == 0,
{
    lemma_op_fields(s.opcode);
    let s1 = spec_dxyn(s);
    assert(s1.regs[op_x(s.opcode)] == s.regs[op_x(s.opcode)]);
    assert(s1.regs[op_y(s.opcode)] == s.regs[op_y(s.opcode)]);
    assert(draw_x0(s1) == draw_x0(s));
    assert(draw_y0(s1) == draw_y0(s));
    assert(rows_visible(s1) == rows_visible(s));
    assert forall|p: int| 0 <= p < SCREEN_CELLS implies cell_hit(s1, p) == cell_hit(s, p) by {
        let row = p / 64 - draw_y0(s);
        let col = p % 64 - draw_x0(s);
        assert(sprite_pixel(s1, row, col) == sprite_pixel(s, row, col));
    }
    assert forall|p: int| 0 <= p < SCREEN_CELLS implies spec_dxyn(s1).disp[p] == s.disp[p] by {
        if cell_hit(s, p) {
            assert(s1.disp[p] == toggle(s.disp[p]));
            assert(spec_dxyn(s1).disp[p] == toggle(toggle(s.disp[p])));
        }
    }
    if draw_collision(s1) {
        let p = choose|p: int| 0 <= p < SCREEN_CELLS && cell_hit(s1, p) && s1.disp[p] != 0;
        assert(cell_hit(s, p) && s.disp[p] == 0);
    }
    if exists|p: int| 0 <= p < SCREEN_CELLS && cell_hit(s, p) && s.disp[p] == 0 {
        let p = choose|p: int| 0 <= p < SCREEN_CELLS && cell_hit(s, p) && s.disp[p] == 0;
        assert(s1.disp[p] == toggle(s.disp[p]));
        assert(cell_hit(s1, p) && s1.disp[p] != 0);
        assert(draw_collision(s1));
    }
}

/// Sprites clip at the edges instead of wrapping: a draw never changes a
/// cell outside the rectangle under the sprite, and sprite columns that
/// would land at column 64 or past it have no cell on the grid at all.
pub proof fn lemma_draw_clips(s: Chip8View, p: int)
    requires
        s.wf(),
        0 <= p < SCREEN_CELLS,
        p % 64 < draw_x0(s) || p % 64 >= draw_x0(s) + 8 || p / 64 < draw_y0(s) || p / 64
            >= draw_y0(s) + op_n(s.opcode),
    ensures
        spec_dxyn(s).disp[p] == s.disp[p],
{
}

} // verus!
