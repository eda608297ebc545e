//! One handler per opcode pattern.  Each handler reads the operand fields
//! out of the instruction word fetched last and is proved to realise the
//! matching transition of the model.
use crate::chip::Chip8;
use crate::model::{
    can_00ee, can_2nnn, can_exkk, lemma_first_key_prefix, lemma_op_fields, spec_00e0, spec_00ee,
    spec_1nnn, spec_2nnn, spec_3xnn, spec_4xnn, spec_5xy0, spec_6xnn, spec_7xnn, spec_8xy0,
    spec_8xy1, spec_8xy2, spec_8xy3, spec_8xy4, spec_8xy5, spec_8xy6, spec_8xy7, spec_8xye,
    spec_9xy0, spec_annn, spec_bnnn, spec_cxnn, spec_ex9e, spec_exa1, spec_fx07, spec_fx0a,
    can_dxyn, can_fx33, can_fxreg, draw_collision_upto, draw_disp_upto, draw_x0, draw_y0,
    lemma_draw_complete, lemma_draw_row, lemma_draw_skip, lemma_draw_start, lemma_draw_toggle,
    rows_visible, spec_dxyn, spec_fx15, spec_fx18, spec_fx1e, spec_fx29, spec_fx33, spec_fx55,
    spec_fx65, sprite_pixel, Chip8View, VmError, FONT_BASE, KEY_COUNT, MEM_SIZE, PIXEL_ON,
    SCREEN_CELLS, STACK_DEPTH,
};
use vstd::prelude::*;

verus! {

/// The instruction set: every opcode pattern of the machine, each with its
/// exact transition on the machine's abstract state.
pub trait Instructions: View<V = Chip8View> + Sized {
    /// An opcode matching no known pattern: defined as a no-op.
    fn ins_null(&mut self)
        ensures
            final(self)@ == old(self)@,
    ;

    /// Clear Screen
    fn ins_00e0(&mut self)
        requires
            old(self)@.wf(),
        ensures
            final(self)@ == spec_00e0(old(self)@),
            final(self)@.wf(),
    ;

    /// Jump
    fn ins_1nnn(&mut self)
        ensures
            final(self)@ == spec_1nnn(old(self)@),
    ;

    /// Set Register VX
    fn ins_6xnn(&mut self)
        requires
            old(self)@.wf(),
        ensures
            final(self)@ == spec_6xnn(old(self)@),
            final(self)@.wf(),
    ;

    /// Add value to Register VX
    fn ins_7xnn(&mut self)
        requires
            old(self)@.wf(),
        ensures
            final(self)@ == spec_7xnn(old(self)@),
            final(self)@.wf(),
    ;

    /// Set Index Register
    fn ins_annn(&mut self)
        ensures
            final(self)@ == spec_annn(old(self)@),
    ;

    /// Subroutine call
    fn ins_2nnn(&mut self) -> (r: Result<(), VmError>)
        requires
            old(self)@.wf(),
        ensures
            can_2nnn(old(self)@) ==> r == Ok::<(), VmError>(()) && final(self)@ == spec_2nnn(
                old(self)@,
            ) && final(self)@.wf(),
            !can_2nnn(old(self)@) ==> r == Err::<(), VmError>(VmError::StackOverflow)
                && final(self)@ == old(self)@,
    ;

    /// Subroutine return
    fn ins_00ee(&mut self) -> (r: Result<(), VmError>)
        requires
            old(self)@.wf(),
        ensures
            can_00ee(old(self)@) ==> r == Ok::<(), VmError>(()) && final(self)@ == spec_00ee(
                old(self)@,
            ) && final(self)@.wf(),
            !can_00ee(old(self)@) ==> r == Err::<(), VmError>(VmError::StackUnderflow)
                && final(self)@ == old(self)@,
    ;

    /// Conditionally Skip if Vx value == NN
    fn ins_3xnn(&mut self)
        requires
            old(self)@.wf(),
        ensures
            final(self)@ == spec_3xnn(old(self)@),
            final(self)@.wf(),
    ;

    /// Conditionally Skip if Vx value != NN
    fn ins_4xnn(&mut self)
        requires
            old(self)@.wf(),
        ensures
            final(self)@ == spec_4xnn(old(self)@),
            final(self)@.wf(),
    ;

    /// Conditionally Skip if Vx value == Vy value
    fn ins_5xy0(&mut self)
        requires
            old(self)@.wf(),
        ensures
            final(self)@ == spec_5xy0(old(self)@),
            final(self)@.wf(),
    ;

    /// Conditionally Skip if Vx value != Vy value
    fn ins_9xy0(&mut self)
        requires
            old(self)@.wf(),
        ensures
            final(self)@ == spec_9xy0(old(self)@),
            final(self)@.wf(),
    ;

    /// Set Vx to Vy
    fn ins_8xy0(&mut self)
        requires
            old(self)@.wf(),
        ensures
            final(self)@ == spec_8xy0(old(self)@),
            final(self)@.wf(),
    ;

    /// Binary OR
    fn ins_8xy1(&mut self)
        requires
            old(self)@.wf(),
        ensures
            final(self)@ == spec_8xy1(old(self)@),
            final(self)@.wf(),
    ;

    /// Binary AND
    fn ins_8xy2(&mut self)
        requires
            old(self)@.wf(),
        ensures
            final(self)@ == spec_8xy2(old(self)@),
            final(self)@.wf(),
    ;

    /// Logical XOR
    fn ins_8xy3(&mut self)
        requires
            old(self)@.wf(),
        ensures
            final(self)@ == spec_8xy3(old(self)@),
            final(self)@.wf(),
    ;

    /// Add with carry flag
    fn ins_8xy4(&mut self)
        requires
            old(self)@.wf(),
        ensures
            final(self)@ == spec_8xy4(old(self)@),
            final(self)@.wf(),
    ;

    /// Subtract (Vx - Vy) with no-borrow flag
    fn ins_8xy5(&mut self)
        requires
            old(self)@.wf(),
        ensures
            final(self)@ == spec_8xy5(old(self)@),
            final(self)@.wf(),
    ;

    /// Subtract (Vy - Vx) with no-borrow flag
    fn ins_8xy7(&mut self)
        requires
            old(self)@.wf(),
        ensures
            final(self)@ == spec_8xy7(old(self)@),
            final(self)@.wf(),
    ;

    /// Shift Vx right, low bit into the flag
    fn ins_8xy6(&mut self)
        requires
            old(self)@.wf(),
        ensures
            final(self)@ == spec_8xy6(old(self)@),
            final(self)@.wf(),
    ;

    /// Shift Vx left, high bit into the flag
    fn ins_8xye(&mut self)
        requires
            old(self)@.wf(),
        ensures
            final(self)@ == spec_8xye(old(self)@),
            final(self)@.wf(),
    ;

    /// Jump with offset from V0
    fn ins_bnnn(&mut self)
        requires
            old(self)@.wf(),
        ensures
            final(self)@ == spec_bnnn(old(self)@),
            final(self)@.wf(),
    ;

    /// Random word masked by NN
    fn ins_cxnn(&mut self)
        requires
            old(self)@.wf(),
        ensures
            exists|r: u16| final(self)@ == spec_cxnn(old(self)@, r),
            final(self)@.wf(),
    ;

    /// Skip if the key named by Vx is held
    fn ins_ex9e(&mut self) -> (r: Result<(), VmError>)
        requires
            old(self)@.wf(),
        ensures
            can_exkk(old(self)@) ==> r == Ok::<(), VmError>(()) && final(self)@ == spec_ex9e(
                old(self)@,
            ) && final(self)@.wf(),
            !can_exkk(old(self)@) ==> r == Err::<(), VmError>(VmError::KeyOutOfRange)
                && final(self)@ == old(self)@,
    ;

    /// Skip if the key named by Vx is not held
    fn ins_exa1(&mut self) -> (r: Result<(), VmError>)
        requires
            old(self)@.wf(),
        ensures
            can_exkk(old(self)@) ==> r == Ok::<(), VmError>(()) && final(self)@ == spec_exa1(
                old(self)@,
            ) && final(self)@.wf(),
            !can_exkk(old(self)@) ==> r == Err::<(), VmError>(VmError::KeyOutOfRange)
                && final(self)@ == old(self)@,
    ;

    /// Sets Vx to the current value of the delay timer
    fn ins_fx07(&mut self)
        requires
            old(self)@.wf(),
        ensures
            final(self)@ == spec_fx07(old(self)@),
            final(self)@.wf(),
    ;

    /// Sets the delay timer to the current value in Vx
    fn ins_fx15(&mut self)
        requires
            old(self)@.wf(),
        ensures
            final(self)@ == spec_fx15(old(self)@),
            final(self)@.wf(),
    ;

    /// Sets the sound timer to the value in Vx
    fn ins_fx18(&mut self)
        requires
            old(self)@.wf(),
        ensures
            final(self)@ == spec_fx18(old(self)@),
            final(self)@.wf(),
    ;

    /// Index register will get the value in Vx added to it
    fn ins_fx1e(&mut self)
        requires
            old(self)@.wf(),
        ensures
            final(self)@ == spec_fx1e(old(self)@),
            final(self)@.wf(),
    ;

    /// Get key: park on this instruction until a key is held
    fn ins_fx0a(&mut self)
        requires
            old(self)@.wf(),
        ensures
            final(self)@ == spec_fx0a(old(self)@),
            final(self)@.wf(),
    ;

    /// Set Font Character
    fn ins_fx29(&mut self)
        requires
            old(self)@.wf(),
        ensures
            final(self)@ == spec_fx29(old(self)@),
            final(self)@.wf(),
    ;

    /// Draw to screen
    fn ins_dxyn(&mut self) -> (r: Result<(), VmError>)
        requires
            old(self)@.wf(),
        ensures
            can_dxyn(old(self)@) ==> r == Ok::<(), VmError>(()) && final(self)@ == spec_dxyn(
                old(self)@,
            ) && final(self)@.wf(),
            !can_dxyn(old(self)@) ==> r == Err::<(), VmError>(VmError::AddressOutOfRange)
                && final(self)@ == old(self)@,
    ;

    /// Binary-coded decimal conversion
    fn ins_fx33(&mut self) -> (r: Result<(), VmError>)
        requires
            old(self)@.wf(),
        ensures
            can_fx33(old(self)@) ==> r == Ok::<(), VmError>(()) && final(self)@ == spec_fx33(
                old(self)@,
            ) && final(self)@.wf(),
            !can_fx33(old(self)@) ==> r == Err::<(), VmError>(VmError::AddressOutOfRange)
                && final(self)@ == old(self)@,
    ;

    /// Store registers to memory
    fn ins_fx55(&mut self) -> (r: Result<(), VmError>)
        requires
            old(self)@.wf(),
        ensures
            can_fxreg(old(self)@) ==> r == Ok::<(), VmError>(()) && final(self)@ == spec_fx55(
                old(self)@,
            ) && final(self)@.wf(),
            !can_fxreg(old(self)@) ==> r == Err::<(), VmError>(VmError::AddressOutOfRange)
                && final(self)@ == old(self)@,
    ;

    /// Load registers from memory
    fn ins_fx65(&mut self) -> (r: Result<(), VmError>)
        requires
            old(self)@.wf(),
        ensures
            can_fxreg(old(self)@) ==> r == Ok::<(), VmError>(()) && final(self)@ == spec_fx65(
                old(self)@,
            ) && final(self)@.wf(),
            !can_fxreg(old(self)@) ==> r == Err::<(), VmError>(VmError::AddressOutOfRange)
                && final(self)@ == old(self)@,
    ;
}

impl Instructions for Chip8 {
    fn ins_null(&mut self) {
    }

    fn ins_00e0(&mut self) {
        let mut i: usize = 0;
        while i < SCREEN_CELLS
            invariant
                i <= SCREEN_CELLS,
                self@ == (Chip8View { disp: self@.disp, ..old(self)@ }),
                self@.disp.len() == SCREEN_CELLS,
                forall|j: int| 0 <= j < i ==> self@.disp[j] == 0u32,
                forall|j: int| i <= j < SCREEN_CELLS ==> self@.disp[j] == old(self)@.disp[j],
            decreases SCREEN_CELLS - i,
        {
            self.set_display_cell(i, 0);
            i = i + 1;
        }
        proof {
            assert(self@.disp =~= spec_00e0(old(self)@).disp);
            assert(self@ =~= spec_00e0(old(self)@));
        }
    }

    fn ins_1nnn(&mut self) {
        let target = self.opcode() & 0xFFF;
        self.set_pc(target);
        proof {
            assert(self@ =~= spec_1nnn(old(self)@));
        }
    }

    fn ins_6xnn(&mut self) {
        proof {
            lemma_op_fields(self@.opcode);
        }
        let x = ((self.opcode() >> 8) & 0xF) as usize;
        let nn = (self.opcode() & 0xFF) as u8;
        self.set_register(x, nn);
        proof {
            assert(self@ =~= spec_6xnn(old(self)@));
        }
    }

    fn ins_7xnn(&mut self) {
        proof {
            lemma_op_fields(self@.opcode);
        }
        let x = ((self.opcode() >> 8) & 0xF) as usize;
        let nn = (self.opcode() & 0xFF) as u8;
        let total: u16 = self.register(x as u8) as u16 + nn as u16;
        self.set_register(x, (total % 256) as u8);
        proof {
            assert(self@ =~= spec_7xnn(old(self)@));
        }
    }

    fn ins_annn(&mut self) {
        let target = self.opcode() & 0xFFF;
        self.set_index(target);
        proof {
            assert(self@ =~= spec_annn(old(self)@));
        }
    }

    fn ins_2nnn(&mut self) -> (r: Result<(), VmError>) {
        if self.stack_depth() >= STACK_DEPTH {
            return Err(VmError::StackOverflow);
        }
        let target = self.opcode() & 0xFFF;
        let here = self.program_counter();
        self.push_return_address(here);
        self.set_pc(target);
        proof {
            assert(self@ =~= spec_2nnn(old(self)@));
        }
        Ok(())
    }

    fn ins_00ee(&mut self) -> (r: Result<(), VmError>) {
        if self.stack_depth() == 0 {
            return Err(VmError::StackUnderflow);
        }
        let target = self.pop_return_address();
        self.set_pc(target);
        proof {
            assert(self@ =~= spec_00ee(old(self)@));
        }
        Ok(())
    }

    fn ins_3xnn(&mut self) {
        proof {
            lemma_op_fields(self@.opcode);
        }
        let x = ((self.opcode() >> 8) & 0xF) as usize;
        let nn = (self.opcode() & 0xFF) as u8;
        if self.register(x as u8) == nn {
            self.skip();
        }
        proof {
            assert(self@ =~= spec_3xnn(old(self)@));
        }
    }

    fn ins_4xnn(&mut self) {
        proof {
            lemma_op_fields(self@.opcode);
        }
        let x = ((self.opcode() >> 8) & 0xF) as usize;
        let nn = (self.opcode() & 0xFF) as u8;
        if self.register(x as u8) != nn {
            self.skip();
        }
        proof {
            assert(self@ =~= spec_4xnn(old(self)@));
        }
    }

    fn ins_5xy0(&mut self) {
        proof {
            lemma_op_fields(self@.opcode);
        }
        let x = ((self.opcode() >> 8) & 0xF) as usize;
        let y = ((self.opcode() >> 4) & 0xF) as usize;
        if self.register(x as u8) == self.register(y as u8) {
            self.skip();
        }
        proof {
            assert(self@ =~= spec_5xy0(old(self)@));
        }
    }

    fn ins_9xy0(&mut self) {
        proof {
            lemma_op_fields(self@.opcode);
        }
        let x = ((self.opcode() >> 8) & 0xF) as usize;
        let y = ((self.opcode() >> 4) & 0xF) as usize;
        if self.register(x as u8) != self.register(y as u8) {
            self.skip();
        }
        proof {
            assert(self@ =~= spec_9xy0(old(self)@));
        }
    }

    fn ins_8xy0(&mut self) {
        proof {
            lemma_op_fields(self@.opcode);
        }
        let x = ((self.opcode() >> 8) & 0xF) as usize;
        let y = ((self.opcode() >> 4) & 0xF) as usize;
        let vy = self.register(y as u8);
        self.set_register(x, vy);
        proof {
            assert(self@ =~= spec_8xy0(old(self)@));
        }
    }

    fn ins_8xy1(&mut self) {
        proof {
            lemma_op_fields(self@.opcode);
        }
        let x = ((self.opcode() >> 8) & 0xF) as usize;
        let y = ((self.opcode() >> 4) & 0xF) as usize;
        let v = self.register(x as u8) | self.register(y as u8);
        self.set_register(x, v);
        proof {
            assert(self@ =~= spec_8xy1(old(self)@));
        }
    }

    fn ins_8xy2(&mut self) {
        proof {
            lemma_op_fields(self@.opcode);
        }
        let x = ((self.opcode() >> 8) & 0xF) as usize;
        let y = ((self.opcode() >> 4) & 0xF) as usize;
        let v = self.register(x as u8) & self.register(y as u8);
        self.set_register(x, v);
        proof {
            assert(self@ =~= spec_8xy2(old(self)@));
        }
    }

    fn ins_8xy3(&mut self) {
        proof {
            lemma_op_fields(self@.opcode);
        }
        let x = ((self.opcode() >> 8) & 0xF) as usize;
        let y = ((self.opcode() >> 4) & 0xF) as usize;
        let v = self.register(x as u8) ^ self.register(y as u8);
        self.set_register(x, v);
        proof {
            assert(self@ =~= spec_8xy3(old(self)@));
        }
    }

    fn ins_8xy4(&mut self) {
        proof {
            lemma_op_fields(self@.opcode);
        }
        let x = ((self.opcode() >> 8) & 0xF) as usize;
        let y = ((self.opcode() >> 4) & 0xF) as usize;
        let total: u16 = self.register(x as u8) as u16 + self.register(y as u8) as u16;
        self.set_register(x, (total % 256) as u8);
        self.set_register(0xF, if total > 255 { 1 } else { 0 });
        proof {
            assert(self@ =~= spec_8xy4(old(self)@));
        }
    }

    fn ins_8xy5(&mut self) {
        proof {
            lemma_op_fields(self@.opcode);
        }
        let x = ((self.opcode() >> 8) & 0xF) as usize;
        let y = ((self.opcode() >> 4) & 0xF) as usize;
        let a = self.register(x as u8);
        let b = self.register(y as u8);
        let diff: u16 = ((a as u16 + 256) - b as u16) % 256;
        self.set_register(x, diff as u8);
        self.set_register(0xF, if a >= b { 1 } else { 0 });
        proof {
            assert(self@ =~= spec_8xy5(old(self)@));
        }
    }

    fn ins_8xy7(&mut self) {
        proof {
            lemma_op_fields(self@.opcode);
        }
        let x = ((self.opcode() >> 8) & 0xF) as usize;
        let y = ((self.opcode() >> 4) & 0xF) as usize;
        let a = self.register(x as u8);
        let b = self.register(y as u8);
        let diff: u16 = ((b as u16 + 256) - a as u16) % 256;
        self.set_register(x, diff as u8);
        self.set_register(0xF, if b >= a { 1 } else { 0 });
        proof {
            assert(self@ =~= spec_8xy7(old(self)@));
        }
    }

    fn ins_8xy6(&mut self) {
        proof {
            lemma_op_fields(self@.opcode);
        }
        let x = ((self.opcode() >> 8) & 0xF) as usize;
        let v = self.register(x as u8);
        self.set_register(0xF, v & 1);
        self.set_register(x, v / 2);
        proof {
            assert(self@ =~= spec_8xy6(old(self)@));
        }
    }

    fn ins_8xye(&mut self) {
        proof {
            lemma_op_fields(self@.opcode);
        }
        let x = ((self.opcode() >> 8) & 0xF) as usize;
        let v = self.register(x as u8);
        self.set_register(0xF, v / 128);
        self.set_register(x, ((v as u16 * 2) % 256) as u8);
        proof {
            assert(self@ =~= spec_8xye(old(self)@));
        }
    }

    fn ins_bnnn(&mut self) {
        proof {
            lemma_op_fields(self@.opcode);
        }
        let target = (self.opcode() & 0xFFF) + self.register(0) as u16;
        self.set_pc(target);
        proof {
            assert(self@ =~= spec_bnnn(old(self)@));
        }
    }

    fn ins_cxnn(&mut self) {
        let r = random_word();
        self.ins_cxnn_with(r);
        proof {
            assert(self@ == spec_cxnn(old(self)@, r));
        }
    }

    fn ins_ex9e(&mut self) -> (r: Result<(), VmError>) {
        proof {
            lemma_op_fields(self@.opcode);
        }
        let x = ((self.opcode() >> 8) & 0xF) as usize;
        let key = self.register(x as u8);
        if key >= 16 {
            return Err(VmError::KeyOutOfRange);
        }
        if self.key_state(key as usize) != 0 {
            self.skip();
        }
        proof {
            assert(self@ =~= spec_ex9e(old(self)@));
        }
        Ok(())
    }

    fn ins_exa1(&mut self) -> (r: Result<(), VmError>) {
        proof {
            lemma_op_fields(self@.opcode);
        }
        let x = ((self.opcode() >> 8) & 0xF) as usize;
        let key = self.register(x as u8);
        if key >= 16 {
            return Err(VmError::KeyOutOfRange);
        }
        if self.key_state(key as usize) == 0 {
            self.skip();
        }
        proof {
            assert(self@ =~= spec_exa1(old(self)@));
        }
        Ok(())
    }

    fn ins_fx07(&mut self) {
        proof {
            lemma_op_fields(self@.opcode);
        }
        let x = ((self.opcode() >> 8) & 0xF) as usize;
        let v = self.delay_timer();
        self.set_register(x, v);
        proof {
            assert(self@ =~= spec_fx07(old(self)@));
        }
    }

    fn ins_fx15(&mut self) {
        proof {
            lemma_op_fields(self@.opcode);
        }
        let x = ((self.opcode() >> 8) & 0xF) as usize;
        let v = self.register(x as u8);
        self.set_delay(v);
        proof {
            assert(self@ =~= spec_fx15(old(self)@));
        }
    }

    fn ins_fx18(&mut self) {
        proof {
            lemma_op_fields(self@.opcode);
        }
        let x = ((self.opcode() >> 8) & 0xF) as usize;
        let v = self.register(x as u8);
        self.set_sound(v);
        proof {
            assert(self@ =~= spec_fx18(old(self)@));
        }
    }

    fn ins_fx1e(&mut self) {
        proof {
            lemma_op_fields(self@.opcode);
        }
        let x = ((self.opcode() >> 8) & 0xF) as usize;
        let v = self.register(x as u8);
        let sum = self.index_register().wrapping_add(v as u16);
        self.set_index(sum);
        proof {
            assert(self@ =~= spec_fx1e(old(self)@));
        }
    }

    fn ins_fx0a(&mut self) {
        proof {
            lemma_op_fields(self@.opcode);
        }
        let x = ((self.opcode() >> 8) & 0xF) as usize;
        let mut k: usize = 0;
        while k < KEY_COUNT
            invariant
                old(self)@.wf(),
                k <= KEY_COUNT,
                x < 16,
                x as int == crate::model::op_x(old(self)@.opcode),
                self@ == old(self)@,
                forall|j: int| 0 <= j < k ==> self@.keys[j] == 0,
            decreases KEY_COUNT - k,
        {
            if self.key_state(k) != 0 {
                proof {
                    lemma_first_key_prefix(self@.keys, k as int);
                }
                self.set_register(x, k as u8);
                proof {
                    assert(self@ =~= spec_fx0a(old(self)@));
                }
                return ;
            }
            k = k + 1;
        }
        proof {
            lemma_first_key_prefix(self@.keys, KEY_COUNT as int);
        }
        self.rewind();
        proof {
            assert(self@ =~= spec_fx0a(old(self)@));
        }
    }

    fn ins_fx29(&mut self) {
        proof {
            lemma_op_fields(self@.opcode);
        }
        let x = ((self.opcode() >> 8) & 0xF) as usize;
        let v = self.register(x as u8);
        self.set_index(FONT_BASE as u16 + v as u16 * 5);
        proof {
            assert(self@ =~= spec_fx29(old(self)@));
        }
    }

    fn ins_dxyn(&mut self) -> (r: Result<(), VmError>) {
        proof {
            lemma_op_fields(self@.opcode);
        }
        let x = ((self.opcode() >> 8) & 0xF) as usize;
        let y = ((self.opcode() >> 4) & 0xF) as usize;
        let n = (self.opcode() & 0xF) as usize;
        let x0 = (self.register(x as u8) % 64) as usize;
        let y0 = (self.register(y as u8) % 32) as usize;
        let rows = if n <= 32 - y0 {
            n
        } else {
            32 - y0
        };
        let pos = self.index_register() as usize;
        if rows > 0 && pos + rows > MEM_SIZE {
            return Err(VmError::AddressOutOfRange);
        }
        proof {
            assert(x0 as int == draw_x0(old(self)@));
            assert(y0 as int == draw_y0(old(self)@));
            assert(rows as int == rows_visible(old(self)@));
            assert(can_dxyn(old(self)@));
            lemma_draw_start(old(self)@);
        }
        self.set_register(0xF, 0);
        let mut row: usize = 0;
        while row < rows
            invariant
                old(self)@.wf(),
                rows as int == rows_visible(old(self)@),
                x0 as int == draw_x0(old(self)@),
                y0 as int == draw_y0(old(self)@),
                pos == old(self)@.index,
                rows == 0 || pos + rows <= MEM_SIZE,
                row <= rows,
                self@ == (Chip8View { disp: self@.disp, regs: self@.regs, ..old(self)@ }),
                self@.regs == old(self)@.regs.update(
                    15,
                    if draw_collision_upto(old(self)@, row as int, 0) {
                        1u8
                    } else {
                        0u8
                    },
                ),
                self@.disp == draw_disp_upto(old(self)@, row as int, 0),
            decreases rows - row,
        {
            let byte = self.read_memory(pos + row);
            let mut col: usize = 0;
            while col < 8
                invariant
                    old(self)@.wf(),
                    rows as int == rows_visible(old(self)@),
                    x0 as int == draw_x0(old(self)@),
                    y0 as int == draw_y0(old(self)@),
                    pos == old(self)@.index,
                    pos + rows <= MEM_SIZE,
                    row < rows,
                    col <= 8,
                    byte == old(self)@.mem[pos + row],
                    self@ == (Chip8View { disp: self@.disp, regs: self@.regs, ..old(self)@ }),
                    self@.regs == old(self)@.regs.update(
                        15,
                        if draw_collision_upto(old(self)@, row as int, col as int) {
                            1u8
                        } else {
                            0u8
                        },
                    ),
                    self@.disp == draw_disp_upto(old(self)@, row as int, col as int),
                decreases 8 - col,
            {
                let px = x0 + col;
                let sh: u8 = (7 - col) as u8;
                let bit = (byte >> sh) & 1;
                if bit == 1 && px < 64 {
                    proof {
                        assert(sprite_pixel(old(self)@, row as int, col as int));
                        lemma_draw_toggle(old(self)@, row as int, col as int);
                    }
                    let p = (y0 + row) * 64 + px;
                    let cur = self.display_cell(p);
                    if cur != 0 {
                        self.set_register(0xF, 1);
                    }
                    let nv = if cur == 0 {
                        PIXEL_ON
                    } else {
                        0
                    };
                    self.set_display_cell(p, nv);
                    proof {
                        assert(cur == old(self)@.disp[p as int]);
                        assert(self@.disp =~= draw_disp_upto(
                            old(self)@,
                            row as int,
                            col + 1 as int,
                        ));
                        assert(self@.regs =~= old(self)@.regs.update(
                            15,
                            if draw_collision_upto(old(self)@, row as int, col + 1 as int) {
                                1u8
                            } else {
                                0u8
                            },
                        ));
                    }
                } else {
                    proof {
                        assert(!(sprite_pixel(old(self)@, row as int, col as int) && draw_x0(
                            old(self)@,
                        ) + col < 64));
                        lemma_draw_skip(old(self)@, row as int, col as int);
                    }
                }
                col = col + 1;
            }
            proof {
                lemma_draw_row(old(self)@, row as int);
            }
            row = row + 1;
        }
        proof {
            lemma_draw_complete(old(self)@);
            assert(self@.disp =~= spec_dxyn(old(self)@).disp);
            assert(self@.regs =~= spec_dxyn(old(self)@).regs);
            assert(self@ =~= spec_dxyn(old(self)@));
        }
        Ok(())
    }

    fn ins_fx33(&mut self) -> (r: Result<(), VmError>) {
        proof {
            lemma_op_fields(self@.opcode);
        }
        let x = ((self.opcode() >> 8) & 0xF) as usize;
        let pos = self.index_register() as usize;
        if pos + 3 > MEM_SIZE {
            return Err(VmError::AddressOutOfRange);
        }
        let v = self.register(x as u8);
        self.write_memory(pos, v / 100);
        self.write_memory(pos + 1, (v / 10) % 10);
        self.write_memory(pos + 2, v % 10);
        proof {
            assert(self@ =~= spec_fx33(old(self)@));
        }
        Ok(())
    }

    fn ins_fx55(&mut self) -> (r: Result<(), VmError>) {
        proof {
            lemma_op_fields(self@.opcode);
        }
        let x = ((self.opcode() >> 8) & 0xF) as usize;
        let pos = self.index_register() as usize;
        if pos + x + 1 > MEM_SIZE {
            return Err(VmError::AddressOutOfRange);
        }
        let mut i: usize = 0;
        while i <= x
            invariant
                old(self)@.wf(),
                x < 16,
                x as int == crate::model::op_x(old(self)@.opcode),
                pos == old(self)@.index,
                pos + x + 1 <= MEM_SIZE,
                i <= x + 1,
                self@ == (Chip8View { mem: self@.mem, ..old(self)@ }),
                self@.mem.len() == MEM_SIZE,
                forall|j: int| pos <= j < pos + i ==> self@.mem[j] == old(self)@.regs[j - pos],
                forall|j: int|
                    0 <= j < MEM_SIZE && !(pos <= j < pos + i) ==> self@.mem[j] == old(
                        self,
                    )@.mem[j],
            decreases x + 1 - i,
        {
            let v = self.register(i as u8);
            self.write_memory(pos + i, v);
            i = i + 1;
        }
        proof {
            assert(self@.mem =~= spec_fx55(old(self)@).mem);
            assert(self@ =~= spec_fx55(old(self)@));
        }
        Ok(())
    }

    fn ins_fx65(&mut self) -> (r: Result<(), VmError>) {
        proof {
            lemma_op_fields(self@.opcode);
        }
        let x = ((self.opcode() >> 8) & 0xF) as usize;
        let pos = self.index_register() as usize;
        if pos + x + 1 > MEM_SIZE {
            return Err(VmError::AddressOutOfRange);
        }
        let mut i: usize = 0;
        while i <= x
            invariant
                old(self)@.wf(),
                x < 16,
                x as int == crate::model::op_x(old(self)@.opcode),
                pos == old(self)@.index,
                pos + x + 1 <= MEM_SIZE,
                i <= x + 1,
                self@ == (Chip8View { regs: self@.regs, ..old(self)@ }),
                self@.regs.len() == 16,
                forall|j: int| 0 <= j < i ==> self@.regs[j] == old(self)@.mem[pos + j],
                forall|j: int| i <= j < 16 ==> self@.regs[j] == old(self)@.regs[j],
            decreases x + 1 - i,
        {
            let v = self.read_memory(pos + i);
            self.set_register(i, v);
            i = i + 1;
        }
        proof {
            assert(self@.regs =~= spec_fx65(old(self)@).regs);
            assert(self@ =~= spec_fx65(old(self)@));
        }
        Ok(())
    }
}

/// Relies on rand::random: one uniformly random 16-bit word from the
/// thread-local generator.  Nothing can be promised of the value.
#[verifier::external_body]
fn random_word() -> u16 {
    rand::random::<u16>()
}

impl Chip8 {
    /// The deterministic tail of `CXNN`: mask the already-drawn random
    /// word `r` with `NN` and load it into `V[X]`.
    pub fn ins_cxnn_with(&mut self, r: u16)
        requires
            old(self)@.wf(),
        ensures
            final(self)@ == spec_cxnn(old(self)@, r),
            final(self)@.wf(),
    {
        proof {
            lemma_op_fields(self@.opcode);
        }
        let x = ((self.opcode() >> 8) & 0xF) as usize;
        let v = ((self.opcode() & 0xFF) & r) as u8;
        self.set_register(x, v);
        proof {
            assert(self@ =~= spec_cxnn(old(self)@, r));
        }
    }
}

} // verus!
