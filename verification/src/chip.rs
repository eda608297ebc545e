//! The executable machine: state, construction, ROM loading, keypad
//! latching, and the read-only views a renderer needs.
use crate::instructions::Instructions;
use crate::model::{
    can_fetch, cycle_outcome, decode_outcome, font_table, initial_state, lemma_op_fields,
    op_family, pc_rewind, pc_skip, spec_cxnn, spec_fetch, spec_tick, Chip8View, VmError,
    FONT_BASE, FONT_BYTES, MEM_SIZE, ROM_BASE, ROM_CAPACITY, SCREEN_CELLS, STACK_DEPTH,
};
use vstd::prelude::*;

verus! {

/// A CHIP-8 virtual machine.  Its abstract value is a `Chip8View`; every
/// operation is specified as a transition on that view.
pub struct Chip8 {
    memory: Vec<u8>,
    display: Vec<u32>,
    program_counter: u16,
    index_register: u16,
    stack: Vec<u16>,
    delay_timer: u8,
    sound_timer: u8,
    keypad: [u8; 16],
    variable_registers: [u8; 16],
    opcode: u16,
}

impl View for Chip8 {
    type V = Chip8View;

    closed spec fn view(&self) -> Chip8View {
        Chip8View {
            mem: self.memory@,
            disp: self.display@,
            pc: self.program_counter,
            index: self.index_register,
            stack: self.stack@,
            delay: self.delay_timer,
            sound: self.sound_timer,
            keys: self.keypad@,
            regs: self.variable_registers@,
            opcode: self.opcode,
        }
    }
}

impl Chip8 {
    /// A fresh machine: memory cleared but for the font table, display
    /// cleared, program counter at the start of the ROM region.
    pub fn new() -> (r: Chip8)
        ensures
            r@ == initial_state(),
            r@.wf(),
    {
        let mut memory: Vec<u8> = Vec::new();
        let mut i: usize = 0;
        while i < MEM_SIZE
            invariant
                i <= MEM_SIZE,
                memory@.len() == i,
                forall|j: int| 0 <= j < i ==> memory@[j] == 0u8,
            decreases MEM_SIZE - i,
        {
            memory.push(0);
            i = i + 1;
        }
        let mut display: Vec<u32> = Vec::new();
        let mut i: usize = 0;
        while i < SCREEN_CELLS
            invariant
                i <= SCREEN_CELLS,
                display@.len() == i,
                forall|j: int| 0 <= j < i ==> display@[j] == 0u32,
            decreases SCREEN_CELLS - i,
        {
            display.push(0);
            i = i + 1;
        }
        let mut init_chip = Chip8 {
            memory,
            display,
            program_counter: 0x200,
            index_register: 0,
            stack: Vec::new(),
            delay_timer: 0,
            sound_timer: 0,
            keypad: [0u8; 16],
            variable_registers: [0u8; 16],
            opcode: 0,
        };
        init_chip.load_font();
        proof {
            assert(init_chip@.mem =~= initial_state().mem);
            assert(init_chip@.disp =~= initial_state().disp);
            assert(init_chip@.keys =~= initial_state().keys);
            assert(init_chip@.regs =~= initial_state().regs);
            assert(init_chip@.stack =~= initial_state().stack);
            assert(init_chip@ =~= initial_state());
        }
        init_chip
    }

    /// Write the 16 five-byte glyphs into their fixed region; called once
    /// by the constructor, before any cycle runs.
    fn load_font(&mut self)
        requires
            old(self)@.mem.len() == MEM_SIZE,
        ensures
            final(self)@ == (Chip8View {
                mem: Seq::new(
                    MEM_SIZE as nat,
                    |i: int|
                        if FONT_BASE <= i < FONT_BASE + FONT_BYTES {
                            font_table()[i - FONT_BASE]
                        } else {
                            old(self)@.mem[i]
                        },
                ),
                ..old(self)@
            }),
    {
        let font: [u8; 80] = [
            0xF0, 0x90, 0x90, 0x90, 0xF0,  // 0
            0x20, 0x60, 0x20, 0x20, 0x70,  // 1
            0xF0, 0x10, 0xF0, 0x80, 0xF0,  // 2
            0xF0, 0x10, 0xF0, 0x10, 0xF0,  // 3
            0x90, 0x90, 0xF0, 0x10, 0x10,  // 4
            0xF0, 0x80, 0xF0, 0x10, 0xF0,  // 5
            0xF0, 0x80, 0xF0, 0x90, 0xF0,  // 6
            0xF0, 0x10, 0x20, 0x40, 0x40,  // 7
            0xF0, 0x90, 0xF0, 0x90, 0xF0,  // 8
            0xF0, 0x90, 0xF0, 0x10, 0xF0,  // 9
            0xF0, 0x90, 0xF0, 0x90, 0x90,  // A
            0xE0, 0x90, 0xE0, 0x90, 0xE0,  // B
            0xF0, 0x80, 0x80, 0x80, 0xF0,  // C
            0xE0, 0x90, 0x90, 0x90, 0xE0,  // D
            0xF0, 0x80, 0xF0, 0x80, 0xF0,  // E
            0xF0, 0x80, 0xF0, 0x80, 0x80,  // F
        ];
        proof {
            assert(font@ =~= font_table());
        }
        let mut i: usize = 0;
        while i < FONT_BYTES
            invariant
                i <= FONT_BYTES,
                font@ == font_table(),
                self.memory@.len() == MEM_SIZE,
                forall|j: int|
                    FONT_BASE <= j < FONT_BASE + i ==> self.memory@[j] == font_table()[
                        j - FONT_BASE
                    ],
                forall|j: int|
                    0 <= j < MEM_SIZE && !(FONT_BASE <= j < FONT_BASE + i) ==> self.memory@[j]
                        == old(self)@.mem[j],
                self.display@ == old(self)@.disp,
                self.program_counter == old(self)@.pc,
                self.index_register == old(self)@.index,
                self.stack@ == old(self)@.stack,
                self.delay_timer == old(self)@.delay,
                self.sound_timer == old(self)@.sound,
                self.keypad@ == old(self)@.keys,
                self.variable_registers@ == old(self)@.regs,
                self.opcode == old(self)@.opcode,
            decreases FONT_BYTES - i,
        {
            self.memory[FONT_BASE + i] = font[i];
            i = i + 1;
        }
        proof {
            assert(self@.mem =~= Seq::new(
                MEM_SIZE as nat,
                |i: int|
                    if FONT_BASE <= i < FONT_BASE + FONT_BYTES {
                        font_table()[i - FONT_BASE]
                    } else {
                        old(self)@.mem[i]
                    },
            ));
            assert(self@ =~= (Chip8View {
                mem: Seq::new(
                    MEM_SIZE as nat,
                    |i: int|
                        if FONT_BASE <= i < FONT_BASE + FONT_BYTES {
                            font_table()[i - FONT_BASE]
                        } else {
                            old(self)@.mem[i]
                        },
                ),
                ..old(self)@
            }));
        }
    }

    /// The display buffer, row-major with row 0 on top; read-only to the
    /// renderer.
    pub fn display(&self) -> (r: &Vec<u32>)
        ensures
            r@ == self@.disp,
    {
        &self.display
    }

    /// The whole address space, read-only.
    pub fn memory(&self) -> (r: &Vec<u8>)
        ensures
            r@ == self@.mem,
    {
        &self.memory
    }

    /// The program counter.
    pub fn program_counter(&self) -> (r: u16)
        ensures
            r == self@.pc,
    {
        self.program_counter
    }

    /// The instruction word fetched last.
    pub fn opcode(&self) -> (r: u16)
        ensures
            r == self@.opcode,
    {
        self.opcode
    }

    /// The index register.
    pub fn index_register(&self) -> (r: u16)
        ensures
            r == self@.index,
    {
        self.index_register
    }

    /// The delay timer.
    pub fn delay_timer(&self) -> (r: u8)
        ensures
            r == self@.delay,
    {
        self.delay_timer
    }

    /// The sound timer.
    pub fn sound_timer(&self) -> (r: u8)
        ensures
            r == self@.sound,
    {
        self.sound_timer
    }

    /// General-purpose register `x`.
    pub fn register(&self, x: u8) -> (r: u8)
        requires
            x < 16,
        ensures
            r == self@.regs[x as int],
    {
        self.variable_registers[x as usize]
    }

    /// How many return addresses the call stack holds.
    pub fn stack_depth(&self) -> (r: usize)
        ensures
            r == self@.stack.len(),
    {
        self.stack.len()
    }

    /// One display cell, row-major.
    pub(crate) fn display_cell(&self, p: usize) -> (r: u32)
        requires
            p < self@.disp.len(),
        ensures
            r == self@.disp[p as int],
    {
        self.display[p]
    }

    /// Overwrite one display cell.
    pub(crate) fn set_display_cell(&mut self, p: usize, v: u32)
        requires
            p < old(self)@.disp.len(),
        ensures
            final(self)@ == (Chip8View { disp: old(self)@.disp.update(p as int, v), ..old(self)@ }),
    {
        self.display[p] = v;
        proof {
            assert(self@ =~= (Chip8View {
                disp: old(self)@.disp.update(p as int, v),
                ..old(self)@
            }));
        }
    }

    /// One memory byte.
    pub(crate) fn read_memory(&self, addr: usize) -> (r: u8)
        requires
            addr < self@.mem.len(),
        ensures
            r == self@.mem[addr as int],
    {
        self.memory[addr]
    }

    /// Overwrite one memory byte.
    pub(crate) fn write_memory(&mut self, addr: usize, v: u8)
        requires
            addr < old(self)@.mem.len(),
        ensures
            final(self)@ == (Chip8View { mem: old(self)@.mem.update(addr as int, v), ..old(self)@ }),
    {
        self.memory[addr] = v;
        proof {
            assert(self@ =~= (Chip8View {
                mem: old(self)@.mem.update(addr as int, v),
                ..old(self)@
            }));
        }
    }

    /// Overwrite one general-purpose register.
    pub(crate) fn set_register(&mut self, x: usize, v: u8)
        requires
            x < 16,
        ensures
            final(self)@ == (Chip8View { regs: old(self)@.regs.update(x as int, v), ..old(self)@ }),
    {
        self.variable_registers[x] = v;
        proof {
            assert(self@ =~= (Chip8View {
                regs: old(self)@.regs.update(x as int, v),
                ..old(self)@
            }));
        }
    }

    /// One keypad entry, nonzero meaning held.
    pub(crate) fn key_state(&self, k: usize) -> (r: u8)
        requires
            k < 16,
        ensures
            r == self@.keys[k as int],
    {
        self.keypad[k]
    }

    /// Point the program counter somewhere else.
    pub(crate) fn set_pc(&mut self, pc: u16)
        ensures
            final(self)@ == (Chip8View { pc, ..old(self)@ }),
    {
        self.program_counter = pc;
        proof {
            assert(self@ =~= (Chip8View { pc, ..old(self)@ }));
        }
    }

    /// Step the program counter over one instruction word.
    pub(crate) fn skip(&mut self)
        ensures
            final(self)@ == (Chip8View { pc: pc_skip(old(self)@.pc), ..old(self)@ }),
    {
        self.program_counter = self.program_counter.wrapping_add(2);
        proof {
            assert(self@ =~= (Chip8View { pc: pc_skip(old(self)@.pc), ..old(self)@ }));
        }
    }

    /// Move the program counter back over one instruction word.
    pub(crate) fn rewind(&mut self)
        ensures
            final(self)@ == (Chip8View { pc: pc_rewind(old(self)@.pc), ..old(self)@ }),
    {
        self.program_counter = self.program_counter.wrapping_sub(2);
        proof {
            assert(self@ =~= (Chip8View { pc: pc_rewind(old(self)@.pc), ..old(self)@ }));
        }
    }

    /// Overwrite the index register.
    pub(crate) fn set_index(&mut self, v: u16)
        ensures
            final(self)@ == (Chip8View { index: v, ..old(self)@ }),
    {
        self.index_register = v;
        proof {
            assert(self@ =~= (Chip8View { index: v, ..old(self)@ }));
        }
    }

    /// Overwrite the delay timer.
    pub(crate) fn set_delay(&mut self, v: u8)
        ensures
            final(self)@ == (Chip8View { delay: v, ..old(self)@ }),
    {
        self.delay_timer = v;
        proof {
            assert(self@ =~= (Chip8View { delay: v, ..old(self)@ }));
        }
    }

    /// Overwrite the sound timer.
    pub(crate) fn set_sound(&mut self, v: u8)
        ensures
            final(self)@ == (Chip8View { sound: v, ..old(self)@ }),
    {
        self.sound_timer = v;
        proof {
            assert(self@ =~= (Chip8View { sound: v, ..old(self)@ }));
        }
    }

    /// Record the instruction word just fetched.
    pub(crate) fn set_opcode(&mut self, op: u16)
        ensures
            final(self)@ == (Chip8View { opcode: op, ..old(self)@ }),
    {
        self.opcode = op;
        proof {
            assert(self@ =~= (Chip8View { opcode: op, ..old(self)@ }));
        }
    }

    /// Push a return address onto the call stack.
    pub(crate) fn push_return_address(&mut self, addr: u16)
        requires
            old(self)@.stack.len() < STACK_DEPTH,
        ensures
            final(self)@ == (Chip8View { stack: old(self)@.stack.push(addr), ..old(self)@ }),
    {
        self.stack.push(addr);
        proof {
            assert(self@ =~= (Chip8View { stack: old(self)@.stack.push(addr), ..old(self)@ }));
        }
    }

    /// Pop the youngest return address off the call stack.
    pub(crate) fn pop_return_address(&mut self) -> (r: u16)
        requires
            old(self)@.stack.len() > 0,
        ensures
            r == old(self)@.stack.last(),
            final(self)@ == (Chip8View { stack: old(self)@.stack.drop_last(), ..old(self)@ }),
    {
        let r = self.stack.pop().unwrap();
        proof {
            assert(self@ =~= (Chip8View { stack: old(self)@.stack.drop_last(), ..old(self)@ }));
        }
        r
    }

    /// Copy a ROM image verbatim into the program region.  An empty image
    /// and one that does not fit are configuration errors, reported
    /// before anything is written.
    pub fn load_rom(&mut self, rom: &Vec<u8>) -> (r: Result<(), VmError>)
        requires
            old(self)@.wf(),
        ensures
            rom@.len() == 0 ==> r == Err::<(), VmError>(VmError::EmptyRom) && final(self)@
                == old(self)@,
            rom@.len() > ROM_CAPACITY ==> r == Err::<(), VmError>(VmError::RomTooLarge)
                && final(self)@ == old(self)@,
            0 < rom@.len() <= ROM_CAPACITY ==> r == Ok::<(), VmError>(()) && final(self)@ == (
            Chip8View {
                mem: Seq::new(
                    MEM_SIZE as nat,
                    |i: int|
                        if ROM_BASE <= i < ROM_BASE + rom@.len() {
                            rom@[i - ROM_BASE]
                        } else {
                            old(self)@.mem[i]
                        },
                ),
                ..old(self)@
            }),
            final(self)@.wf(),
    {
        if rom.len() == 0 {
            return Err(VmError::EmptyRom);
        }
        if rom.len() > ROM_CAPACITY {
            return Err(VmError::RomTooLarge);
        }
        let n = rom.len();
        let mut i: usize = 0;
        while i < n
            invariant
                i <= n,
                n == rom@.len(),
                n <= ROM_CAPACITY,
                self.memory@.len() == MEM_SIZE,
                forall|j: int| ROM_BASE <= j < ROM_BASE + i ==> self.memory@[j] == rom@[j - ROM_BASE],
                forall|j: int|
                    0 <= j < MEM_SIZE && !(ROM_BASE <= j < ROM_BASE + i) ==> self.memory@[j]
                        == old(self)@.mem[j],
                self.display@ == old(self)@.disp,
                self.program_counter == old(self)@.pc,
                self.index_register == old(self)@.index,
                self.stack@ == old(self)@.stack,
                self.delay_timer == old(self)@.delay,
                self.sound_timer == old(self)@.sound,
                self.keypad@ == old(self)@.keys,
                self.variable_registers@ == old(self)@.regs,
                self.opcode == old(self)@.opcode,
            decreases n - i,
        {
            self.memory[ROM_BASE + i] = rom[i];
            i = i + 1;
        }
        proof {
            assert(self@.mem =~= Seq::new(
                MEM_SIZE as nat,
                |i: int|
                    if ROM_BASE <= i < ROM_BASE + rom@.len() {
                        rom@[i - ROM_BASE]
                    } else {
                        old(self)@.mem[i]
                    },
            ));
            assert(self@ =~= (Chip8View {
                mem: Seq::new(
                    MEM_SIZE as nat,
                    |i: int|
                        if ROM_BASE <= i < ROM_BASE + rom@.len() {
                            rom@[i - ROM_BASE]
                        } else {
                            old(self)@.mem[i]
                        },
                ),
                ..old(self)@
            }));
        }
        Ok(())
    }

    /// Latch the keypad: the external input layer hands over all 16 key
    /// states at once, nonzero meaning held.
    pub fn get_input(&mut self, inputs: [u8; 16])
        ensures
            final(self)@ == (Chip8View { keys: inputs@, ..old(self)@ }),
    {
        self.keypad = inputs;
        proof {
            assert(self@ =~= (Chip8View { keys: inputs@, ..old(self)@ }));
        }
    }

    /// Route the instruction word fetched last to its handler.  An opcode
    /// matching no known pattern is a no-op, never an error.
    fn decode(&mut self) -> (r: Result<(), VmError>)
        requires
            old(self)@.wf(),
        ensures
            exists|rr: u16| decode_outcome(old(self)@, final(self)@, r, rr),
            final(self)@.wf(),
    {
        proof {
            lemma_op_fields(self@.opcode);
        }
        let fam = (self.opcode() >> 12) & 0xF;
        let res: Result<(), VmError> = if fam == 0x0 {
            let low = self.opcode() & 0xF;
            if low == 0x0 {
                self.ins_00e0();
                Ok(())
            } else if low == 0xE {
                self.ins_00ee()
            } else {
                self.ins_null();
                Ok(())
            }
        } else if fam == 0x1 {
            self.ins_1nnn();
            Ok(())
        } else if fam == 0x2 {
            self.ins_2nnn()
        } else if fam == 0x3 {
            self.ins_3xnn();
            Ok(())
        } else if fam == 0x4 {
            self.ins_4xnn();
            Ok(())
        } else if fam == 0x5 {
            self.ins_5xy0();
            Ok(())
        } else if fam == 0x6 {
            self.ins_6xnn();
            Ok(())
        } else if fam == 0x7 {
            self.ins_7xnn();
            Ok(())
        } else if fam == 0x8 {
            let low = self.opcode() & 0xF;
            if low == 0x0 {
                self.ins_8xy0();
            } else if low == 0x1 {
                self.ins_8xy1();
            } else if low == 0x2 {
                self.ins_8xy2();
            } else if low == 0x3 {
                self.ins_8xy3();
            } else if low == 0x4 {
                self.ins_8xy4();
            } else if low == 0x5 {
                self.ins_8xy5();
            } else if low == 0x6 {
                self.ins_8xy6();
            } else if low == 0x7 {
                self.ins_8xy7();
            } else if low == 0xE {
                self.ins_8xye();
            } else {
                self.ins_null();
            }
            Ok(())
        } else if fam == 0x9 {
            self.ins_9xy0();
            Ok(())
        } else if fam == 0xA {
            self.ins_annn();
            Ok(())
        } else if fam == 0xB {
            self.ins_bnnn();
            Ok(())
        } else if fam == 0xC {
            self.ins_cxnn();
            Ok(())
        } else if fam == 0xD {
            self.ins_dxyn()
        } else if fam == 0xE {
            let low = self.opcode() & 0xFF;
            if low == 0x9E {
                self.ins_ex9e()
            } else if low == 0xA1 {
                self.ins_exa1()
            } else {
                self.ins_null();
                Ok(())
            }
        } else {
            let low = self.opcode() & 0xFF;
            if low == 0x07 {
                self.ins_fx07();
                Ok(())
            } else if low == 0x0A {
                self.ins_fx0a();
                Ok(())
            } else if low == 0x15 {
                self.ins_fx15();
                Ok(())
            } else if low == 0x18 {
                self.ins_fx18();
                Ok(())
            } else if low == 0x1E {
                self.ins_fx1e();
                Ok(())
            } else if low == 0x29 {
                self.ins_fx29();
                Ok(())
            } else if low == 0x33 {
                self.ins_fx33()
            } else if low == 0x55 {
                self.ins_fx55()
            } else if low == 0x65 {
                self.ins_fx65()
            } else {
                self.ins_null();
                Ok(())
            }
        };
        proof {
            if op_family(old(self)@.opcode) == 0xC {
                let rr = choose|rr: u16| self@ == spec_cxnn(old(self)@, rr);
                assert(decode_outcome(old(self)@, self@, res, rr));
            } else {
                assert(decode_outcome(old(self)@, self@, res, 0));
            }
        }
        res
    }

    /// One machine cycle: fetch the instruction word at the program
    /// counter, step over it, execute it, then let both timers count
    /// down one step.  A program counter that cannot fetch is fatal and
    /// changes nothing; a failing instruction is fatal and leaves the
    /// machine as the fetch left it.  After a fatal failure the machine
    /// should not be driven further.
    pub fn cycle(&mut self) -> (r: Result<(), VmError>)
        requires
            old(self)@.wf(),
        ensures
            !can_fetch(old(self)@) ==> r == Err::<(), VmError>(VmError::ProgramCounterOutOfRange)
                && final(self)@ == old(self)@,
            can_fetch(old(self)@) ==> exists|rr: u16|
                cycle_outcome(old(self)@, final(self)@, r, rr),
            final(self)@.wf(),
    {
        let pc = self.program_counter();
        if pc as usize + 1 >= MEM_SIZE {
            return Err(VmError::ProgramCounterOutOfRange);
        }
        let hi = self.read_memory(pc as usize);
        let lo = self.read_memory(pc as usize + 1);
        self.set_opcode(((hi as u16) << 8) | (lo as u16));
        self.skip();
        proof {
            assert(self@ =~= spec_fetch(old(self)@));
        }
        let ghost fetched = self@;
        let res = self.decode();
        match res {
            Ok(()) => {
                let ghost mid = self@;
                let d = self.delay_timer();
                if d > 0 {
                    self.set_delay(d - 1);
                }
                let snd = self.sound_timer();
                if snd > 0 {
                    self.set_sound(snd - 1);
                }
                proof {
                    let rr = choose|rr: u16| decode_outcome(fetched, mid, Ok::<(), VmError>(()), rr);
                    assert(self@ =~= spec_tick(mid));
                    assert(cycle_outcome(old(self)@, self@, Ok::<(), VmError>(()), rr));
                }
                Ok(())
            },
            Err(e) => {
                proof {
                    let rr = choose|rr: u16| decode_outcome(fetched, self@, Err::<(), VmError>(e), rr);
                    assert(cycle_outcome(old(self)@, self@, Err::<(), VmError>(e), rr));
                }
                Err(e)
            },
        }
    }
}

} // verus!
