//! The interpreter core: the opcode decoder, the per-instruction executor,
//! and the fetch-decode-execute cycle over one owning machine aggregate.

use vstd::prelude::*;

use rand::Rng;
use vstd::string::StringExecFns;

use crate::frame::{draw_collision, draw_grid, FrameBuffer, GRID_SIZE};
use crate::keyboard::Keyboard;
use crate::ram::{Ram, RamError, PROGRAM_START_OFFSET, RAM_SIZE, word_of};
use crate::registers::{Registers, FLAG_REGISTER, NUM_REGISTERS};
use crate::timer::{decayed_timer, elapsed_millis, instant_now};

verus! {

/// Size of one instruction word in bytes.
pub const WORD_SIZE: u16 = 2;

/// Target execution rate, matching the approximate speed of the original
/// hardware. The scheduler pauses after every instruction so that about
/// this many run per second.
pub const INSTRUCTIONS_PER_SECOND: u32 = 450;

/// Fatal errors of the run loop. Every error aborts the loop; there is no
/// internal retry.
#[derive(Clone, Copy, Debug, PartialEq, Eq, Structural)]
pub enum Chip8Error {
    /// The fetched opcode matches no instruction of the table.
    FailedToDecodeOpcode,
    /// A return instruction found the call stack empty: an invariant
    /// violation of the running program, surfaced instead of crashing.
    EmptyCallStack,
    /// An instruction touched memory outside the addressable range.
    Memory(RamError),
}

impl Chip8Error {
    /// The diagnostic line shown for this error.
    pub fn message(&self) -> (r: String)
        ensures
            r@ == match *self {
                Chip8Error::FailedToDecodeOpcode => "Failed to decode opcode!"@,
                Chip8Error::EmptyCallStack => "Tried to return with an empty call stack!"@,
                Chip8Error::Memory(RamError::NotEnoughSpace) => (
                "Not enough space to load program!"@),
                Chip8Error::Memory(RamError::OutOfBound) => "Out of bound memory!"@,
            },
    {
        match *self {
            Chip8Error::FailedToDecodeOpcode => String::from_str("Failed to decode opcode!"),
            Chip8Error::EmptyCallStack => String::from_str(
                "Tried to return with an empty call stack!",
            ),
            Chip8Error::Memory(e) => e.message(),
        }
    }
}

/// The instruction tags of the opcode table.
#[derive(Clone, Copy, Debug, PartialEq, Eq, Structural)]
pub enum Instruction {
    CLS,
    RET,
    JMP,
    JMPV0,
    CALL,
    LD,
    LDR,
    LDRI,
    LDRDT,
    LDDTR,
    LDRST,
    LDK,
    LDSR,
    LDB,
    LDRIR,
    LDRRI,
    SE,
    SER,
    SNE,
    SNER,
    ADD,
    ADDR,
    ADDRI,
    SUB,
    SUBN,
    AND,
    OR,
    XOR,
    SHR,
    SHL,
    RND,
    DRW,
    SKP,
    SKNP,
}

/// The first register index held in an opcode: its second-highest nibble.
pub open spec fn op_x(opcode: u16) -> int {
    ((opcode & 0x0F00) >> 8) as int
}

/// The second register index held in an opcode: its second-lowest nibble.
pub open spec fn op_y(opcode: u16) -> int {
    ((opcode & 0x00F0) >> 4) as int
}

/// The immediate byte held in an opcode: its low byte.
pub open spec fn op_kk(opcode: u16) -> u8 {
    (opcode & 0x00FF) as u8
}

/// The sprite row count held in an opcode: its lowest nibble.
pub open spec fn op_n(opcode: u16) -> int {
    (opcode & 0x000F) as int
}

/// The 12-bit address held in an opcode.
pub open spec fn op_nnn(opcode: u16) -> u16 {
    opcode & 0x0FFF
}

/// The operand fields of an opcode stay in their ranges.
pub proof fn lemma_op_bounds(opcode: u16)
    ensures
        0 <= op_x(opcode) < NUM_REGISTERS,
        0 <= op_y(opcode) < NUM_REGISTERS,
        0 <= op_n(opcode) < 16,
        op_nnn(opcode) < 4096,
{
    assert((opcode & 0x0F00) >> 8 < 16 && (opcode & 0x00F0) >> 4 < 16 && (opcode & 0x000F) < 16
        && (opcode & 0x0FFF) < 4096) by (bit_vector);
}

/// An integer reduced to eight bits, as wrapping byte arithmetic leaves it.
pub open spec fn wrap8(v: int) -> u8 {
    (v % 256) as u8
}

/// An integer reduced to sixteen bits, as wrapping word arithmetic leaves
/// it.
pub open spec fn wrap16(v: int) -> u16 {
    (v % 0x10000) as u16
}

/// The instruction tag an opcode decodes to, or `None` when it matches no
/// entry of the table. This is the whole opcode table: an exact match for
/// the two zero-class instructions, then dispatch on the top nibble, with
/// the 0x8, 0xE and 0xF classes dispatching further on the low nibble or
/// byte.
pub open spec fn spec_decode(opcode: u16) -> Option<Instruction> {
    if opcode == 0x00E0 {
        Some(Instruction::CLS)
    } else if opcode == 0x00EE {
        Some(Instruction::RET)
    } else if (opcode & 0xF000) == 0x1000 {
        Some(Instruction::JMP)
    } else if (opcode & 0xF000) == 0x2000 {
        Some(Instruction::CALL)
    } else if (opcode & 0xF000) == 0x3000 {
        Some(Instruction::SE)
    } else if (opcode & 0xF000) == 0x4000 {
        Some(Instruction::SNE)
    } else if (opcode & 0xF000) == 0x5000 {
        Some(Instruction::SER)
    } else if (opcode & 0xF000) == 0x6000 {
        Some(Instruction::LD)
    } else if (opcode & 0xF000) == 0x7000 {
        Some(Instruction::ADD)
    } else if (opcode & 0xF000) == 0x8000 {
        match (opcode & 0x000F) as u8 {
            0x0 => Some(Instruction::LDR),
            0x1 => Some(Instruction::OR),
            0x2 => Some(Instruction::AND),
            0x3 => Some(Instruction::XOR),
            0x4 => Some(Instruction::ADDR),
            0x5 => Some(Instruction::SUB),
            0x6 => Some(Instruction::SHR),
            0x7 => Some(Instruction::SUBN),
            0xE => Some(Instruction::SHL),
            _ => None,
        }
    } else if (opcode & 0xF000) == 0x9000 {
        Some(Instruction::SNER)
    } else if (opcode & 0xF000) == 0xA000 {
        Some(Instruction::LDRI)
    } else if (opcode & 0xF000) == 0xB000 {
        Some(Instruction::JMPV0)
    } else if (opcode & 0xF000) == 0xC000 {
        Some(Instruction::RND)
    } else if (opcode & 0xF000) == 0xD000 {
        Some(Instruction::DRW)
    } else if (opcode & 0xF000) == 0xE000 {
        match (opcode & 0x00FF) as u8 {
            0x9E => Some(Instruction::SKP),
            0xA1 => Some(Instruction::SKNP),
            _ => None,
        }
    } else if (opcode & 0xF000) == 0xF000 {
        match (opcode & 0x00FF) as u8 {
            0x07 => Some(Instruction::LDRDT),
            0x0A => Some(Instruction::LDK),
            0x15 => Some(Instruction::LDDTR),
            0x18 => Some(Instruction::LDRST),
            0x1E => Some(Instruction::ADDRI),
            0x29 => Some(Instruction::LDSR),
            0x33 => Some(Instruction::LDB),
            0x55 => Some(Instruction::LDRIR),
            0x65 => Some(Instruction::LDRRI),
            _ => None,
        }
    } else {
        None
    }
}

/// The emulator aggregate: it exclusively owns the memory, the register
/// file, the keyboard state and the framebuffer for its whole lifetime.
pub struct Chip8 {
    /// The addressable byte memory.
    pub ram: Ram,
    /// The register file.
    pub registers: Registers,
    /// The one-key keyboard state.
    pub keyboard: Keyboard,
    /// The monochrome pixel grid.
    pub frame: FrameBuffer,
    /// The clock reading the delay timer decays from.
    pub delay_base: std::time::Instant,
}

/// Whether the program counter leaves room for the largest step an
/// instruction takes: a satisfied skip, two words.
pub open spec fn pc_can_step(r: Registers) -> bool {
    r.pc + 2 * WORD_SIZE <= u16::MAX
}

/// The memory, the framebuffer, the keyboard and the timer reference are
/// as they were.
pub open spec fn keeps_devices(pre: Chip8, post: Chip8) -> bool {
    &&& post.ram@ == pre.ram@
    &&& post.frame@ == pre.frame@
    &&& post.keyboard@ == pre.keyboard@
    &&& post.delay_base == pre.delay_base
}

/// The index register, the call stack and both timer bases are as they
/// were.
pub open spec fn keeps_index_stack_timers(pre: Chip8, post: Chip8) -> bool {
    &&& post.registers.i == pre.registers.i
    &&& post.registers.sp@ == pre.registers.sp@
    &&& post.registers.dt == pre.registers.dt
    &&& post.registers.st == pre.registers.st
}

/// Nothing observable changed.
pub open spec fn same_state(pre: Chip8, post: Chip8) -> bool {
    &&& post.registers.pc == pre.registers.pc
    &&& post.registers.v@ == pre.registers.v@
    &&& keeps_index_stack_timers(pre, post)
    &&& keeps_devices(pre, post)
}

/// A step that rewrites the general-purpose registers to `new_v` and
/// advances the program counter one word, leaving everything else alone.
pub open spec fn vreg_step(pre: Chip8, post: Chip8, new_v: Seq<u8>) -> bool {
    &&& post.registers.v@ == new_v
    &&& post.registers.pc == pre.registers.pc + WORD_SIZE
    &&& keeps_index_stack_timers(pre, post)
    &&& keeps_devices(pre, post)
}

/// A conditional skip: the program counter advances two words when `cond`
/// holds, one word otherwise; everything else stays.
pub open spec fn skip_step(pre: Chip8, post: Chip8, cond: bool) -> bool {
    &&& post.registers.pc == pre.registers.pc + (if cond {
        2 * WORD_SIZE as int
    } else {
        WORD_SIZE as int
    })
    &&& post.registers.v@ == pre.registers.v@
    &&& keeps_index_stack_timers(pre, post)
    &&& keeps_devices(pre, post)
}

/// A jump: the program counter is replaced outright, not advanced.
pub open spec fn jump_step(pre: Chip8, post: Chip8, target: int) -> bool {
    &&& post.registers.pc == target
    &&& post.registers.v@ == pre.registers.v@
    &&& keeps_index_stack_timers(pre, post)
    &&& keeps_devices(pre, post)
}

/// Clear: the framebuffer goes blank; the program counter advances.
pub open spec fn cls_post(pre: Chip8, post: Chip8) -> bool {
    &&& post.frame@.len() == pre.frame@.len()
    &&& (forall|p: int| 0 <= p < post.frame@.len() ==> post.frame@[p] == 0)
    &&& post.registers.pc == pre.registers.pc + WORD_SIZE
    &&& post.registers.v@ == pre.registers.v@
    &&& keeps_index_stack_timers(pre, post)
    &&& post.ram@ == pre.ram@
    &&& post.keyboard@ == pre.keyboard@
    &&& post.delay_base == pre.delay_base
}

/// Return: the top return address is popped into the program counter; an
/// empty call stack is a fatal invariant violation that leaves the machine
/// untouched.
pub open spec fn ret_step(pre: Chip8, post: Chip8, r: Result<bool, Chip8Error>) -> bool {
    if pre.registers.sp@.len() > 0 {
        &&& r == Ok::<bool, Chip8Error>(false)
        &&& post.registers.pc == pre.registers.sp@.last()
        &&& post.registers.sp@ == pre.registers.sp@.drop_last()
        &&& post.registers.v@ == pre.registers.v@
        &&& post.registers.i == pre.registers.i
        &&& post.registers.dt == pre.registers.dt
        &&& post.registers.st == pre.registers.st
        &&& keeps_devices(pre, post)
    } else {
        &&& r == Err::<bool, Chip8Error>(Chip8Error::EmptyCallStack)
        &&& same_state(pre, post)
    }
}

/// Call: the address of the next instruction is pushed, then the program
/// counter jumps to the opcode's address field.
pub open spec fn call_post(pre: Chip8, post: Chip8, opcode: u16) -> bool {
    &&& post.registers.pc == op_nnn(opcode)
    &&& post.registers.sp@ == pre.registers.sp@.push((pre.registers.pc + WORD_SIZE) as u16)
    &&& post.registers.v@ == pre.registers.v@
    &&& post.registers.i == pre.registers.i
    &&& post.registers.dt == pre.registers.dt
    &&& post.registers.st == pre.registers.st
    &&& keeps_devices(pre, post)
}

/// AddCarry: the destination takes the low byte of the full sum and the
/// flag register reports whether the sum exceeded a byte.
pub open spec fn addr_post(pre: Chip8, post: Chip8, opcode: u16) -> bool {
    let s = pre.registers.v@[op_x(opcode)] + pre.registers.v@[op_y(opcode)];
    vreg_step(
        pre,
        post,
        pre.registers.v@.update(op_x(opcode), wrap8(s)).update(
            FLAG_REGISTER as int,
            if s > 255 {
                1u8
            } else {
                0u8
            },
        ),
    )
}

/// SubBorrow: the destination takes the wrapped difference and the flag
/// register reports its top bit, the sign of the eight-bit difference.
pub open spec fn sub_post(pre: Chip8, post: Chip8, opcode: u16) -> bool {
    let d = wrap8(pre.registers.v@[op_x(opcode)] - pre.registers.v@[op_y(opcode)]);
    vreg_step(
        pre,
        post,
        pre.registers.v@.update(op_x(opcode), d).update(
            FLAG_REGISTER as int,
            if d >= 128 {
                1u8
            } else {
                0u8
            },
        ),
    )
}

/// SubnBorrow: as SubBorrow with the operands swapped.
pub open spec fn subn_post(pre: Chip8, post: Chip8, opcode: u16) -> bool {
    let d = wrap8(pre.registers.v@[op_y(opcode)] - pre.registers.v@[op_x(opcode)]);
    vreg_step(
        pre,
        post,
        pre.registers.v@.update(op_x(opcode), d).update(
            FLAG_REGISTER as int,
            if d >= 128 {
                1u8
            } else {
                0u8
            },
        ),
    )
}

/// ShiftRight: the flag register takes the bit shifted out, then the
/// target register is shifted. When the target is the flag register
/// itself, the shift reads the freshly written flag.
pub open spec fn shr_post(pre: Chip8, post: Chip8, opcode: u16) -> bool {
    let v1 = pre.registers.v@.update(
        FLAG_REGISTER as int,
        pre.registers.v@[op_x(opcode)] & 1,
    );
    vreg_step(pre, post, v1.update(op_x(opcode), v1[op_x(opcode)] >> 1u8))
}

/// ShiftLeft: the flag register takes the top bit shifted out, then the
/// target register is shifted, its low bit becoming zero.
pub open spec fn shl_post(pre: Chip8, post: Chip8, opcode: u16) -> bool {
    let v1 = pre.registers.v@.update(
        FLAG_REGISTER as int,
        (pre.registers.v@[op_x(opcode)] & 0x80) >> 7u8,
    );
    vreg_step(pre, post, v1.update(op_x(opcode), v1[op_x(opcode)] << 1u8))
}

/// Random: some byte below 0xFF, masked with the opcode's immediate byte,
/// lands in the destination register.
pub open spec fn rnd_post(pre: Chip8, post: Chip8, opcode: u16) -> bool {
    exists|b: u8|
        b < 0xFF && vreg_step(pre, post, pre.registers.v@.update(op_x(opcode), b & op_kk(opcode)))
}

/// Draw: the sprite rows at the index register are XOR-composited at the
/// position named by the two operand registers, the flag register takes
/// the collision bit, and the program counter advances. A sprite that
/// would be read past the end of memory is a fatal error, reported after
/// the flag register was already cleared.
pub open spec fn drw_step(pre: Chip8, post: Chip8, opcode: u16, r: Result<
    bool,
    Chip8Error,
>) -> bool {
    let n = op_n(opcode);
    let i = pre.registers.i as int;
    if n == 0 || i + n <= RAM_SIZE {
        let rows = if n == 0 {
            Seq::<u8>::empty()
        } else {
            pre.ram@.subrange(i, i + n)
        };
        let xp = pre.registers.v@[op_x(opcode)] as int;
        let yp = pre.registers.v@[op_y(opcode)] as int;
        let hit = draw_collision(pre.frame@, rows, xp, yp);
        &&& r == Ok::<bool, Chip8Error>(true)
        &&& post.frame@ == draw_grid(pre.frame@, rows, xp, yp)
        &&& post.registers.v@ == pre.registers.v@.update(
            FLAG_REGISTER as int,
            if hit {
                1u8
            } else {
                0u8
            },
        )
        &&& post.registers.pc == pre.registers.pc + WORD_SIZE
        &&& keeps_index_stack_timers(pre, post)
        &&& post.ram@ == pre.ram@
        &&& post.keyboard@ == pre.keyboard@
        &&& post.delay_base == pre.delay_base
    } else {
        &&& r == Err::<bool, Chip8Error>(Chip8Error::Memory(RamError::OutOfBound))
        &&& post.registers.v@ == pre.registers.v@.update(FLAG_REGISTER as int, 0u8)
        &&& post.registers.pc == pre.registers.pc
        &&& keeps_index_stack_timers(pre, post)
        &&& post.ram@ == pre.ram@
        &&& post.frame@ == pre.frame@
        &&& post.keyboard@ == pre.keyboard@
        &&& post.delay_base == pre.delay_base
    }
}

/// SkipIfPressed: skips when the operand register names the held key, and
/// then also clears the key.
pub open spec fn skp_post(pre: Chip8, post: Chip8, opcode: u16) -> bool {
    let hit = pre.keyboard@ == pre.registers.v@[op_x(opcode)];
    &&& post.registers.pc == pre.registers.pc + (if hit {
        2 * WORD_SIZE as int
    } else {
        WORD_SIZE as int
    })
    &&& post.keyboard@ == (if hit {
        0
    } else {
        pre.keyboard@
    })
    &&& post.registers.v@ == pre.registers.v@
    &&& keeps_index_stack_timers(pre, post)
    &&& post.ram@ == pre.ram@
    &&& post.frame@ == pre.frame@
    &&& post.delay_base == pre.delay_base
}

/// SkipIfNotPressed: skips when the operand register does not name the
/// held key; when it does, the key is cleared and no skip happens.
pub open spec fn sknp_post(pre: Chip8, post: Chip8, opcode: u16) -> bool {
    let hit = pre.keyboard@ == pre.registers.v@[op_x(opcode)];
    &&& post.registers.pc == pre.registers.pc + (if hit {
        WORD_SIZE as int
    } else {
        2 * WORD_SIZE as int
    })
    &&& post.keyboard@ == (if hit {
        0
    } else {
        pre.keyboard@
    })
    &&& post.registers.v@ == pre.registers.v@
    &&& keeps_index_stack_timers(pre, post)
    &&& post.ram@ == pre.ram@
    &&& post.frame@ == pre.frame@
    &&& post.delay_base == pre.delay_base
}

/// LoadFromDelay: the destination takes the decayed delay timer value,
/// never more than the timer's base value.
pub open spec fn ldrdt_post(pre: Chip8, post: Chip8, opcode: u16) -> bool {
    exists|k: u8|
        k <= pre.registers.dt && vreg_step(
            pre,
            post,
            pre.registers.v@.update(op_x(opcode), k),
        )
}

/// LoadFromKey: the destination takes the held key value; with no key
/// held, the register is left unchanged. The instruction does not block.
pub open spec fn ldk_post(pre: Chip8, post: Chip8, opcode: u16) -> bool {
    vreg_step(
        pre,
        post,
        if pre.keyboard@ != 0 {
            pre.registers.v@.update(op_x(opcode), pre.keyboard@)
        } else {
            pre.registers.v@
        },
    )
}

/// SetDelay: the delay timer base takes the operand register's value and
/// the decay reference is reset to the present clock reading.
pub open spec fn lddtr_post(pre: Chip8, post: Chip8, opcode: u16) -> bool {
    &&& post.registers.dt == pre.registers.v@[op_x(opcode)]
    &&& post.registers.pc == pre.registers.pc + WORD_SIZE
    &&& post.registers.v@ == pre.registers.v@
    &&& post.registers.i == pre.registers.i
    &&& post.registers.sp@ == pre.registers.sp@
    &&& post.registers.st == pre.registers.st
    &&& post.ram@ == pre.ram@
    &&& post.frame@ == pre.frame@
    &&& post.keyboard@ == pre.keyboard@
}

/// AddToIndex: the index register takes the wrapped sixteen-bit sum; no
/// flag is set.
pub open spec fn addri_post(pre: Chip8, post: Chip8, opcode: u16) -> bool {
    &&& post.registers.i == wrap16(pre.registers.i + pre.registers.v@[op_x(opcode)])
    &&& post.registers.pc == pre.registers.pc + WORD_SIZE
    &&& post.registers.v@ == pre.registers.v@
    &&& post.registers.sp@ == pre.registers.sp@
    &&& post.registers.dt == pre.registers.dt
    &&& post.registers.st == pre.registers.st
    &&& keeps_devices(pre, post)
}

/// LoadFontAddress: the index register points at the five-byte font glyph
/// of the operand register's value.
pub open spec fn ldsr_post(pre: Chip8, post: Chip8, opcode: u16) -> bool {
    &&& post.registers.i == 5 * pre.registers.v@[op_x(opcode)]
    &&& post.registers.pc == pre.registers.pc + WORD_SIZE
    &&& post.registers.v@ == pre.registers.v@
    &&& post.registers.sp@ == pre.registers.sp@
    &&& post.registers.dt == pre.registers.dt
    &&& post.registers.st == pre.registers.st
    &&& keeps_devices(pre, post)
}

/// StoreBCD: the operand register's value is decomposed into three bytes
/// at the index register: its hundreds digit, its remainder below one
/// hundred, and its remainder below ten. An out-of-bound target is a
/// fatal error that leaves the machine untouched.
pub open spec fn ldb_step(pre: Chip8, post: Chip8, opcode: u16, r: Result<
    bool,
    Chip8Error,
>) -> bool {
    let i = pre.registers.i as int;
    let vx = pre.registers.v@[op_x(opcode)];
    if i + 2 < RAM_SIZE {
        &&& r == Ok::<bool, Chip8Error>(false)
        &&& post.ram@ == pre.ram@.update(i, vx / 100).update(i + 1, vx % 100).update(
            i + 2,
            vx % 10,
        )
        &&& post.registers.pc == pre.registers.pc + WORD_SIZE
        &&& post.registers.v@ == pre.registers.v@
        &&& keeps_index_stack_timers(pre, post)
        &&& post.frame@ == pre.frame@
        &&& post.keyboard@ == pre.keyboard@
        &&& post.delay_base == pre.delay_base
    } else {
        &&& r == Err::<bool, Chip8Error>(Chip8Error::Memory(RamError::OutOfBound))
        &&& same_state(pre, post)
    }
}

/// StoreRegisters: the registers up to and including the operand index are
/// written to memory at the index register, which then moves past the
/// block. An out-of-bound target is a fatal error that leaves the machine
/// untouched.
pub open spec fn ldrir_step(pre: Chip8, post: Chip8, opcode: u16, r: Result<
    bool,
    Chip8Error,
>) -> bool {
    let x = op_x(opcode);
    let i = pre.registers.i as int;
    if i + x < RAM_SIZE {
        &&& r == Ok::<bool, Chip8Error>(false)
        &&& post.ram@.len() == pre.ram@.len()
        &&& (forall|j: int| 0 <= j <= x ==> post.ram@[i + j] == pre.registers.v@[j])
        &&& (forall|j: int|
            0 <= j < RAM_SIZE && !(i <= j <= i + x) ==> post.ram@[j] == pre.ram@[j])
        &&& post.registers.i == pre.registers.i + x + 1
        &&& post.registers.pc == pre.registers.pc + WORD_SIZE
        &&& post.registers.v@ == pre.registers.v@
        &&& post.registers.sp@ == pre.registers.sp@
        &&& post.registers.dt == pre.registers.dt
        &&& post.registers.st == pre.registers.st
        &&& post.frame@ == pre.frame@
        &&& post.keyboard@ == pre.keyboard@
        &&& post.delay_base == pre.delay_base
    } else {
        &&& r == Err::<bool, Chip8Error>(Chip8Error::Memory(RamError::OutOfBound))
        &&& same_state(pre, post)
    }
}

/// LoadRegisters: the registers up to and including the operand index are
/// filled from memory at the index register, which then moves past the
/// block. An out-of-bound source is a fatal error that leaves the machine
/// untouched.
pub open spec fn ldrri_step(pre: Chip8, post: Chip8, opcode: u16, r: Result<
    bool,
    Chip8Error,
>) -> bool {
    let x = op_x(opcode);
    let i = pre.registers.i as int;
    if i + x < RAM_SIZE {
        &&& r == Ok::<bool, Chip8Error>(false)
        &&& post.registers.v@.len() == NUM_REGISTERS
        &&& (forall|j: int| 0 <= j <= x ==> post.registers.v@[j] == pre.ram@[i + j])
        &&& (forall|j: int|
            x < j < NUM_REGISTERS ==> post.registers.v@[j] == pre.registers.v@[j])
        &&& post.registers.i == pre.registers.i + x + 1
        &&& post.registers.pc == pre.registers.pc + WORD_SIZE
        &&& post.registers.sp@ == pre.registers.sp@
        &&& post.registers.dt == pre.registers.dt
        &&& post.registers.st == pre.registers.st
        &&& keeps_devices(pre, post)
    } else {
        &&& r == Err::<bool, Chip8Error>(Chip8Error::Memory(RamError::OutOfBound))
        &&& same_state(pre, post)
    }
}

/// What executing one decoded instruction does to the machine, per
/// instruction tag: the executor's whole contract.
pub open spec fn step_post(
    pre: Chip8,
    post: Chip8,
    instr: Instruction,
    opcode: u16,
    r: Result<bool, Chip8Error>,
) -> bool {
    match instr {
        Instruction::CLS => r == Ok::<bool, Chip8Error>(true) && cls_post(pre, post),
        Instruction::RET => ret_step(pre, post, r),
        Instruction::JMP => r == Ok::<bool, Chip8Error>(false) && jump_step(
            pre,
            post,
            op_nnn(opcode) as int,
        ),
        Instruction::JMPV0 => r == Ok::<bool, Chip8Error>(false) && jump_step(
            pre,
            post,
            pre.registers.v@[0] + op_nnn(opcode),
        ),
        Instruction::CALL => r == Ok::<bool, Chip8Error>(false) && call_post(pre, post, opcode),
        Instruction::LD => r == Ok::<bool, Chip8Error>(false) && vreg_step(
            pre,
            post,
            pre.registers.v@.update(op_x(opcode), op_kk(opcode)),
        ),
        Instruction::LDR => r == Ok::<bool, Chip8Error>(false) && vreg_step(
            pre,
            post,
            pre.registers.v@.update(op_x(opcode), pre.registers.v@[op_y(opcode)]),
        ),
        Instruction::LDRI => r == Ok::<bool, Chip8Error>(false) && {
            &&& post.registers.i == op_nnn(opcode)
            &&& post.registers.pc == pre.registers.pc + WORD_SIZE
            &&& post.registers.v@ == pre.registers.v@
            &&& post.registers.sp@ == pre.registers.sp@
            &&& post.registers.dt == pre.registers.dt
            &&& post.registers.st == pre.registers.st
            &&& keeps_devices(pre, post)
        },
        Instruction::LDRDT => r == Ok::<bool, Chip8Error>(false) && ldrdt_post(pre, post, opcode),
        Instruction::LDDTR => r == Ok::<bool, Chip8Error>(false) && lddtr_post(pre, post, opcode),
        Instruction::LDRST => r == Ok::<bool, Chip8Error>(false) && vreg_step(
            pre,
            post,
            pre.registers.v@,
        ),
        Instruction::LDK => r == Ok::<bool, Chip8Error>(false) && ldk_post(pre, post, opcode),
        Instruction::LDSR => r == Ok::<bool, Chip8Error>(false) && ldsr_post(pre, post, opcode),
        Instruction::LDB => ldb_step(pre, post, opcode, r),
        Instruction::LDRIR => ldrir_step(pre, post, opcode, r),
        Instruction::LDRRI => ldrri_step(pre, post, opcode, r),
        Instruction::SE => r == Ok::<bool, Chip8Error>(false) && skip_step(
            pre,
            post,
            pre.registers.v@[op_x(opcode)] == op_kk(opcode),
        ),
        Instruction::SER => r == Ok::<bool, Chip8Error>(false) && skip_step(
            pre,
            post,
            pre.registers.v@[op_x(opcode)] == pre.registers.v@[op_y(opcode)],
        ),
        Instruction::SNE => r == Ok::<bool, Chip8Error>(false) && skip_step(
            pre,
            post,
            pre.registers.v@[op_x(opcode)] != op_kk(opcode),
        ),
        Instruction::SNER => r == Ok::<bool, Chip8Error>(false) && skip_step(
            pre,
            post,
            pre.registers.v@[op_x(opcode)] != pre.registers.v@[op_y(opcode)],
        ),
        Instruction::ADD => r == Ok::<bool, Chip8Error>(false) && vreg_step(
            pre,
            post,
            pre.registers.v@.update(
                op_x(opcode),
                wrap8(pre.registers.v@[op_x(opcode)] + op_kk(opcode)),
            ),
        ),
        Instruction::ADDR => r == Ok::<bool, Chip8Error>(false) && addr_post(pre, post, opcode),
        Instruction::ADDRI => r == Ok::<bool, Chip8Error>(false) && addri_post(pre, post, opcode),
        Instruction::SUB => r == Ok::<bool, Chip8Error>(false) && sub_post(pre, post, opcode),
        Instruction::SUBN => r == Ok::<bool, Chip8Error>(false) && subn_post(pre, post, opcode),
        Instruction::AND => r == Ok::<bool, Chip8Error>(false) && vreg_step(
            pre,
            post,
            pre.registers.v@.update(
                op_x(opcode),
                pre.registers.v@[op_x(opcode)] & pre.registers.v@[op_y(opcode)],
            ),
        ),
        Instruction::OR => r == Ok::<bool, Chip8Error>(false) && vreg_step(
            pre,
            post,
            pre.registers.v@.update(
                op_x(opcode),
                pre.registers.v@[op_x(opcode)] | pre.registers.v@[op_y(opcode)],
            ),
        ),
        Instruction::XOR => r == Ok::<bool, Chip8Error>(false) && vreg_step(
            pre,
            post,
            pre.registers.v@.update(
                op_x(opcode),
                pre.registers.v@[op_x(opcode)] ^ pre.registers.v@[op_y(opcode)],
            ),
        ),
        Instruction::SHR => r == Ok::<bool, Chip8Error>(false) && shr_post(pre, post, opcode),
        Instruction::SHL => r == Ok::<bool, Chip8Error>(false) && shl_post(pre, post, opcode),
        Instruction::RND => r == Ok::<bool, Chip8Error>(false) && rnd_post(pre, post, opcode),
        Instruction::DRW => drw_step(pre, post, opcode, r),
        Instruction::SKP => r == Ok::<bool, Chip8Error>(false) && skp_post(pre, post, opcode),
        Instruction::SKNP => r == Ok::<bool, Chip8Error>(false) && sknp_post(pre, post, opcode),
    }
}

/// The outcome of one whole fetch-decode-execute cycle.
pub open spec fn cycle_post(pre: Chip8, post: Chip8, r: Result<bool, Chip8Error>) -> bool {
    if pre.registers.pc + 1 >= RAM_SIZE {
        r == Err::<bool, Chip8Error>(Chip8Error::Memory(RamError::OutOfBound)) && same_state(
            pre,
            post,
        )
    } else {
        let w = word_of(pre.ram@[pre.registers.pc as int], pre.ram@[pre.registers.pc + 1]);
        match spec_decode(w) {
            Some(instr) => step_post(pre, post, instr, w, r),
            None => r == Err::<bool, Chip8Error>(Chip8Error::FailedToDecodeOpcode) && same_state(
                pre,
                post,
            ),
        }
    }
}

/// Relies on rand::thread_rng and rand::Rng::gen_range: a byte drawn from
/// the half-open range below 0xFF, the draw-random instruction's source
/// range. Which byte comes back is never promised.
#[verifier::external_body]
fn random_byte() -> (r: u8)
    ensures
        r < 0xFF,
{
    let n: i32 = rand::thread_rng().gen_range(0..0xFF);
    n as u8
}

impl Chip8 {
    /// Every component keeps its shape.
    pub open spec fn wf(&self) -> bool {
        &&& self.ram.wf()
        &&& self.registers.wf()
        &&& self.keyboard.wf()
        &&& self.frame.wf()
    }

    /// A fresh machine: font-initialised memory, reset registers, no key
    /// held, blank screen.
    pub fn new() -> (c: Chip8)
        ensures
            c.wf(),
            c.registers.pc == PROGRAM_START_OFFSET,
            c.registers.i == 0,
            c.registers.sp@.len() == 0,
            forall|j: int| 0 <= j < NUM_REGISTERS ==> c.registers.v@[j] == 0,
            c.keyboard@ == 0,
            forall|p: int| 0 <= p < GRID_SIZE ==> c.frame@[p] == 0,
            forall|a: int|
                0 <= a < crate::ram::RESERVED_SIZE ==> c.ram@[a] == crate::ram::font_seq()[a],
            forall|a: int| crate::ram::RESERVED_SIZE <= a < RAM_SIZE ==> c.ram@[a] == 0,
    {
        Chip8 {
            ram: Ram::new(),
            registers: Registers::new(),
            keyboard: Keyboard::new(),
            frame: FrameBuffer::new(),
            delay_base: instant_now(),
        }
    }

    /// Loads a program image at the program start offset; an image too
    /// large for the space above the offset is refused and memory is left
    /// as it was.
    pub fn load_rom(&mut self, data: &[u8]) -> (r: Result<(), RamError>)
        requires
            old(self).wf(),
        ensures
            final(self).wf(),
            data@.len() <= RAM_SIZE - PROGRAM_START_OFFSET ==> {
                &&& r == Ok::<(), RamError>(())
                &&& forall|k: int|
                    0 <= k < data@.len() ==> final(self).ram@[PROGRAM_START_OFFSET + k]
                        == data@[k]
                &&& forall|k: int|
                    0 <= k < RAM_SIZE && !(PROGRAM_START_OFFSET <= k < PROGRAM_START_OFFSET
                        + data@.len()) ==> final(self).ram@[k] == old(self).ram@[k]
            },
            data@.len() > RAM_SIZE - PROGRAM_START_OFFSET ==> {
                &&& r == Err::<(), RamError>(RamError::NotEnoughSpace)
                &&& final(self).ram@ == old(self).ram@
            },
            final(self).registers == old(self).registers,
            final(self).frame@ == old(self).frame@,
            final(self).keyboard@ == old(self).keyboard@,
            final(self).delay_base == old(self).delay_base,
    {
        self.ram.load(data)
    }

    /// Reads the instruction word at the program counter.
    pub fn fetch(&self) -> (r: Result<u16, Chip8Error>)
        requires
            self.wf(),
        ensures
            self.registers.pc + 1 < RAM_SIZE ==> r == Ok::<u16, Chip8Error>(
                word_of(
                    self.ram@[self.registers.pc as int],
                    self.ram@[self.registers.pc + 1],
                ),
            ),
            self.registers.pc + 1 >= RAM_SIZE ==> r == Err::<u16, Chip8Error>(
                Chip8Error::Memory(RamError::OutOfBound),
            ),
    {
        match self.ram.read_word(self.registers.pc as usize) {
            Ok(w) => Ok(w),
            Err(e) => Err(Chip8Error::Memory(e)),
        }
    }

    /// Decodes an opcode against the table: deterministic, and total over
    /// the table; everything outside it is a decode failure.
    pub fn decode(opcode: u16) -> (r: Result<Instruction, Chip8Error>)
        ensures
            spec_decode(opcode) matches Some(instr) ==> r == Ok::<Instruction, Chip8Error>(instr),
            spec_decode(opcode) is None ==> r == Err::<Instruction, Chip8Error>(
                Chip8Error::FailedToDecodeOpcode,
            ),
    {
        if opcode == 0x00E0 {
            Ok(Instruction::CLS)
        } else if opcode == 0x00EE {
            Ok(Instruction::RET)
        } else if (opcode & 0xF000) == 0x1000 {
            Ok(Instruction::JMP)
        } else if (opcode & 0xF000) == 0x2000 {
            Ok(Instruction::CALL)
        } else if (opcode & 0xF000) == 0x3000 {
            Ok(Instruction::SE)
        } else if (opcode & 0xF000) == 0x4000 {
            Ok(Instruction::SNE)
        } else if (opcode & 0xF000) == 0x5000 {
            Ok(Instruction::SER)
        } else if (opcode & 0xF000) == 0x6000 {
            Ok(Instruction::LD)
        } else if (opcode & 0xF000) == 0x7000 {
            Ok(Instruction::ADD)
        } else if (opcode & 0xF000) == 0x8000 {
            match (opcode & 0x000F) as u8 {
                0x0 => Ok(Instruction::LDR),
                0x1 => Ok(Instruction::OR),
                0x2 => Ok(Instruction::AND),
                0x3 => Ok(Instruction::XOR),
                0x4 => Ok(Instruction::ADDR),
                0x5 => Ok(Instruction::SUB),
                0x6 => Ok(Instruction::SHR),
                0x7 => Ok(Instruction::SUBN),
                0xE => Ok(Instruction::SHL),
                _ => Err(Chip8Error::FailedToDecodeOpcode),
            }
        } else if (opcode & 0xF000) == 0x9000 {
            Ok(Instruction::SNER)
        } else if (opcode & 0xF000) == 0xA000 {
            Ok(Instruction::LDRI)
        } else if (opcode & 0xF000) == 0xB000 {
            Ok(Instruction::JMPV0)
        } else if (opcode & 0xF000) == 0xC000 {
            Ok(Instruction::RND)
        } else if (opcode & 0xF000) == 0xD000 {
            Ok(Instruction::DRW)
        } else if (opcode & 0xF000) == 0xE000 {
            match (opcode & 0x00FF) as u8 {
                0x9E => Ok(Instruction::SKP),
                0xA1 => Ok(Instruction::SKNP),
                _ => Err(Chip8Error::FailedToDecodeOpcode),
            }
        } else if (opcode & 0xF000) == 0xF000 {
            match (opcode & 0x00FF) as u8 {
                0x07 => Ok(Instruction::LDRDT),
                0x0A => Ok(Instruction::LDK),
                0x15 => Ok(Instruction::LDDTR),
                0x18 => Ok(Instruction::LDRST),
                0x1E => Ok(Instruction::ADDRI),
                0x29 => Ok(Instruction::LDSR),
                0x33 => Ok(Instruction::LDB),
                0x55 => Ok(Instruction::LDRIR),
                0x65 => Ok(Instruction::LDRRI),
                _ => Err(Chip8Error::FailedToDecodeOpcode),
            }
        } else {
            Err(Chip8Error::FailedToDecodeOpcode)
        }
    }

    /// Runs one whole fetch-decode-execute cycle and says whether the
    /// screen contents changed and should be presented.
    pub fn cycle(&mut self) -> (r: Result<bool, Chip8Error>)
        requires
            old(self).wf(),
        ensures
            final(self).wf(),
            cycle_post(*old(self), *final(self), r),
    {
        let opcode = match self.fetch() {
            Ok(w) => w,
            Err(e) => {
                return Err(e);
            },
        };
        let instruction = match Self::decode(opcode) {
            Ok(i) => i,
            Err(e) => {
                return Err(e);
            },
        };
        self.execute(&instruction, opcode)
    }

    /// Applies one decoded instruction to the machine and says whether the
    /// screen contents changed.
    pub fn execute(&mut self, instruction: &Instruction, opcode: u16) -> (r: Result<
        bool,
        Chip8Error,
    >)
        requires
            old(self).wf(),
            pc_can_step(old(self).registers),
        ensures
            final(self).wf(),
            step_post(*old(self), *final(self), *instruction, opcode, r),
    {
        match instruction {
            Instruction::CLS => {
                self.cls();
                Ok(true)
            },
            Instruction::RET => self.ret(),
            Instruction::JMP => {
                self.jmp(opcode);
                Ok(false)
            },
            Instruction::CALL => {
                self.call(opcode);
                Ok(false)
            },
            Instruction::SE => {
                self.se(opcode);
                Ok(false)
            },
            Instruction::SNE => {
                self.sne(opcode);
                Ok(false)
            },
            Instruction::SER => {
                self.ser(opcode);
                Ok(false)
            },
            Instruction::LD => {
                self.ld(opcode);
                Ok(false)
            },
            Instruction::ADD => {
                self.add(opcode);
                Ok(false)
            },
            Instruction::LDR => {
                self.ldr(opcode);
                Ok(false)
            },
            Instruction::OR => {
                self.or(opcode);
                Ok(false)
            },
            Instruction::AND => {
                self.and(opcode);
                Ok(false)
            },
            Instruction::XOR => {
                self.xor(opcode);
                Ok(false)
            },
            Instruction::ADDR => {
                self.addr(opcode);
                Ok(false)
            },
            Instruction::SUB => {
                self.sub(opcode);
                Ok(false)
            },
            Instruction::SHR => {
                self.shr(opcode);
                Ok(false)
            },
            Instruction::SUBN => {
                self.subn(opcode);
                Ok(false)
            },
            Instruction::SHL => {
                self.shl(opcode);
                Ok(false)
            },
            Instruction::SNER => {
                self.sner(opcode);
                Ok(false)
            },
            Instruction::LDRI => {
                self.ldri(opcode);
                Ok(false)
            },
            Instruction::JMPV0 => {
                self.jmpv0(opcode);
                Ok(false)
            },
            Instruction::RND => {
                self.rnd(opcode);
                Ok(false)
            },
            Instruction::DRW => self.drw(opcode),
            Instruction::SKP => {
                self.skp(opcode);
                Ok(false)
            },
            Instruction::SKNP => {
                self.sknp(opcode);
                Ok(false)
            },
            Instruction::LDRDT => {
                self.ldrdt(opcode);
                Ok(false)
            },
            Instruction::LDK => {
                self.ldk(opcode);
                Ok(false)
            },
            Instruction::LDDTR => {
                self.lddtr(opcode);
                Ok(false)
            },
            Instruction::LDRST => {
                self.ldrst(opcode);
                Ok(false)
            },
            Instruction::ADDRI => {
                self.addri(opcode);
                Ok(false)
            },
            Instruction::LDSR => {
                self.ldsr(opcode);
                Ok(false)
            },
            Instruction::LDB => self.ldb(opcode),
            Instruction::LDRIR => self.ldrir(opcode),
            Instruction::LDRRI => self.ldrri(opcode),
        }
    }

    /// Sets the delay timer base and resets its decay reference to now.
    pub fn set_delay_timer(&mut self, value: u8)
        requires
            old(self).wf(),
        ensures
            final(self).wf(),
            final(self).registers.dt == value,
            final(self).registers.pc == old(self).registers.pc,
            final(self).registers.i == old(self).registers.i,
            final(self).registers.st == old(self).registers.st,
            final(self).registers.v@ == old(self).registers.v@,
            final(self).registers.sp@ == old(self).registers.sp@,
            final(self).ram@ == old(self).ram@,
            final(self).frame@ == old(self).frame@,
            final(self).keyboard@ == old(self).keyboard@,
    {
        self.delay_base = instant_now();
        self.registers.dt = value;
    }

    /// The delay timer as the program observes it: the base value decayed
    /// by the wall-clock time since it was set, never more than the base.
    pub fn get_delay_timer(&self) -> (r: u8)
        requires
            self.wf(),
        ensures
            r <= self.registers.dt,
    {
        let ms = elapsed_millis(&self.delay_base);
        decayed_timer(self.registers.dt, ms)
    }

    fn cls(&mut self)
        requires
            old(self).wf(),
            pc_can_step(old(self).registers),
        ensures
            final(self).wf(),
            cls_post(*old(self), *final(self)),
    {
        self.frame.clear();
        self.registers.pc = self.registers.pc + WORD_SIZE;
    }

    fn ret(&mut self) -> (r: Result<bool, Chip8Error>)
        requires
            old(self).wf(),
        ensures
            final(self).wf(),
            ret_step(*old(self), *final(self), r),
    {
        match self.registers.sp.pop() {
            Some(addr) => {
                self.registers.pc = addr;
                Ok(false)
            },
            None => Err(Chip8Error::EmptyCallStack),
        }
    }

    fn jmp(&mut self, opcode: u16)
        requires
            old(self).wf(),
        ensures
            final(self).wf(),
            jump_step(*old(self), *final(self), op_nnn(opcode) as int),
    {
        self.registers.pc = opcode & 0x0FFF;
    }

    fn call(&mut self, opcode: u16)
        requires
            old(self).wf(),
            pc_can_step(old(self).registers),
        ensures
            final(self).wf(),
            call_post(*old(self), *final(self), opcode),
    {
        self.registers.sp.push(self.registers.pc + WORD_SIZE);
        self.registers.pc = opcode & 0x0FFF;
    }

    fn se(&mut self, opcode: u16)
        requires
            old(self).wf(),
            pc_can_step(old(self).registers),
        ensures
            final(self).wf(),
            skip_step(
                *old(self),
                *final(self),
                old(self).registers.v@[op_x(opcode)] == op_kk(opcode),
            ),
    {
        proof {
            lemma_op_bounds(opcode);
        }
        let x = ((opcode & 0x0F00) >> 8) as usize;
        let val = (opcode & 0x00FF) as u8;
        if self.registers.v[x] == val {
            self.registers.pc = self.registers.pc + WORD_SIZE * 2;
        } else {
            self.registers.pc = self.registers.pc + WORD_SIZE;
        }
    }

    fn sne(&mut self, opcode: u16)
        requires
            old(self).wf(),
            pc_can_step(old(self).registers),
        ensures
            final(self).wf(),
            skip_step(
                *old(self),
                *final(self),
                old(self).registers.v@[op_x(opcode)] != op_kk(opcode),
            ),
    {
        proof {
            lemma_op_bounds(opcode);
        }
        let x = ((opcode & 0x0F00) >> 8) as usize;
        let val = (opcode & 0x00FF) as u8;
        if self.registers.v[x] != val {
            self.registers.pc = self.registers.pc + WORD_SIZE * 2;
        } else {
            self.registers.pc = self.registers.pc + WORD_SIZE;
        }
    }

    fn ser(&mut self, opcode: u16)
        requires
            old(self).wf(),
            pc_can_step(old(self).registers),
        ensures
            final(self).wf(),
            skip_step(
                *old(self),
                *final(self),
                old(self).registers.v@[op_x(opcode)] == old(self).registers.v@[op_y(opcode)],
            ),
    {
        proof {
            lemma_op_bounds(opcode);
        }
        let x = ((opcode & 0x0F00) >> 8) as usize;
        let y = ((opcode & 0x00F0) >> 4) as usize;
        if self.registers.v[x] == self.registers.v[y] {
            self.registers.pc = self.registers.pc + WORD_SIZE * 2;
        } else {
            self.registers.pc = self.registers.pc + WORD_SIZE;
        }
    }

    fn sner(&mut self, opcode: u16)
        requires
            old(self).wf(),
            pc_can_step(old(self).registers),
        ensures
            final(self).wf(),
            skip_step(
                *old(self),
                *final(self),
                old(self).registers.v@[op_x(opcode)] != old(self).registers.v@[op_y(opcode)],
            ),
    {
        proof {
            lemma_op_bounds(opcode);
        }
        let x = ((opcode & 0x0F00) >> 8) as usize;
        let y = ((opcode & 0x00F0) >> 4) as usize;
        if self.registers.v[x] != self.registers.v[y] {
            self.registers.pc = self.registers.pc + WORD_SIZE * 2;
        } else {
            self.registers.pc = self.registers.pc + WORD_SIZE;
        }
    }

    fn ld(&mut self, opcode: u16)
        requires
            old(self).wf(),
            pc_can_step(old(self).registers),
        ensures
            final(self).wf(),
            vreg_step(
                *old(self),
                *final(self),
                old(self).registers.v@.update(op_x(opcode), op_kk(opcode)),
            ),
    {
        proof {
            lemma_op_bounds(opcode);
        }
        let x = ((opcode & 0x0F00) >> 8) as usize;
        self.registers.v[x] = (opcode & 0x00FF) as u8;
        self.registers.pc = self.registers.pc + WORD_SIZE;
    }

    fn add(&mut self, opcode: u16)
        requires
            old(self).wf(),
            pc_can_step(old(self).registers),
        ensures
            final(self).wf(),
            vreg_step(
                *old(self),
                *final(self),
                old(self).registers.v@.update(
                    op_x(opcode),
                    wrap8(old(self).registers.v@[op_x(opcode)] + op_kk(opcode)),
                ),
            ),
    {
        proof {
            lemma_op_bounds(opcode);
        }
        let x = ((opcode & 0x0F00) >> 8) as usize;
        let val = (opcode & 0x00FF) as u8;
        let sum: u16 = self.registers.v[x] as u16 + val as u16;
        self.registers.v[x] = (sum % 256) as u8;
        self.registers.pc = self.registers.pc + WORD_SIZE;
    }

    fn ldr(&mut self, opcode: u16)
        requires
            old(self).wf(),
            pc_can_step(old(self).registers),
        ensures
            final(self).wf(),
            vreg_step(
                *old(self),
                *final(self),
                old(self).registers.v@.update(
                    op_x(opcode),
                    old(self).registers.v@[op_y(opcode)],
                ),
            ),
    {
        proof {
            lemma_op_bounds(opcode);
        }
        let x = ((opcode & 0x0F00) >> 8) as usize;
        let y = ((opcode & 0x00F0) >> 4) as usize;
        self.registers.v[x] = self.registers.v[y];
        self.registers.pc = self.registers.pc + WORD_SIZE;
    }

    fn or(&mut self, opcode: u16)
        requires
            old(self).wf(),
            pc_can_step(old(self).registers),
        ensures
            final(self).wf(),
            vreg_step(
                *old(self),
                *final(self),
                old(self).registers.v@.update(
                    op_x(opcode),
                    old(self).registers.v@[op_x(opcode)] | old(self).registers.v@[op_y(opcode)],
                ),
            ),
    {
        proof {
            lemma_op_bounds(opcode);
        }
        let x = ((opcode & 0x0F00) >> 8) as usize;
        let y = ((opcode & 0x00F0) >> 4) as usize;
        self.registers.v[x] = self.registers.v[x] | self.registers.v[y];
        self.registers.pc = self.registers.pc + WORD_SIZE;
    }

    fn and(&mut self, opcode: u16)
        requires
            old(self).wf(),
            pc_can_step(old(self).registers),
        ensures
            final(self).wf(),
            vreg_step(
                *old(self),
                *final(self),
                old(self).registers.v@.update(
                    op_x(opcode),
                    old(self).registers.v@[op_x(opcode)] & old(self).registers.v@[op_y(opcode)],
                ),
            ),
    {
        proof {
            lemma_op_bounds(opcode);
        }
        let x = ((opcode & 0x0F00) >> 8) as usize;
        let y = ((opcode & 0x00F0) >> 4) as usize;
        self.registers.v[x] = self.registers.v[x] & self.registers.v[y];
        self.registers.pc = self.registers.pc + WORD_SIZE;
    }

    fn xor(&mut self, opcode: u16)
        requires
            old(self).wf(),
            pc_can_step(old(self).registers),
        ensures
            final(self).wf(),
            vreg_step(
                *old(self),
                *final(self),
                old(self).registers.v@.update(
                    op_x(opcode),
                    old(self).registers.v@[op_x(opcode)] ^ old(self).registers.v@[op_y(opcode)],
                ),
            ),
    {
        proof {
            lemma_op_bounds(opcode);
        }
        let x = ((opcode & 0x0F00) >> 8) as usize;
        let y = ((opcode & 0x00F0) >> 4) as usize;
        self.registers.v[x] = self.registers.v[x] ^ self.registers.v[y];
        self.registers.pc = self.registers.pc + WORD_SIZE;
    }

    fn addr(&mut self, opcode: u16)
        requires
            old(self).wf(),
            pc_can_step(old(self).registers),
        ensures
            final(self).wf(),
            addr_post(*old(self), *final(self), opcode),
    {
        proof {
            lemma_op_bounds(opcode);
        }
        let x = ((opcode & 0x0F00) >> 8) as usize;
        let y = ((opcode & 0x00F0) >> 4) as usize;
        let sum: u16 = self.registers.v[x] as u16 + self.registers.v[y] as u16;
        self.registers.v[x] = (sum % 256) as u8;
        if sum > 0xFF {
            self.registers.v[FLAG_REGISTER] = 1;
        } else {
            self.registers.v[FLAG_REGISTER] = 0;
        }
        self.registers.pc = self.registers.pc + WORD_SIZE;
    }

    fn sub(&mut self, opcode: u16)
        requires
            old(self).wf(),
            pc_can_step(old(self).registers),
        ensures
            final(self).wf(),
            sub_post(*old(self), *final(self), opcode),
    {
        proof {
            lemma_op_bounds(opcode);
        }
        let x = ((opcode & 0x0F00) >> 8) as usize;
        let y = ((opcode & 0x00F0) >> 4) as usize;
        let diff = self.registers.v[x].wrapping_sub(self.registers.v[y]);
        self.registers.v[x] = diff;
        if diff >= 128 {
            self.registers.v[FLAG_REGISTER] = 1;
        } else {
            self.registers.v[FLAG_REGISTER] = 0;
        }
        self.registers.pc = self.registers.pc + WORD_SIZE;
    }

    fn subn(&mut self, opcode: u16)
        requires
            old(self).wf(),
            pc_can_step(old(self).registers),
        ensures
            final(self).wf(),
            subn_post(*old(self), *final(self), opcode),
    {
        proof {
            lemma_op_bounds(opcode);
        }
        let x = ((opcode & 0x0F00) >> 8) as usize;
        let y = ((opcode & 0x00F0) >> 4) as usize;
        let diff = self.registers.v[y].wrapping_sub(self.registers.v[x]);
        self.registers.v[x] = diff;
        if diff >= 128 {
            self.registers.v[FLAG_REGISTER] = 1;
        } else {
            self.registers.v[FLAG_REGISTER] = 0;
        }
        self.registers.pc = self.registers.pc + WORD_SIZE;
    }

    fn shr(&mut self, opcode: u16)
        requires
            old(self).wf(),
            pc_can_step(old(self).registers),
        ensures
            final(self).wf(),
            shr_post(*old(self), *final(self), opcode),
    {
        proof {
            lemma_op_bounds(opcode);
        }
        let x = ((opcode & 0x0F00) >> 8) as usize;
        self.registers.v[FLAG_REGISTER] = self.registers.v[x] & 1;
        self.registers.v[x] = self.registers.v[x] >> 1u8;
        self.registers.pc = self.registers.pc + WORD_SIZE;
    }

    fn shl(&mut self, opcode: u16)
        requires
            old(self).wf(),
            pc_can_step(old(self).registers),
        ensures
            final(self).wf(),
            shl_post(*old(self), *final(self), opcode),
    {
        proof {
            lemma_op_bounds(opcode);
        }
        let x = ((opcode & 0x0F00) >> 8) as usize;
        self.registers.v[FLAG_REGISTER] = (self.registers.v[x] & 0x80) >> 7u8;
        self.registers.v[x] = self.registers.v[x] << 1u8;
        self.registers.pc = self.registers.pc + WORD_SIZE;
    }

    fn ldri(&mut self, opcode: u16)
        requires
            old(self).wf(),
            pc_can_step(old(self).registers),
        ensures
            final(self).wf(),
            final(self).registers.i == op_nnn(opcode),
            final(self).registers.pc == old(self).registers.pc + WORD_SIZE,
            final(self).registers.v@ == old(self).registers.v@,
            final(self).registers.sp@ == old(self).registers.sp@,
            final(self).registers.dt == old(self).registers.dt,
            final(self).registers.st == old(self).registers.st,
            keeps_devices(*old(self), *final(self)),
    {
        self.registers.i = opcode & 0x0FFF;
        self.registers.pc = self.registers.pc + WORD_SIZE;
    }

    fn jmpv0(&mut self, opcode: u16)
        requires
            old(self).wf(),
        ensures
            final(self).wf(),
            jump_step(
                *old(self),
                *final(self),
                old(self).registers.v@[0] + op_nnn(opcode),
            ),
    {
        proof {
            lemma_op_bounds(opcode);
        }
        self.registers.pc = self.registers.v[0] as u16 + (opcode & 0x0FFF);
    }

    fn rnd(&mut self, opcode: u16)
        requires
            old(self).wf(),
            pc_can_step(old(self).registers),
        ensures
            final(self).wf(),
            rnd_post(*old(self), *final(self), opcode),
    {
        proof {
            lemma_op_bounds(opcode);
        }
        let x = ((opcode & 0x0F00) >> 8) as usize;
        let val = (opcode & 0x00FF) as u8;
        let num = random_byte();
        self.registers.v[x] = num & val;
        self.registers.pc = self.registers.pc + WORD_SIZE;
        proof {
            assert(num < 0xFF && vreg_step(
                *old(self),
                *self,
                old(self).registers.v@.update(op_x(opcode), num & op_kk(opcode)),
            ));
        }
    }

    fn drw(&mut self, opcode: u16) -> (r: Result<bool, Chip8Error>)
        requires
            old(self).wf(),
            pc_can_step(old(self).registers),
        ensures
            final(self).wf(),
            drw_step(*old(self), *final(self), opcode, r),
    {
        proof {
            lemma_op_bounds(opcode);
        }
        let x = ((opcode & 0x0F00) >> 8) as usize;
        let y = ((opcode & 0x00F0) >> 4) as usize;
        let n = (opcode & 0x000F) as usize;
        let x_pos = self.registers.v[x];
        let y_pos = self.registers.v[y];
        self.registers.v[FLAG_REGISTER] = 0;
        let i = self.registers.i as usize;
        let rows = if n == 0 {
            Vec::new()
        } else {
            if i >= RAM_SIZE || n > RAM_SIZE - i {
                return Err(Chip8Error::Memory(RamError::OutOfBound));
            }
            self.ram.read_range(i, n)
        };
        let collision = self.frame.blit(&rows, x_pos, y_pos);
        self.registers.v[FLAG_REGISTER] = if collision {
            1
        } else {
            0
        };
        self.registers.pc = self.registers.pc + WORD_SIZE;
        proof {
            assert(self.registers.v@ =~= old(self).registers.v@.update(
                FLAG_REGISTER as int,
                if collision {
                    1u8
                } else {
                    0u8
                },
            ));
        }
        Ok(true)
    }

    fn skp(&mut self, opcode: u16)
        requires
            old(self).wf(),
            pc_can_step(old(self).registers),
        ensures
            final(self).wf(),
            skp_post(*old(self), *final(self), opcode),
    {
        proof {
            lemma_op_bounds(opcode);
        }
        let x = ((opcode & 0x0F00) >> 8) as usize;
        let key = self.registers.v[x];
        if self.keyboard.is_key_pressed(key) {
            self.keyboard.release_key();
            self.registers.pc = self.registers.pc + WORD_SIZE * 2;
        } else {
            self.registers.pc = self.registers.pc + WORD_SIZE;
        }
    }

    fn sknp(&mut self, opcode: u16)
        requires
            old(self).wf(),
            pc_can_step(old(self).registers),
        ensures
            final(self).wf(),
            sknp_post(*old(self), *final(self), opcode),
    {
        proof {
            lemma_op_bounds(opcode);
        }
        let x = ((opcode & 0x0F00) >> 8) as usize;
        let key = self.registers.v[x];
        if !self.keyboard.is_key_pressed(key) {
            self.registers.pc = self.registers.pc + WORD_SIZE * 2;
        } else {
            self.keyboard.release_key();
            self.registers.pc = self.registers.pc + WORD_SIZE;
        }
    }

    fn ldrdt(&mut self, opcode: u16)
        requires
            old(self).wf(),
            pc_can_step(old(self).registers),
        ensures
            final(self).wf(),
            ldrdt_post(*old(self), *final(self), opcode),
    {
        proof {
            lemma_op_bounds(opcode);
        }
        let x = ((opcode & 0x0F00) >> 8) as usize;
        let t = self.get_delay_timer();
        self.registers.v[x] = t;
        self.registers.pc = self.registers.pc + WORD_SIZE;
        proof {
            assert(t <= old(self).registers.dt && vreg_step(
                *old(self),
                *self,
                old(self).registers.v@.update(op_x(opcode), t),
            ));
        }
    }

    fn ldk(&mut self, opcode: u16)
        requires
            old(self).wf(),
            pc_can_step(old(self).registers),
        ensures
            final(self).wf(),
            ldk_post(*old(self), *final(self), opcode),
    {
        proof {
            lemma_op_bounds(opcode);
        }
        let x = ((opcode & 0x0F00) >> 8) as usize;
        if let Some(val) = self.keyboard.get_pressed_key() {
            self.registers.v[x] = val;
        }
        self.registers.pc = self.registers.pc + WORD_SIZE;
    }

    fn lddtr(&mut self, opcode: u16)
        requires
            old(self).wf(),
            pc_can_step(old(self).registers),
        ensures
            final(self).wf(),
            lddtr_post(*old(self), *final(self), opcode),
    {
        proof {
            lemma_op_bounds(opcode);
        }
        let x = ((opcode & 0x0F00) >> 8) as usize;
        let value = self.registers.v[x];
        self.set_delay_timer(value);
        self.registers.pc = self.registers.pc + WORD_SIZE;
    }

    fn ldrst(&mut self, _opcode: u16)
        requires
            old(self).wf(),
            pc_can_step(old(self).registers),
        ensures
            final(self).wf(),
            vreg_step(*old(self), *final(self), old(self).registers.v@),
    {
        self.registers.pc = self.registers.pc + WORD_SIZE;
    }

    fn addri(&mut self, opcode: u16)
        requires
            old(self).wf(),
            pc_can_step(old(self).registers),
        ensures
            final(self).wf(),
            addri_post(*old(self), *final(self), opcode),
    {
        proof {
            lemma_op_bounds(opcode);
        }
        let x = ((opcode & 0x0F00) >> 8) as usize;
        self.registers.i = self.registers.i.wrapping_add(self.registers.v[x] as u16);
        self.registers.pc = self.registers.pc + WORD_SIZE;
    }

    fn ldsr(&mut self, opcode: u16)
        requires
            old(self).wf(),
            pc_can_step(old(self).registers),
        ensures
            final(self).wf(),
            ldsr_post(*old(self), *final(self), opcode),
    {
        proof {
            lemma_op_bounds(opcode);
        }
        let x = ((opcode & 0x0F00) >> 8) as usize;
        // Each font glyph is five bytes tall.
        self.registers.i = self.registers.v[x] as u16 * 5;
        self.registers.pc = self.registers.pc + WORD_SIZE;
    }

    fn ldb(&mut self, opcode: u16) -> (r: Result<bool, Chip8Error>)
        requires
            old(self).wf(),
            pc_can_step(old(self).registers),
        ensures
            final(self).wf(),
            ldb_step(*old(self), *final(self), opcode, r),
    {
        proof {
            lemma_op_bounds(opcode);
        }
        let x = ((opcode & 0x0F00) >> 8) as usize;
        let i = self.registers.i as usize;
        if i >= RAM_SIZE - 2 {
            return Err(Chip8Error::Memory(RamError::OutOfBound));
        }
        let vx = self.registers.v[x];
        let _ = self.ram.write_byte(i, vx / 100);
        let _ = self.ram.write_byte(i + 1, vx % 100);
        let _ = self.ram.write_byte(i + 2, vx % 10);
        self.registers.pc = self.registers.pc + WORD_SIZE;
        Ok(false)
    }

    fn ldrir(&mut self, opcode: u16) -> (r: Result<bool, Chip8Error>)
        requires
            old(self).wf(),
            pc_can_step(old(self).registers),
        ensures
            final(self).wf(),
            ldrir_step(*old(self), *final(self), opcode, r),
    {
        proof {
            lemma_op_bounds(opcode);
        }
        let x = ((opcode & 0x0F00) >> 8) as usize;
        let i = self.registers.i as usize;
        if i >= RAM_SIZE || x >= RAM_SIZE - i {
            return Err(Chip8Error::Memory(RamError::OutOfBound));
        }
        self.ram.copy_from(i, &self.registers.v, x + 1);
        self.registers.i = self.registers.i + x as u16 + 1;
        self.registers.pc = self.registers.pc + WORD_SIZE;
        Ok(false)
    }

    fn ldrri(&mut self, opcode: u16) -> (r: Result<bool, Chip8Error>)
        requires
            old(self).wf(),
            pc_can_step(old(self).registers),
        ensures
            final(self).wf(),
            ldrri_step(*old(self), *final(self), opcode, r),
    {
        proof {
            lemma_op_bounds(opcode);
        }
        let x = ((opcode & 0x0F00) >> 8) as usize;
        let i = self.registers.i as usize;
        if i >= RAM_SIZE || x >= RAM_SIZE - i {
            return Err(Chip8Error::Memory(RamError::OutOfBound));
        }
        let bytes = self.ram.read_range(i, x + 1);
        self.registers.load_prefix(&bytes, x + 1);
        self.registers.i = self.registers.i + x as u16 + 1;
        self.registers.pc = self.registers.pc + WORD_SIZE;
        proof {
            assert forall|j: int| 0 <= j <= op_x(opcode) implies self.registers.v@[j] == old(
                self,
            ).ram@[i + j] by {
                assert(self.registers.v@[j] == bytes@[j]);
                assert(bytes@[j] == old(self).ram@.subrange(i as int, i + x + 1)[j]);
            }
        }
        Ok(false)
    }
}

} // verus!
