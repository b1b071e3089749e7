//! Execution contexts and the initial register frame of a task.
//!
//! A [`Context`] is only a saved stack pointer: the callee-saved registers
//! and flags of a suspended task live on that task's own stack, pushed by
//! the register swap when it suspends and popped when it resumes. For a
//! task that has never run, [`Context::new`] lays out a frame at the top of
//! its stack so that the first swap into it pops zeroed registers, flags
//! with interrupts enabled, and "returns" into the task's entry point with
//! the System V stack alignment a called function expects.

use vstd::prelude::*;
use crate::sched::TaskEntry;

verus! {

/// A task's suspended execution state: its saved stack pointer.
#[derive(Debug, Clone, Copy, PartialEq, Eq, Structural)]
pub struct Context {
    rsp: u64,
}

/// [`Context::new`] failure.
#[derive(Debug, Clone, Copy, PartialEq, Eq, Structural)]
pub enum ContextError {
    /// The stack cannot hold the initial register frame.
    StackTooSmall,
}

/// Eight-byte words in the initial frame: flags, six callee-saved
/// registers, and the return address.
pub const FRAME_SLOTS: usize = 8;

/// Bytes in the initial frame.
pub const FRAME_BYTES: usize = 64;

/// The flags a task starts with: the reserved bit 1 and the interrupt
/// flag.
pub const INITIAL_RFLAGS: u64 = 0x202;

/// The top of a stack of `len` bytes at `base`, rounded down to 16 bytes.
pub open spec fn aligned_top(base: u64, len: usize) -> u64 {
    ((base + len) as u64) & !0xfu64
}

/// Where the initial frame starts: so placed that, once the frame's return
/// address has been popped, the stack pointer is 8 modulo 16.
pub open spec fn frame_start(base: u64, len: usize) -> int {
    aligned_top(base, len) - FRAME_BYTES - 8
}

/// Word `k` of the initial frame, from the lowest address up.
pub open spec fn frame_word(k: int, entry: TaskEntry) -> u64 {
    if k == 0 {
        INITIAL_RFLAGS
    } else if k == 7 {
        entry.0 as u64
    } else {
        0
    }
}

/// Byte `j` of the initial frame, each word stored little-endian.
pub open spec fn frame_byte(j: int, entry: TaskEntry) -> u8 {
    ((frame_word(j / 8, entry) >> ((8 * (j % 8)) as u64)) & 0xffu64) as u8
}

/// Whether [`Context::new`] refuses a stack of `len` bytes at `base`.
pub open spec fn stack_too_small(base: u64, len: usize) -> bool {
    len < FRAME_BYTES + 16 || frame_start(base, len) < base
}

impl Context {
    /// The saved stack pointer.
    pub closed spec fn rsp_spec(&self) -> u64 {
        self.rsp
    }

    /// A context with no saved state, only valid as the side a first swap
    /// suspends into (which overwrites it).
    pub fn zeroed() -> (c: Self)
        ensures
            c.rsp() == 0,
    {
        Context { rsp: 0 }
    }

    /// The saved stack pointer.
    #[verifier::when_used_as_spec(rsp_spec)]
    pub fn rsp(&self) -> (r: u64)
        ensures
            r == self.rsp_spec(),
    {
        self.rsp
    }

    /// Builds the context of a task that has never run, whose stack is the
    /// `stack` slice at address `stack_base`: writes the initial frame at the
    /// top of `stack` and returns the stack pointer to resume at.
    ///
    /// Fails closed with [`ContextError::StackTooSmall`], writing nothing,
    /// when the stack is shorter than the frame plus 16 bytes of alignment
    /// slack or the aligned frame would start below the stack.
    pub fn new(stack: &mut [u8], stack_base: u64, entry: TaskEntry) -> (r: Result<
        Context,
        ContextError,
    >)
        requires
            stack_base + old(stack)@.len() <= u64::MAX,
        ensures
            stack_too_small(stack_base, old(stack)@.len() as usize) ==> r == Err::<
                Context,
                ContextError,
            >(ContextError::StackTooSmall) && final(stack)@ == old(stack)@,
            !stack_too_small(stack_base, old(stack)@.len() as usize) ==> ({
                let offset: int = frame_start(stack_base, old(stack)@.len() as usize) - stack_base;
                &&& r matches Ok(c) && c.rsp() == frame_start(
                    stack_base,
                    old(stack)@.len() as usize,
                )
                &&& final(stack)@.len() == old(stack)@.len()
                &&& 0 <= offset
                &&& offset + FRAME_BYTES <= old(stack)@.len()
                &&& forall|i: int|
                    0 <= i < old(stack)@.len() ==> #[trigger] final(stack)@[i] == if offset <= i
                        < offset + FRAME_BYTES {
                        frame_byte(i - offset, entry)
                    } else {
                        old(stack)@[i]
                    }
            }),
    {
        let len: usize = stack.len();
        if len < FRAME_BYTES + 16 {
            return Err(ContextError::StackTooSmall);
        }
        let top: u64 = stack_base + len as u64;
        let aligned: u64 = top & !0xfu64;
        assert(top >= 80 ==> (top & !0xfu64) >= 80 && (top & !0xfu64) <= top && top - (top
            & !0xfu64) < 16) by (bit_vector);
        let frame_base: u64 = aligned - FRAME_BYTES as u64 - 8;
        if frame_base < stack_base {
            return Err(ContextError::StackTooSmall);
        }
        assert(aligned <= top);
        assert(frame_base + 72 == aligned);
        assert(frame_base - stack_base + 72 <= len);
        let offset: usize = (frame_base - stack_base) as usize;
        assert(offset + FRAME_BYTES <= len);
        let ghost before = stack@;
        let mut j: usize = 0;
        while j < FRAME_BYTES
            invariant
                j <= FRAME_BYTES,
                offset + FRAME_BYTES <= stack@.len(),
                stack@.len() == before.len(),
                forall|i: int|
                    0 <= i < before.len() ==> #[trigger] stack@[i] == if offset <= i < offset + j {
                        frame_byte(i - offset, entry)
                    } else {
                        before[i]
                    },
            decreases FRAME_BYTES - j,
        {
            let word: u64 = if j < 8 {
                INITIAL_RFLAGS
            } else if j >= 56 {
                entry.0 as u64
            } else {
                0
            };
            let shift: u64 = (8 * (j % 8)) as u64;
            let byte: u8 = (#[verifier::truncate] (((word >> shift) & 0xffu64) as u8));
            assert(word == frame_word(j as int / 8, entry));
            assert(byte == frame_byte(j as int, entry));
            let n: usize = stack.len();
            assert(offset + j < n);
            stack[offset + j] = byte;
            j = j + 1;
        }
        Ok(Context { rsp: frame_base })
    }
}

} // verus!
