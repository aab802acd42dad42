//! The register map of the controller and an image of its register block.
//!
//! The block is forty 32-bit words. Each bank of registers starts at a fixed
//! word offset from the block's base; a single reserved word separates most
//! banks from the next. An image holds one plain word per register, so that
//! the effect of every pin operation can be stated as a change of the image.

use vstd::prelude::*;

verus! {

/// The number of 32-bit words in the register block.
pub const BLOCK_WORDS: usize = 40;

/// A bank of registers. All but the pull control hold one bit per pin
/// (or, for function select, three bits per pin).
#[derive(Clone, Copy, Debug, PartialEq, Eq, Structural)]
pub enum Bank {
    /// Three bits per pin, ten pins per word: the pin's function.
    FunctionSelect,
    /// Writing a one drives the pin high.
    OutputSet,
    /// Writing a one drives the pin low.
    OutputClear,
    /// The pin's current logic level.
    PinLevel,
    EventStatus,
    RisingEdgeEnable,
    FallingEdgeEnable,
    HighLevelEnable,
    LowLevelEnable,
    AsyncRisingEnable,
    AsyncFallingEnable,
    PullControl,
    PullClock,
}

impl Bank {
    /// The word offset of the bank's first register from the block's base.
    pub open spec fn base_spec(self) -> int {
        match self {
            Bank::FunctionSelect => 0,
            Bank::OutputSet => 7,
            Bank::OutputClear => 10,
            Bank::PinLevel => 13,
            Bank::EventStatus => 16,
            Bank::RisingEdgeEnable => 19,
            Bank::FallingEdgeEnable => 22,
            Bank::HighLevelEnable => 25,
            Bank::LowLevelEnable => 28,
            Bank::AsyncRisingEnable => 31,
            Bank::AsyncFallingEnable => 34,
            Bank::PullControl => 37,
            Bank::PullClock => 38,
        }
    }

    /// The number of registers in the bank.
    pub open spec fn words_spec(self) -> int {
        match self {
            Bank::FunctionSelect => 6,
            Bank::PullControl => 1,
            _ => 2,
        }
    }

    /// Whether the word at `offset` is one of the bank's registers.
    pub open spec fn holds(self, offset: int) -> bool {
        self.base_spec() <= offset < self.base_spec() + self.words_spec()
    }

    /// The word offset of the bank's first register from the block's base.
    pub fn base(self) -> (base: usize)
        ensures
            base == self.base_spec(),
    {
        match self {
            Bank::FunctionSelect => 0,
            Bank::OutputSet => 7,
            Bank::OutputClear => 10,
            Bank::PinLevel => 13,
            Bank::EventStatus => 16,
            Bank::RisingEdgeEnable => 19,
            Bank::FallingEdgeEnable => 22,
            Bank::HighLevelEnable => 25,
            Bank::LowLevelEnable => 28,
            Bank::AsyncRisingEnable => 31,
            Bank::AsyncFallingEnable => 34,
            Bank::PullControl => 37,
            Bank::PullClock => 38,
        }
    }

    /// The number of registers in the bank.
    pub fn words(self) -> (words: usize)
        ensures
            words == self.words_spec(),
    {
        match self {
            Bank::FunctionSelect => 6,
            Bank::PullControl => 1,
            _ => 2,
        }
    }
}

/// Whether the word at `offset` is one of the block's reserved words.
pub open spec fn reserved(offset: int) -> bool {
    6 <= offset <= 36 && offset % 3 == 0
}

/// Every register lies inside the block, and no two registers share a word.
pub proof fn lemma_registers_disjoint(a: Bank, i: int, b: Bank, j: int)
    requires
        0 <= i < a.words_spec(),
        0 <= j < b.words_spec(),
    ensures
        0 <= a.base_spec() + i < BLOCK_WORDS,
        a.base_spec() + i == b.base_spec() + j ==> a == b && i == j,
{
}

/// No register lies on a reserved word.
pub proof fn lemma_registers_avoid_reserved(bank: Bank, index: int)
    requires
        0 <= index < bank.words_spec(),
    ensures
        !reserved(bank.base_spec() + index),
{
}

/// Every word of the block is a reserved word or a register of some bank.
pub proof fn lemma_block_covered(offset: int)
    requires
        0 <= offset < BLOCK_WORDS,
    ensures
        reserved(offset) || exists|bank: Bank| bank.holds(offset),
{
    if !reserved(offset) {
        let bank = if offset < 6 {
            Bank::FunctionSelect
        } else if offset < 9 {
            Bank::OutputSet
        } else if offset < 12 {
            Bank::OutputClear
        } else if offset < 15 {
            Bank::PinLevel
        } else if offset < 18 {
            Bank::EventStatus
        } else if offset < 21 {
            Bank::RisingEdgeEnable
        } else if offset < 24 {
            Bank::FallingEdgeEnable
        } else if offset < 27 {
            Bank::HighLevelEnable
        } else if offset < 30 {
            Bank::LowLevelEnable
        } else if offset < 33 {
            Bank::AsyncRisingEnable
        } else if offset < 36 {
            Bank::AsyncFallingEnable
        } else if offset < 38 {
            Bank::PullControl
        } else {
            Bank::PullClock
        };
        assert(bank.holds(offset));
    }
}

/// An image of the register block: one word per register, in the block's
/// own order, reserved words included.
#[derive(Clone, Debug, PartialEq, Eq)]
pub struct Registers {
    pub words: [u32; BLOCK_WORDS],
}

impl View for Registers {
    type V = Seq<u32>;

    open spec fn view(&self) -> Seq<u32> {
        self.words@
    }
}

impl Registers {
    /// The word that the image holds for register `index` of `bank`.
    pub open spec fn word(&self, bank: Bank, index: int) -> u32
        recommends
            0 <= index < bank.words_spec(),
    {
        self@[bank.base_spec() + index]
    }

    /// An image in which every word is zero.
    pub fn new() -> (registers: Registers)
        ensures
            registers@ == Seq::new(BLOCK_WORDS as nat, |offset: int| 0u32),
    {
        let registers = Registers { words: [0u32; BLOCK_WORDS] };
        assert(registers@ =~= Seq::new(BLOCK_WORDS as nat, |offset: int| 0u32));
        registers
    }

    /// Reads register `index` of `bank` from the image.
    pub fn read(&self, bank: Bank, index: usize) -> (word: u32)
        requires
            index < bank.words_spec(),
        ensures
            word == self.word(bank, index as int),
    {
        self.words[bank.base() + index]
    }

    /// Stores `value` as register `index` of `bank`; no other word changes.
    pub fn write(&mut self, bank: Bank, index: usize, value: u32)
        requires
            index < bank.words_spec(),
        ensures
            final(self)@ == old(self)@.update(bank.base_spec() + index, value),
    {
        self.words[bank.base() + index] = value;
    }
}

} // verus!
