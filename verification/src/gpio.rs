//! Pin handles. A handle stands for one pin and carries, in its type, how the
//! pin was configured: a fresh handle can only be configured, an output can
//! only be driven, an input can only be sampled.
//!
//! Every operation works on an image of the register block, and its contract
//! says which word of the image it reads or changes. At most one handle should
//! be live for a pin at any time; handles of different pins may share a word,
//! and an operation on one never disturbs the bits of another.

use core::marker::PhantomData;
use vstd::prelude::*;
use crate::function::Function;
use crate::registers::{Bank, Registers, BLOCK_WORDS};

verus! {

/// The highest pin number of the controller.
pub const MAX_PIN: u8 = 53;

/// The function-select word that governs `pin`.
pub open spec fn select_word(pin: u8) -> int {
    pin as int / 10
}

/// The position of `pin` among the ten pins of its function-select word.
pub open spec fn select_position(pin: u8) -> int {
    pin - 10 * select_word(pin)
}

/// The bit offset of the three-bit field of `pin` in its function-select word.
pub open spec fn select_shift(pin: u8) -> u32 {
    (3 * select_position(pin)) as u32
}

/// The three-bit field of `pin`, read from its function-select word.
pub open spec fn select_field(word: u32, pin: u8) -> u32 {
    (word >> select_shift(pin)) & 7
}

/// The code of `function`, moved to the field of `pin`.
pub open spec fn select_payload(pin: u8, function: Function) -> u32 {
    function.code_spec() << select_shift(pin)
}

/// The word that governs `pin` in the set, clear and level banks.
pub open spec fn level_word(pin: u8) -> int {
    pin as int / 32
}

/// The bit of `pin` in its set, clear or level word.
pub open spec fn level_bit(pin: u8) -> u32 {
    (pin - 32 * level_word(pin)) as u32
}

/// The word in which only the bit of `pin` is one.
pub open spec fn level_mask(pin: u8) -> u32 {
    1u32 << level_bit(pin)
}

/// Whether bit `bit` of `word` is one.
pub open spec fn bit_is_set(word: u32, bit: u32) -> bool {
    (word >> bit) & 1 == 1
}

/// The function-select field of `pin` in `image`.
pub open spec fn selected(image: Seq<u32>, pin: u8) -> u32 {
    select_field(image[Bank::FunctionSelect.base_spec() + select_word(pin)], pin)
}

/// The image after `function` was selected for `pin`: the code is combined,
/// by bitwise or, into the pin's function-select word; every other word stays.
pub open spec fn with_function(image: Seq<u32>, pin: u8, function: Function) -> Seq<u32> {
    let offset = Bank::FunctionSelect.base_spec() + select_word(pin);
    image.update(offset, image[offset] | select_payload(pin, function))
}

/// The image after a word with only the bit of `pin` was written to `bank`.
pub open spec fn with_pin_written(image: Seq<u32>, bank: Bank, pin: u8) -> Seq<u32> {
    image.update(bank.base_spec() + level_word(pin), level_mask(pin))
}

/// Whether `image` shows `pin` at the high level.
pub open spec fn is_high(image: Seq<u32>, pin: u8) -> bool {
    bit_is_set(image[Bank::PinLevel.base_spec() + level_word(pin)], level_bit(pin))
}

proof fn lemma_or_into_field(word: u32, code: u32, shift: u32)
    by (bit_vector)
    requires
        code < 8,
        shift < 30,
    ensures
        ((word | (code << shift)) >> shift) & 7 == ((word >> shift) & 7) | code,
        (word | (code << shift)) & !(7u32 << shift) == word & !(7u32 << shift),
{
}

proof fn lemma_or_spares_field(word: u32, code: u32, shift: u32, other: u32)
    by (bit_vector)
    requires
        code < 8,
        shift < 30,
        other < 30,
        shift % 3 == 0,
        other % 3 == 0,
        shift != other,
    ensures
        ((word | (code << shift)) >> other) & 7 == (word >> other) & 7,
{
}

proof fn lemma_single_bit(bit: u32, other: u32)
    by (bit_vector)
    requires
        bit < 32,
        other < 32,
    ensures
        (((1u32 << bit) >> other) & 1 == 1) <==> other == bit,
{
}

proof fn lemma_mask_tests_bit(word: u32, bit: u32)
    by (bit_vector)
    requires
        bit < 32,
    ensures
        (word & (1u32 << bit) != 0) <==> ((word >> bit) & 1 == 1),
{
}

/// Selecting a function for a pin combines the function's code into the pin's
/// field by bitwise or, so a field that was clear then holds exactly the code;
/// the bits of the word outside the field stay as they were.
pub proof fn lemma_select_sets_field(image: Seq<u32>, pin: u8, function: Function)
    requires
        image.len() == BLOCK_WORDS,
        pin <= MAX_PIN,
    ensures
        selected(with_function(image, pin, function), pin) == selected(image, pin)
            | function.code_spec(),
        selected(image, pin) == 0 ==> selected(with_function(image, pin, function), pin)
            == function.code_spec(),
        ({
            let offset = Bank::FunctionSelect.base_spec() + select_word(pin);
            let outside = !(7u32 << select_shift(pin));
            with_function(image, pin, function)[offset] & outside == image[offset] & outside
        }),
{
    let word = image[Bank::FunctionSelect.base_spec() + select_word(pin)];
    let code = function.code_spec();
    lemma_or_into_field(word, code, select_shift(pin));
    assert(0u32 | code == code) by (bit_vector);
}

/// Selecting a function for a pin leaves the field of every other pin as it
/// was, whether or not the two pins share a function-select word.
pub proof fn lemma_select_spares_others(image: Seq<u32>, pin: u8, function: Function, other: u8)
    requires
        image.len() == BLOCK_WORDS,
        pin <= MAX_PIN,
        other <= MAX_PIN,
        other != pin,
    ensures
        selected(with_function(image, pin, function), other) == selected(image, other),
{
    if select_word(other) == select_word(pin) {
        lemma_or_spares_field(
            image[Bank::FunctionSelect.base_spec() + select_word(pin)],
            function.code_spec(),
            select_shift(pin),
            select_shift(other),
        );
    }
}

/// The word written for a pin to the set or clear bank has exactly one bit
/// that is one: the bit of the pin.
pub proof fn lemma_mask_has_one_bit(pin: u8, bit: u32)
    requires
        pin <= MAX_PIN,
        bit < 32,
    ensures
        bit_is_set(level_mask(pin), bit) <==> bit == level_bit(pin),
{
    lemma_single_bit(level_bit(pin), bit);
}

// The four states are markers: they only ever appear as the parameter of
// `Gpio`. Their one field is private, so no value of them is made anywhere.

/// The state of a pin that has not been configured yet.
pub struct Uninitialized {
    _marker: (),
}

/// The state of a pin configured as an input.
pub struct Input {
    _marker: (),
}

/// The state of a pin configured as an output.
pub struct Output {
    _marker: (),
}

/// The state of a pin handed to one of its alternate functions.
pub struct Alt {
    _marker: (),
}

/// A pin in state `State`.
///
/// A handle starts as `Uninitialized` and is turned, once, into an `Input`,
/// `Output` or `Alt` handle by `into_input`, `into_output` or `into_alt`.
pub struct Gpio<State> {
    pin: u8,
    _state: PhantomData<State>,
}

impl<T> Gpio<T> {
    #[verifier::type_invariant]
    spec fn in_range(self) -> bool {
        self.pin <= MAX_PIN
    }

    /// The number of the pin that this handle stands for.
    pub closed spec fn pin_spec(self) -> u8 {
        self.pin
    }

    /// The number of the pin that this handle stands for.
    pub fn pin(&self) -> (pin: u8)
        ensures
            pin == self.pin_spec(),
            pin <= MAX_PIN,
    {
        proof {
            use_type_invariant(self);
        }
        self.pin
    }

    /// The function-select word that governs this pin.
    pub fn select_word(&self) -> (index: usize)
        ensures
            index == select_word(self.pin_spec()),
            index < Bank::FunctionSelect.words_spec(),
    {
        (self.pin() / 10) as usize
    }

    /// The bit offset of this pin's field in its function-select word.
    pub fn select_shift(&self) -> (shift: u32)
        ensures
            shift == select_shift(self.pin_spec()),
            shift < 30,
            shift % 3 == 0,
    {
        let pin = self.pin();
        3 * (pin - 10 * (pin / 10)) as u32
    }

    /// The word that governs this pin in the set, clear and level banks.
    pub fn level_word(&self) -> (index: usize)
        ensures
            index == level_word(self.pin_spec()),
            index < 2,
    {
        (self.pin() / 32) as usize
    }

    /// The bit of this pin in its set, clear or level word.
    pub fn level_bit(&self) -> (bit: u32)
        ensures
            bit == level_bit(self.pin_spec()),
            bit < 32,
    {
        let pin = self.pin();
        (pin - 32 * (pin / 32)) as u32
    }

    /// The same pin in state `S`.
    fn transition<S>(self) -> (next: Gpio<S>)
        ensures
            next.pin_spec() == self.pin_spec(),
    {
        proof {
            use_type_invariant(&self);
        }
        Gpio { pin: self.pin, _state: PhantomData }
    }
}

impl Gpio<Uninitialized> {
    /// A handle for pin number `pin`, not yet configured.
    pub fn new(pin: u8) -> (gpio: Gpio<Uninitialized>)
        requires
            pin <= MAX_PIN,
        ensures
            gpio.pin_spec() == pin,
    {
        Gpio { pin, _state: PhantomData }
    }

    /// Selects `function` for this pin and returns the pin as an `Alt` handle.
    ///
    /// The code of `function` is combined into the pin's field by bitwise or:
    /// the field is not cleared first, so the pin ends up with `function` only
    /// if its field was clear, as it is after reset.
    pub fn into_alt(self, function: Function, registers: &mut Registers) -> (alt: Gpio<Alt>)
        ensures
            alt.pin_spec() == self.pin_spec(),
            final(registers)@ == with_function(old(registers)@, self.pin_spec(), function),
            selected(final(registers)@, self.pin_spec()) == selected(
                old(registers)@,
                self.pin_spec(),
            ) | function.code_spec(),
            selected(old(registers)@, self.pin_spec()) == 0 ==> selected(
                final(registers)@,
                self.pin_spec(),
            ) == function.code_spec(),
            ({
                let index = select_word(self.pin_spec());
                let outside = !(7u32 << select_shift(self.pin_spec()));
                final(registers).word(Bank::FunctionSelect, index) & outside == old(
                    registers,
                ).word(Bank::FunctionSelect, index) & outside
            }),
            forall|other: u8|
                other <= MAX_PIN && other != self.pin_spec() ==> selected(
                    final(registers)@,
                    other,
                ) == #[trigger] selected(old(registers)@, other),
    {
        let index = self.select_word();
        let payload = function.code() << self.select_shift();
        let word = registers.read(Bank::FunctionSelect, index);
        registers.write(Bank::FunctionSelect, index, word | payload);
        proof {
            let pin = self.pin_spec();
            use_type_invariant(&self);
            lemma_select_sets_field(old(registers)@, pin, function);
            assert forall|other: u8| other <= MAX_PIN && other != pin implies selected(
                final(registers)@,
                other,
            ) == #[trigger] selected(old(registers)@, other) by {
                lemma_select_spares_others(old(registers)@, pin, function, other);
            }
        }
        self.transition()
    }

    /// Makes this pin an output and returns it as an `Output` handle.
    /// The registers change as they do for `into_alt` with `Function::Output`.
    pub fn into_output(self, registers: &mut Registers) -> (output: Gpio<Output>)
        ensures
            output.pin_spec() == self.pin_spec(),
            final(registers)@ == with_function(old(registers)@, self.pin_spec(), Function::Output),
    {
        self.into_alt(Function::Output, registers).transition()
    }

    /// Makes this pin an input and returns it as an `Input` handle.
    /// The registers change as they do for `into_alt` with `Function::Input`.
    pub fn into_input(self, registers: &mut Registers) -> (input: Gpio<Input>)
        ensures
            input.pin_spec() == self.pin_spec(),
            final(registers)@ == with_function(old(registers)@, self.pin_spec(), Function::Input),
    {
        self.into_alt(Function::Input, registers).transition()
    }
}

impl Gpio<Output> {
    /// Drives the pin high: writes a word with only the pin's bit to the pin's
    /// word of the set bank. Nothing else in the image changes.
    pub fn set(&mut self, registers: &mut Registers)
        ensures
            *final(self) == *old(self),
            final(registers)@ == with_pin_written(
                old(registers)@,
                Bank::OutputSet,
                old(self).pin_spec(),
            ),
            forall|bit: u32|
                bit < 32 ==> (#[trigger] bit_is_set(
                    final(registers).word(Bank::OutputSet, level_word(old(self).pin_spec())),
                    bit,
                ) <==> bit == level_bit(old(self).pin_spec())),
    {
        let index = self.level_word();
        let payload: u32 = 1;
        registers.write(Bank::OutputSet, index, payload << self.level_bit());
        proof {
            let pin = self.pin_spec();
            use_type_invariant(&*self);
            assert forall|bit: u32| bit < 32 implies (#[trigger] bit_is_set(level_mask(pin), bit)
                <==> bit == level_bit(pin)) by {
                lemma_mask_has_one_bit(pin, bit);
            }
        }
    }

    /// Drives the pin low: writes a word with only the pin's bit to the pin's
    /// word of the clear bank. Nothing else in the image changes.
    pub fn clear(&mut self, registers: &mut Registers)
        ensures
            *final(self) == *old(self),
            final(registers)@ == with_pin_written(
                old(registers)@,
                Bank::OutputClear,
                old(self).pin_spec(),
            ),
            forall|bit: u32|
                bit < 32 ==> (#[trigger] bit_is_set(
                    final(registers).word(Bank::OutputClear, level_word(old(self).pin_spec())),
                    bit,
                ) <==> bit == level_bit(old(self).pin_spec())),
    {
        let index = self.level_word();
        let payload: u32 = 1;
        registers.write(Bank::OutputClear, index, payload << self.level_bit());
        proof {
            let pin = self.pin_spec();
            use_type_invariant(&*self);
            assert forall|bit: u32| bit < 32 implies (#[trigger] bit_is_set(level_mask(pin), bit)
                <==> bit == level_bit(pin)) by {
                lemma_mask_has_one_bit(pin, bit);
            }
        }
    }
}

impl Gpio<Input> {
    /// Whether the pin's bit in the level bank is one, that is, whether the
    /// level of the pin is high. The image is only read.
    pub fn level(&mut self, registers: &Registers) -> (high: bool)
        ensures
            *final(self) == *old(self),
            high == is_high(registers@, old(self).pin_spec()),
            high == (registers.word(Bank::PinLevel, level_word(old(self).pin_spec())) & level_mask(
                old(self).pin_spec(),
            ) != 0),
    {
        let index = self.level_word();
        let payload: u32 = 1;
        let mask = payload << self.level_bit();
        let value = registers.read(Bank::PinLevel, index);
        proof {
            lemma_mask_tests_bit(value, level_bit(self.pin_spec()));
        }
        value & mask != 0
    }
}

} // verus!
