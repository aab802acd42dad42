use pi_gpio::function::Function;
use pi_gpio::registers::{Bank, Registers, BLOCK_WORDS};

const BANKS: [(Bank, usize, usize); 13] = [
    (Bank::FunctionSelect, 0, 6),
    (Bank::OutputSet, 7, 2),
    (Bank::OutputClear, 10, 2),
    (Bank::PinLevel, 13, 2),
    (Bank::EventStatus, 16, 2),
    (Bank::RisingEdgeEnable, 19, 2),
    (Bank::FallingEdgeEnable, 22, 2),
    (Bank::HighLevelEnable, 25, 2),
    (Bank::LowLevelEnable, 28, 2),
    (Bank::AsyncRisingEnable, 31, 2),
    (Bank::AsyncFallingEnable, 34, 2),
    (Bank::PullControl, 37, 1),
    (Bank::PullClock, 38, 2),
];

#[test]
fn function_codes() {
    assert_eq!(Function::Input.code(), 0b000);
    assert_eq!(Function::Output.code(), 0b001);
    assert_eq!(Function::Alt0.code(), 0b100);
    assert_eq!(Function::Alt1.code(), 0b101);
    assert_eq!(Function::Alt2.code(), 0b110);
    assert_eq!(Function::Alt3.code(), 0b111);
    assert_eq!(Function::Alt4.code(), 0b011);
    assert_eq!(Function::Alt5.code(), 0b010);
}

#[test]
fn function_codes_are_the_eight_three_bit_values() {
    let mut codes = vec![
        Function::Input.code(),
        Function::Output.code(),
        Function::Alt0.code(),
        Function::Alt1.code(),
        Function::Alt2.code(),
        Function::Alt3.code(),
        Function::Alt4.code(),
        Function::Alt5.code(),
    ];
    codes.sort();
    assert_eq!(codes, vec![0, 1, 2, 3, 4, 5, 6, 7]);
}

#[test]
fn bank_offsets_and_sizes() {
    assert_eq!(BLOCK_WORDS, 40);
    for (bank, base, words) in BANKS {
        assert_eq!(bank.base(), base);
        assert_eq!(bank.words(), words);
    }
}

#[test]
fn banks_follow_each_other_with_one_reserved_word_between() {
    for pair in BANKS.windows(2) {
        let (first, second) = (pair[0].0, pair[1].0);
        let gap = second.base() - (first.base() + first.words());
        if first == Bank::PullControl {
            assert_eq!(gap, 0);
        } else {
            assert_eq!(gap, 1);
        }
    }
    let last = BANKS[12].0;
    assert_eq!(last.base() + last.words(), BLOCK_WORDS);
}

#[test]
fn byte_offsets_of_the_banks_in_use() {
    assert_eq!(4 * Bank::FunctionSelect.base(), 0x00);
    assert_eq!(4 * Bank::OutputSet.base(), 0x1c);
    assert_eq!(4 * Bank::OutputClear.base(), 0x28);
    assert_eq!(4 * Bank::PinLevel.base(), 0x34);
    assert_eq!(4 * Bank::PullControl.base(), 0x94);
    assert_eq!(4 * Bank::PullClock.base(), 0x98);
}

#[test]
fn new_image_is_all_zero() {
    let image = Registers::new();
    assert_eq!(image.words, [0u32; 40]);
    for (bank, _, words) in BANKS {
        for index in 0..words {
            assert_eq!(image.read(bank, index), 0);
        }
    }
}

#[test]
fn write_changes_one_word_and_read_returns_it() {
    let mut value: u32 = 1;
    for (bank, base, words) in BANKS {
        for index in 0..words {
            let mut image = Registers::new();
            value = value.wrapping_mul(0x9e37_79b9).wrapping_add(7);
            image.write(bank, index, value);
            assert_eq!(image.read(bank, index), value);
            let mut expected = [0u32; 40];
            expected[base + index] = value;
            assert_eq!(image.words, expected);
        }
    }
}

#[test]
fn registers_of_different_banks_do_not_overlap() {
    let mut image = Registers::new();
    let mut count: u32 = 0;
    for (bank, _, words) in BANKS {
        for index in 0..words {
            count += 1;
            image.write(bank, index, count);
        }
    }
    assert_eq!(count, 29);
    let mut seen: u32 = 0;
    for (bank, _, words) in BANKS {
        for index in 0..words {
            seen += 1;
            assert_eq!(image.read(bank, index), seen);
        }
    }
    let reserved: Vec<usize> = (0..BLOCK_WORDS).filter(|&offset| image.words[offset] == 0).collect();
    assert_eq!(reserved, vec![6, 9, 12, 15, 18, 21, 24, 27, 30, 33, 36]);
}
