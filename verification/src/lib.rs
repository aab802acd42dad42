//! A driver for the GPIO controller of a single-board computer: the register
//! map, the function-select encoding, and pin handles whose type records how
//! the pin was configured.

pub mod function;
pub mod gpio;
pub mod registers;
