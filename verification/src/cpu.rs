//! The processor core: instruction set, decoder and step driver.
pub mod arch;
pub mod decoder;
pub mod machine;
pub mod scalar;
