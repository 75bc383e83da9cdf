//! A codec between the binary cutscene bytecode of a visual-novel engine and a
//! line-oriented text form, `Name(arg, arg, ...)`.
//!
//! Every instruction on the wire is the marker byte, one code byte and the
//! argument bytes. The modules, leaves first:
//!
//! - [`find`]: the first place where a value stands in a sequence;
//! - [`chars`]: whitespace, decimal numerals and splitting on sequences of characters;
//! - [`table`]: the opcode table (names, codes and argument counts);
//! - [`opcode`]: the instruction as name and wire bytes, its text parser and formatter;
//! - [`decode`]: the binary decoder;
//! - [`op`]: the instruction as a typed variant with fixed argument fields;
//! - [`script`]: whole scripts, text to bytes and bytes to text;
//! - [`trusted`]: the calls into `byteorder` and `hex`, whose contracts are not proved.
pub mod chars;
pub mod decode;
pub mod find;
pub mod op;
pub mod opcode;
pub mod script;
pub mod table;
pub mod trusted;
