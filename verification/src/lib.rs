//! Reconstructs a ledger's account state as a genesis allocation document.
//!
//! The library holds the rules of the dump: the two hexadecimal encodings, the
//! treatment of bytecode references and storage groups, the policy for empty
//! accounts, the framing of the output document, and the splicing of an
//! allocation into a base genesis document. Reading the store and writing
//! files is left to the program around it.

pub mod account;
pub mod hex_codec;
pub mod merge;
pub mod paths;
pub mod walker;
pub mod writer;
