//! A small register machine that runs assembly text: sixteen registers, 256
//! memory cells, a comparison flag and labelled branches.
//!
//! `text` splits program text into lines, words and numbers; `instr` turns one
//! line into an instruction; `labels` maps label names to line numbers;
//! `machine` holds the state and applies one instruction to it; `interpreter`
//! ties them into the fetch, decode, execute cycle; `laws` states what holds of
//! every instruction.
pub mod ascii;
pub mod instr;
pub mod interpreter;
pub mod labels;
pub mod laws;
pub mod machine;
pub mod text;
