//! A scanner for house rules that a compiler does not enforce: functions that
//! must carry a marker attribute, and risk-bearing statements that must have
//! an explanatory comment somewhere before them.
//!
//! The library loads source files, applies the enabled rules to them and
//! reports the places where a rule is not met. Finding the files, reading
//! them and printing the report is left to the caller.
//!
//! The functions of the library are verified against the contracts they
//! state. The exception is the small set of calls into the parser, which are
//! taken on trust and kept together in [`parser`].

pub mod config;
pub mod engine;
pub mod gather;
pub mod load;
pub mod parser;
pub mod position;
pub mod rules;
pub mod syntax;
pub mod text;
pub mod violation;
