pub mod text;
pub mod symbols;
pub mod escape;
pub mod styles;
pub mod layout;
pub mod xml;
pub mod assoc;
pub mod tables;
pub mod convert;
pub mod cli;
pub mod invariants;
