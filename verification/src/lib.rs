//! A tape machine for an eight-symbol language, with a stepping controller
//! that pauses it at breakpoints.

pub mod brackets;
pub mod breakpoint;
pub mod interpreter;
pub mod memdump;
pub mod modular;
pub mod reload;
pub mod run;
pub mod state;
pub mod tape;
