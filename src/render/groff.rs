//! Back ends for the groff typesetter: the mom macros and two man page dialects.


pub mod man;
pub mod mandoc;
pub mod mom;
