//! Declarations of the types and calls the library uses from `im`,
//! `smallvec` and parts of `std` that `vstd` leaves unspecified.
pub mod im_lines;
pub mod std_items;
pub mod small_vec;
