//! The two drives of a simulation: settling an assembly that was generated
//! with overlaps, and cycling it through time.
pub mod settle;
pub mod cycle;
pub mod materials;
pub mod commands;
