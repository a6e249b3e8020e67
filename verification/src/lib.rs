//! A discrete-element engine for assemblies of spheres, on exact fixed-point numbers.
//!
//! Every physical quantity is an `i64` count of millionths (see [`fixed::SCALE`]).
//! A step whose result leaves the `i64` range reports it and leaves the state as
//! it was; nothing wraps around and nothing is rounded silently beyond the
//! documented rounding toward zero.
pub mod fixed;
pub mod vector;
pub mod domain;
pub mod sphere;
pub mod grid;
pub mod contact;
pub mod forces;
pub mod relaxation;
pub mod boundary;
pub mod rigid_body;
pub mod laws;
pub mod integrate;
pub mod dynamics;
pub mod calculations;
pub mod simulation;
pub mod inertia;
pub mod jacobi;
pub mod rotation;
pub mod bond;
pub mod friction;
