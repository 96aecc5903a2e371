//! A 2D smoothed-particle-hydrodynamics (SPH) kernel over fixed-point
//! arithmetic: particles carry position, velocity, density and pressure;
//! each step discovers interacting pairs within a finite radius, accumulates
//! density and antisymmetric pressure/viscosity forces, and integrates the
//! result with soft boundary containment.

pub mod fixed;
pub mod config;
pub mod particle;
pub mod neighbor;
pub mod solver;
pub mod grid;
pub mod engine;
pub mod laws;
