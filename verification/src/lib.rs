//! Basin-of-attraction maps for a damped magnetic pendulum.
//!
//! A bob swings over a plane of attractors. From every point of a lattice
//! of starting positions its trajectory is integrated until it settles near
//! an attractor or near the centre, or is given up; the codes of where the
//! trajectories settled are drawn as a picture.
//!
//! The arithmetic of the trajectory (the derivative model and the sums of
//! the embedded Runge-Kutta step) is done in double precision by the
//! caller. This library owns what is decided around it: the coefficient
//! tableau of the integrator as rational numbers ([`tableau`]), whether a
//! step is accepted and how far its size may change ([`control`]), where a
//! trajectory has settled ([`classifier`], [`replay`]), the lattice of
//! starting points ([`grid`]), and the picture ([`palette`], [`canvas`]).
//!
//! Doubles cross the boundary as their IEEE-754 bit patterns (`u64`). The
//! library compares them, which can be done on the bits ([`double`]), and
//! never computes with them.

pub mod canvas;
pub mod classifier;
pub mod control;
pub mod double;
pub mod grid;
pub mod palette;
pub mod replay;
pub mod tableau;
