//! The integer side of damped-Newton implicit Runge-Kutta stepping: the
//! shape check of a Butcher tableau, the layout of the stacked stage vector
//! and the block (Kronecker) assembly over it, and the decisions of the plain
//! and damped Newton loops (iteration budget, damping schedule and floor).

pub mod blocks;
pub mod damping;
pub mod iteration;
pub mod layout;
pub mod tableau;
