//! Two populations of agents whose position is their physiological state:
//! each tick they drift under a shared environment, die beyond a tolerance
//! radius, reproduce with mutation when a shared clock fires, and are cut back
//! to a population cap, oldest first.

pub mod agent;
pub mod clock;
pub mod population;
pub mod simulation;
