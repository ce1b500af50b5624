pub mod aiming;
pub mod facing;
