//! The systems: keyboard control and movement.

pub mod control;
pub mod movement;

pub use control::ControlSystem;
pub use control::Keycode;
pub use control::FORCE;
pub use control::SPEED;
pub use movement::Force;
pub use movement::Mode;
pub use movement::MoveSystem;
pub use movement::Pose;
pub use movement::GAIN;
