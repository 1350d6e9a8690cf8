// Frame generators for an 8 x 8 pixel grid, the rule that picks the visible
// one from the orientation of the device, and the controller that keeps them
// in step.
pub mod animations;
pub mod controller;
pub mod selector;
