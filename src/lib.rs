//! The core of an interactive model viewer: dimension-generic linear algebra,
//! axis-aligned bounding boxes, and the state machine that gathers key input
//! and decides, once per tick, how the camera moves and which shape is shown.
//!
//! Scalars are exact `i64` integers, so every law of the algebra holds
//! exactly. An operation that could overflow states in its `requires` that
//! every intermediate value it computes fits in an `i64`.

pub mod linalg;
pub mod matrix;
pub mod det;
pub mod bounds;
pub mod controls;
