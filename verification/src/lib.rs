//! Skeletal animation core for a skinned-mesh renderer.
//!
//! The crate models joint hierarchies, keyframe animation tracks and the
//! per-frame pose evaluation that turns elapsed time into one skinning
//! matrix per joint, together with the command-queue scaffolding (invoker,
//! camera, world state machine) that drives it.  All scalar quantities are
//! signed 48.16 fixed-point values so that every computation has an exact
//! integer meaning that the contracts can state in full.

pub mod camera;
pub mod fixed;
pub mod gameobject;
pub mod invoker;
pub mod joint;
pub mod mat4;
pub mod mesh;
pub mod vec3;
pub mod world;
