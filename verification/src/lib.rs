//! Signed distance fields, their composition, and the decisions of sphere
//! tracing.
//!
//! A scene is a tree of nodes, each of which answers one question: how far is
//! this point from my surface, and on which side of it? Primitives answer
//! from a formula, booleans from the answers of two children, a transform by
//! asking its child elsewhere, and a scene by asking all of its elements.
//!
//! A distance is a single-precision number, and this library never computes
//! with one. It carries a distance as its bit pattern and decides what can be
//! decided from the pattern: comparisons, minima and maxima, negation. That is
//! all that booleans, scenes and the marching of a ray need. Whatever takes
//! arithmetic on distances or coordinates is the caller's: the primitives, the
//! smooth booleans, rounding and scaling, and moving a position along a ray.
//! Positions and transforms are glam's, and glam computes what is computed on
//! them.
//!
//! - [`scalar`]: single-precision numbers read from their bits.
//! - [`calc`]: [`SdfCalc`], the result of one evaluation.
//! - [`space`]: glam's positions and transforms, and what is assumed of them.
//! - [`field`]: [`Sdf`], the trait of every node.
//! - [`sdf_boolean`]: union, subtraction and intersection.
//! - [`sdf_scene`]: a list of nodes reduced to the nearest.
//! - [`sdf_transform`]: a node placed by a rigid transform.
//! - [`march`]: the state machine that marches a ray.

pub mod calc;
pub mod field;
pub mod march;
pub mod scalar;
pub mod sdf_boolean;
pub mod sdf_scene;
pub mod sdf_transform;
pub mod space;

pub use calc::SdfCalc;
pub use field::Sdf;
pub use march::{MarchConfig, RayState, Verdict};
pub use sdf_boolean::{SdfIntersection, SdfSubtraction, SdfUnion};
pub use sdf_scene::SdfScene;
pub use sdf_transform::SdfTransform;
