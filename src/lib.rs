//! Control logic of a height-field ray marcher and the pixel logic of
//! striped flag pictures.
//!
//! A march's step length is held exactly, as the mantissa and binary shift of
//! the single-precision value it stands for, so that the choice between
//! refining a crossing and reporting it is decided and proved on integers.
pub mod color;
pub mod flags;
pub mod march;
pub mod step;

pub use color::Color;
pub use flags::{flag_triptych, stripe, trans_flag};
pub use march::{MarchControl, MarchStep};
pub use step::StepSize;
