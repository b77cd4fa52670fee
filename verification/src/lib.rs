//! The verified core of the Boat scene.
//!
//! The platform hands the library plain values (handles, byte lengths, error
//! codes, HID usages, pointer coordinates) and performs the actions it asks
//! for.  Floating-point components cross this boundary as their IEEE-754 bit
//! patterns: the library stores, orders, serialises and compares them, and
//! never computes with them.
//!
//! A model is read in [`document`], [`attribute`] and [`source`], and becomes an
//! asset in [`seam`], [`mesh`] and [`model`].
//! Assets go through the database in [`database`] and come up on the device in
//! [`opening`].  A frame is serviced in [`frame`], submitted in [`probe`] and
//! put together in [`render`]; [`run`] is the program around all of it.
pub mod bits;
pub mod error;
pub mod asset;
pub mod material;
pub mod source;
pub mod seam;
pub mod mesh;
pub mod model;
pub mod document;
pub mod attribute;
pub mod database;
pub mod geometry;
pub mod camera;
pub mod interaction;
pub mod frame;
pub mod probe;
pub mod render;
pub mod opening;
pub mod run;
pub mod ring;
