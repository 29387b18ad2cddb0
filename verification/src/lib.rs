//! Core of a directory image viewer: an ordered, cyclic gallery of image
//! paths with a movable cursor, and an exact zoom/pan engine mapping
//! discrete zoom steps to display size, anchor-preserving pan deltas, and
//! window-title text. All window, widget and decoding work stays with the
//! host, which feeds the core plain values (paths, pixel sizes, pointer
//! positions) and carries out the requests it returns.

pub mod gallery;
pub mod paths;
pub mod title;
pub mod scan;
pub mod viewer;
pub mod zoom;
