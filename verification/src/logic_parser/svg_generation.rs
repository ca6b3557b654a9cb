//! Laying a syntax tree out for drawing.

pub mod render;
