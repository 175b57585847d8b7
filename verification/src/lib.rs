//! Geometric primitives that rasterise themselves onto a pixel surface.
//!
//! Each shape is built from fixed parameters or from random ones, and draws
//! itself onto a `raster::Image`. What a shape draws is stated as a sequence
//! of pixel writes that depends on the shape alone ([`Drawable::plots`]);
//! drawing paints that sequence onto the image ([`surface::Canvas::paint`]).
//! Writes that fall outside the image are ignored, so every shape can be
//! drawn wherever it lies.
//!
//! Points, lines, rectangles, triangles, circles and cubes draw themselves.
//! A pentagon is drawn from five corners that its caller works out.

pub mod circle;
pub mod color;
pub mod cubes;
pub mod drawable;
pub mod line;
pub mod outline;
pub mod pentagon;
pub mod point;
pub mod random;
pub mod rectangle;
pub mod segment;
pub mod surface;
pub mod triangle;

pub use circle::Circle;
pub use color::Color;
pub use cubes::Cubes;
pub use drawable::Drawable;
pub use line::Line;
pub use pentagon::Pentagon;
pub use point::Point;
pub use rectangle::Rectangle;
pub use surface::Displayable;
pub use triangle::Triangle;
