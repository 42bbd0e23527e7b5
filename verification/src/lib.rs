//! A chaos-game renderer for the Sierpinski triangle: a canvas of RGB
//! pixels, a hex color resolver, an initializer that grays and darkens an
//! optional seed image, and the random midpoint walk that plots the fractal.
//! Every plotted pixel is proved to lie within the bounding box of the three
//! triangle vertices.

pub mod canvas;
pub mod color;
pub mod plot;

pub use canvas::Canvas;
pub use canvas::Rgb;
pub use canvas::init_canvas;
pub use color::ColorNote;
pub use color::ColorSource;
pub use color::get_color;
pub use plot::Point;
pub use plot::generate;
pub use plot::initial_cursor;
pub use plot::plot;
pub use plot::plot_corners;
pub use plot::plot_dots;
pub use plot::vertices;
