pub mod brightness;
pub mod pipeline;
pub mod raster;
pub mod render;
pub mod scale;

pub use raster::Image;
pub use raster::Pixel;
pub use scale::Scale;
pub use scale::ScaleError;
