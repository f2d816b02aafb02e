pub mod arena;
pub mod math;
pub mod pad;
pub mod video;
pub mod collision;
pub mod pipeline;
pub mod decimal;
