pub mod app;
pub mod area;
pub mod bitmap;
pub mod cache;
pub mod crop;
pub mod dark;
pub mod encoder;
pub mod goto;
pub mod input;
pub mod layout;
pub mod pdf;
pub mod pool;
pub mod scale;
pub mod status;
pub mod units;
pub mod update;
