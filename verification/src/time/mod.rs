pub mod instant;
mod picking;
pub mod sleep;
pub mod wheel;
