pub mod data;
pub mod graphics;
