pub mod cpu;
pub mod model;
pub mod screen;
