pub mod model;
pub mod quad;
pub mod ribbon;
