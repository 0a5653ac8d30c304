pub mod adt;
pub mod io;
pub mod chunks;
pub mod error;
pub mod m2;
pub mod version;
pub mod text;
pub mod storage;
pub mod mpq;
pub mod loader;
pub mod blp;
pub mod renderer;
