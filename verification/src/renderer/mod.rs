pub mod m2_batches;
pub mod terrain_alpha;
pub mod terrain_mesh;
pub mod terrain_mipmap;
pub mod terrain_textures;
pub mod texture_manager;
