pub mod bits;
pub mod material;
pub mod primitive;
pub mod structure;
pub mod texture;
pub mod utils;
pub mod scene;
pub mod sizes;
pub mod state;
pub mod wfpt;
pub mod print_texture;
pub mod gui;
