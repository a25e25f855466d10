//! Velvet: installs a Quilt-based Minecraft profile and keeps its folder of
//! mods in step with the latest Modrinth releases for a chosen game version.
pub mod digest;
pub mod mod_index;
pub mod sync;
pub mod modlists;
pub mod modrinth;
pub mod get_minecraft_dir;
pub mod write_json;
pub mod state;
