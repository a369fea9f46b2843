//! GLSL shader assembly, material and render-graph logic of a small Vulkan engine.
pub mod bits;
pub mod glenums;
pub mod text;
pub mod name_map;
pub mod texture;
pub mod shader;
pub mod light;
pub mod components;
pub mod game_logic;
pub mod material;
pub mod render_graph;
pub mod render_stage;
pub mod culling;
pub mod geometry_pass;
pub mod frame;
pub mod events;
pub mod window_input;
pub mod mesh;
pub mod scene_file;
