pub mod ascii_view;
pub mod color;
pub mod components;
pub mod fov;
pub mod fov_lines;
pub mod fov_laws;
pub mod fraction;
pub mod gamemap;
pub mod graphic_trait;
pub mod grid_vec;
pub mod point_set;
pub mod systems;
pub mod typedefs;
pub mod typeenums;
pub mod voxel;
