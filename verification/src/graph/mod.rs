pub mod architecture;
pub mod layer_map;
