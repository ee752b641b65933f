//! Game rules of a small first-person arena: movement states and key
//! handling, the vertical (jump) plan of a step, enemy assimilation on sensor
//! contacts, the terrain index buffer, and the seed of the enemy position
//! randomiser.

pub mod collision;
pub mod movement;
pub mod randomiser;
pub mod terrain;

