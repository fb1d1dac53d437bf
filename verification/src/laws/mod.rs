//! What holds of the library as a whole.

pub mod activations;
pub mod carrying;
pub mod computing;
pub mod counting;
pub mod detection;
pub mod encoding;
pub mod exporting;
pub mod filling;
pub mod floats;
pub mod folding;
pub mod integers;
pub mod knowledge;
pub mod meaning;
pub mod moving;
pub mod normalizing;
pub mod optimizing;
pub mod passes;
pub mod preserving;
pub mod products;
pub mod reducing;
pub mod renaming;
pub mod resizing;
pub mod rewiring;
pub mod selecting;
pub mod shapes;
pub mod shaping;
pub mod validity;
pub mod writing;
