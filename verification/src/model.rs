mod coord;
mod edge;
mod face;
mod point_2d;
mod point_3d;
mod tetrahedron;
mod triangle;

pub use coord::Coord;
pub use edge::Edge;
pub use face::Face;
pub use point_2d::Point2D;
pub use point_3d::Point3D;
pub use tetrahedron::Tetrahedron;
pub use triangle::Triangle;
