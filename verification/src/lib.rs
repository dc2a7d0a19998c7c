pub mod kw;
pub mod scan;
pub mod surface;
pub mod surface_laws;
pub mod mesh;
pub mod obj;
pub mod off;
pub mod stl;
pub mod ply_types;
pub mod ply_header;
pub mod ply_body;
pub mod ply_ascii;
pub mod ply_binary;
pub mod ply;
pub mod word_uint;

pub use mesh::{MeshFormat, RawMesh, detect_format, load_mesh_bytes};
pub use obj::load_obj_buf;
pub use off::load_off_buf;
pub use ply::load_ply_buf;
pub use scan::Coord;
pub use stl::load_stl_buf;
pub use surface::SurfaceIndices;

