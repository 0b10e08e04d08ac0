pub mod ids;
pub mod text;
pub mod types;
pub mod render;
pub mod alpha;
pub mod collections;
pub mod hir;
pub mod products;
pub mod remap;
pub mod validator;
pub mod tables;
pub mod typemap;
pub mod child;
pub mod bodyspec;
pub mod bodymap;
pub mod authority;
pub mod rows;
pub mod shapes;
pub mod langitems;
pub mod interface;
pub mod bodies;
pub mod artifact;
pub mod deps;
pub mod load;
pub mod names;
pub mod object_path;
