//! Container-build manifests and service-topology documents, turned into a
//! structural model and rendered as textual modeling-language diagrams.

pub mod gen_sysml;
pub mod parse_compose;
pub mod parse_dockerfile;
pub mod util;
