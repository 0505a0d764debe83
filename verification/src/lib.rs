//! Message factory generation: scanning schema files for identifier
//! annotations, and generating the registry sources for the messages found.

pub mod collect;
pub mod emit;
pub mod model;
pub mod pattern;
pub mod scan_laws;
pub mod scanner;

pub use crate::collect::{get_proto_list, get_protos_info, proto_glob_pattern, CollectError, SourceFile};
pub use crate::emit::{crate_module_path, generate_factory_file, GeneratedSources};
pub use crate::model::{MessageMetadata, ProtoMessageInfo};
pub use crate::scanner::{read_annotation, read_declaration, scan_lines, ScanError};
