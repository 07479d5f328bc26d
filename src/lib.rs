//! A lexical survey of a Rust source tree: substantive line counts and the
//! modules, functions, structures and enums that keyword scanning finds.
pub mod decls;
pub mod laws;
pub mod lines;
pub mod modules;
pub mod scan;
pub mod select;
pub mod text;
pub mod tree;

pub use decls::{data_structure_counts, function_names, module_names, struct_declarations};
pub use lines::{
    count_non_blank_non_comment_lines, count_substantive_lines, is_substantive_line,
    is_substantive_line_strict,
};
pub use modules::{
    analyze_modules, checked_lines_in_module, total_lines_in_module, FileEntry, FileSummary,
    ModuleEntry, ModuleStructure,
};
pub use select::{interpret_selection, Selection};
pub use tree::{
    count_files_and_lines, extract_struct_declarations, line_counts_per_file, path_names_source,
    SourceFile,
};
