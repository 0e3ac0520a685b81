//! Loader for occupation coding-system reference tables.
//!
//! A coding system is a named list of codes, each a short identifier with a
//! human-readable title.  This crate classifies a path-or-URL source string,
//! dispatches on a file-name extension among comma-delimited, tab-delimited
//! and JSON table formats, and materializes each row of the table into a
//! `Code` record, skipping malformed delimited rows with a warning instead of
//! aborting the whole load.  Fetching the table's text over HTTP or from disk
//! is left to the caller.

mod laws;
mod loader;
mod records;
mod source;
mod text;

pub use laws::{
    lemma_json_table_mapping, lemma_short_row_recovery, lemma_well_formed_rows,
    warning_count_for_line,
};
pub use loader::{
    FileFormat, JsonFieldView, LoadError, RowWarning, WarningView, code_views,
    codes_from_json_lines, codes_of_lines, codes_of_table, extension_of, fault_of, field_entry,
    field_value, format_of, format_of_name, json_line_of, json_lines_from_table, json_table,
    load_coding_system, load_spec, object_view, parse_delimited, row_fields, table_view,
    table_well_formed, warning_views, warnings_of_lines,
};
pub use records::{Code, CodeView, CodingSystem, JobDescription, JsonLine, RowFault};
pub use source::{DataSource, is_url_string};
pub use text::{line_seqs, split_lines, split_seq, split_str, string_views, strip_cr, stripped_lines};
