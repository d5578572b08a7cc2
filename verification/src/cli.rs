//! The configuration that the report generator honours. Command-line
//! handling itself is an outside concern; the library only consumes the
//! resulting flags and lists.

use vstd::prelude::*;

verus! {

/// Configuration for filtering, deduplication and output selection.
///
/// `listed_fs` is a whitelist of filesystem types (empty means "no
/// restriction"), `excluded_fs` a blacklist evaluated after it.
pub struct Options {
    pub show_local_fs: bool,
    pub show_all_fs: bool,
    pub listed_fs: Vec<String>,
    pub excluded_fs: Vec<String>,
    pub human_readable: bool,
    pub print_grand_total: bool,
    pub field_list: Vec<String>,
    pub human_readable_1024: bool,
    pub inodes: bool,
    pub show_fs_type: bool,
    pub output_all_fields: bool,
}

impl Options {
    /// The default configuration: local filesystems only, pseudo
    /// filesystems hidden, sizes in human-readable form, no type lists.
    pub fn new() -> (r: Options)
        ensures
            r.show_local_fs,
            !r.show_all_fs,
            r.listed_fs@.len() == 0,
            r.excluded_fs@.len() == 0,
            r.human_readable,
            !r.print_grand_total,
            r.field_list@.len() == 0,
            !r.human_readable_1024,
            !r.inodes,
            !r.show_fs_type,
            !r.output_all_fields,
    {
        Options {
            show_local_fs: true,
            show_all_fs: false,
            listed_fs: Vec::new(),
            excluded_fs: Vec::new(),
            human_readable: true,
            print_grand_total: false,
            field_list: Vec::new(),
            human_readable_1024: false,
            inodes: false,
            show_fs_type: false,
            output_all_fields: false,
        }
    }
}

} // verus!
