//! Merging command-line options with configured defaults: which password
//! file and tool path a run uses, and which directory it extracts into.
//! The caller queries the environment (the executable's directory, the
//! current directory, whether paths exist) and hands the answers in; every
//! decision about the merged values is made here.

use vstd::prelude::*;
use vstd::string::StrSliceExecFns;
use vstd::string::StringExecFns;
use crate::paths::{
    file_stem_of, is_absolute_path, parent_dir, path_join, spec_file_stem, spec_is_absolute,
    spec_parent, spec_path_join,
};

verus! {

/// The options of one run as the command line gave them, before defaults
/// are filled in.
pub struct CmdArgument {
    /// Archive file path.
    pub file_path: String,
    /// Password file path; the configured default applies when not set.
    pub password_file: Option<String>,
    /// Path of the external archiving tool; the configured default applies
    /// when not set.
    pub executable_path: Option<String>,
    /// Extraction destination; the current directory applies when not set.
    pub output: Option<String>,
    /// Extract next to the archive file, overriding the destination.
    pub local: bool,
    /// Always extract into a new directory named after the archive file.
    pub new_directory: bool,
    /// Debugging verbosity.
    pub debug: usize,
    /// Delete the archive file after a successful extraction.
    pub delete: bool,
    /// Only write the shell-integration file; do not extract.
    pub generate: bool,
    /// Sort and deduplicate the password file afterwards.
    pub format: bool,
}

/// The options of one run with every default filled in.
pub struct CmdArgumentMerged {
    /// Archive file path.
    pub file_path: String,
    /// Password file path.
    pub password_file: String,
    /// Path of the external archiving tool.
    pub executable_path: String,
    /// Extraction destination.
    pub output: String,
    /// Extract next to the archive file.
    pub local: bool,
    /// Always extract into a new directory named after the archive file.
    pub new_directory: bool,
    /// Debugging verbosity.
    pub debug: usize,
    /// Delete the archive file after a successful extraction.
    pub delete: bool,
    /// Only write the shell-integration file; do not extract.
    pub generate: bool,
    /// Sort and deduplicate the password file afterwards.
    pub format: bool,
}

/// The configured defaults: where the tool and the password file live when
/// the command line does not say.
pub struct WPassDefaultConfig {
    /// Default path of the external archiving tool.
    pub executable_path: String,
    /// Default password file path.
    pub password_file: String,
}

/// A configured default path, resolved: kept as it is when absolute, and
/// otherwise taken relative to the executable's own directory.
pub open spec fn spec_resolved_default(config_path: Seq<char>, exe_dir: Seq<char>) -> Seq<char> {
    if spec_is_absolute(config_path) {
        config_path
    } else {
        spec_path_join(exe_dir, config_path)
    }
}

/// Resolves a configured default path against the executable's directory.
pub fn resolve_default(config_path: &str, exe_dir: &str) -> (r: String)
    ensures
        r@ == spec_resolved_default(config_path@, exe_dir@),
{
    if is_absolute_path(config_path) {
        config_path.to_owned()
    } else {
        path_join(exe_dir, config_path)
    }
}

/// The destination when extracting next to the archive: the archive's
/// parent directory, with `"."` joined on when that parent (possibly the
/// empty string) does not name a directory.
pub open spec fn spec_local_output(file_path: Seq<char>, parent_is_dir: bool) -> Seq<char> {
    let parent = spec_parent(file_path);
    if parent_is_dir {
        parent
    } else {
        spec_path_join(parent, "."@)
    }
}

/// Fills every default in: explicit options win; the password file and the
/// tool fall back to the configured defaults resolved against the
/// executable's directory; the destination falls back to the current
/// directory, and extracting locally overrides it with the archive's own
/// directory (`file_parent_is_dir` answers whether that parent is a
/// directory as it stands).
pub fn merge_defaults(
    options: &CmdArgument,
    config: &WPassDefaultConfig,
    exe_dir: &str,
    current_dir: &str,
    file_parent_is_dir: bool,
) -> (r: CmdArgumentMerged)
    ensures
        r.file_path@ == options.file_path@,
        options.password_file matches Some(p) ==> r.password_file@ == p@,
        options.password_file is None ==> r.password_file@ == spec_resolved_default(
            config.password_file@,
            exe_dir@,
        ),
        options.executable_path matches Some(p) ==> r.executable_path@ == p@,
        options.executable_path is None ==> r.executable_path@ == spec_resolved_default(
            config.executable_path@,
            exe_dir@,
        ),
        options.local ==> r.output@ == spec_local_output(options.file_path@, file_parent_is_dir),
        options.output matches Some(o) ==> (options.local || r.output@ == o@),
        !options.local && options.output is None ==> r.output@ == current_dir@,
        r.local == options.local,
        r.new_directory == options.new_directory,
        r.debug == options.debug,
        r.delete == options.delete,
        r.generate == options.generate,
        r.format == options.format,
{
    let password_file = match &options.password_file {
        Option::Some(p) => p.clone(),
        Option::None => resolve_default(config.password_file.as_str(), exe_dir),
    };
    let executable_path = match &options.executable_path {
        Option::Some(p) => p.clone(),
        Option::None => resolve_default(config.executable_path.as_str(), exe_dir),
    };
    let output = if options.local {
        let parent = parent_dir(options.file_path.as_str());
        if file_parent_is_dir {
            parent
        } else {
            path_join(parent.as_str(), ".")
        }
    } else {
        match &options.output {
            Option::Some(o) => o.clone(),
            Option::None => current_dir.to_owned(),
        }
    };
    CmdArgumentMerged {
        file_path: options.file_path.clone(),
        password_file,
        executable_path,
        output,
        local: options.local,
        new_directory: options.new_directory,
        debug: options.debug,
        delete: options.delete,
        generate: options.generate,
        format: options.format,
    }
}

/// The destination a fresh extraction directory would get: the archive's
/// stem joined onto the current destination. The caller asks whether this
/// path already exists before applying it.
pub fn new_directory_candidate(merged: &CmdArgumentMerged) -> (r: String)
    ensures
        r@ == spec_path_join(merged.output@, spec_file_stem(merged.file_path@)),
{
    let stem = file_stem_of(merged.file_path.as_str());
    path_join(merged.output.as_str(), stem.as_str())
}

/// The destination after the new-directory option is applied: the archive's
/// stem joined on; `"_extracted"` appended when that directory already
/// exists (an archive without an extension would otherwise collide with
/// itself); and the placeholder name when the archive has no stem at all.
pub open spec fn spec_new_directory_output(
    output: Seq<char>,
    file_path: Seq<char>,
    target_exists: bool,
) -> Seq<char> {
    let stem = spec_file_stem(file_path);
    if stem.len() == 0 {
        spec_path_join(output, "foobar"@)
    } else if target_exists {
        spec_path_join(output, stem + "_extracted"@)
    } else {
        spec_path_join(output, stem)
    }
}

/// Applies the new-directory option to the merged destination;
/// `target_exists` answers whether the candidate directory (the stem joined
/// onto the destination) already exists. Without the option nothing
/// changes.
pub fn apply_new_directory(merged: &mut CmdArgumentMerged, target_exists: bool)
    ensures
        final(merged).file_path == old(merged).file_path,
        final(merged).password_file == old(merged).password_file,
        final(merged).executable_path == old(merged).executable_path,
        final(merged).local == old(merged).local,
        final(merged).new_directory == old(merged).new_directory,
        final(merged).debug == old(merged).debug,
        final(merged).delete == old(merged).delete,
        final(merged).generate == old(merged).generate,
        final(merged).format == old(merged).format,
        old(merged).new_directory ==> final(merged).output@ == spec_new_directory_output(
            old(merged).output@,
            old(merged).file_path@,
            target_exists,
        ),
        !old(merged).new_directory ==> final(merged).output == old(merged).output,
{
    if merged.new_directory {
        let stem = file_stem_of(merged.file_path.as_str());
        let child = if stem.as_str().unicode_len() == 0 {
            String::from_str("foobar")
        } else if target_exists {
            let mut c = stem;
            c.append("_extracted");
            c
        } else {
            stem
        };
        let out = path_join(merged.output.as_str(), child.as_str());
        merged.output = out;
    }
}

} // verus!
