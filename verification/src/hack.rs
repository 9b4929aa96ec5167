//! Shell-integration housekeeping: the registry text that wires the
//! extractor into the file manager's context menu. Writing the file (and
//! whether the platform wants one at all) is the caller's business; the
//! content is a pure function of the executable's own path, spliced into
//! each menu item's command line.

use vstd::prelude::*;
use vstd::string::StringExecFns;

verus! {

/// The registry text with `path` spliced into the five menu commands.
pub open spec fn spec_reg_content(path: Seq<char>) -> Seq<char> {
    "Windows Registry Editor Version 5.00\n\n[HKEY_CLASSES_ROOT\\*\\shell\\WPass]\n\"MUIVerb\"=\"Extract with wpass\"\n\"SubCommands\"=\"\"\n\"OnlyInBrowserWindow\"=\"\"\n\n[HOKEY_CLASSES_ROOT\\*\\shell\\WPass\\shell]\n\n[HKEY_CLASSES_ROOT\\*\\shell\\WPass\\shell\\Item0]\n\"MUIVerb\"=\"Extract to current directory\"\n\n[HKEY_CLASSES_ROOT\\*\\shell\\WPass\\shell\\Item0\\command]\n@=\""@
        + path
        + " -l \\\"%1\\\"\"\n\n[HKEY_CLASSES_ROOT\\*\\shell\\WPass\\shell\\Item1]\n\"MUIVerb\"=\"Extract to new directory\"\n\n[HKEY_CLASSES_ROOT\\*\\shell\\WPass\\shell\\Item1\\command]\n@=\""@
        + path
        + " -l -n \\\"%1\\\"\"\n\n[HKEY_CLASSES_ROOT\\*\\shell\\WPass\\shell\\Item2]\n\"MUIVerb\"=\"Extract to current directory(with debug output)\"\n\n[HKEY_CLASSES_ROOT\\*\\shell\\WPass\\shell\\Item2\\command]\n@=\""@
        + path
        + " -n -d -l \\\"%1\\\"\"\n\n[HKEY_CLASSES_ROOT\\*\\shell\\WPass\\shell\\Item3]\n\"MUIVerb\"=\"Extract to current directory and delete the archive file\"\n\n[HKEY_CLASSES_ROOT\\*\\shell\\WPass\\shell\\Item3\\command]\n@=\""@
        + path
        + " -l -D \\\"%1\\\"\"\n\n[HKEY_CLASSES_ROOT\\*\\shell\\WPass\\shell\\Item4]\n\"MUIVerb\"=\"Extract to new directory and delete the archive file\"\n\n[HKEY_CLASSES_ROOT\\*\\shell\\WPass\\shell\\Item4\\command]\n@=\""@
        + path
        + " -l -D -n \\\"%1\\\"\""@
}

/// Builds the registry text for the extractor living at `exe_path`.
pub fn generate_reg(exe_path: &str) -> (r: String)
    ensures
        r@ == spec_reg_content(exe_path@),
{
    let mut r = String::from_str(
        "Windows Registry Editor Version 5.00\n\n[HKEY_CLASSES_ROOT\\*\\shell\\WPass]\n\"MUIVerb\"=\"Extract with wpass\"\n\"SubCommands\"=\"\"\n\"OnlyInBrowserWindow\"=\"\"\n\n[HOKEY_CLASSES_ROOT\\*\\shell\\WPass\\shell]\n\n[HKEY_CLASSES_ROOT\\*\\shell\\WPass\\shell\\Item0]\n\"MUIVerb\"=\"Extract to current directory\"\n\n[HKEY_CLASSES_ROOT\\*\\shell\\WPass\\shell\\Item0\\command]\n@=\"",
    );
    r.append(exe_path);
    r.append(
        " -l \\\"%1\\\"\"\n\n[HKEY_CLASSES_ROOT\\*\\shell\\WPass\\shell\\Item1]\n\"MUIVerb\"=\"Extract to new directory\"\n\n[HKEY_CLASSES_ROOT\\*\\shell\\WPass\\shell\\Item1\\command]\n@=\"",
    );
    r.append(exe_path);
    r.append(
        " -l -n \\\"%1\\\"\"\n\n[HKEY_CLASSES_ROOT\\*\\shell\\WPass\\shell\\Item2]\n\"MUIVerb\"=\"Extract to current directory(with debug output)\"\n\n[HKEY_CLASSES_ROOT\\*\\shell\\WPass\\shell\\Item2\\command]\n@=\"",
    );
    r.append(exe_path);
    r.append(
        " -n -d -l \\\"%1\\\"\"\n\n[HKEY_CLASSES_ROOT\\*\\shell\\WPass\\shell\\Item3]\n\"MUIVerb\"=\"Extract to current directory and delete the archive file\"\n\n[HKEY_CLASSES_ROOT\\*\\shell\\WPass\\shell\\Item3\\command]\n@=\"",
    );
    r.append(exe_path);
    r.append(
        " -l -D \\\"%1\\\"\"\n\n[HKEY_CLASSES_ROOT\\*\\shell\\WPass\\shell\\Item4]\n\"MUIVerb\"=\"Extract to new directory and delete the archive file\"\n\n[HKEY_CLASSES_ROOT\\*\\shell\\WPass\\shell\\Item4\\command]\n@=\"",
    );
    r.append(exe_path);
    r.append(" -l -D -n \\\"%1\\\"\"");
    proof {
        assert(r@ =~= spec_reg_content(exe_path@));
    }
    r
}

} // verus!
