use vstd::prelude::*;

use vstd::string::StringExecFns;

use crate::workflow::{join_path, spec_join};

verus! {

/// The target path of a generated workflow configuration: beside the given
/// path when one names a file, inside it when it names a directory, and in
/// the current directory when none was given; in the latter two cases the
/// file is the given name with the `toml` extension added.
pub open spec fn spec_config_path(
    file_name: Seq<char>,
    path: Option<Seq<char>>,
    current_directory: Seq<char>,
    path_is_directory: bool,
) -> Seq<char> {
    match path {
        None => spec_join(current_directory, file_name) + ".toml"@,
        Some(p) => if path_is_directory {
            spec_join(p, file_name) + ".toml"@
        } else {
            p
        },
    }
}

/// The client subcommand that writes a default handler workflow
/// configuration to disk.  Argument parsing and the filesystem stay with
/// the caller, which reports the current directory and whether the given
/// path is a directory.
pub struct GenerateSubCommand {}

impl GenerateSubCommand {
    pub fn name(&self) -> (r: &'static str)
        ensures
            r@ == "generate"@,
    {
        "generate"
    }

    pub fn alias(&self) -> (r: &'static str)
        ensures
            r@ == "gen"@,
    {
        "gen"
    }

    /// Where the generated configuration file goes.
    pub fn construct_config_path(
        file_name: &String,
        path: Option<&String>,
        current_directory: &String,
        path_is_directory: bool,
    ) -> (r: String)
        ensures
            r@ == spec_config_path(
                file_name@,
                match path {
                    Some(p) => Some(p@),
                    None => None,
                },
                current_directory@,
                path_is_directory,
            ),
    {
        match path {
            None => {
                let mut out = join_path(current_directory, file_name);
                out.append(".toml");
                out
            },
            Some(p) => {
                if path_is_directory {
                    let mut out = join_path(p, file_name);
                    out.append(".toml");
                    out
                } else {
                    p.clone()
                }
            },
        }
    }
}

/// The client subcommand that asks the daemon for directory statuses.
pub struct StatusSubCommand {}

impl StatusSubCommand {
    pub fn name(&self) -> (r: &'static str)
        ensures
            r@ == "status"@,
    {
        "status"
    }

    pub fn alias(&self) -> (r: &'static str)
        ensures
            r@ == "stat"@,
    {
        "stat"
    }

    /// The directory the status request names: querying all directories
    /// sends the explicit argument or nothing; querying one sends the
    /// argument or falls back to the caller's current path.
    pub fn select_status_target(
        all_directories: bool,
        directory_arg: Option<&String>,
        current_path: &String,
    ) -> (r: String)
        ensures
            match directory_arg {
                Some(d) => r@ == d@,
                None => if all_directories {
                    r@.len() == 0
                } else {
                    r@ == current_path@
                },
            },
    {
        match directory_arg {
            Some(d) => d.clone(),
            None => if all_directories {
                String::new()
            } else {
                current_path.clone()
            },
        }
    }
}

} // verus!
