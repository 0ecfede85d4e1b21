use std::path::Path;
use std::path::PathBuf;
use vstd::prelude::*;

verus! {

#[verifier::external_type_specification]
#[verifier::external_body]
pub struct ExPath(Path);

#[verifier::external_type_specification]
#[verifier::external_body]
pub struct ExPathBuf(PathBuf);

/// The path that `Path::join` makes of the path `base` and the text `file`:
/// `file` adjoined to `base`.
pub uninterp spec fn joined_path(base: &Path, file: Seq<char>) -> PathBuf;

/// `Path::join`: the path `file` adjoined to `base`, `joined_path` of the two.
#[verifier::external_body]
fn join_path(base: &Path, file: &str) -> (joined: PathBuf)
    ensures
        joined == joined_path(base, file@),
{
    base.join(file)
}

/// The place of `file` inside the configuration directory `config`: `file`
/// adjoined to `config`.
pub fn get_config_file(config: &Path, file: &str) -> (path: PathBuf)
    ensures
        path == joined_path(config, file@),
{
    join_path(config, file)
}

} // verus!
