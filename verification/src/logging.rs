//! Where the application writes its log: `.respondami/logs/respondami.log`
//! under the working directory.

use vstd::prelude::*;
use crate::config::{join_path, path_join};

verus! {

/// The project directory of the application.
pub const RESPONDAMI_DIR: &'static str = ".respondami";

/// The log directory below it.
pub const LOGS_DIR: &'static str = "logs";

/// The log file's name.
pub const LOG_FILE: &'static str = "respondami.log";

/// The log directory for the working directory `cwd`.
pub open spec fn log_dir_spec(cwd: Seq<char>) -> Seq<char> {
    path_join(path_join(cwd, ".respondami"@), "logs"@)
}

/// The log directory for the working directory `cwd`.
pub fn log_dir_path(cwd: &str) -> (p: String)
    ensures
        p@ == log_dir_spec(cwd@),
{
    let d = join_path(cwd, RESPONDAMI_DIR);
    join_path(d.as_str(), LOGS_DIR)
}

/// The log file for the working directory `cwd`.
pub fn log_file_path(cwd: &str) -> (p: String)
    ensures
        p@ == path_join(log_dir_spec(cwd@), "respondami.log"@),
{
    let d = log_dir_path(cwd);
    join_path(d.as_str(), LOG_FILE)
}

/// Law: the log file lies in the log directory.
pub proof fn law_log_file_inside_log_dir(cwd: Seq<char>)
    ensures
        crate::config::starts_with(path_join(log_dir_spec(cwd), "respondami.log"@), log_dir_spec(cwd)),
{
    let d = log_dir_spec(cwd);
    let f = path_join(d, "respondami.log"@);
    if d.len() == 0 {
        assert(d.len() > 0) by {
            reveal_strlit("logs");
            assert("logs"@.len() == 4);
            let c = path_join(cwd, ".respondami"@);
            if c.len() == 0 {
                assert(d == "logs"@);
            } else if c.last() == '/' {
                assert(d.len() == c.len() + 4);
            } else {
                assert(d.len() == c.len() + 1 + 4);
            }
        }
    } else if d.last() == '/' {
        assert(f.take(d.len() as int) =~= d);
    } else {
        assert(f.take(d.len() as int) =~= d);
    }
}

} // verus!
