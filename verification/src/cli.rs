//! The one decision of the command line: which log files a run should read.

use vstd::prelude::*;

verus! {

/// The files a run of the program reads: the ones named on the command
/// line, in their given order, or the system's default accounting log when
/// none was named.
pub fn cli(files: Vec<String>) -> (out: Vec<String>)
    ensures
        files@.len() == 0 ==> out@.len() == 1 && out@[0]@ == "/var/log/wtmp"@,
        files@.len() > 0 ==> out == files,
{
    if files.len() == 0 {
        let mut out: Vec<String> = Vec::new();
        out.push("/var/log/wtmp".to_owned());
        out
    } else {
        files
    }
}

} // verus!
