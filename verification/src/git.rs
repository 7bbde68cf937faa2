//! Interpreting `git status --porcelain -b` output.  Running git is
//! the caller's business; the library turns the captured lines into a
//! summary.

use vstd::prelude::*;
use vstd::string::*;
use crate::text::starts_with_str;

verus! {

/// Summary of one repository's working tree.
pub struct GitStatus {
    pub branch: String,
    pub has_changes: bool,
    pub changed_files: usize,
}

/// The branch named on a porcelain header line, or `unknown`.
pub open spec fn branch_of(lines: Seq<Seq<char>>) -> Seq<char> {
    if lines.len() > 0 && lines[0].len() >= 3 && lines[0].subrange(0, 3) == "## "@ {
        lines[0].subrange(3, lines[0].len() as int)
    } else {
        "unknown"@
    }
}

impl GitStatus {
    /// Summarise the captured lines of `git status --porcelain -b`:
    /// the first line names the branch after a `## ` marker, and
    /// every further line is one changed file.
    pub fn from_porcelain(lines: &Vec<String>) -> (r: GitStatus)
        ensures
            r.branch@ == branch_of(lines.deep_view()),
            r.has_changes == (lines@.len() > 1),
            r.changed_files == (if lines@.len() > 0 {
                lines@.len() - 1
            } else {
                0
            }),
    {
        let n = lines.len();
        let branch: String = if n > 0 {
            let first = lines[0].as_str();
            if starts_with_str(first, "## ") {
                proof {
                    reveal_strlit("## ");
                }
                let l = first.unicode_len();
                String::from_str(first.substring_char(3, l))
            } else {
                String::from_str("unknown")
            }
        } else {
            String::from_str("unknown")
        };
        GitStatus {
            branch,
            has_changes: n > 1,
            changed_files: if n > 0 {
                n - 1
            } else {
                0
            },
        }
    }
}

} // verus!
