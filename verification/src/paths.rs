//! Where the store lies under a data directory.

use vstd::prelude::*;

verus! {

/// Picks the store's directory: the `db` subdirectory of the data directory
/// where the program found one, else the data directory itself. The program
/// joins the subdirectory's path and looks for it on disk.
pub fn db_path<P>(datadir: P, db_subdir: P, db_subdir_exists: bool) -> (chosen: P)
    ensures
        chosen == (if db_subdir_exists {
            db_subdir
        } else {
            datadir
        }),
{
    if db_subdir_exists {
        db_subdir
    } else {
        datadir
    }
}

/// The options that are reserved and change nothing yet.
pub struct Reserved {
    /// Parallel workers were asked for: the walk is single-threaded all the
    /// same.
    pub parallel_ignored: bool,
    /// Chunked output was asked for: one file is written all the same.
    pub chunking_ignored: bool,
}

/// Whether a text is exactly `0`.
fn is_zero_word(text: &str) -> (zero: bool)
    ensures
        zero == (text@ == seq!['0']),
{
    if text.unicode_len() != 1 {
        return false;
    }
    let zero = text.get_char(0) == '0';
    proof {
        if zero {
            assert(text@ =~= seq!['0']);
        }
    }
    zero
}

/// Which of the reserved options were given a value that asks for more
/// than is built: any number of workers but zero, any chunk size but the
/// text `0`.
pub fn reserved_options(parallel: usize, chunk_bytes: &str) -> (reserved: Reserved)
    ensures
        reserved.parallel_ignored == (parallel > 0),
        reserved.chunking_ignored == (chunk_bytes@ != seq!['0']),
{
    Reserved { parallel_ignored: parallel > 0, chunking_ignored: !is_zero_word(chunk_bytes) }
}

} // verus!
