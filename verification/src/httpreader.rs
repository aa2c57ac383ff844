//! The decision taken on the result of reading one line from a stream.

use vstd::prelude::*;

verus! {

/// What reading one line gives: the line, or `Empty read` when the stream
/// had nothing more, or `Failed read` when reading failed. `read` is what
/// `BufRead::read_line` returned and `line` the text it read.
pub fn line_read_outcome(read: Result<usize, std::io::Error>, line: String) -> (r: Result<String, &'static str>)
    ensures
        match read {
            Ok(0) => r matches Err(e) && e@ == "Empty read"@,
            Ok(_) => r matches Ok(l) && l@ == line@,
            Err(_) => r matches Err(e) && e@ == "Failed read"@,
        },
{
    match read {
        Ok(0) => Err("Empty read"),
        Ok(_) => Ok(line),
        Err(_) => Err("Failed read"),
    }
}

} // verus!
