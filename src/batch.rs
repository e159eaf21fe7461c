use vstd::prelude::*;

use crate::decode::decoded;
use crate::format::{Endianness, SampleFormat};

verus! {

/// Whether a directory entry is converted: a regular file of at least
/// `min_len` bytes.
pub fn accepts_entry(is_file: bool, len: u64, min_len: u64) -> (r: bool)
    ensures
        r == (is_file && len >= min_len),
{
    is_file && len >= min_len
}

/// The samples of every file of a batch, each file decoded on its own.
pub open spec fn decode_batch(files: Seq<Seq<u8>>, format: SampleFormat, e: Endianness) -> Seq<
    Seq<int>,
> {
    files.map_values(|f: Seq<u8>| decoded(f, format, e))
}

/// A file's samples depend on its own bytes alone, since every file gets a
/// fresh codec: converting the files of a batch in any order, or shared out
/// among workers in any way, gives each file the samples that converting the
/// batch one file after another gives it.
pub proof fn lemma_batch_order_independent(
    files: Seq<Seq<u8>>,
    order: Seq<int>,
    format: SampleFormat,
    e: Endianness,
)
    requires
        forall|k: int| 0 <= k < order.len() ==> 0 <= #[trigger] order[k] < files.len(),
    ensures
        decode_batch(order.map_values(|i: int| files[i]), format, e) == order.map_values(
            |i: int| decode_batch(files, format, e)[i],
        ),
{
    assert(decode_batch(order.map_values(|i: int| files[i]), format, e) =~= order.map_values(
        |i: int| decode_batch(files, format, e)[i],
    ));
}

} // verus!
