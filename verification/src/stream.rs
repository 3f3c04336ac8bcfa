//! Single compressed streams: gzip, bzip2 and xz.

use crate::codec::{
    bytes_result, bz2_decode, bz2_decoded, gz_decode, gz_decoded, xz_decode, xz_decoded,
};
use crate::kind::Compression;
use vstd::prelude::*;

verus! {

/// The bytes of the stream in `data`, decoded.
pub open spec fn decoded(compression: Compression, data: Seq<u8>) -> Result<Seq<u8>, Seq<char>> {
    match compression {
        Compression::Gz => gz_decoded(data),
        Compression::Bz2 => bz2_decoded(data),
        Compression::Xz => xz_decoded(data),
    }
}

/// The bytes of the stream in `data`, decoded.
pub fn decode(compression: Compression, data: &[u8]) -> (r: Result<Vec<u8>, String>)
    ensures
        bytes_result(r) == decoded(compression, data@),
{
    match compression {
        Compression::Gz => gz_decode(data),
        Compression::Bz2 => bz2_decode(data),
        Compression::Xz => xz_decode(data),
    }
}

} // verus!
