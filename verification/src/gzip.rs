//! Gzip compression through flate2, behind a trusted wrapper.
use vstd::prelude::*;

verus! {

/// The gzip framing of `data` as flate2 produces it with the default
/// compression level and header. No contract states which bytes these
/// are; callers only learn that equal inputs give equal framings.
pub uninterp spec fn gzip_of(data: Seq<u8>) -> Seq<u8>;

/// Relies on flate2's `write::GzEncoder`: it emits a gzip stream that is a
/// function of the input bytes alone, since flate2 writes a fixed header
/// (zero mtime and operating-system byte 255, chosen by flate2 for
/// cross-platform reproducibility) and compresses deterministically.
/// Writing into a `Vec` sink cannot fail, so `finish` returns `Ok`.
#[verifier::external_body]
pub fn gzip_compress(data: &[u8]) -> (r: Vec<u8>)
    ensures
        r@ == gzip_of(data@),
{
    let mut enc = flate2::write::GzEncoder::new(Vec::new(), flate2::Compression::default());
    std::io::Write::write_all(&mut enc, data).unwrap();
    enc.finish().unwrap()
}

} // verus!
