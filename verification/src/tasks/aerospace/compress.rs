//! Compressed objects.
use crate::base::limits::{read_ahead, read_bounded};
use crate::error::{Error, ErrorView};
use crate::failure::read_as;
use std::io::{Read, Write};
use vstd::prelude::*;

verus! {

/// What compressed bytes decode to, where they are a whole gzip member.
pub uninterp spec fn gunzipped(bytes: Seq<u8>) -> Option<Seq<u8>>;

/// The gzip member that bytes become, or the encoder's words.
pub uninterp spec fn gzipped(bytes: Seq<u8>) -> Result<Seq<u8>, Seq<char>>;

/// `flate2::write::GzEncoder` over a growing buffer, at the best compression: a gzip member, or
/// words where the encoder reports an error. Either is a function of the bytes, named `gzipped`,
/// and a member decodes to the input. The source keeps an error path, so nothing is said of when
/// the encoder succeeds.
#[verifier::external_body]
fn gzip(bytes: &[u8]) -> (res: Result<Vec<u8>, String>)
    ensures
        read_as(res) == gzipped(bytes@),
        res is Ok ==> gunzipped(res->Ok_0@) == Some(bytes@),
{
    let mut encoder = flate2::write::GzEncoder::new(Vec::new(), flate2::Compression::best());
    encoder.write_all(bytes).map_err(|error| error.to_string())?;
    encoder.finish().map_err(|error| error.to_string())
}

/// `flate2::read::GzDecoder` read up to `room` bytes: the first bytes of what a whole member
/// decodes to. Of other input it reports an error, unless that stands behind the bytes asked for,
/// all of which it then gives; which of the two can depend on how large the pieces are that are
/// read, and is not said.
#[verifier::external_body]
fn gunzip(bytes: &[u8], room: u64) -> (res: Result<Vec<u8>, String>)
    ensures
        match gunzipped(bytes@) {
            Some(all) => res is Ok && res->Ok_0@ == if all.len() <= room {
                all
            } else {
                all.take(room as int)
            },
            None => res is Ok ==> res->Ok_0@.len() == room,
        },
{
    let mut out = Vec::new();
    let decoder = flate2::read::GzDecoder::new(bytes);
    decoder.take(room).read_to_end(&mut out).map_err(|error| error.to_string())?;
    Ok(out)
}

/// What comes of compressing bytes.
pub open spec fn packed(bytes: Seq<u8>) -> Result<Seq<u8>, ErrorView> {
    match gzipped(bytes) {
        Ok(out) => Ok(out),
        Err(words) => Err(ErrorView::Outside(words)),
    }
}

/// The bytes in fewer bytes, which decode to them.
pub fn compress(bytes: &[u8]) -> (res: Result<Vec<u8>, Error>)
    ensures
        (match res {
            Ok(out) => Ok(out@),
            Err(error) => Err(error@),
        }) == packed(bytes@),
        res is Ok ==> gunzipped(res->Ok_0@) == Some(bytes@),
{
    match gzip(bytes) {
        Ok(out) => Ok(out),
        Err(words) => Err(Error::Outside(words)),
    }
}

/// The bytes that were compressed, unless they are more than `max`.
pub fn decompress(bytes: &[u8], max: u64) -> (res: Result<Vec<u8>, Error>)
    ensures
        match gunzipped(bytes@) {
            Some(all) => max < u64::MAX || all.len() <= max ==> (match res {
                Ok(out) => Ok(out@),
                Err(error) => Err(error@),
            }) == unpacked(all, max),
            None => max < u64::MAX ==> res is Err && (res->Err_0 is Outside || res->Err_0@
                == ErrorView::InputExceeds(max)),
        },
{
    match gunzip(bytes, read_ahead(max)) {
        Ok(out) => read_bounded(out, max),
        Err(words) => Err(Error::Outside(words)),
    }
}

/// What comes of unpacking a whole gzip member that decodes to `all`.
pub open spec fn unpacked(all: Seq<u8>, max: u64) -> Result<Seq<u8>, ErrorView> {
    if all.len() <= max {
        Ok(all)
    } else {
        Err(ErrorView::InputExceeds(max))
    }
}

/// What was compressed comes back whole, if it is within the limit: what `compress` gives decodes
/// to its input, and `decompress` gives back what its input decodes to.
pub proof fn law_round_trip(small: Seq<u8>, bytes: Seq<u8>, max: u64)
    requires
        gunzipped(small) == Some(bytes),
        bytes.len() <= max,
    ensures
        unpacked(gunzipped(small)->0, max) == Ok::<Seq<u8>, ErrorView>(bytes),
{
}

/// What decodes to more than the limit is refused, and the refusal names the limit.
pub proof fn law_too_large(bytes: Seq<u8>, max: u64)
    requires
        bytes.len() > max,
    ensures
        unpacked(bytes, max) == Err::<Seq<u8>, ErrorView>(ErrorView::InputExceeds(max)),
{
}

} // verus!
