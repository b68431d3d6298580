use vstd::prelude::*;
use crate::api::Rectangle;
use crate::registry::{Registry, lookup};

verus! {

/// The gzip stream that flate2's encoder makes of `data` at the default level,
/// or `None` where encoding fails.
pub uninterp spec fn gzip_of(data: Seq<u8>) -> Option<Seq<u8>>;

/// The bytes that flate2's decoder recovers from the gzip stream `data`, or
/// `None` where `data` is not a well-formed stream.
pub uninterp spec fn gunzip_of(data: Seq<u8>) -> Option<Seq<u8>>;

/// Relies on flate2::write::GzEncoder (with `Compression::default()`, through
/// `write_all` and `finish`) to compress `data` into a gzip stream.
#[verifier::external_body]
fn gzip(data: &[u8]) -> (r: Option<Vec<u8>>)
    ensures
        match r {
            Some(v) => gzip_of(data@) == Some(v@),
            None => gzip_of(data@) is None,
        },
{
    let mut e = flate2::write::GzEncoder::new(Vec::new(), flate2::Compression::default());
    match std::io::Write::write_all(&mut e, data) {
        Ok(()) => e.finish().ok(),
        Err(_) => None,
    }
}

/// Relies on flate2::read::GzDecoder (through `read_to_end`) to decompress the
/// gzip stream `data`.
#[verifier::external_body]
fn gunzip(data: &[u8]) -> (r: Option<Vec<u8>>)
    ensures
        match r {
            Some(v) => gunzip_of(data@) == Some(v@),
            None => gunzip_of(data@) is None,
        },
{
    let mut out = Vec::new();
    match std::io::Read::read_to_end(&mut flate2::read::GzDecoder::new(data), &mut out) {
        Ok(_) => Some(out),
        Err(_) => None,
    }
}

/// Bytes in the pixel buffer of `tile`: four (red, green, blue, padding) per
/// pixel.
pub open spec fn buffer_len(tile: Rectangle) -> nat {
    tile.area() * 4
}

/// The length of the pixel buffer of `tile`, or `None` where it does not fit
/// in a `usize`.
pub fn buffer_len_of(tile: Rectangle) -> (r: Option<usize>)
    ensures
        match r {
            Some(n) => n == buffer_len(tile),
            None => buffer_len(tile) > usize::MAX,
        },
{
    match tile.width.checked_mul(tile.height) {
        Some(a) => {
            let r = a.checked_mul(4);
            proof {
                if r is None {
                    assert(buffer_len(tile) == a * 4);
                }
            }
            r
        },
        None => {
            proof {
                if tile.height > 0 {
                    assert(tile.area() * 4 >= tile.area()) by (nonlinear_arith);
                }
            }
            None
        },
    }
}

/// Why a tile's pixels could not be sent or received.
#[derive(Clone, Copy, Debug, PartialEq, Eq, Structural)]
pub enum TransferError {
    /// The buffer's length is not four bytes per pixel of the tile.
    WrongSize,
    /// The compressor failed.
    Compression,
}

/// The body an agent posts back for a finished `tile`: its pixel buffer,
/// gzip-compressed.
pub fn encode_result(tile: Rectangle, pixels: &Vec<u8>) -> (r: Result<Vec<u8>, TransferError>)
    ensures
        pixels@.len() != buffer_len(tile) ==> r == Err::<Vec<u8>, TransferError>(
            TransferError::WrongSize,
        ),
        pixels@.len() == buffer_len(tile) ==> match r {
            Ok(body) => gzip_of(pixels@) == Some(body@),
            Err(e) => e == TransferError::Compression && gzip_of(pixels@) is None,
        },
{
    let len = pixels.len();
    match buffer_len_of(tile) {
        Some(n) => {
            if len != n {
                return Err(TransferError::WrongSize);
            }
        },
        None => {
            return Err(TransferError::WrongSize);
        },
    }
    match gzip(pixels.as_slice()) {
        Some(body) => Ok(body),
        None => Err(TransferError::Compression),
    }
}

/// A tile sent to a remote agent, and where its pixels go when they return.
pub struct PendingTile<C> {
    pub tile: Rectangle,
    pub sink: C,
}

/// What became of a response to a task.
pub enum Delivery<C> {
    /// The task was pending and its pixels are well formed: here they are,
    /// with the tile and the sink they go to. The task is no longer pending.
    Delivered { tile: Rectangle, sink: C, pixels: Vec<u8> },
    /// No task with this identifier is pending: it never was, or it was
    /// delivered before.
    Unknown,
    /// The body is not a gzip stream.
    Corrupt,
    /// The pixels are not four bytes per pixel of the tile.
    WrongSize,
}

/// Routes the decompressed pixels of a response to task `id` (`None` where the
/// body could not be decompressed).
pub fn accept_pixels<C>(
    pending: &mut Registry<PendingTile<C>>,
    id: u64,
    pixels: Option<Vec<u8>>,
) -> (r: Delivery<C>)
    requires
        old(pending).wf(),
    ensures
        final(pending).wf(),
        final(pending)@.next == old(pending)@.next,
        match lookup(old(pending)@.entries, id) {
            None => r is Unknown && final(pending)@ == old(pending)@,
            Some(p) => match pixels {
                None => r is Corrupt && final(pending)@ == old(pending)@,
                Some(v) => if v@.len() == buffer_len(p.tile) {
                    &&& r matches Delivery::Delivered { tile, sink, pixels: out }
                    &&& tile == p.tile && sink == p.sink && out@ == v@
                    &&& final(pending)@.entries == old(pending)@.entries.remove(id)
                } else {
                    r is WrongSize && final(pending)@ == old(pending)@
                },
            },
        },
{
    let expected = match pending.get(id) {
        None => {
            return Delivery::Unknown;
        },
        Some(p) => buffer_len_of(p.tile),
    };
    let v = match pixels {
        None => {
            return Delivery::Corrupt;
        },
        Some(v) => v,
    };
    let len = v.len();
    match expected {
        Some(n) => {
            if len != n {
                return Delivery::WrongSize;
            }
        },
        None => {
            return Delivery::WrongSize;
        },
    }
    match pending.take(id) {
        Some(p) => Delivery::Delivered { tile: p.tile, sink: p.sink, pixels: v },
        None => Delivery::Unknown,
    }
}

/// Routes the body of a response to task `id`: decompresses it and, when the
/// task is pending and the pixels fit its tile, hands them out once.
pub fn deliver<C>(pending: &mut Registry<PendingTile<C>>, id: u64, body: &Vec<u8>) -> (r: Delivery<
    C,
>)
    requires
        old(pending).wf(),
    ensures
        final(pending).wf(),
        final(pending)@.next == old(pending)@.next,
        match lookup(old(pending)@.entries, id) {
            None => r is Unknown && final(pending)@ == old(pending)@,
            Some(p) => match gunzip_of(body@) {
                None => r is Corrupt && final(pending)@ == old(pending)@,
                Some(v) => if v.len() == buffer_len(p.tile) {
                    &&& r matches Delivery::Delivered { tile, sink, pixels: out }
                    &&& tile == p.tile && sink == p.sink && out@ == v
                    &&& final(pending)@.entries == old(pending)@.entries.remove(id)
                } else {
                    r is WrongSize && final(pending)@ == old(pending)@
                },
            },
        },
{
    if pending.get(id).is_none() {
        return Delivery::Unknown;
    }
    let pixels = gunzip(body.as_slice());
    accept_pixels(pending, id, pixels)
}

} // verus!
