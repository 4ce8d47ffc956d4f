//! The timing metadata of ordinary RIFF/WAVE bodies.

use crate::resource::{has_riff_wave_magic, riff_wave_magic};
use vstd::prelude::*;

verus! {

/// The byte rate of a WAVE `fmt ` chunk and the length of its `data`
/// chunk; the duration in seconds is `data_bytes / byte_rate`.
#[derive(Debug, Clone, Copy, PartialEq, Eq, Structural)]
pub struct WavTiming {
    pub byte_rate: u32,
    pub data_bytes: u32,
}

/// The little-endian 32-bit value at `at`.
pub open spec fn le_u32(b: Seq<u8>, at: int) -> int {
    b[at] as int + b[at + 1] as int * 256 + b[at + 2] as int * 65536 + b[at + 3] as int
        * 16777216
}

pub open spec fn chunk_is(b: Seq<u8>, at: int, c0: u8, c1: u8, c2: u8, c3: u8) -> bool {
    b[at] == c0 && b[at + 1] == c1 && b[at + 2] == c2 && b[at + 3] == c3
}

/// Walks the RIFF chunks from `cursor`, remembering the latest `fmt ` byte
/// rate (of a chunk of at least 12 bytes) and `data` length, and stopping
/// once both are known. `None` marks a chunk that overruns the body.
pub open spec fn wav_scan(b: Seq<u8>, cursor: int, rate: Option<int>, data: Option<int>) -> Option<
    (Option<int>, Option<int>),
>
    decreases b.len() + 2 - cursor,
{
    if cursor < 0 || cursor + 8 > usize::MAX {
        None
    } else if cursor + 8 > b.len() {
        Some((rate, data))
    } else {
        let length = le_u32(b, cursor + 4);
        let body = cursor + 8;
        let end = body + length;
        if end > b.len() {
            None
        } else {
            let is_fmt = chunk_is(b, cursor, 102, 109, 116, 32) && length >= 12;
            let is_data = chunk_is(b, cursor, 100, 97, 116, 97);
            let rate2 = if is_fmt {
                Some(le_u32(b, body + 8))
            } else {
                rate
            };
            let data2 = if !is_fmt && is_data {
                Some(length)
            } else {
                data
            };
            if rate2 is Some && data2 is Some {
                Some((rate2, data2))
            } else if end + length % 2 > usize::MAX {
                None
            } else {
                wav_scan(b, end + length % 2, rate2, data2)
            }
        }
    }
}

/// The timing of a RIFF/WAVE body with a nonzero byte rate and a nonempty
/// data chunk; opaque or unusual bodies have none.
pub open spec fn wav_timing_of(b: Seq<u8>) -> Option<WavTiming> {
    if !has_riff_wave_magic(b) {
        None
    } else {
        match wav_scan(b, 12, None, None) {
            Some((Some(r), Some(d))) => if r == 0 || d == 0 {
                None
            } else {
                Some(WavTiming { byte_rate: r as u32, data_bytes: d as u32 })
            },
            _ => None,
        }
    }
}

fn read_le_u32(b: &[u8], at: usize) -> (v: u32)
    requires
        at + 4 <= b@.len(),
    ensures
        v as int == le_u32(b@, at as int),
{
    let v = b[at] as u32 + b[at + 1] as u32 * 256 + b[at + 2] as u32 * 65536 + b[at + 3] as u32
        * 16777216;
    v
}

/// Reads the byte rate and data length of an ordinary RIFF/WAVE body.
pub fn wav_timing(bytes: &[u8]) -> (r: Option<WavTiming>)
    ensures
        r == wav_timing_of(bytes@),
{
    if !riff_wave_magic(bytes) {
        return None;
    }
    let n = bytes.len();
    let mut cursor: usize = 12;
    let mut rate: Option<u32> = None;
    let mut data: Option<u32> = None;
    loop
        invariant_except_break
            !(rate is Some && data is Some),
        invariant
            n == bytes@.len(),
            has_riff_wave_magic(bytes@),
            wav_scan(bytes@, 12, None, None) == wav_scan(
                bytes@,
                cursor as int,
                match rate {
                    Some(r) => Some(r as int),
                    None => None,
                },
                match data {
                    Some(d) => Some(d as int),
                    None => None,
                },
            ),
        ensures
            wav_scan(bytes@, 12, None, None) == Some(
                (
                    match rate {
                        Some(r) => Some(r as int),
                        None => None,
                    },
                    match data {
                        Some(d) => Some(d as int),
                        None => None,
                    },
                ),
            ),
        decreases n + 2 - cursor,
    {
        if cursor > usize::MAX - 8 {
            return None;
        }
        if cursor + 8 > n {
            break ;
        }
        let length = read_le_u32(bytes, cursor + 4);
        let body = cursor + 8;
        if length as usize > n - body {
            return None;
        }
        let end = body + length as usize;
        let is_fmt = bytes[cursor] == 102 && bytes[cursor + 1] == 109 && bytes[cursor + 2] == 116
            && bytes[cursor + 3] == 32 && length >= 12;
        let is_data = bytes[cursor] == 100 && bytes[cursor + 1] == 97 && bytes[cursor + 2] == 116
            && bytes[cursor + 3] == 97;
        if is_fmt {
            rate = Some(read_le_u32(bytes, body + 8));
        } else if is_data {
            data = Some(length);
        }
        if rate.is_some() && data.is_some() {
            break ;
        }
        let pad = (length % 2) as usize;
        if end > usize::MAX - pad {
            return None;
        }
        cursor = end + pad;
    }
    match (rate, data) {
        (Some(r), Some(d)) => {
            if r == 0 || d == 0 {
                None
            } else {
                Some(WavTiming { byte_rate: r, data_bytes: d })
            }
        },
        _ => None,
    }
}

/// A well-formed RIFF chunk: a four-byte id, a little-endian length, that
/// many bytes, and one pad byte after an odd length.
pub open spec fn is_chunk(c: Seq<u8>) -> bool {
    c.len() >= 8 && c.len() == 8 + le_u32(c, 4) + le_u32(c, 4) % 2
}

/// `piece` stands at `at` in `b`.
pub open spec fn stands_at(b: Seq<u8>, at: int, piece: Seq<u8>) -> bool {
    0 <= at && at + piece.len() <= b.len() && forall|i: int|
        0 <= i < piece.len() ==> #[trigger] b[at + i] == piece[i]
}

proof fn lemma_read_piece(b: Seq<u8>, at: int, c: Seq<u8>)
    requires
        stands_at(b, at, c),
        c.len() >= 8,
    ensures
        le_u32(b, at + 4) == le_u32(c, 4),
        c.len() >= 20 ==> le_u32(b, at + 16) == le_u32(c, 16),
        chunk_is(b, at, 102, 109, 116, 32) == chunk_is(c, 0, 102, 109, 116, 32),
        chunk_is(b, at, 100, 97, 116, 97) == chunk_is(c, 0, 100, 97, 116, 97),
{
    assert(b[at + 0] == c[0]);
    assert(b[at + 1] == c[1]);
    assert(b[at + 2] == c[2]);
    assert(b[at + 3] == c[3]);
    assert(b[at + 4] == c[4]);
    assert(b[at + 5] == c[5]);
    assert(b[at + 6] == c[6]);
    assert(b[at + 7] == c[7]);
    if c.len() >= 20 {
        assert(b[at + 16] == c[16]);
        assert(b[at + 17] == c[17]);
        assert(b[at + 18] == c[18]);
        assert(b[at + 19] == c[19]);
    }
}

/// Timing is read from the `fmt ` and `data` chunks alone: a body laid out
/// as its RIFF/WAVE header, a `fmt ` chunk, a `data` chunk and any tail has
/// the same timing when any other well-formed chunk is inserted before the
/// `fmt ` chunk or between the two, and that timing is the `fmt ` chunk's byte rate with the
/// `data` chunk's length (none where either is zero).
pub proof fn lemma_other_chunks_do_not_change_timing(
    header: Seq<u8>,
    fmt: Seq<u8>,
    other: Seq<u8>,
    data: Seq<u8>,
    tail: Seq<u8>,
)
    requires
        header.len() == 12,
        has_riff_wave_magic(header),
        is_chunk(fmt),
        chunk_is(fmt, 0, 102, 109, 116, 32),
        le_u32(fmt, 4) >= 12,
        is_chunk(other),
        !chunk_is(other, 0, 102, 109, 116, 32),
        !chunk_is(other, 0, 100, 97, 116, 97),
        is_chunk(data),
        chunk_is(data, 0, 100, 97, 116, 97),
        (header + fmt + other + data + tail).len() + 8 <= usize::MAX,
    ensures
        wav_timing_of(header + fmt + other + data + tail) == wav_timing_of(
            header + fmt + data + tail,
        ),
        wav_timing_of(header + other + fmt + data + tail) == wav_timing_of(
            header + fmt + data + tail,
        ),
        wav_timing_of(header + fmt + data + tail) == (if le_u32(fmt, 16) == 0 || le_u32(data, 4)
            == 0 {
            None
        } else {
            Some(
                WavTiming {
                    byte_rate: le_u32(fmt, 16) as u32,
                    data_bytes: le_u32(data, 4) as u32,
                },
            )
        }),
{
    let y = header + fmt + other + data + tail;
    let x = header + fmt + data + tail;
    let c1: int = 12 + fmt.len() as int;
    let c2: int = c1 + other.len() as int;
    let rate = le_u32(fmt, 16);
    let len = le_u32(data, 4);
    assert(stands_at(y, 0, header));
    assert(stands_at(x, 0, header));
    assert(stands_at(y, 12, fmt));
    assert(stands_at(x, 12, fmt));
    assert(stands_at(y, c1, other));
    assert(stands_at(y, c2, data));
    assert(stands_at(x, c1, data));
    assert forall|i: int| 0 <= i < 12 implies #[trigger] y[i] == header[i] && x[i] == header[i] by {
        assert(y[0 + i] == header[i]);
        assert(x[0 + i] == header[i]);
    }
    assert(has_riff_wave_magic(y));
    assert(has_riff_wave_magic(x));
    lemma_read_piece(y, 12, fmt);
    lemma_read_piece(x, 12, fmt);
    lemma_read_piece(y, c1, other);
    lemma_read_piece(y, c2, data);
    lemma_read_piece(x, c1, data);
    let lf = le_u32(fmt, 4);
    assert(12 + 8 + lf + lf % 2 == c1);
    assert(wav_scan(y, 12, None, None) == wav_scan(y, c1, Some(rate), None));
    assert(wav_scan(x, 12, None, None) == wav_scan(x, c1, Some(rate), None));
    let lo = le_u32(other, 4);
    assert(c1 + 8 + lo + lo % 2 == c2);
    assert(wav_scan(y, c1, Some(rate), None) == wav_scan(y, c2, Some(rate), None));
    assert(wav_scan(y, c2, Some(rate), None) == Some((Some(rate), Some(len))));
    assert(wav_scan(x, c1, Some(rate), None) == Some((Some(rate), Some(len))));

    let z = header + other + fmt + data + tail;
    let o1: int = 12 + other.len() as int;
    assert(stands_at(z, 12, other));
    assert(stands_at(z, o1, fmt));
    assert(stands_at(z, c2, data));
    assert forall|i: int| 0 <= i < 12 implies #[trigger] z[i] == header[i] by {
        assert(z[0 + i] == header[i]);
    }
    assert(has_riff_wave_magic(z));
    lemma_read_piece(z, 12, other);
    lemma_read_piece(z, o1, fmt);
    lemma_read_piece(z, c2, data);
    assert(12 + 8 + lo + lo % 2 == o1);
    assert(o1 + 8 + lf + lf % 2 == c2);
    assert(wav_scan(z, 12, None, None) == wav_scan(z, o1, None, None));
    assert(wav_scan(z, o1, None, None) == wav_scan(z, c2, Some(rate), None));
    assert(wav_scan(z, c2, Some(rate), None) == Some((Some(rate), Some(len))));
}

} // verus!
