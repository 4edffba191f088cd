//! RIFF/WAVE layout: where the PCM data of a WAV file lies and how it is
//! encoded.

use vstd::prelude::*;

use crate::sfz::Error;

verus! {

/// Where the sample data of a WAV file lies, and its format.
#[derive(Debug, Clone, Copy, PartialEq, Eq, Structural)]
pub struct WavLayout {
    pub num_channels: u16,
    pub sample_rate: u32,
    pub bits_per_sample: u16,
    /// First byte of the sample data.
    pub data_offset: usize,
    /// One past the last byte of the sample data (at most the file length).
    pub data_end: usize,
}

/// Why a byte string is not a WAV file that can be read.
#[derive(Debug, Clone, Copy, PartialEq, Eq, Structural)]
pub enum WavError {
    /// Fewer than 44 bytes.
    TooShort,
    /// No `RIFF` / `WAVE` header.
    NotWav,
    /// No `fmt ` chunk right after the header.
    MissingFmt,
    /// No `data` chunk.
    NoData,
}

/// Little-endian 16-bit value at `i`.
pub open spec fn le16(d: Seq<u8>, i: int) -> int {
    d[i] as int + d[i + 1] as int * 256
}

/// Little-endian 32-bit value at `i`.
pub open spec fn le32(d: Seq<u8>, i: int) -> int {
    d[i] as int + d[i + 1] as int * 256 + d[i + 2] as int * 65536 + d[i + 3] as int * 16777216
}

/// Whether the four bytes at `i` are `a b c e`.
pub open spec fn tag_at(d: Seq<u8>, i: int, a: u8, b: u8, c: u8, e: u8) -> bool {
    d[i] == a && d[i + 1] == b && d[i + 2] == c && d[i + 3] == e
}

/// The position of the first chunk headed `data` in the chain of chunks
/// starting at `pos` (each chunk is an 8-byte header and its size, padded
/// to an even length), if one starts before the last 8 bytes.
pub open spec fn find_data(d: Seq<u8>, pos: int) -> Option<int>
    decreases (if d.len() >= pos {
        d.len() - pos
    } else {
        0
    }),
{
    if pos < 0 || pos + 8 > d.len() {
        None
    } else if tag_at(d, pos, 0x64, 0x61, 0x74, 0x61) {
        Some(pos)
    } else {
        let size = le32(d, pos + 4);
        find_data(d, pos + 8 + size + size % 2)
    }
}

/// The layout of WAV bytes: a 44-byte minimum, `RIFF`….`WAVE`, a `fmt `
/// chunk at byte 12 giving channels, rate and bits, then the first `data`
/// chunk after it; the data length is capped at the end of the bytes.
pub open spec fn wav_layout_spec(d: Seq<u8>) -> Result<WavLayout, WavError> {
    if d.len() < 44 {
        Err(WavError::TooShort)
    } else if !tag_at(d, 0, 0x52, 0x49, 0x46, 0x46) || !tag_at(d, 8, 0x57, 0x41, 0x56, 0x45) {
        Err(WavError::NotWav)
    } else if !tag_at(d, 12, 0x66, 0x6d, 0x74, 0x20) {
        Err(WavError::MissingFmt)
    } else {
        match find_data(d, 20 + le32(d, 16)) {
            None => Err(WavError::NoData),
            Some(ds) => {
                let off = ds + 8;
                let end = off + le32(d, ds + 4);
                Ok(
                    WavLayout {
                        num_channels: le16(d, 22) as u16,
                        sample_rate: le32(d, 24) as u32,
                        bits_per_sample: le16(d, 34) as u16,
                        data_offset: off as usize,
                        data_end: (if end <= d.len() {
                            end
                        } else {
                            d.len() as int
                        }) as usize,
                    },
                )
            },
        }
    }
}

pub(crate) fn read_le16(d: &[u8], i: usize) -> (r: u16)
    requires
        i + 2 <= d@.len(),
    ensures
        r as int == le16(d@, i as int),
{
    d[i] as u16 + d[i + 1] as u16 * 256
}

pub(crate) fn read_le32(d: &[u8], i: usize) -> (r: u32)
    requires
        i + 4 <= d@.len(),
    ensures
        r as int == le32(d@, i as int),
{
    d[i] as u32 + d[i + 1] as u32 * 256 + d[i + 2] as u32 * 65536 + d[i + 3] as u32 * 16777216
}

/// Reads the layout of WAV bytes (see [`wav_layout_spec`]).
pub fn wav_layout(d: &[u8]) -> (r: Result<WavLayout, WavError>)
    ensures
        r == wav_layout_spec(d@),
{
    let len = d.len();
    if len < 44 {
        return Err(WavError::TooShort);
    }
    if !(d[0] == 0x52 && d[1] == 0x49 && d[2] == 0x46 && d[3] == 0x46) || !(d[8] == 0x57 && d[9]
        == 0x41 && d[10] == 0x56 && d[11] == 0x45) {
        return Err(WavError::NotWav);
    }
    if !(d[12] == 0x66 && d[13] == 0x6d && d[14] == 0x74 && d[15] == 0x20) {
        return Err(WavError::MissingFmt);
    }
    let fmt_size = read_le32(d, 16);
    let num_channels = read_le16(d, 22);
    let sample_rate = read_le32(d, 24);
    let bits_per_sample = read_le16(d, 34);
    let mut pos: u128 = 20 + fmt_size as u128;
    let ghost start = pos as int;
    loop
        invariant
            d@.len() == len,
            len >= 44,
            start == 20 + le32(d@, 16),
            tag_at(d@, 0, 0x52, 0x49, 0x46, 0x46),
            tag_at(d@, 8, 0x57, 0x41, 0x56, 0x45),
            tag_at(d@, 12, 0x66, 0x6d, 0x74, 0x20),
            num_channels as int == le16(d@, 22),
            sample_rate as int == le32(d@, 24),
            bits_per_sample as int == le16(d@, 34),
            pos as int <= len as int + 0x2_0000_0010,
            find_data(d@, pos as int) == find_data(d@, start),
        decreases len as int + 0x2_0000_0010 - pos as int,
    {
        if pos + 8 > len as u128 {
            return Err(WavError::NoData);
        }
        let p = pos as usize;
        if d[p] == 0x64 && d[p + 1] == 0x61 && d[p + 2] == 0x74 && d[p + 3] == 0x61 {
            let size = read_le32(d, p + 4) as u128;
            let off = pos + 8;
            let end = off + size;
            let data_end = if end <= len as u128 {
                end as usize
            } else {
                len
            };
            return Ok(
                WavLayout {
                    num_channels,
                    sample_rate,
                    bits_per_sample,
                    data_offset: off as usize,
                    data_end,
                },
            );
        }
        let size = read_le32(d, p + 4) as u128;
        pos = pos + 8 + size + size % 2;
    }
}

impl WavError {
    /// The loading error for this reason.
    pub fn into_error(self) -> (e: Error)
        ensures
            e matches Error::Parse(m) && m@ == (match self {
                WavError::TooShort => "WAV file too short"@,
                WavError::NotWav => "Not a valid WAV file"@,
                WavError::MissingFmt => "Missing fmt chunk in WAV"@,
                WavError::NoData => "No data chunk found in WAV"@,
            }),
    {
        match self {
            WavError::TooShort => Error::Parse("WAV file too short".to_owned()),
            WavError::NotWav => Error::Parse("Not a valid WAV file".to_owned()),
            WavError::MissingFmt => Error::Parse("Missing fmt chunk in WAV".to_owned()),
            WavError::NoData => Error::Parse("No data chunk found in WAV".to_owned()),
        }
    }
}

/// Whether sample data of this bit depth can be decoded: 8, 16, 24 or 32.
pub open spec fn supported_depth(bits: u16) -> bool {
    bits == 8 || bits == 16 || bits == 24 || bits == 32
}

/// Decimal digits of `n`, most significant first.
pub open spec fn decimal(n: nat) -> Seq<char>
    decreases n,
{
    if n < 10 {
        seq![(n + 48) as char]
    } else {
        decimal(n / 10).push(((n % 10) + 48) as char)
    }
}

fn decimal_string(n: u16) -> (r: Vec<char>)
    ensures
        r@ == decimal(n as nat),
    decreases n,
{
    if n < 10 {
        let mut v: Vec<char> = Vec::new();
        v.push((n as u8 + 48) as char);
        assert(v@ =~= decimal(n as nat));
        v
    } else {
        let mut v = decimal_string(n / 10);
        v.push(((n % 10) as u8 + 48) as char);
        v
    }
}

/// An unsupported bit depth is an error naming it.
pub fn check_bit_depth(bits: u16) -> (r: Result<(), Error>)
    ensures
        supported_depth(bits) ==> r is Ok,
        !supported_depth(bits) ==> (r matches Err(Error::Parse(m)) && m@ == "Unsupported bit depth: "@
            + decimal(bits as nat)),
{
    if bits == 8 || bits == 16 || bits == 24 || bits == 32 {
        Ok(())
    } else {
        let prefix = "Unsupported bit depth: ";
        let mut msg: Vec<char> = crate::text::chars_of(prefix);
        let digits = decimal_string(bits);
        let ghost p = msg@;
        msg.append(&mut digits.clone());
        assert(msg@ == p + digits@);
        Err(Error::Parse(crate::text::string_from_chars(msg.as_slice())))
    }
}

proof fn lemma_find_data(d: Seq<u8>, pos: int)
    ensures
        find_data(d, pos) matches Some(x) ==> pos <= x && x + 8 <= d.len() && tag_at(d, x, 0x64, 0x61, 0x74, 0x61),
    decreases (if d.len() >= pos {
        d.len() - pos
    } else {
        0
    }),
{
    if !(pos < 0 || pos + 8 > d.len()) && !tag_at(d, pos, 0x64, 0x61, 0x74, 0x61) {
        let size = le32(d, pos + 4);
        lemma_find_data(d, pos + 8 + size + size % 2);
    }
}

/// Whatever the bytes, a layout that is found points at a `data` chunk
/// (its 8-byte header just before `data_offset`) that starts after the
/// `fmt ` chunk, and its data lies within the bytes.
pub proof fn law_layout_points_at_data(d: Seq<u8>)
    requires
        d.len() <= usize::MAX,
    ensures
        wav_layout_spec(d) matches Ok(l) ==> {
            &&& 20 + le32(d, 16) + 8 <= l.data_offset
            &&& l.data_offset <= l.data_end <= d.len()
            &&& tag_at(d, l.data_offset - 8, 0x64, 0x61, 0x74, 0x61)
        },
{
    if d.len() >= 44 {
        lemma_find_data(d, 20 + le32(d, 16));
        lemma_le32_bound(d, 16);
        if let Some(x) = find_data(d, 20 + le32(d, 16)) {
            lemma_le32_bound(d, x + 4);
        }
    }
}

proof fn lemma_le32_bound(d: Seq<u8>, i: int)
    ensures
        0 <= i && i + 4 <= d.len() ==> 0 <= le32(d, i) < 0x1_0000_0000,
        0 <= i && i + 2 <= d.len() ==> 0 <= le16(d, i) < 0x1_0000,
{
}

/// The header of a WAV file: bytes `RIFF`, `WAVE` and a `fmt ` chunk at
/// byte 12 whose size field is `n`.
pub open spec fn wav_header(d: Seq<u8>) -> bool {
    &&& d.len() >= 44
    &&& tag_at(d, 0, 0x52, 0x49, 0x46, 0x46)
    &&& tag_at(d, 8, 0x57, 0x41, 0x56, 0x45)
    &&& tag_at(d, 12, 0x66, 0x6d, 0x74, 0x20)
}

/// The scan for the data starts right after the `fmt ` chunk, whatever its
/// size `n` (16, 18, 40, ...): when a `data` chunk follows it directly, the
/// samples start 8 bytes after that chunk's start, `20 + n + 8`, and run for
/// its size or to the end of the bytes; when another chunk of size `m`
/// comes first, it is skipped, padded to an even length. The format fields
/// are read from the `fmt ` chunk.
pub proof fn law_data_follows_fmt(d: Seq<u8>)
    requires
        wav_header(d),
        d.len() <= usize::MAX,
    ensures
        ({
            let ds = 20 + le32(d, 16);
            ds + 8 <= d.len() && tag_at(d, ds, 0x64, 0x61, 0x74, 0x61) ==> (wav_layout_spec(d) matches Ok(l) && {
                &&& l.data_offset == ds + 8
                &&& l.data_end == (if ds + 8 + le32(d, ds + 4) <= d.len() { ds + 8 + le32(d, ds + 4) } else { d.len() as int })
                &&& l.num_channels == d[22] + 256 * d[23]
                &&& l.sample_rate == le32(d, 24)
                &&& l.bits_per_sample == d[34] + 256 * d[35]
            })
        }),
        ({
            let ds = 20 + le32(d, 16);
            let m = le32(d, ds + 4);
            let next = ds + 8 + m + m % 2;
            ds + 8 <= d.len() && !tag_at(d, ds, 0x64, 0x61, 0x74, 0x61) && next + 8 <= d.len() && tag_at(d, next, 0x64, 0x61, 0x74, 0x61)
                ==> (wav_layout_spec(d) matches Ok(l) && l.data_offset == next + 8)
        }),
{
    let ds = 20 + le32(d, 16);
    lemma_le32_bound(d, 16);
    lemma_le32_bound(d, 24);
    lemma_le32_bound(d, 22);
    lemma_le32_bound(d, 34);
    if ds + 8 <= d.len() {
        lemma_le32_bound(d, ds + 4);
        if tag_at(d, ds, 0x64, 0x61, 0x74, 0x61) {
            assert(find_data(d, ds) == Some(ds));
        } else {
            let m = le32(d, ds + 4);
            let next = ds + 8 + m + m % 2;
            assert(find_data(d, ds) == find_data(d, next));
            if next + 8 <= d.len() && tag_at(d, next, 0x64, 0x61, 0x74, 0x61) {
                assert(find_data(d, next) == Some(next));
            }
        }
    }
}

} // verus!
