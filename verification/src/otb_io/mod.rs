//! Readers for the two static data files: the item catalogue and the map.
//!
//! Both files are trees of blocks. A block starts with a start marker and
//! ends with an end marker; a byte of the content that looks like a marker
//! is preceded by an escape byte.

pub mod item_loader;
pub mod map_loader;

use crate::connection::string_push;
use vstd::prelude::*;

verus! {

/// The byte that starts a block.
pub const OTB_BLOCK_START: u8 = 0xFE;

/// The byte that ends a block.
pub const OTB_BLOCK_END: u8 = 0xFF;

/// The byte that makes the marker behind it a byte of the content.
pub const OTB_ESCAPE_CHARACTER: u8 = 0xFD;

/// Why static data could not be loaded.
#[derive(Clone, Copy, Debug, PartialEq, Eq, Structural)]
pub enum LoadError {
    /// The file ends where more of it was expected.
    UnexpectedEnd,
    /// The map names a server id that the catalogue does not know.
    UnknownServerId(u16),
    /// The catalogue has no entry for a client id that an item of the map
    /// has.
    UnknownItem(u16),
    /// A tile lies outside the coordinate space.
    PositionOutOfRange,
}

/// Whether `byte` is one of the three bytes that an escape byte protects.
pub open spec fn is_marker(byte: u8) -> bool {
    byte == OTB_BLOCK_END || byte == OTB_BLOCK_START || byte == OTB_ESCAPE_CHARACTER
}

/// The content byte at `idx` of `bytes`, with the index behind it: the byte
/// itself, or, for an escape byte in front of a marker, that marker as
/// content. Nothing at the end of `bytes`, nor for an escape byte that is
/// the last byte.
pub open spec fn otb_u8(bytes: Seq<u8>, idx: int) -> Option<(u8, int)> {
    if idx < 0 || idx >= bytes.len() {
        None
    } else if bytes[idx] == OTB_ESCAPE_CHARACTER {
        if idx + 1 >= bytes.len() {
            None
        } else if is_marker(bytes[idx + 1]) {
            Some((bytes[idx + 1], idx + 2))
        } else {
            Some((bytes[idx], idx + 1))
        }
    } else {
        Some((bytes[idx], idx + 1))
    }
}

/// A start or end marker at the index is read as itself, alone; a marker
/// that is read from anything else is content, read together with the
/// escape byte in front of it.
pub proof fn markers_and_content(bytes: Seq<u8>, idx: int)
    ensures
        otb_u8(bytes, idx) matches Some((byte, next)) ==> {
            &&& bytes[idx] == OTB_BLOCK_START || bytes[idx] == OTB_BLOCK_END ==> byte == bytes[idx]
                && next == idx + 1
            &&& is_marker(byte) && bytes[idx] != byte ==> bytes[idx] == OTB_ESCAPE_CHARACTER
                && bytes[idx + 1] == byte && next == idx + 2
        },
{
}

/// The little-endian `u16` made of the two content bytes at `idx`, with the
/// index behind them.
pub open spec fn otb_u16_le(bytes: Seq<u8>, idx: int) -> Option<(u16, int)> {
    match otb_u8(bytes, idx) {
        Some((first, i1)) => match otb_u8(bytes, i1) {
            Some((second, i2)) => Some(((first + 256 * second) as u16, i2)),
            None => None,
        },
        None => None,
    }
}

/// Whether a block ends at `idx` of `bytes`. Nothing at the end of
/// `bytes`.
///
/// Where content is read byte by byte from `idx` on, an end marker at `idx`
/// is a real one: an end marker that is content stands behind its escape
/// byte and is read together with it.
pub open spec fn otb_block_end(bytes: Seq<u8>, idx: int) -> Option<bool> {
    if 0 <= idx < bytes.len() {
        Some(bytes[idx] == OTB_BLOCK_END)
    } else {
        None
    }
}

/// Whether a block starts at `idx` of `bytes`. Nothing at the end of
/// `bytes`.
///
/// Where content is read byte by byte from `idx` on, a start or end marker
/// at `idx` is a real one: a marker that is content stands behind its
/// escape byte and is read together with it.
pub open spec fn otb_block_start(bytes: Seq<u8>, idx: int) -> Option<bool> {
    if 0 <= idx < bytes.len() {
        Some(bytes[idx] == OTB_BLOCK_START)
    } else {
        None
    }
}

/// The index behind the first end marker from `idx` on that is not content:
/// content bytes are passed over one after the other, an escaped marker
/// among them, until an end marker stands at the index. Nothing if the
/// bytes end before.
pub open spec fn otb_skip(bytes: Seq<u8>, idx: int) -> Option<int>
    decreases bytes.len() - idx,
{
    if idx < 0 || idx >= bytes.len() {
        None
    } else if bytes[idx] == OTB_BLOCK_END {
        Some(idx + 1)
    } else {
        match otb_u8(bytes, idx) {
            Some((_, next)) => otb_skip(bytes, next),
            None => None,
        }
    }
}

/// The index behind the `n` content bytes at `idx`. Nothing if the bytes
/// end before.
pub open spec fn otb_pass(bytes: Seq<u8>, idx: int, n: nat) -> Option<int>
    decreases n,
{
    if n == 0 {
        if 0 <= idx <= bytes.len() {
            Some(idx)
        } else {
            None
        }
    } else {
        match otb_u8(bytes, idx) {
            Some((_, next)) => otb_pass(bytes, next, (n - 1) as nat),
            None => None,
        }
    }
}

/// Passing over content bytes never moves the index back or past the end.
pub proof fn otb_pass_advances(bytes: Seq<u8>, idx: int, n: nat)
    ensures
        otb_pass(bytes, idx, n) matches Some(next) ==> idx + n <= next <= bytes.len(),
    decreases n,
{
    if n > 0 {
        match otb_u8(bytes, idx) {
            Some((_, next)) => {
                otb_pass_advances(bytes, next, (n - 1) as nat);
            },
            None => {},
        }
    }
}

/// The `n` characters made of the `n` content bytes at `idx`, one character
/// for each byte, with the index behind them.
pub open spec fn otb_chars(bytes: Seq<u8>, idx: int, n: nat) -> Option<(Seq<char>, int)>
    decreases n,
{
    if n == 0 {
        if 0 <= idx <= bytes.len() {
            Some((Seq::empty(), idx))
        } else {
            None
        }
    } else {
        match otb_u8(bytes, idx) {
            Some((byte, i1)) => match otb_chars(bytes, i1, (n - 1) as nat) {
                Some((rest, i2)) => Some((seq![byte as char] + rest, i2)),
                None => None,
            },
            None => None,
        }
    }
}

/// The string at `idx`, with the index behind it: a little-endian `u16`
/// that counts the content bytes, then as many content bytes.
pub open spec fn otb_str(bytes: Seq<u8>, idx: int) -> Option<(Seq<char>, int)> {
    match otb_u16_le(bytes, idx) {
        Some((len, i1)) => otb_chars(bytes, i1, len as nat),
        None => None,
    }
}

/// Reading characters never moves the index back or past the end.
pub proof fn otb_chars_advances(bytes: Seq<u8>, idx: int, n: nat)
    ensures
        otb_chars(bytes, idx, n) matches Some((_, next)) ==> idx + n <= next <= bytes.len(),
    decreases n,
{
    if n > 0 {
        match otb_u8(bytes, idx) {
            Some((_, i1)) => {
                otb_chars_advances(bytes, i1, (n - 1) as nat);
            },
            None => {},
        }
    }
}

/// Reading a string moves the index forward, at most to the end.
pub proof fn otb_str_advances(bytes: Seq<u8>, idx: int)
    ensures
        otb_str(bytes, idx) matches Some((_, next)) ==> idx + 2 <= next <= bytes.len(),
{
    match otb_u16_le(bytes, idx) {
        Some((len, i1)) => {
            otb_chars_advances(bytes, i1, len as nat);
        },
        None => {},
    }
}

/// Skipping a block moves the index forward, at most to the end.
pub proof fn otb_skip_advances(bytes: Seq<u8>, idx: int)
    ensures
        otb_skip(bytes, idx) matches Some(next) ==> idx < next <= bytes.len(),
    decreases bytes.len() - idx,
{
    if 0 <= idx < bytes.len() && bytes[idx] != OTB_BLOCK_END {
        match otb_u8(bytes, idx) {
            Some((_, next)) => {
                otb_skip_advances(bytes, next);
            },
            None => {},
        }
    }
}

/// Reads one content byte at `*idx` and moves `*idx` behind it. At the end
/// of `bytes` it fails and leaves `*idx` as it was.
pub fn read_u8_otb(idx: &mut usize, bytes: &[u8]) -> (res: Result<u8, LoadError>)
    ensures
        match otb_u8(bytes@, *old(idx) as int) {
            Some((byte, next)) => res == Ok::<u8, LoadError>(byte) && *final(idx) == next,
            None => res == Err::<u8, LoadError>(LoadError::UnexpectedEnd) && *final(idx) == *old(
                idx,
            ),
        },
{
    if *idx >= bytes.len() {
        return Err(LoadError::UnexpectedEnd);
    }
    let mut byte: u8 = bytes[*idx];
    if byte == OTB_ESCAPE_CHARACTER {
        if *idx + 1 >= bytes.len() {
            return Err(LoadError::UnexpectedEnd);
        }
        let next: u8 = bytes[*idx + 1];
        if next == OTB_BLOCK_END || next == OTB_BLOCK_START || next == OTB_ESCAPE_CHARACTER {
            *idx += 1;
            byte = next;
        }
    }
    *idx += 1;
    Ok(byte)
}

/// Reads a little-endian `u16` made of two content bytes at `*idx` and
/// moves `*idx` behind it. At the end of `bytes` it fails and leaves `*idx`
/// as it was.
pub fn read_u16_le_otb(idx: &mut usize, bytes: &[u8]) -> (res: Result<u16, LoadError>)
    ensures
        match otb_u16_le(bytes@, *old(idx) as int) {
            Some((word, next)) => res == Ok::<u16, LoadError>(word) && *final(idx) == next,
            None => res == Err::<u16, LoadError>(LoadError::UnexpectedEnd) && *final(idx) == *old(
                idx,
            ),
        },
{
    let start: usize = *idx;
    let first: u8 = match read_u8_otb(idx, bytes) {
        Ok(v) => v,
        Err(e) => {
            return Err(e);
        },
    };
    let second: u8 = match read_u8_otb(idx, bytes) {
        Ok(v) => v,
        Err(e) => {
            *idx = start;
            return Err(e);
        },
    };
    Ok(first as u16 + 256 * (second as u16))
}

/// Tells whether the byte at `idx` ends a block. At the end of `bytes` it
/// fails.
pub fn is_otb_block_end(idx: usize, bytes: &[u8]) -> (res: Result<bool, LoadError>)
    ensures
        match otb_block_end(bytes@, idx as int) {
            Some(end) => res == Ok::<bool, LoadError>(end),
            None => res == Err::<bool, LoadError>(LoadError::UnexpectedEnd),
        },
{
    if idx < bytes.len() {
        Ok(bytes[idx] == OTB_BLOCK_END)
    } else {
        Err(LoadError::UnexpectedEnd)
    }
}

/// Tells whether a block starts at `idx`. At the end of `bytes` it fails.
pub fn is_otb_block_start(idx: usize, bytes: &[u8]) -> (res: Result<bool, LoadError>)
    ensures
        match otb_block_start(bytes@, idx as int) {
            Some(start) => res == Ok::<bool, LoadError>(start),
            None => res == Err::<bool, LoadError>(LoadError::UnexpectedEnd),
        },
{
    if idx < bytes.len() {
        Ok(bytes[idx] == OTB_BLOCK_START)
    } else {
        Err(LoadError::UnexpectedEnd)
    }
}

/// Moves `*idx` behind the first end marker from `*idx` on that is not
/// content. Where the bytes end before, it fails and leaves `*idx` as it
/// was.
pub fn skip_otb_block(idx: &mut usize, bytes: &[u8]) -> (res: Result<(), LoadError>)
    ensures
        match otb_skip(bytes@, *old(idx) as int) {
            Some(next) => res == Ok::<(), LoadError>(()) && *final(idx) == next,
            None => res == Err::<(), LoadError>(LoadError::UnexpectedEnd) && *final(idx) == *old(
                idx,
            ),
        },
{
    let start: usize = *idx;
    loop
        invariant
            start == *old(idx),
            start <= *idx,
            bytes.len() == bytes@.len(),
            otb_skip(bytes@, start as int) == otb_skip(bytes@, *idx as int),
        decreases bytes@.len() - *idx,
    {
        match is_otb_block_end(*idx, bytes) {
            Ok(true) => {
                *idx += 1;
                return Ok(());
            },
            Ok(false) => {},
            Err(e) => {
                *idx = start;
                return Err(e);
            },
        }
        match read_u8_otb(idx, bytes) {
            Ok(_) => {},
            Err(e) => {
                *idx = start;
                return Err(e);
            },
        }
    }
}

/// Moves `*idx` behind the `n` content bytes at `*idx`. Where the bytes end
/// before, it fails and leaves `*idx` as it was.
pub fn pass_otb_bytes(idx: &mut usize, bytes: &[u8], n: usize) -> (res: Result<(), LoadError>)
    ensures
        match otb_pass(bytes@, *old(idx) as int, n as nat) {
            Some(next) => res == Ok::<(), LoadError>(()) && *final(idx) == next,
            None => res == Err::<(), LoadError>(LoadError::UnexpectedEnd) && *final(idx) == *old(
                idx,
            ),
        },
{
    let start: usize = *idx;
    if start > bytes.len() {
        proof {
            otb_pass_advances(bytes@, start as int, n as nat);
        }
        return Err(LoadError::UnexpectedEnd);
    }
    let mut done: usize = 0;
    while done < n
        invariant
            done <= n,
            start == *old(idx),
            *idx <= bytes@.len(),
            otb_pass(bytes@, start as int, n as nat) == otb_pass(
                bytes@,
                *idx as int,
                (n - done) as nat,
            ),
        decreases n - done,
    {
        match read_u8_otb(idx, bytes) {
            Ok(_) => {},
            Err(e) => {
                *idx = start;
                return Err(e);
            },
        }
        done += 1;
    }
    Ok(())
}

/// Reads a string at `*idx` and moves `*idx` behind it. At the end of
/// `bytes` it fails and leaves `*idx` as it was.
pub fn read_str_otb(idx: &mut usize, bytes: &[u8]) -> (res: Result<String, LoadError>)
    ensures
        match otb_str(bytes@, *old(idx) as int) {
            Some((text, next)) => res matches Ok(s) && s@ == text && *final(idx) == next,
            None => res matches Err(e) && e == LoadError::UnexpectedEnd && *final(idx) == *old(idx),
        },
{
    let start: usize = *idx;
    let len: u16 = match read_u16_le_otb(idx, bytes) {
        Ok(v) => v,
        Err(e) => {
            return Err(e);
        },
    };
    let ghost first = *idx as int;
    let mut text = String::new();
    let mut done: u16 = 0;
    while done < len
        invariant
            done <= len,
            *idx <= bytes@.len(),
            start == *old(idx),
            otb_u16_le(bytes@, start as int) == Some((len, first)),
            match otb_chars(bytes@, *idx as int, (len - done) as nat) {
                Some((rest, end)) => otb_chars(bytes@, first, len as nat) == Some(
                    (text@ + rest, end),
                ),
                None => otb_chars(bytes@, first, len as nat) is None,
            },
        decreases len - done,
    {
        let ghost before = text@;
        let byte: u8 = match read_u8_otb(idx, bytes) {
            Ok(v) => v,
            Err(e) => {
                *idx = start;
                return Err(e);
            },
        };
        string_push(&mut text, byte as char);
        done += 1;
        proof {
            match otb_chars(bytes@, *idx as int, (len - done) as nat) {
                Some((rest, end)) => {
                    assert(before + (seq![byte as char] + rest) =~= text@ + rest);
                },
                None => {},
            }
        }
    }
    proof {
        assert(text@ + Seq::<char>::empty() =~= text@);
    }
    Ok(text)
}

} // verus!
