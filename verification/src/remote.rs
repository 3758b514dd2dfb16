//! The remote memory reader.
//!
//! A stopped tracee's memory can only be read one machine word at a time.
//! To reconstruct a typed record of `size` bytes at a target address, the
//! reader pulls `ceil(size / 8)` words, the word with index `i` from
//! `address + i * 8`, lays their bytes out in order, and discards the extra
//! bytes of the final partial word.  A single failed word read is fatal to
//! the reconstruction and is reported with its word index; nothing is
//! zero-filled.  One known kernel record is reconstructed, keyed on one
//! known syscall number, as proof of the mechanism.

use crate::sys;
use crate::trace::TraceError;
use vstd::prelude::*;

verus! {

/// Machine-word granularity of remote reads, in bytes.
pub const WORD_SIZE: usize = 8;

/// The byte size of the kernel's file-status record on the one 64-bit
/// calling convention this tracer supports.
pub const STAT_SIZE: usize = 144;

/// The syscall number whose completion triggers reconstruction of that
/// record from the address in the call's third argument register.
pub const RECONSTRUCT_SYSCALL: u64 = 262;

/// How many words cover `size` bytes.
pub open spec fn word_count(size: usize) -> int {
    (size + 7) / 8
}

/// Byte `k` (0 is least significant) of one machine word's bit pattern.
pub open spec fn word_byte(w: i64, k: u64) -> u8 {
    (((w as u64) >> ((8 * k) as u64)) & 0xff) as u8
}

/// The bytes of a word sequence, laid out word by word, each word least
/// significant byte first.
pub open spec fn words_bytes(words: Seq<i64>) -> Seq<u8> {
    Seq::new((words.len() * 8) as nat, |i: int| word_byte(words[i / 8], (i % 8) as u64))
}

/// Lays the words' bytes out in order and truncates to `size`: the buffer
/// is exactly `size` bytes, even when `size` is not a multiple of the word
/// size, and byte `i` is byte `i % 8` of word `i / 8`.
pub fn assemble_bytes(words: &Vec<i64>, size: usize) -> (r: Vec<u8>)
    requires
        size <= usize::MAX - 7,
        words@.len() == word_count(size),
    ensures
        r@.len() == size,
        r@ == words_bytes(words@).subrange(0, size as int),
{
    let n = words.len();
    proof {
        assert(8 * n <= usize::MAX && 8 * n >= size) by (nonlinear_arith)
            requires
                n == (size + 7) / 8,
                size <= usize::MAX - 7,
        ;
    }
    let mut buf: Vec<u8> = Vec::new();
    let mut i: usize = 0;
    while i < n
        invariant
            i <= n,
            n == words@.len(),
            8 * n <= usize::MAX,
            buf@.len() == 8 * i,
            forall|j: int| 0 <= j < 8 * i ==> #[trigger] buf@[j] == words_bytes(words@)[j],
        decreases n - i,
    {
        let w = words[i];
        let mut k: usize = 0;
        while k < 8
            invariant
                k <= 8,
                i < n,
                n == words@.len(),
                8 * n <= usize::MAX,
                w == words@[i as int],
                buf@.len() == 8 * i + k,
                forall|j: int| 0 <= j < 8 * i + k ==> #[trigger] buf@[j] == words_bytes(words@)[j],
            decreases 8 - k,
        {
            let b = (((w as u64) >> ((8 * k) as u64)) & 0xff) as u8;
            buf.push(b);
            proof {
                let j = 8 * (i as int) + k;
                assert(j / 8 == i && j % 8 == k) by (nonlinear_arith)
                    requires
                        0 <= i,
                        0 <= k < 8,
                        j == 8 * (i as int) + k,
                ;
                assert(buf@[j] == word_byte(words@[i as int], k as u64));
                assert(words_bytes(words@)[j] == word_byte(words@[j / 8], (j % 8) as u64));
            }
            k = k + 1;
        }
        i = i + 1;
    }
    buf.truncate(size);
    proof {
        assert(buf@ =~= words_bytes(words@).subrange(0, size as int));
    }
    buf
}

/// The unsigned 64-bit value whose little-endian bytes sit at `off`.
pub open spec fn le_u64_at(s: Seq<u8>, off: int) -> u64 {
    (s[off] as u64) | ((s[off + 1] as u64) << 8) | ((s[off + 2] as u64) << 16) | ((s[off
        + 3] as u64) << 24) | ((s[off + 4] as u64) << 32) | ((s[off + 5] as u64) << 40) | ((s[off
        + 6] as u64) << 48) | ((s[off + 7] as u64) << 56)
}

/// The unsigned 32-bit value whose little-endian bytes sit at `off`.
pub open spec fn le_u32_at(s: Seq<u8>, off: int) -> u32 {
    (s[off] as u32) | ((s[off + 1] as u32) << 8) | ((s[off + 2] as u32) << 16) | ((s[off
        + 3] as u32) << 24)
}

/// Reads the little-endian 64-bit value at `off`.
fn le_u64(bytes: &Vec<u8>, off: usize) -> (r: u64)
    requires
        off <= usize::MAX - 8,
        off + 8 <= bytes@.len(),
    ensures
        r == le_u64_at(bytes@, off as int),
{
    (bytes[off] as u64) | ((bytes[off + 1] as u64) << 8) | ((bytes[off + 2] as u64) << 16) | ((
    bytes[off + 3] as u64) << 24) | ((bytes[off + 4] as u64) << 32) | ((bytes[off + 5] as u64)
        << 40) | ((bytes[off + 6] as u64) << 48) | ((bytes[off + 7] as u64) << 56)
}

/// Reads the little-endian 32-bit value at `off`.
fn le_u32(bytes: &Vec<u8>, off: usize) -> (r: u32)
    requires
        off <= usize::MAX - 4,
        off + 4 <= bytes@.len(),
    ensures
        r == le_u32_at(bytes@, off as int),
{
    (bytes[off] as u32) | ((bytes[off + 1] as u32) << 8) | ((bytes[off + 2] as u32) << 16) | ((
    bytes[off + 3] as u32) << 24)
}

/// The kernel's file-status record, reinterpreted from the reconstructed
/// byte buffer: the fields sit at the fixed offsets of the 64-bit layout.
#[derive(Debug, Clone, Copy, PartialEq, Eq, Structural)]
pub struct StatRecord {
    pub dev: u64,
    pub ino: u64,
    pub nlink: u64,
    pub mode: u32,
    pub uid: u32,
    pub gid: u32,
    pub rdev: u64,
    pub size: i64,
    pub blksize: i64,
    pub blocks: i64,
}

impl StatRecord {
    /// Reinterprets a reconstructed buffer of exactly the record's size:
    /// every field is the little-endian value at its fixed offset.
    pub fn from_bytes(bytes: &Vec<u8>) -> (r: StatRecord)
        requires
            bytes@.len() == STAT_SIZE,
        ensures
            r.dev == le_u64_at(bytes@, 0),
            r.ino == le_u64_at(bytes@, 8),
            r.nlink == le_u64_at(bytes@, 16),
            r.mode == le_u32_at(bytes@, 24),
            r.uid == le_u32_at(bytes@, 28),
            r.gid == le_u32_at(bytes@, 32),
            r.rdev == le_u64_at(bytes@, 40),
            r.size == le_u64_at(bytes@, 48) as i64,
            r.blksize == le_u64_at(bytes@, 56) as i64,
            r.blocks == le_u64_at(bytes@, 64) as i64,
    {
        StatRecord {
            dev: le_u64(bytes, 0),
            ino: le_u64(bytes, 8),
            nlink: le_u64(bytes, 16),
            mode: le_u32(bytes, 24),
            uid: le_u32(bytes, 28),
            gid: le_u32(bytes, 32),
            rdev: le_u64(bytes, 40),
            size: le_u64(bytes, 48) as i64,
            blksize: le_u64(bytes, 56) as i64,
            blocks: le_u64(bytes, 64) as i64,
        }
    }
}

/// Reads `size` bytes of the tracee's memory starting at `addr`, word by
/// word, the word with index `i` from `addr + i * 8`.  The buffer that
/// comes back has exactly `size` bytes and is the in-order byte layout of
/// the words the kernel handed over, truncated to `size`.  A range that
/// would wrap the 64-bit address space is refused outright; a failed word
/// read aborts the reconstruction and names the word.
pub fn read_remote_bytes(pid: i32, addr: u64, size: usize, syscall: u64) -> (r: Result<
    Vec<u8>,
    TraceError,
>)
    requires
        size <= usize::MAX - 7,
    ensures
        r matches Ok(b) ==> b@.len() == size && exists|words: Seq<i64>|
            words.len() == word_count(size) && b@ == words_bytes(words).subrange(0, size as int),
        (match r {
            Err(TraceError::AddressRange { .. }) => true,
            _ => false,
        }) <==> word_count(size) > 0 && addr + 8 * word_count(size) - 1 > u64::MAX,
        r matches Err(e) ==> (e matches TraceError::AddressRange { syscall: s } ==> s == syscall)
            && (e matches TraceError::AddressRange { .. } || e matches TraceError::MemRead { .. }),
{
    let wc = (size + 7) / 8;
    proof {
        assert(8 * wc <= usize::MAX) by (nonlinear_arith)
            requires
                wc == (size + 7) / 8,
                size <= usize::MAX - 7,
        ;
    }
    if wc > 0 && addr > u64::MAX - (8 * (wc as u64) - 1) {
        return Err(TraceError::AddressRange { syscall });
    }
    let mut words: Vec<i64> = Vec::new();
    let mut w: usize = 0;
    while w < wc
        invariant
            w <= wc,
            words@.len() == w,
            wc == word_count(size),
            8 * wc <= usize::MAX,
            wc > 0 ==> addr + 8 * (wc as int) - 1 <= u64::MAX,
        decreases wc - w,
    {
        proof {
            assert(8 * (w as int) <= 8 * (wc as int) - 8) by (nonlinear_arith)
                requires
                    w < wc,
            ;
        }
        let a = addr + 8 * (w as u64);
        match sys::peek_word(pid, a) {
            Ok(word) => {
                words.push(word);
            },
            Err(errno) => {
                return Err(TraceError::MemRead { syscall, word_index: w, errno });
            },
        }
        w = w + 1;
    }
    let buf = assemble_bytes(&words, size);
    proof {
        assert(words@.len() == word_count(size) && buf@ == words_bytes(words@).subrange(
            0,
            size as int,
        ));
    }
    Ok(buf)
}

/// Reconstructs the kernel file-status record out of the tracee's memory
/// at `addr`: exactly `STAT_SIZE` bytes, read at word granularity, then
/// reinterpreted field by field.
pub fn read_remote_stat(pid: i32, addr: u64) -> (r: Result<StatRecord, TraceError>)
    ensures
        r matches Ok(rec) ==> exists|b: Seq<u8>|
            {
                &&& b.len() == STAT_SIZE
                &&& rec.dev == le_u64_at(b, 0)
                &&& rec.ino == le_u64_at(b, 8)
                &&& rec.nlink == le_u64_at(b, 16)
                &&& rec.mode == le_u32_at(b, 24)
                &&& rec.uid == le_u32_at(b, 28)
                &&& rec.gid == le_u32_at(b, 32)
                &&& rec.rdev == le_u64_at(b, 40)
                &&& rec.size == le_u64_at(b, 48) as i64
                &&& rec.blksize == le_u64_at(b, 56) as i64
                &&& rec.blocks == le_u64_at(b, 64) as i64
            },
{
    let bytes = match read_remote_bytes(pid, addr, STAT_SIZE, RECONSTRUCT_SYSCALL) {
        Ok(b) => b,
        Err(e) => {
            return Err(e);
        },
    };
    let rec = StatRecord::from_bytes(&bytes);
    proof {
        let b = bytes@;
        assert(b.len() == STAT_SIZE && rec.dev == le_u64_at(b, 0));
    }
    Ok(rec)
}

} // verus!
