//! The sandbox's bounds and the checks it makes before any untrusted size reaches the host:
//! per-execution limits, the module-size cap, and the shape of a map call's buffers.

use vstd::prelude::*;

use crate::text::{decimal, push_decimal};
use crate::vm::le32;

verus! {

/// Maximum table elements a Facet may allocate.
pub const MAX_TABLE_ELEMENTS: usize = 10000;

/// Maximum accepted Facet module size (WASM or WAT bytes).
pub const MAX_MODULE_BYTES: usize = 8388608;

/// Resource bounds for a single Facet execution.
#[derive(Debug, Clone, Copy, PartialEq, Eq, Structural)]
pub struct Limits {
    /// Deterministic instruction budget. Execution traps when it reaches zero.
    pub fuel: u64,
    /// Maximum linear memory the module may allocate, in bytes.
    pub max_memory_bytes: usize,
}

impl Default for Limits {
    fn default() -> (l: Limits)
        ensures
            l.fuel == 100000000,
            l.max_memory_bytes == 16777216,
    {
        Limits { fuel: 100000000, max_memory_bytes: 16777216 }
    }
}

/// `count * elem_size` as a byte length usable as a 32-bit wasm address, or why not.
pub open spec fn wasm_len_of(count: int, elem_size: int) -> Result<usize, Seq<char>> {
    if count * elem_size > usize::MAX {
        Err("buffer length overflows usize"@)
    } else if count * elem_size > i32::MAX {
        Err("buffer length "@ + decimal((count * elem_size) as nat) + " exceeds 32-bit wasm addressing"@)
    } else {
        Ok((count * elem_size) as usize)
    }
}

/// Compute `count * elem_size` as a byte length usable as a 32-bit wasm address, rejecting
/// overflow or anything exceeding `i32::MAX`.
pub fn checked_wasm_len(count: usize, elem_size: usize) -> (r: Result<usize, String>)
    ensures
        match wasm_len_of(count as int, elem_size as int) {
            Ok(n) => r == Ok::<usize, String>(n),
            Err(m) => r matches Err(e) && e@ == m,
        },
{
    let bytes = match count.checked_mul(elem_size) {
        Some(b) => b,
        None => return Err("buffer length overflows usize".to_owned()),
    };
    if bytes > 2147483647 {
        let mut m = String::new();
        m.append("buffer length ");
        push_decimal(&mut m, bytes as u64);
        m.append(" exceeds 32-bit wasm addressing");
        return Err(m);
    }
    Ok(bytes)
}

/// Refuse a module over [`MAX_MODULE_BYTES`] before it is compiled.
pub fn check_module_size(len: usize) -> (r: Result<(), String>)
    ensures
        len <= MAX_MODULE_BYTES ==> r is Ok,
        len > MAX_MODULE_BYTES ==> (r matches Err(m) && m@ == "Facet module is "@ + decimal(len as nat)
            + " bytes, exceeding the 8388608-byte limit"@),
{
    if len > MAX_MODULE_BYTES {
        let mut m = String::new();
        m.append("Facet module is ");
        push_decimal(&mut m, len as u64);
        m.append(" bytes, exceeding the 8388608-byte limit");
        return Err(m);
    }
    Ok(())
}

/// The shape of a gather call: a non-zero stride, exactly `ncells * stride` features, and
/// cell count and stride that fit an `i32`.
pub open spec fn map_shape_of(features_len: int, ncells: int, stride: int) -> Result<(i32, i32), Seq<char>> {
    if stride == 0 {
        Err("stride must be non-zero"@)
    } else if ncells * stride > usize::MAX {
        Err("ncells * stride overflows"@)
    } else if features_len != ncells * stride {
        Err("features length "@ + decimal(features_len as nat) + " != ncells * stride ("@ + decimal(
            (ncells * stride) as nat,
        ) + ")"@)
    } else if ncells > i32::MAX {
        Err("too many cells"@)
    } else if stride > i32::MAX {
        Err("stride too large"@)
    } else {
        Ok((ncells as i32, stride as i32))
    }
}

/// Check a gather call's buffers before anything is marshalled: returns the cell count
/// and stride as the `i32`s the guest receives.
pub fn check_map_shape(features_len: usize, ncells: usize, stride: usize) -> (r: Result<(i32, i32), String>)
    ensures
        match map_shape_of(features_len as int, ncells as int, stride as int) {
            Ok(v) => r == Ok::<(i32, i32), String>(v),
            Err(m) => r matches Err(e) && e@ == m,
        },
{
    if stride == 0 {
        return Err("stride must be non-zero".to_owned());
    }
    let expected = match ncells.checked_mul(stride) {
        Some(v) => v,
        None => return Err("ncells * stride overflows".to_owned()),
    };
    if features_len != expected {
        let mut m = String::new();
        m.append("features length ");
        push_decimal(&mut m, features_len as u64);
        m.append(" != ncells * stride (");
        push_decimal(&mut m, expected as u64);
        m.append(")");
        return Err(m);
    }
    if ncells > 2147483647 {
        return Err("too many cells".to_owned());
    }
    if stride > 2147483647 {
        return Err("stride too large".to_owned());
    }
    Ok((ncells as i32, stride as i32))
}

/// The shape of a propagation call: a non-zero stride, exactly `cols * rows * stride`
/// features, and dimensions that fit an `i32`.
pub open spec fn map2d_shape_of(features_len: int, cols: int, rows: int, stride: int) -> Result<(usize, i32, i32, i32), Seq<char>> {
    if stride == 0 {
        Err("stride must be non-zero"@)
    } else if cols * rows > usize::MAX {
        Err("cols * rows overflows"@)
    } else if cols * rows * stride > usize::MAX {
        Err("cols * rows * stride overflows"@)
    } else if features_len != cols * rows * stride {
        Err("features length "@ + decimal(features_len as nat) + " != cols * rows * stride ("@
            + decimal((cols * rows * stride) as nat) + ")"@)
    } else if cols > i32::MAX {
        Err("too many columns"@)
    } else if rows > i32::MAX {
        Err("too many rows"@)
    } else if stride > i32::MAX {
        Err("stride too large"@)
    } else {
        Ok(((cols * rows) as usize, cols as i32, rows as i32, stride as i32))
    }
}

/// Check a propagation call's buffers: returns the cell count, and the columns, rows and
/// stride as the `i32`s the guest receives.
pub fn check_map2d_shape(features_len: usize, cols: usize, rows: usize, stride: usize) -> (r: Result<(usize, i32, i32, i32), String>)
    ensures
        match map2d_shape_of(features_len as int, cols as int, rows as int, stride as int) {
            Ok(v) => r == Ok::<(usize, i32, i32, i32), String>(v),
            Err(m) => r matches Err(e) && e@ == m,
        },
{
    if stride == 0 {
        return Err("stride must be non-zero".to_owned());
    }
    let ncells = match cols.checked_mul(rows) {
        Some(v) => v,
        None => return Err("cols * rows overflows".to_owned()),
    };
    let expected = match ncells.checked_mul(stride) {
        Some(v) => v,
        None => return Err("cols * rows * stride overflows".to_owned()),
    };
    if features_len != expected {
        let mut m = String::new();
        m.append("features length ");
        push_decimal(&mut m, features_len as u64);
        m.append(" != cols * rows * stride (");
        push_decimal(&mut m, expected as u64);
        m.append(")");
        return Err(m);
    }
    if cols > 2147483647 {
        return Err("too many columns".to_owned());
    }
    if rows > 2147483647 {
        return Err("too many rows".to_owned());
    }
    if stride > 2147483647 {
        return Err("stride too large".to_owned());
    }
    Ok((ncells, cols as i32, rows as i32, stride as i32))
}

/// The little-endian bytes of `words`, four per word, in order: how values cross into a
/// Facet's memory.
pub fn le_bytes(words: &[u32]) -> (b: Vec<u8>)
    requires
        words@.len() * 4 <= usize::MAX,
    ensures
        b@.len() == 4 * words@.len(),
        forall|i: int| 0 <= i < words@.len() ==> #[trigger] le32(b@, 4 * i) == words@[i],
{
    let mut b: Vec<u8> = Vec::new();
    let mut i: usize = 0;
    while i < words.len()
        invariant
            i <= words@.len(),
            b@.len() == 4 * i,
            forall|k: int| 0 <= k < i ==> #[trigger] le32(b@, 4 * k) == words@[k],
        decreases words@.len() - i,
    {
        let w = words[i];
        let ghost before = b@;
        b.push((w % 256) as u8);
        b.push(((w / 256) % 256) as u8);
        b.push(((w / 65536) % 256) as u8);
        b.push((w / 16777216) as u8);
        proof {
            assert forall|k: int| 0 <= k < i implies #[trigger] le32(b@, 4 * k) == words@[k] by {
                assert(le32(before, 4 * k) == words@[k]);
                assert(b@[4 * k] == before[4 * k] && b@[4 * k + 1] == before[4 * k + 1]);
                assert(b@[4 * k + 2] == before[4 * k + 2] && b@[4 * k + 3] == before[4 * k + 3]);
            }
            assert(le32(b@, 4 * i) == w);
        }
        i += 1;
    }
    b
}

/// The words whose little-endian bytes `bytes` holds, four bytes each: how values come back
/// out of a Facet's memory.
pub fn le_words(bytes: &[u8]) -> (w: Vec<u32>)
    requires
        bytes@.len() % 4 == 0,
    ensures
        4 * w@.len() == bytes@.len(),
        forall|i: int| 0 <= i < w@.len() ==> #[trigger] w@[i] as int == le32(bytes@, 4 * i),
{
    let mut w: Vec<u32> = Vec::new();
    let mut i: usize = 0;
    let len = bytes.len();
    let n = len / 4;
    while i < n
        invariant
            len == bytes@.len(),
            n * 4 == bytes@.len(),
            i <= n,
            w@.len() == i,
            forall|k: int| 0 <= k < i ==> #[trigger] w@[k] as int == le32(bytes@, 4 * k),
        decreases n - i,
    {
        let b0 = bytes[4 * i] as u32;
        let b1 = bytes[4 * i + 1] as u32;
        let b2 = bytes[4 * i + 2] as u32;
        let b3 = bytes[4 * i + 3] as u32;
        w.push(b0 + b1 * 256 + b2 * 65536 + b3 * 16777216);
        i += 1;
    }
    w
}

/// Reading back what was written: the words [`le_words`] reads from the bytes [`le_bytes`]
/// wrote are the words that were written.
pub proof fn lemma_le_words_read_back(words: Seq<u32>, bytes: Seq<u8>, back: Seq<u32>)
    requires
        bytes.len() == 4 * words.len(),
        forall|i: int| 0 <= i < words.len() ==> #[trigger] le32(bytes, 4 * i) == words[i],
        4 * back.len() == bytes.len(),
        forall|i: int| 0 <= i < back.len() ==> #[trigger] back[i] as int == le32(bytes, 4 * i),
    ensures
        back == words,
{
    assert forall|i: int| 0 <= i < back.len() implies back[i] == words[i] by {
        assert(le32(bytes, 4 * i) == words[i]);
    }
    assert(back =~= words);
}

} // verus!
