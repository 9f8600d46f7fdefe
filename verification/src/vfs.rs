//! The decisions of the file-system shim: which pages a request touches,
//! which of them are opened or sealed, and what a fresh database begins with.
//!
//! The shim itself, which sits between the database engine and the operating
//! system's files, performs the reads and writes; everything it has to decide
//! is decided here.

use vstd::prelude::*;
use vstd::slice::slice_subrange;

use crate::backup::plaintext_magic;
use crate::crypto::page::{
    decrypt_result, encrypt_result, in_place, is_encrypted_page, tag_is_set,
};
use crate::error::EvfsError;
use crate::io::FileContext;
use crate::keyring::{dek_for_step, Keyring, KeyringState};
use crate::kms::KmsProvider;

verus! {

/// The open flag of the main database file.
pub const OPEN_MAIN_DB: i32 = 0x100;

/// The open flag that allows a file to be created.
pub const OPEN_CREATE: i32 = 0x4;

/// The smallest page, in bytes.
pub const MIN_PAGE_SIZE: u32 = 512;

/// The largest page, in bytes.
pub const MAX_PAGE_SIZE: u32 = 65536;

/// The smallest reserve: a 16-byte tag and six bytes to spare.
pub const MIN_RESERVE: usize = 22;

/// The largest reserve: what one byte of the file header can record.
pub const MAX_RESERVE: usize = 255;

/// Where in the file header the reserve is recorded.
pub const RESERVE_OFFSET: usize = 20;

/// Why the shim could not serve a request.
#[derive(Debug, Clone, Copy, PartialEq, Eq, Structural)]
pub enum VfsError {
    /// A page could not be opened, or the request does not fit the file's
    /// geometry: reported as a read failure.
    Read,
    /// A page could not be sealed, or the request does not fit the file's
    /// geometry: reported as a write failure.
    Write,
}

/// Whether a file opened with these flags is the main database file.
pub open spec fn is_main_db(flags: i32) -> bool {
    flags & OPEN_MAIN_DB != 0
}

/// Whether a file opened with these flags is a main database file that may
/// have just been created, so that its first page may have to be written.
pub open spec fn may_need_first_page(flags: i32) -> bool {
    is_main_db(flags) && flags & OPEN_CREATE != 0
}

/// The context of a file opened with `flags`: encryption is enabled for the
/// main database file and for no other.
pub fn context_for_open(flags: i32, page_size: u32, reserve_size: usize) -> (r: FileContext)
    ensures
        r.page_size == page_size,
        r.reserve_size == reserve_size,
        r.encrypt_enabled == is_main_db(flags),
        r.page_scope_map is None,
{
    FileContext {
        page_size,
        reserve_size,
        encrypt_enabled: (flags & OPEN_MAIN_DB) != 0,
        page_scope_map: None,
    }
}

/// Whether the first page may have to be written on this open.
pub fn needs_first_page(flags: i32) -> (r: bool)
    ensures
        r == may_need_first_page(flags),
{
    (flags & OPEN_MAIN_DB) != 0 && (flags & OPEN_CREATE) != 0
}

/// Whether a page size is one the engine knows: a power of two from 512 to
/// 65536.
pub open spec fn valid_page_size(page_size: u32) -> bool {
    MIN_PAGE_SIZE <= page_size <= MAX_PAGE_SIZE && page_size & ((page_size - 1) as u32) == 0
}

/// Whether a reserve is one the shim accepts: 22 to 255 bytes.
pub open spec fn valid_reserve(reserve: int) -> bool {
    MIN_RESERVE <= reserve <= MAX_RESERVE
}

/// Byte `i` of the first page of a fresh database: the 100-byte file header,
/// which records the page size and the reserve, then the header of an empty
/// table-leaf page, then zeros.
pub open spec fn first_page_byte(page_size: u32, reserve: int, i: int) -> u8 {
    let usable = page_size - reserve;
    if 0 <= i < 16 {
        plaintext_magic()[i]
    } else if i == 16 {
        if page_size == 65536 {
            0
        } else {
            (page_size / 256) as u8
        }
    } else if i == 17 {
        if page_size == 65536 {
            1
        } else {
            (page_size % 256) as u8
        }
    } else if i == 18 || i == 19 {
        1
    } else if i == 20 {
        reserve as u8
    } else if i == 21 {
        64
    } else if i == 22 || i == 23 {
        32
    } else if i == 27 || i == 31 || i == 43 || i == 59 || i == 95 {
        1
    } else if i == 47 {
        4
    } else if i == 97 {
        0x2e
    } else if i == 98 {
        0x76
    } else if i == 99 {
        0x89
    } else if i == 100 {
        0x0d
    } else if i == 105 {
        (usable / 256) as u8
    } else if i == 106 {
        (usable % 256) as u8
    } else {
        0
    }
}

/// The first page of a fresh database.
pub open spec fn first_page(page_size: u32, reserve: int) -> Seq<u8> {
    Seq::new(page_size as nat, |i: int| first_page_byte(page_size, reserve, i))
}

fn power_of_two(n: u32) -> (r: bool)
    requires
        n > 0,
    ensures
        r == (n & ((n - 1) as u32) == 0),
{
    n & (n - 1) == 0
}

/// The first page of a fresh database with this geometry; nothing for a
/// geometry that the shim does not accept.
pub fn build_first_page(page_size: u32, reserve: usize) -> (r: Option<Vec<u8>>)
    ensures
        valid_page_size(page_size) && valid_reserve(reserve as int) ==> r is Some && r->0@
            == first_page(page_size, reserve as int),
        !(valid_page_size(page_size) && valid_reserve(reserve as int)) ==> r is None,
{
    if page_size < MIN_PAGE_SIZE || page_size > MAX_PAGE_SIZE || !power_of_two(page_size) {
        return None;
    }
    if reserve < MIN_RESERVE || reserve > MAX_RESERVE {
        return None;
    }
    let usable: u32 = page_size - reserve as u32;
    let magic = "SQLite format 3\0".as_bytes();
    proof {
        reveal_strlit("SQLite format 3\0");
        assert(vstd::utf8::is_ascii_chars("SQLite format 3\0"@));
        vstd::utf8::is_ascii_chars_encode_utf8("SQLite format 3\0"@);
        assert(magic@.len() == 16);
    }
    let mut page: Vec<u8> = Vec::new();
    let mut i: usize = 0;
    while i < page_size as usize
        invariant
            i <= page_size,
            page@.len() == i,
            magic@ == plaintext_magic(),
            magic@.len() == 16,
            MIN_PAGE_SIZE <= page_size <= MAX_PAGE_SIZE,
            MIN_RESERVE <= reserve <= MAX_RESERVE,
            usable == page_size - reserve,
            forall|j: int| 0 <= j < i ==> page@[j] == first_page_byte(page_size, reserve as int, j),
        decreases page_size - i,
    {
        let b: u8 = if i < 16 {
            magic[i]
        } else if i == 16 {
            if page_size == 65536 {
                0
            } else {
                (page_size / 256) as u8
            }
        } else if i == 17 {
            if page_size == 65536 {
                1
            } else {
                (page_size % 256) as u8
            }
        } else if i == 18 || i == 19 {
            1
        } else if i == 20 {
            reserve as u8
        } else if i == 21 {
            64
        } else if i == 22 || i == 23 {
            32
        } else if i == 27 || i == 31 || i == 43 || i == 59 || i == 95 {
            1
        } else if i == 47 {
            4
        } else if i == 97 {
            0x2e
        } else if i == 98 {
            0x76
        } else if i == 99 {
            0x89
        } else if i == 100 {
            0x0d
        } else if i == 105 {
            (usable / 256) as u8
        } else if i == 106 {
            (usable % 256) as u8
        } else {
            0
        };
        page.push(b);
        i += 1;
    }
    assert(page@ =~= first_page(page_size, reserve as int));
    Some(page)
}

/// What opening a main database file has to write, given the size the file
/// has (`None` if the size could not be had).
pub enum FirstPage {
    /// The file's size is unknown, or the geometry is not accepted: the open
    /// fails.
    Fail,
    /// The file holds data already: nothing is written.
    Keep,
    /// The file is empty: this page is written at offset zero.
    Write(Vec<u8>),
}

/// Decides what to write into a main database file that may be new.
pub fn try_reserve_page1(size: Option<i64>, page_size: u32, reserve: usize) -> (r: FirstPage)
    ensures
        match size {
            None => r is Fail,
            Some(n) => if n != 0 {
                r is Keep
            } else if valid_page_size(page_size) && valid_reserve(reserve as int) {
                r is Write && r->Write_0@ == first_page(page_size, reserve as int)
            } else {
                r is Fail
            },
        },
{
    match size {
        None => FirstPage::Fail,
        Some(n) => {
            if n != 0 {
                FirstPage::Keep
            } else {
                match build_first_page(page_size, reserve) {
                    Some(page) => FirstPage::Write(page),
                    None => FirstPage::Fail,
                }
            }
        },
    }
}

/// The number of the page that holds the byte at `offset`: pages are
/// numbered from one.
pub open spec fn page_no_of(offset: int, page_size: int) -> int {
    offset / page_size + 1
}

/// The number of the page that holds the byte at `i_ofst`.
pub fn page_no_for_offset(i_ofst: i64, page_size: i64) -> (r: u32)
    requires
        0 <= i_ofst,
        0 < page_size,
        page_no_of(i_ofst as int, page_size as int) <= u32::MAX,
    ensures
        r == page_no_of(i_ofst as int, page_size as int),
{
    ((i_ofst as u64) / (page_size as u64)) as u32 + 1
}

/// The offset at which page `page_no` begins.
pub fn page_start_offset(page_no: u32, page_size: i64) -> (r: i64)
    requires
        1 <= page_no,
        0 < page_size <= MAX_PAGE_SIZE,
    ensures
        r == (page_no - 1) * page_size,
{
    assert((page_no - 1) * page_size <= 0xffff_ffff * 65536) by (nonlinear_arith)
        requires
            0 <= page_no - 1 <= 0xffff_ffff,
            0 < page_size <= 65536,
    ;
    assert((page_no - 1) * page_size >= 0) by (nonlinear_arith)
        requires
            0 <= page_no - 1,
            0 < page_size,
    ;
    (page_no as i64 - 1) * page_size
}

/// Whether a request is for exactly one whole page.
pub open spec fn whole_page(amt: i32, offset: i64, page_size: u32) -> bool {
    page_size > 0 && amt == page_size && offset >= 0 && offset % (page_size as i64) == 0
}

/// Whether a request is for exactly one whole page.
pub fn is_full_page(amt: i32, offset: i64, page_size: u32) -> (r: bool)
    ensures
        r == whole_page(amt, offset, page_size),
{
    page_size > 0 && amt >= 0 && amt as u32 == page_size && offset >= 0 && (offset as u64) % (
    page_size as u64) == 0
}

/// The part of one page that a request touches.
#[derive(Debug, Clone, Copy, PartialEq, Eq)]
pub struct Segment {
    /// The page's number, from one.
    pub page_no: u32,
    /// Where in the file the page begins.
    pub page_start: i64,
    /// Where in the page the part begins.
    pub in_page_off: usize,
    /// How long the part is.
    pub len: usize,
    /// Where in the request's buffer the part lies.
    pub buf_off: usize,
}

/// Where the page that holds `offset` begins.
pub open spec fn page_floor(offset: int, page_size: int) -> int {
    offset - offset % page_size
}

/// The `k`-th page, counted from zero, that the request for `amt` bytes at
/// `offset` touches, and the part of it that the request covers.
pub open spec fn segment_at(offset: int, amt: int, page_size: int, k: int) -> Segment {
    let p_start = page_floor(offset, page_size) + k * page_size;
    let seg_start = if offset > p_start {
        offset
    } else {
        p_start
    };
    let seg_end = if offset + amt < p_start + page_size {
        offset + amt
    } else {
        p_start + page_size
    };
    Segment {
        page_no: (page_no_of(offset, page_size) + k) as u32,
        page_start: p_start as i64,
        in_page_off: (seg_start - p_start) as usize,
        len: (seg_end - seg_start) as usize,
        buf_off: (seg_start - offset) as usize,
    }
}

/// Whether `n` is the number of pages that the request touches: the last of
/// them holds the request's last byte.
pub open spec fn touches(offset: int, amt: int, page_size: int, n: int) -> bool {
    n >= 1 && page_floor(offset, page_size) + (n - 1) * page_size < offset + amt <= page_floor(
        offset,
        page_size,
    ) + n * page_size
}

/// Whether a request can be served page by page: it asks for at least one
/// byte, lies within the file offsets there are, and touches no page whose
/// number is too great.
pub open spec fn servable(offset: int, amt: int, page_size: int) -> bool {
    &&& 0 < page_size <= MAX_PAGE_SIZE
    &&& 0 < amt <= i32::MAX
    &&& 0 <= offset
    &&& offset + amt <= i64::MAX
    &&& page_no_of(offset + amt - 1, page_size) <= u32::MAX
}

/// The parts of a request lie one behind the other in the request's buffer,
/// each within its page, and together they cover the request.
pub proof fn lemma_segments_tile(offset: int, amt: int, page_size: int, n: int, k: int)
    requires
        servable(offset, amt, page_size),
        touches(offset, amt, page_size, n),
        0 <= k < n,
    ensures
        segment_at(offset, amt, page_size, 0).buf_off == 0,
        segment_at(offset, amt, page_size, k).len > 0,
        segment_at(offset, amt, page_size, k).in_page_off + segment_at(
            offset,
            amt,
            page_size,
            k,
        ).len <= page_size,
        k + 1 < n ==> segment_at(offset, amt, page_size, k).buf_off + segment_at(
            offset,
            amt,
            page_size,
            k,
        ).len == segment_at(offset, amt, page_size, k + 1).buf_off,
        k + 1 == n ==> segment_at(offset, amt, page_size, k).buf_off + segment_at(
            offset,
            amt,
            page_size,
            k,
        ).len == amt,
        segment_at(offset, amt, page_size, k).page_start + segment_at(
            offset,
            amt,
            page_size,
            k,
        ).in_page_off == offset + segment_at(offset, amt, page_size, k).buf_off,
{
    let floor = page_floor(offset, page_size);
    assert(0 <= offset % page_size < page_size);
    assert(floor <= offset < floor + page_size);
    assert(k * page_size <= (n - 1) * page_size) by (nonlinear_arith)
        requires
            k <= n - 1,
            page_size > 0,
    ;
    assert(0 <= k * page_size) by (nonlinear_arith)
        requires
            0 <= k,
            page_size > 0,
    ;
    assert((k + 1) * page_size == k * page_size + page_size) by (nonlinear_arith);
    assert(0 * page_size == 0);
    if k + 1 < n {
        assert((k + 1) * page_size <= (n - 1) * page_size) by (nonlinear_arith)
            requires
                k + 1 <= n - 1,
                page_size > 0,
        ;
    }
}

/// The pages that a request touches, in order, with the part of each that it
/// covers; nothing for a request that cannot be served.
pub fn plan(offset: i64, amt: i32, page_size: u32) -> (r: Option<Vec<Segment>>)
    ensures
        servable(offset as int, amt as int, page_size as int) <==> r is Some,
        r is Some ==> touches(offset as int, amt as int, page_size as int, r->0@.len() as int),
        r is Some ==> forall|k: int|
            0 <= k < r->0@.len() ==> #[trigger] r->0@[k] == segment_at(
                offset as int,
                amt as int,
                page_size as int,
                k,
            ),
{
    if page_size == 0 || page_size > MAX_PAGE_SIZE || amt <= 0 || offset < 0 {
        return None;
    }
    if offset > i64::MAX - amt as i64 {
        return None;
    }
    let ps: u64 = page_size as u64;
    let start: u64 = offset as u64;
    let end: u64 = start + amt as u64;
    let last_page: u64 = (end - 1) / ps + 1;
    if last_page > u32::MAX as u64 {
        return None;
    }
    let first_page: u64 = start / ps + 1;
    let within: u64 = start % ps;
    proof {
        lemma_page_numbers(start as int, ps as int, 0);
    }
    let floor: u64 = start - within;
    let mut out: Vec<Segment> = Vec::new();
    let mut p_start: u64 = floor;
    let mut page_no: u64 = first_page;
    let ghost mut k: int = 0;
    proof {
        lemma_page_numbers(start as int, ps as int, 0);
    }
    while p_start < end
        invariant
            ps == page_size,
            0 < ps <= MAX_PAGE_SIZE,
            start == offset,
            end == offset + amt,
            0 < amt,
            end <= i64::MAX,
            floor == page_floor(offset as int, page_size as int),
            floor <= start < floor + ps,
            k >= 0,
            k == out@.len(),
            p_start == floor + k * ps,
            page_no == page_no_of(offset as int, page_size as int) + k,
            last_page == page_no_of(offset + amt - 1, page_size as int),
            last_page <= u32::MAX,
            k >= 1 ==> floor + (k - 1) * ps < end,
            forall|j: int|
                0 <= j < k ==> #[trigger] out@[j] == segment_at(
                    offset as int,
                    amt as int,
                    page_size as int,
                    j,
                ),
        decreases last_page + 1 - page_no,
    {
        let seg_start: u64 = if start > p_start {
            start
        } else {
            p_start
        };
        let seg_end: u64 = if end < p_start + ps {
            end
        } else {
            p_start + ps
        };
        proof {
            // The page that begins at `p_start` holds a byte of the request, so
            // its number is at most that of the request's last byte.
            lemma_page_numbers(start as int, ps as int, k);
            lemma_page_order(p_start as int, end - 1, ps as int);
            lemma_page_numbers(start as int, ps as int, k + 1);
        }
        let seg = Segment {
            page_no: page_no as u32,
            page_start: p_start as i64,
            in_page_off: (seg_start - p_start) as usize,
            len: (seg_end - seg_start) as usize,
            buf_off: (seg_start - start) as usize,
        };
        assert(seg == segment_at(offset as int, amt as int, page_size as int, k));
        out.push(seg);
        p_start = p_start + ps;
        page_no = page_no + 1;
        proof {
            k = k + 1;
        }
    }
    Some(out)
}

/// The page `k` pages after the one that holds `offset` begins `k` page sizes
/// after it, and its number is `k` greater.
proof fn lemma_page_numbers(offset: int, page_size: int, k: int)
    requires
        0 <= offset,
        0 < page_size,
        0 <= k,
    ensures
        page_floor(offset, page_size) >= 0,
        page_floor(offset, page_size) <= offset < page_floor(offset, page_size) + page_size,
        page_floor(offset, page_size) + k * page_size >= 0,
        (page_floor(offset, page_size) + k * page_size) / page_size + 1 == page_no_of(
            offset,
            page_size,
        ) + k,
        page_floor(offset, page_size) + (k + 1) * page_size == page_floor(offset, page_size) + k
            * page_size + page_size,
{
    vstd::arithmetic::div_mod::lemma_fundamental_div_mod(offset, page_size);
    let q = offset / page_size;
    assert(page_floor(offset, page_size) == page_size * q);
    assert(page_size * q + k * page_size == (q + k) * page_size) by (nonlinear_arith);
    vstd::arithmetic::div_mod::lemma_div_multiples_vanish(q + k, page_size);
    assert(0 <= q) by (nonlinear_arith)
        requires
            q == offset / page_size,
            0 <= offset,
            0 < page_size,
    ;
    assert((q + k) * page_size >= 0) by (nonlinear_arith)
        requires
            q + k >= 0,
            page_size > 0,
    ;
    assert((k + 1) * page_size == k * page_size + page_size) by (nonlinear_arith);
}

/// A byte that lies no earlier in the file lies in no earlier page.
proof fn lemma_page_order(a: int, b: int, page_size: int)
    requires
        0 <= a <= b,
        0 < page_size,
    ensures
        a / page_size <= b / page_size,
{
    vstd::arithmetic::div_mod::lemma_div_is_ordered(a, b, page_size);
}

/// `buf` with the `len` bytes at `at` replaced by those of `src` at `from`.
pub open spec fn patched(buf: Seq<u8>, at: int, src: Seq<u8>, from: int, len: int) -> Seq<u8> {
    buf.subrange(0, at) + src.subrange(from, from + len) + buf.subrange(at + len, buf.len() as int)
}

fn patch(buf: &mut Vec<u8>, at: usize, src: &[u8], from: usize, len: usize)
    requires
        at + len <= old(buf)@.len(),
        from + len <= src@.len(),
    ensures
        final(buf)@ == patched(old(buf)@, at as int, src@, from as int, len as int),
        final(buf)@.len() == old(buf)@.len(),
{
    let ghost before = buf@;
    let n = buf.len();
    let m = src.len();
    let mut i: usize = 0;
    while i < len
        invariant
            i <= len,
            at + len <= n,
            from + len <= m,
            n == before.len(),
            m == src@.len(),
            buf@.len() == before.len(),
            forall|j: int| 0 <= j < at + i ==> buf@[j] == patched(
                before,
                at as int,
                src@,
                from as int,
                len as int,
            )[j],
            forall|j: int| at + i <= j < before.len() ==> buf@[j] == before[j],
        decreases len - i,
    {
        buf.set(at + i, src[from + i]);
        i += 1;
    }
    assert(buf@ =~= patched(before, at as int, src@, from as int, len as int));
}

/// Whether a page that was read has to be opened before it is used: every
/// page but the first, if it was read whole and carries a tag.
pub open spec fn must_open(page: Seq<u8>, page_no: u32, short_read: bool, reserve: int) -> bool {
    page_no != 1 && !short_read && reserve >= 16 && reserve <= page.len() && tag_is_set(
        page,
        reserve,
    )
}

/// What `open_if_sealed` and the keyring do to a page that was read: a page
/// that need not be opened is left alone, and so is the keyring; any other is
/// opened with the key of its scope, which the keyring resolves.
pub open spec fn opened_as_read(
    ctx: FileContext,
    page_no: u32,
    short_read: bool,
    before: Seq<u8>,
    pre: KeyringState,
    r: Result<(), EvfsError>,
    after: Seq<u8>,
    post: KeyringState,
) -> bool {
    if !must_open(before, page_no, short_read, ctx.reserve_size as int) {
        r is Ok && after == before && post == pre
    } else {
        exists|key: Result<Seq<u8>, EvfsError>|
            {
                &&& #[trigger] dek_for_step(pre, ctx.key_of_page(page_no), key, post)
                &&& match key {
                    Ok(k) => in_place(
                        decrypt_result(before, page_no, k, ctx.reserve_size as int),
                        before,
                        r,
                        after,
                    ),
                    Err(e) => r == Err::<(), EvfsError>(e) && after == before,
                }
            }
    }
}

/// Opens a page that was read from the file, if it has to be opened.
pub fn open_if_sealed<P: KmsProvider>(
    ctx: &FileContext,
    keyring: &mut Keyring<P>,
    page: &mut Vec<u8>,
    page_no: u32,
    short_read: bool,
) -> (r: Result<(), EvfsError>)
    ensures
        final(keyring).kms() == old(keyring).kms(),
        final(page)@.len() == old(page)@.len(),
        opened_as_read(
            *ctx,
            page_no,
            short_read,
            old(page)@,
            old(keyring).state(),
            r,
            final(page)@,
            final(keyring).state(),
        ),
{
    if page_no != 1 && !short_read && is_encrypted_page(page.as_slice(), ctx.reserve_size) {
        ctx.decrypt_page(keyring, page, page_no)
    } else {
        Ok(())
    }
}

/// Serves a request for one whole page from the bytes that were read for it:
/// the page is opened in place if it has to be.
///
/// A page that cannot be opened is reported as a read failure.
pub fn full_page_read<P: KmsProvider>(
    ctx: &FileContext,
    keyring: &mut Keyring<P>,
    buf: &mut Vec<u8>,
    page_no: u32,
) -> (r: Result<(), VfsError>)
    ensures
        final(keyring).kms() == old(keyring).kms(),
        final(buf)@.len() == old(buf)@.len(),
        exists|opened: Result<(), EvfsError>|
            {
                &&& #[trigger] opened_as_read(
                    *ctx,
                    page_no,
                    false,
                    old(buf)@,
                    old(keyring).state(),
                    opened,
                    final(buf)@,
                    final(keyring).state(),
                )
                &&& (opened is Ok <==> r is Ok)
            },
        r is Err ==> r == Err::<(), VfsError>(VfsError::Read),
{
    let opened = open_if_sealed(ctx, keyring, buf, page_no, false);
    match opened {
        Ok(()) => Ok(()),
        Err(_) => Err(VfsError::Read),
    }
}

/// Whether a part lies within a page of `page_size` bytes and within a
/// buffer of `buf_len` bytes.
pub open spec fn fits_segment(seg: Segment, page_size: int, buf_len: int) -> bool {
    seg.in_page_off + seg.len <= page_size && seg.buf_off + seg.len <= buf_len
}

/// Serves one part of a read request from the page that was read for it: the
/// page is opened if it has to be, and the part is copied into the request's
/// buffer.
///
/// A page that cannot be opened is reported as a read failure, and so are a
/// page of the wrong length and a part that does not fit; the buffer is then
/// untouched.
pub fn read_segment<P: KmsProvider>(
    ctx: &FileContext,
    keyring: &mut Keyring<P>,
    seg: &Segment,
    page: &mut Vec<u8>,
    short_read: bool,
    out: &mut Vec<u8>,
) -> (r: Result<(), VfsError>)
    ensures
        final(keyring).kms() == old(keyring).kms(),
        final(out)@.len() == old(out)@.len(),
        final(page)@.len() == old(page)@.len(),
        r is Err ==> r == Err::<(), VfsError>(VfsError::Read) && final(out)@ == old(out)@,
        !(old(page)@.len() == ctx.page_size && fits_segment(
            *seg,
            ctx.page_size as int,
            old(out)@.len() as int,
        )) ==> r is Err && final(keyring).state() == old(keyring).state(),
        old(page)@.len() == ctx.page_size && fits_segment(
            *seg,
            ctx.page_size as int,
            old(out)@.len() as int,
        ) ==> exists|opened: Result<(), EvfsError>|
            {
                &&& #[trigger] opened_as_read(
                    *ctx,
                    seg.page_no,
                    short_read,
                    old(page)@,
                    old(keyring).state(),
                    opened,
                    final(page)@,
                    final(keyring).state(),
                )
                &&& (opened is Ok <==> r is Ok)
                &&& r is Ok ==> final(out)@ == patched(
                    old(out)@,
                    seg.buf_off as int,
                    final(page)@,
                    seg.in_page_off as int,
                    seg.len as int,
                )
            },
{
    if page.len() != ctx.page_size as usize || seg.len > page.len() || seg.in_page_off > page.len()
        - seg.len || seg.len > out.len() || seg.buf_off > out.len() - seg.len {
        return Err(VfsError::Read);
    }
    let opened = open_if_sealed(ctx, keyring, page, seg.page_no, short_read);
    match opened {
        Err(_) => Err(VfsError::Read),
        Ok(()) => {
            patch(out, seg.buf_off, page.as_slice(), seg.in_page_off, seg.len);
            Ok(())
        },
    }
}

/// Whether a part covers its whole page, so that the page need not be read
/// before it is written.
pub open spec fn covers_page(seg: Segment, page_size: u32) -> bool {
    seg.len == page_size && seg.in_page_off == 0
}

/// Whether a part covers its whole page.
pub fn covers_whole_page(seg: &Segment, page_size: u32) -> (r: bool)
    ensures
        r == covers_page(*seg, page_size),
{
    seg.len == page_size as usize && seg.in_page_off == 0
}

/// A first page as it is written: in the clear, with the configured reserve
/// recorded in its header wherever the reserve fits one byte and the page
/// holds that byte.
pub open spec fn stamped(page: Seq<u8>, reserve: int) -> Seq<u8> {
    if reserve <= MAX_RESERVE && page.len() > RESERVE_OFFSET {
        page.update(RESERVE_OFFSET as int, reserve as u8)
    } else {
        page
    }
}

/// What `seal_for_write` and the keyring do to a page that is about to be
/// written: the first page is stamped and the keyring left alone; any other
/// is sealed with the key of its scope, which the keyring resolves.
pub open spec fn sealed_for_write(
    ctx: FileContext,
    page_no: u32,
    before: Seq<u8>,
    pre: KeyringState,
    r: Result<(), EvfsError>,
    after: Seq<u8>,
    post: KeyringState,
) -> bool {
    if page_no == 1 {
        r is Ok && after == stamped(before, ctx.reserve_size as int) && post == pre
    } else {
        exists|key: Result<Seq<u8>, EvfsError>|
            {
                &&& #[trigger] dek_for_step(pre, ctx.key_of_page(page_no), key, post)
                &&& match key {
                    Ok(k) => in_place(
                        encrypt_result(before, page_no, k, ctx.reserve_size as int),
                        before,
                        r,
                        after,
                    ),
                    Err(e) => r == Err::<(), EvfsError>(e) && after == before,
                }
            }
    }
}

/// Makes a page ready to be written: the first page stays in the clear and
/// records the reserve; every other page is sealed.
pub fn seal_for_write<P: KmsProvider>(
    ctx: &FileContext,
    keyring: &mut Keyring<P>,
    page: &mut Vec<u8>,
    page_no: u32,
) -> (r: Result<(), EvfsError>)
    ensures
        final(keyring).kms() == old(keyring).kms(),
        final(page)@.len() == old(page)@.len(),
        sealed_for_write(
            *ctx,
            page_no,
            old(page)@,
            old(keyring).state(),
            r,
            final(page)@,
            final(keyring).state(),
        ),
{
    if page_no == 1 {
        if ctx.reserve_size <= MAX_RESERVE && page.len() > RESERVE_OFFSET {
            page.set(RESERVE_OFFSET, ctx.reserve_size as u8);
        }
        Ok(())
    } else {
        ctx.encrypt_page(keyring, page, page_no)
    }
}

/// Turns the bytes of a request to write one whole page into the bytes that
/// go to the file.
///
/// A page that cannot be sealed is reported as a write failure.
pub fn full_page_write<P: KmsProvider>(
    ctx: &FileContext,
    keyring: &mut Keyring<P>,
    buf: &[u8],
    page_no: u32,
) -> (r: Result<Vec<u8>, VfsError>)
    ensures
        final(keyring).kms() == old(keyring).kms(),
        r is Err ==> r->Err_0 == VfsError::Write,
        exists|sealed: Result<(), EvfsError>, after: Seq<u8>|
            {
                &&& #[trigger] sealed_for_write(
                    *ctx,
                    page_no,
                    buf@,
                    old(keyring).state(),
                    sealed,
                    after,
                    final(keyring).state(),
                )
                &&& (sealed is Ok <==> r is Ok)
                &&& r is Ok ==> r->Ok_0@ == after
            },
{
    let mut page = vstd::slice::slice_to_vec(buf);
    let sealed = seal_for_write(ctx, keyring, &mut page, page_no);
    match sealed {
        Ok(()) => Ok(page),
        Err(_) => Err(VfsError::Write),
    }
}

/// Makes the page that one part of a write request goes into.
///
/// `page` holds what was read of the page before, unless the part covers the
/// whole page, in which case what it holds does not matter. What was read is
/// opened if it has to be, the part is laid over it, and the result is made
/// ready for the file as `seal_for_write` does. On success `page` holds the
/// bytes to write at the page's offset.
///
/// A page that cannot be opened or sealed is reported as a write failure, and
/// so are a page of the wrong length and a part that does not fit.
pub fn write_segment<P: KmsProvider>(
    ctx: &FileContext,
    keyring: &mut Keyring<P>,
    seg: &Segment,
    page: &mut Vec<u8>,
    short_read: bool,
    input: &[u8],
) -> (r: Result<(), VfsError>)
    ensures
        final(keyring).kms() == old(keyring).kms(),
        final(page)@.len() == old(page)@.len(),
        r is Err ==> r == Err::<(), VfsError>(VfsError::Write),
        !(old(page)@.len() == ctx.page_size && fits_segment(
            *seg,
            ctx.page_size as int,
            input@.len() as int,
        )) ==> r is Err && final(keyring).state() == old(keyring).state() && final(page)@ == old(page)@,
        old(page)@.len() == ctx.page_size && fits_segment(
            *seg,
            ctx.page_size as int,
            input@.len() as int,
        ) ==> exists|
            opened: Result<(), EvfsError>,
            plain: Seq<u8>,
            mid: KeyringState,
            sealed: Result<(), EvfsError>,
        |
            {
                &&& #[trigger] written(
                    *ctx,
                    *seg,
                    short_read,
                    old(page)@,
                    input@,
                    old(keyring).state(),
                    opened,
                    plain,
                    mid,
                    sealed,
                    final(page)@,
                    final(keyring).state(),
                )
                &&& (r is Ok <==> opened is Ok && sealed is Ok)
            },
{
    if page.len() != ctx.page_size as usize || seg.len > page.len() || seg.in_page_off > page.len()
        - seg.len || seg.len > input.len() || seg.buf_off > input.len() - seg.len {
        return Err(VfsError::Write);
    }
    let ghost before = page@;
    let ghost pre = keyring.state();
    let opened: Result<(), EvfsError> = if covers_whole_page(seg, ctx.page_size) {
        Ok(())
    } else {
        open_if_sealed(ctx, keyring, page, seg.page_no, short_read)
    };
    let ghost plain = page@;
    let ghost mid = keyring.state();
    if opened.is_err() {
        proof {
            assert(written(
                *ctx,
                *seg,
                short_read,
                before,
                input@,
                pre,
                opened,
                plain,
                mid,
                opened,
                page@,
                keyring.state(),
            ));
        }
        return Err(VfsError::Write);
    }
    patch(page, seg.in_page_off, input, seg.buf_off, seg.len);
    let sealed = seal_for_write(ctx, keyring, page, seg.page_no);
    proof {
        assert(written(
            *ctx,
            *seg,
            short_read,
            before,
            input@,
            pre,
            opened,
            plain,
            mid,
            sealed,
            page@,
            keyring.state(),
        ));
    }
    match sealed {
        Ok(()) => Ok(()),
        Err(_) => Err(VfsError::Write),
    }
}

/// How `write_segment` makes a page: `opened` and `plain` are the outcome of
/// opening what was read (skipped where the part covers the page), `mid` the
/// keyring after that; `sealed` and `after` are the outcome of making the
/// patched page ready for the file.
pub open spec fn written(
    ctx: FileContext,
    seg: Segment,
    short_read: bool,
    before: Seq<u8>,
    input: Seq<u8>,
    pre: KeyringState,
    opened: Result<(), EvfsError>,
    plain: Seq<u8>,
    mid: KeyringState,
    sealed: Result<(), EvfsError>,
    after: Seq<u8>,
    post: KeyringState,
) -> bool {
    &&& if covers_page(seg, ctx.page_size) {
        opened is Ok && plain == before && mid == pre
    } else {
        opened_as_read(ctx, seg.page_no, short_read, before, pre, opened, plain, mid)
    }
    &&& if opened is Ok {
        sealed_for_write(
            ctx,
            seg.page_no,
            patched(plain, seg.in_page_off as int, input, seg.buf_off as int, seg.len as int),
            mid,
            sealed,
            after,
            post,
        )
    } else {
        sealed == opened && after == plain && post == mid
    }
}

/// What the engine is told when it asks how many bytes of each page are
/// reserved: the configured reserve.
pub fn reserve_bytes(ctx: &FileContext) -> (r: usize)
    ensures
        r == ctx.reserve_size,
{
    ctx.reserve_size
}

} // verus!
