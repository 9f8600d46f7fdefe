//! Encrypted backups.
//!
//! A backup is self-contained: eight magic bytes, the header's length as a
//! little-endian `u32`, the header, then the pages. The header carries the
//! backup's own data key, wrapped, so the backup can be restored wherever the
//! key that wrapped it is at hand.

use vstd::bytes::{
    lemma_auto_spec_u32_to_from_le_bytes, spec_u32_from_le_bytes, spec_u32_to_le_bytes,
    u32_from_le_bytes, u32_to_le_bytes,
};
use vstd::prelude::*;
use vstd::slice::{slice_subrange, slice_to_vec};
use vstd::string::StringSliceAdditionalSpecFns;

use crate::crypto::envelope::{open_result, unwrap_dek, wrap_dek, wraps};
use crate::crypto::keys::{Dek, KekId, KeyScope, WrappedDek, WrappedDekView};
use crate::crypto::page::{
    decrypt_page, decrypt_result, decrypted_page, encrypt_page, encrypt_result, encrypted_page,
    in_place, padding_of, page_fits, payload_of,
};
use crate::error::EvfsError;
use crate::keyring::{dek_for_step, Keyring};
use crate::kms::KmsProvider;

verus! {

/// The only header version there is.
pub const BACKUP_VERSION: u32 = 1;

/// The longest header, in bytes, that a backup may carry: one mebibyte.
pub const HEADER_LIMIT: usize = 0x10_0000;

/// The header at the start of every backup.
pub struct BackupHeader {
    pub version: u32,
    pub page_size: u32,
    pub page_count: u32,
    pub reserve_size: u32,
    /// The backup's data key, wrapped under the backup's key-encryption key.
    pub wrapped_dek: WrappedDek,
}

/// A header as mathematics.
pub struct BackupHeaderView {
    pub version: u32,
    pub page_size: u32,
    pub page_count: u32,
    pub reserve_size: u32,
    pub wrapped_dek: WrappedDekView,
}

impl View for BackupHeader {
    type V = BackupHeaderView;

    open spec fn view(&self) -> BackupHeaderView {
        BackupHeaderView {
            version: self.version,
            page_size: self.page_size,
            page_count: self.page_count,
            reserve_size: self.reserve_size,
            wrapped_dek: self.wrapped_dek@,
        }
    }
}

/// What checking a backup found.
#[derive(Debug, Clone, Copy, PartialEq, Eq, Structural)]
pub struct VerifyResult {
    pub page_count: u32,
    pub pages_ok: u32,
    pub pages_bad: u32,
}

impl VerifyResult {
    /// Whether every page validated.
    pub fn is_ok(&self) -> (r: bool)
        ensures
            r == (self.pages_bad == 0),
    {
        self.pages_bad == 0
    }
}

/// The bytes that `bincode::serialize` gives for a header: its four numbers,
/// then the wrapped key's ciphertext, nonce and key id.
pub uninterp spec fn bincode_header(
    version: u32,
    page_size: u32,
    page_count: u32,
    reserve_size: u32,
    ciphertext: Seq<u8>,
    nonce: Seq<u8>,
    kek_id: Seq<char>,
) -> Seq<u8>;

/// The header that `bincode::deserialize` reads from the front of `bytes`, if
/// it reads one.
pub uninterp spec fn bincode_header_read(bytes: Seq<u8>) -> Option<
    (u32, u32, u32, u32, Seq<u8>, Seq<u8>, Seq<char>),
>;

/// The serialized form of a header.
pub open spec fn header_bytes(h: BackupHeaderView) -> Seq<u8> {
    bincode_header(
        h.version,
        h.page_size,
        h.page_count,
        h.reserve_size,
        h.wrapped_dek.ciphertext,
        h.wrapped_dek.nonce,
        h.wrapped_dek.kek_id,
    )
}

/// The header that `bytes` hold, if they hold one.
pub open spec fn header_of(bytes: Seq<u8>) -> Option<BackupHeaderView> {
    match bincode_header_read(bytes) {
        Some(t) => Some(
            BackupHeaderView {
                version: t.0,
                page_size: t.1,
                page_count: t.2,
                reserve_size: t.3,
                wrapped_dek: WrappedDekView { ciphertext: t.4, nonce: t.5, kek_id: t.6 },
            },
        ),
        None => None,
    }
}

/// Calls `bincode::serialize` on the header's fields, in their order.
///
/// Trusted: the result is bincode's encoding of those values, and bincode reads
/// back from it the values it was given. The call does not fail: these are
/// numbers, byte strings and a text, whose lengths are known, written to a
/// vector with no limit on its size.
#[verifier::external_body]
fn encode_header(h: &BackupHeader) -> (r: Option<Vec<u8>>)
    ensures
        r is Some,
        r is Some ==> r->0@ == bincode_header(
            h.version,
            h.page_size,
            h.page_count,
            h.reserve_size,
            h.wrapped_dek.ciphertext@,
            h.wrapped_dek.nonce@,
            h.wrapped_dek.kek_id@,
        ),
        r is Some ==> bincode_header_read(r->0@) == Some(
            (
                h.version,
                h.page_size,
                h.page_count,
                h.reserve_size,
                h.wrapped_dek.ciphertext@,
                h.wrapped_dek.nonce@,
                h.wrapped_dek.kek_id@,
            ),
        ),
{
    let w = &h.wrapped_dek;
    bincode::serialize(
        &(h.version, h.page_size, h.page_count, h.reserve_size, (&w.ciphertext, &w.nonce, &w.kek_id.0)),
    ).ok()
}

/// Calls `bincode::deserialize` for a header's fields, in their order.
///
/// Trusted: the result is what bincode reads from the front of the bytes.
#[verifier::external_body]
fn decode_header(bytes: &[u8]) -> (r: Option<BackupHeader>)
    ensures
        match r {
            Some(h) => bincode_header_read(bytes@) == Some(
                (
                    h.version,
                    h.page_size,
                    h.page_count,
                    h.reserve_size,
                    h.wrapped_dek.ciphertext@,
                    h.wrapped_dek.nonce@,
                    h.wrapped_dek.kek_id@,
                ),
            ),
            None => bincode_header_read(bytes@) is None,
        },
{
    let t: (u32, u32, u32, u32, (Vec<u8>, [u8; 12], String)) = bincode::deserialize(bytes).ok()?;
    Some(
        BackupHeader {
            version: t.0,
            page_size: t.1,
            page_count: t.2,
            reserve_size: t.3,
            wrapped_dek: WrappedDek { ciphertext: t.4.0, nonce: t.4.1, kek_id: KekId(t.4.2) },
        },
    )
}

/// The eight bytes every backup begins with: `EVFSBKUP`.
pub open spec fn magic() -> Seq<u8> {
    "EVFSBKUP".spec_bytes()
}

/// The sixteen bytes a plaintext database begins with: `SQLite format 3` and
/// a zero byte.
pub open spec fn plaintext_magic() -> Seq<u8> {
    "SQLite format 3\0".spec_bytes()
}

/// A backup with this serialized header and these page bytes.
pub open spec fn frame(header: Seq<u8>, pages: Seq<u8>) -> Seq<u8> {
    magic() + spec_u32_to_le_bytes(header.len() as u32) + header + pages
}

/// What the front of a backup holds: its header and the offset of its first
/// page, or the first thing that is wrong with it.
pub open spec fn parse_result(data: Seq<u8>) -> Result<(BackupHeaderView, int), EvfsError> {
    if data.len() < magic().len() {
        Err(EvfsError::TruncatedBackup)
    } else if data.subrange(0, magic().len() as int) != magic() {
        Err(EvfsError::BadMagic)
    } else if data.len() < magic().len() + 4 {
        Err(EvfsError::TruncatedBackup)
    } else {
        let m = magic().len() as int;
        let n = spec_u32_from_le_bytes(data.subrange(m, m + 4)) as int;
        if n > HEADER_LIMIT {
            Err(EvfsError::HeaderTooLarge)
        } else if data.len() < m + 4 + n {
            Err(EvfsError::TruncatedBackup)
        } else {
            match header_of(data.subrange(m + 4, m + 4 + n)) {
                None => Err(EvfsError::BadHeader),
                Some(h) => if h.version != BACKUP_VERSION {
                    Err(EvfsError::UnsupportedVersion)
                } else {
                    Ok((h, m + 4 + n))
                },
            }
        }
    }
}

/// Whether `data` begins with the bytes of `prefix`.
fn starts_with(data: &[u8], prefix: &[u8]) -> (r: bool)
    ensures
        r == (data@.len() >= prefix@.len() && data@.subrange(0, prefix@.len() as int) == prefix@),
{
    if data.len() < prefix.len() {
        return false;
    }
    let mut i: usize = 0;
    while i < prefix.len()
        invariant
            i <= prefix@.len() <= data@.len(),
            forall|j: int| 0 <= j < i ==> data@[j] == prefix@[j],
        decreases prefix@.len() - i,
    {
        if data[i] != prefix[i] {
            assert(data@.subrange(0, prefix@.len() as int)[i as int] != prefix@[i as int]);
            return false;
        }
        i += 1;
    }
    assert(data@.subrange(0, prefix@.len() as int) =~= prefix@);
    true
}

/// Whether a page begins as a plaintext database does.
pub fn is_plaintext_header(page: &[u8]) -> (r: bool)
    ensures
        r == (page@.len() >= plaintext_magic().len() && page@.subrange(
            0,
            plaintext_magic().len() as int,
        ) == plaintext_magic()),
{
    starts_with(page, "SQLite format 3\0".as_bytes())
}

/// Reads the front of a backup: the magic, the header's length, the header.
pub fn read_header(data: &[u8]) -> (r: Result<(BackupHeader, usize), EvfsError>)
    ensures
        match parse_result(data@) {
            Ok(found) => r is Ok && r->Ok_0.0@ == found.0 && r->Ok_0.1 == found.1,
            Err(e) => r is Err && r->Err_0 == e,
        },
        r is Ok ==> r->Ok_0.1 <= data@.len(),
{
    let m = "EVFSBKUP".as_bytes();
    let mlen = m.len();
    if data.len() < mlen {
        return Err(EvfsError::TruncatedBackup);
    }
    if !starts_with(data, m) {
        return Err(EvfsError::BadMagic);
    }
    if data.len() - mlen < 4 {
        return Err(EvfsError::TruncatedBackup);
    }
    let n = u32_from_le_bytes(slice_subrange(data, mlen, mlen + 4)) as usize;
    if n > HEADER_LIMIT {
        return Err(EvfsError::HeaderTooLarge);
    }
    if data.len() - mlen - 4 < n {
        return Err(EvfsError::TruncatedBackup);
    }
    match decode_header(slice_subrange(data, mlen + 4, mlen + 4 + n)) {
        None => Err(EvfsError::BadHeader),
        Some(h) => {
            if h.version != BACKUP_VERSION {
                return Err(EvfsError::UnsupportedVersion);
            }
            Ok((h, mlen + 4 + n))
        },
    }
}

/// Page `i`, counted from zero, of the pages that begin at `start`.
pub open spec fn page_at(data: Seq<u8>, start: int, page_size: int, i: int) -> Seq<u8> {
    data.subrange(start + i * page_size, start + (i + 1) * page_size)
}

/// The key with which page `page_no` is opened before it is sealed anew: none
/// for a first page that is to be kept and is a plaintext header, else `from`.
pub open spec fn key_for(
    page: Seq<u8>,
    page_no: u32,
    from: Option<Seq<u8>>,
    keep_plain_first: bool,
) -> Option<Seq<u8>> {
    if keep_plain_first && page_no == 1 && page.len() >= plaintext_magic().len() && page.subrange(
        0,
        plaintext_magic().len() as int,
    ) == plaintext_magic() {
        None
    } else {
        from
    }
}

/// One page opened with `from`, if there is such a key, and sealed under `to`.
pub open spec fn recrypt_result(
    page: Seq<u8>,
    page_no: u32,
    from: Option<Seq<u8>>,
    to: Seq<u8>,
    reserve: int,
) -> Result<Seq<u8>, EvfsError> {
    match from {
        None => encrypt_result(page, page_no, to, reserve),
        Some(k) => match decrypt_result(page, page_no, k, reserve) {
            Ok(plain) => encrypt_result(plain, page_no, to, reserve),
            Err(e) => Err(e),
        },
    }
}

/// The first `count` pages, each opened and sealed anew, one after the other;
/// or what is wrong with the first page that fails: `TruncatedBackup` if it is
/// not all there, else the error of opening or sealing it.
pub open spec fn recrypt_pages_result(
    data: Seq<u8>,
    start: int,
    page_size: int,
    count: nat,
    from: Option<Seq<u8>>,
    to: Seq<u8>,
    reserve: int,
    keep_plain_first: bool,
) -> Result<Seq<u8>, EvfsError>
    decreases count,
{
    if count == 0 {
        Ok(Seq::empty())
    } else {
        match recrypt_pages_result(
            data,
            start,
            page_size,
            (count - 1) as nat,
            from,
            to,
            reserve,
            keep_plain_first,
        ) {
            Err(e) => Err(e),
            Ok(done) => if data.len() < start + count * page_size {
                Err(EvfsError::TruncatedBackup)
            } else {
                let page = page_at(data, start, page_size, count - 1);
                match recrypt_result(
                    page,
                    count as u32,
                    key_for(page, count as u32, from, keep_plain_first),
                    to,
                    reserve,
                ) {
                    Ok(p) => Ok(done + p),
                    Err(e) => Err(e),
                }
            },
        }
    }
}

/// Once a page has failed, so has every longer run of pages.
proof fn lemma_failure_stays(
    data: Seq<u8>,
    start: int,
    page_size: int,
    failed: nat,
    count: nat,
    from: Option<Seq<u8>>,
    to: Seq<u8>,
    reserve: int,
    keep_plain_first: bool,
)
    requires
        failed <= count,
        recrypt_pages_result(data, start, page_size, failed, from, to, reserve, keep_plain_first)
            is Err,
    ensures
        recrypt_pages_result(data, start, page_size, count, from, to, reserve, keep_plain_first)
            == recrypt_pages_result(
            data,
            start,
            page_size,
            failed,
            from,
            to,
            reserve,
            keep_plain_first,
        ),
    decreases count,
{
    if failed < count {
        lemma_failure_stays(
            data,
            start,
            page_size,
            failed,
            (count - 1) as nat,
            from,
            to,
            reserve,
            keep_plain_first,
        );
    }
}

/// A page as it comes out of being opened and sealed anew under `to`: its
/// payload and padding as they were, sealed with a zeroed tag in between.
pub open spec fn resealed_page(plain: Seq<u8>, page_no: u32, to: Seq<u8>, reserve: int) -> Seq<u8> {
    encrypted_page(
        decrypted_page(payload_of(plain, reserve), padding_of(plain, reserve)),
        page_no,
        to,
        reserve,
    )
}

/// Whether the `count` pages of `data` from `start` on are the pages of
/// `plain`, each sealed under `key` as the page of its number.
pub open spec fn sealed_under(
    data: Seq<u8>,
    start: int,
    page_size: int,
    count: nat,
    key: Seq<u8>,
    reserve: int,
    plain: Seq<u8>,
) -> bool {
    &&& page_fits(page_size, reserve)
    &&& plain.len() == count * page_size
    &&& data.len() >= start + count * page_size
    &&& forall|i: int|
        0 <= i < count ==> #[trigger] page_at(data, start, page_size, i) == encrypted_page(
            page_at(plain, 0, page_size, i),
            (i + 1) as u32,
            key,
            reserve,
        )
}

/// Whether each of the first `n` pages of `out` is the page of `plain` at its
/// place, opened and sealed anew under `to`.
pub open spec fn resealed_upto(
    out: Seq<u8>,
    page_size: int,
    n: int,
    to: Seq<u8>,
    reserve: int,
    plain: Seq<u8>,
) -> bool {
    forall|i: int|
        0 <= i < n ==> #[trigger] page_at(out, 0, page_size, i) == resealed_page(
            page_at(plain, 0, page_size, i),
            (i + 1) as u32,
            to,
            reserve,
        )
}

/// Whether `out` is the `count` pages of `plain`, each opened and sealed anew
/// under `to`.
pub open spec fn pages_resealed(
    out: Seq<u8>,
    page_size: int,
    count: nat,
    to: Seq<u8>,
    reserve: int,
    plain: Seq<u8>,
) -> bool {
    out.len() == count * page_size && resealed_upto(out, page_size, count as int, to, reserve, plain)
}

/// Whether the first page is one that is kept as it is: a plaintext header,
/// where such are to be kept.
pub open spec fn first_is_kept(
    data: Seq<u8>,
    start: int,
    page_size: int,
    count: nat,
    keep_plain_first: bool,
) -> bool {
    keep_plain_first && count >= 1 && data.len() >= start + page_size && key_for(
        page_at(data, start, page_size, 0),
        1,
        Some(Seq::<u8>::empty()),
        true,
    ) is None
}

/// Whether `r` is what sealing anew must give wherever the pages are sealed
/// pages: if the `count` pages of `data` are the pages of some `plain` sealed
/// under `from`, then `r` is those pages of `plain` sealed under `to`.
pub open spec fn reseals(
    data: Seq<u8>,
    start: int,
    page_size: int,
    count: nat,
    from: Seq<u8>,
    to: Seq<u8>,
    reserve: int,
    r: Result<Seq<u8>, EvfsError>,
) -> bool {
    forall|plain: Seq<u8>| #[trigger]
        sealed_under(data, start, page_size, count, from, reserve, plain) ==> r is Ok
            && pages_resealed(r->Ok_0, page_size, count, to, reserve, plain)
}

/// Whether each of the `count` pages that `pages` begins with opens under
/// `key` as the page of its number, counted from 1.
pub open spec fn all_open(pages: Seq<u8>, page_size: int, count: nat, key: Seq<u8>, reserve: int) -> bool {
    forall|j: int|
        0 <= j < count ==> decrypt_result(
            #[trigger] page_at(pages, 0, page_size, j),
            (j + 1) as u32,
            key,
            reserve,
        ) is Ok
}

/// The pages of a run of pages with one more page behind it are the pages of
/// the run, and then the one.
proof fn lemma_pages_of_append(a: Seq<u8>, b: Seq<u8>, page_size: int, n: int)
    requires
        0 <= n,
        0 <= page_size,
        a.len() == n * page_size,
        b.len() == page_size,
    ensures
        forall|j: int|
            0 <= j < n ==> #[trigger] page_at(a + b, 0, page_size, j) == page_at(a, 0, page_size, j),
        page_at(a + b, 0, page_size, n) == b,
        (a + b).len() == (n + 1) * page_size,
{
    assert((n + 1) * page_size == n * page_size + page_size) by (nonlinear_arith);
    assert forall|j: int| 0 <= j < n implies #[trigger] page_at(a + b, 0, page_size, j) == page_at(
        a,
        0,
        page_size,
        j,
    ) by {
        assert(0 <= j * page_size && (j + 1) * page_size <= n * page_size) by (nonlinear_arith)
            requires
                0 <= j < n,
                0 <= page_size,
        ;
        assert((j + 1) * page_size == j * page_size + page_size) by (nonlinear_arith);
        assert(page_at(a + b, 0, page_size, j) =~= page_at(a, 0, page_size, j));
    }
    assert(page_at(a + b, 0, page_size, n) =~= b);
}

/// Opens one page with `from`, if there is such a key, and seals it under
/// `to`, in place. A page that fails is left as it was.
///
/// In particular, a page that was sealed under `from` comes out sealed under
/// `to` with the payload it had when it was sealed.
pub fn recrypt_page(
    page: &mut Vec<u8>,
    page_no: u32,
    from: Option<&Dek>,
    to: &Dek,
    reserve: usize,
) -> (r: Result<(), EvfsError>)
    ensures
        final(page)@.len() == old(page)@.len(),
        in_place(
            recrypt_result(
                old(page)@,
                page_no,
                match from {
                    Some(k) => Some(k@),
                    None => None,
                },
                to@,
                reserve as int,
            ),
            old(page)@,
            r,
            final(page)@,
        ),
        r is Ok ==> decrypt_result(final(page)@, page_no, to@, reserve as int) is Ok,
        forall|p: Seq<u8>|
            from is Some && page_fits(p.len() as int, reserve as int) && p.len() == old(page)@.len()
                && old(page)@ == #[trigger] encrypted_page(p, page_no, from->0@, reserve as int)
                ==> r is Ok && final(page)@ == encrypted_page(
                decrypted_page(payload_of(p, reserve as int), padding_of(p, reserve as int)),
                page_no,
                to@,
                reserve as int,
            ),
{
    match from {
        Some(k) => {
            match decrypt_page(page, page_no, k, reserve) {
                Err(e) => { return Err(e); },
                Ok(()) => {},
            }
        },
        None => {},
    }
    encrypt_page(page, page_no, to, reserve)
}

/// Opens each of `count` pages with `from`, where there is such a key and the
/// page is not a first page to be kept as a plaintext header, seals it under
/// `to`, and returns the pages in order.
pub fn recrypt_pages(
    data: &[u8],
    start: usize,
    page_size: u32,
    count: u32,
    from: Option<&Dek>,
    to: &Dek,
    reserve: usize,
    keep_plain_first: bool,
) -> (r: Result<Vec<u8>, EvfsError>)
    ensures
        match recrypt_pages_result(
            data@,
            start as int,
            page_size as int,
            count as nat,
            match from {
                Some(k) => Some(k@),
                None => None,
            },
            to@,
            reserve as int,
            keep_plain_first,
        ) {
            Ok(pages) => r is Ok && r->Ok_0@ == pages,
            Err(e) => r is Err && r->Err_0 == e,
        },
        r is Ok ==> r->Ok_0@.len() == count * page_size,
        r is Ok ==> all_open(r->Ok_0@, page_size as int, count as nat, to@, reserve as int),
        from is Some && !first_is_kept(
            data@,
            start as int,
            page_size as int,
            count as nat,
            keep_plain_first,
        ) ==> reseals(
            data@,
            start as int,
            page_size as int,
            count as nat,
            from->0@,
            to@,
            reserve as int,
            match r {
                Ok(v) => Ok(v@),
                Err(e) => Err(e),
            },
        ),
{
    let ghost from_key: Option<Seq<u8>> = match from {
        Some(k) => Some(k@),
        None => None,
    };
    let ghost fk: Seq<u8> = if from is Some {
        from->0@
    } else {
        Seq::empty()
    };
    let ghost claim = from is Some && !first_is_kept(
        data@,
        start as int,
        page_size as int,
        count as nat,
        keep_plain_first,
    );
    let mut out: Vec<u8> = Vec::new();
    if start > data.len() {
        if count == 0 {
            proof {
                assert forall|plain: Seq<u8>| #[trigger]
                    sealed_under(
                        data@,
                        start as int,
                        page_size as int,
                        count as nat,
                        fk,
                        reserve as int,
                        plain,
                    ) implies false by {}
            }
            return Ok(out);
        }
        proof {
            assert(recrypt_pages_result(
                data@,
                start as int,
                page_size as int,
                0,
                from_key,
                to@,
                reserve as int,
                keep_plain_first,
            ) is Ok);
            assert(1 * (page_size as int) >= 0) by (nonlinear_arith)
                requires
                    page_size >= 0,
            ;
            lemma_failure_stays(
                data@,
                start as int,
                page_size as int,
                1,
                count as nat,
                from_key,
                to@,
                reserve as int,
                keep_plain_first,
            );
        }
        return Err(EvfsError::TruncatedBackup);
    }
    let mut pos: usize = start;
    let mut i: u32 = 0;
    assert(0 * (page_size as int) == 0);
    while i < count
        invariant
            i <= count,
            start <= pos <= data@.len(),
            pos == start + i * page_size,
            from_key == match from {
                Some(k) => Some(k@),
                None => None,
            },
            from is Some ==> fk == from->0@,
            claim == (from is Some && !first_is_kept(
                data@,
                start as int,
                page_size as int,
                count as nat,
                keep_plain_first,
            )),
            out@.len() == i * page_size,
            all_open(out@, page_size as int, i as nat, to@, reserve as int),
            forall|plain: Seq<u8>|
                claim && #[trigger] sealed_under(
                    data@,
                    start as int,
                    page_size as int,
                    count as nat,
                    fk,
                    reserve as int,
                    plain,
                ) ==> resealed_upto(out@, page_size as int, i as int, to@, reserve as int, plain),
            recrypt_pages_result(
                data@,
                start as int,
                page_size as int,
                i as nat,
                from_key,
                to@,
                reserve as int,
                keep_plain_first,
            ) == Ok::<Seq<u8>, EvfsError>(out@),
        decreases count - i,
    {
        let page_no: u32 = i + 1;
        assert((i + 1) * page_size == i * page_size + page_size) by (nonlinear_arith);
        if data.len() - pos < page_size as usize {
            proof {
                lemma_failure_stays(
                    data@,
                    start as int,
                    page_size as int,
                    page_no as nat,
                    count as nat,
                    from_key,
                    to@,
                    reserve as int,
                    keep_plain_first,
                );
                assert((i + 1) * page_size <= count * page_size) by (nonlinear_arith)
                    requires
                        i + 1 <= count,
                        page_size >= 0,
                ;
            }
            return Err(EvfsError::TruncatedBackup);
        }
        let mut page = slice_to_vec(slice_subrange(data, pos, pos + page_size as usize));
        assert(page@ == page_at(data@, start as int, page_size as int, i as int));
        let ghost sealed = page@;
        proof {
            if i == 0 {
                assert(page_at(data@, start as int, page_size as int, 0) == sealed);
            }
            assert((i + 1) * page_size <= count * page_size) by (nonlinear_arith)
                requires
                    i + 1 <= count,
                    page_size >= 0,
            ;
            assert(0 <= i * page_size) by (nonlinear_arith)
                requires
                    0 <= i,
                    page_size >= 0,
            ;
        }
        let keep = keep_plain_first && page_no == 1 && is_plaintext_header(page.as_slice());
        let key: Option<&Dek> = if keep {
            None
        } else {
            from
        };
        let outcome = recrypt_page(&mut page, page_no, key, to, reserve);
        proof {
            // Where the pages are sealed pages, this one opens, and comes out
            // as its plaintext sealed anew.
            assert forall|plain: Seq<u8>|
                claim && #[trigger] sealed_under(
                    data@,
                    start as int,
                    page_size as int,
                    count as nat,
                    fk,
                    reserve as int,
                    plain,
                ) implies outcome is Ok && page@ == resealed_page(
                page_at(plain, 0, page_size as int, i as int),
                page_no,
                to@,
                reserve as int,
            ) by {
                let p = page_at(plain, 0, page_size as int, i as int);
                assert(p.len() == page_size);
                assert(sealed == encrypted_page(p, page_no, fk, reserve as int));
                assert(!keep);
            }
        }
        match outcome {
            Err(e) => {
                proof {
                    lemma_failure_stays(
                        data@,
                        start as int,
                        page_size as int,
                        page_no as nat,
                        count as nat,
                        from_key,
                        to@,
                        reserve as int,
                        keep_plain_first,
                    );
                }
                return Err(e);
            },
            Ok(()) => {},
        }
        let ghost before = out@;
        let ghost added = page@;
        let mut moved = page;
        out.append(&mut moved);
        proof {
            lemma_pages_of_append(before, added, page_size as int, i as int);
            assert(all_open(out@, page_size as int, (i + 1) as nat, to@, reserve as int)) by {
                assert forall|j: int| 0 <= j < i + 1 implies decrypt_result(
                    #[trigger] page_at(out@, 0, page_size as int, j),
                    (j + 1) as u32,
                    to@,
                    reserve as int,
                ) is Ok by {
                    if j < i {
                        assert(page_at(out@, 0, page_size as int, j) == page_at(
                            before,
                            0,
                            page_size as int,
                            j,
                        ));
                    }
                }
            }
            assert forall|plain: Seq<u8>|
                claim && #[trigger] sealed_under(
                    data@,
                    start as int,
                    page_size as int,
                    count as nat,
                    fk,
                    reserve as int,
                    plain,
                ) implies resealed_upto(
                out@,
                page_size as int,
                i + 1,
                to@,
                reserve as int,
                plain,
            ) by {
                assert(resealed_upto(before, page_size as int, i as int, to@, reserve as int, plain));
                assert forall|j: int| 0 <= j < i + 1 implies #[trigger] page_at(
                    out@,
                    0,
                    page_size as int,
                    j,
                ) == resealed_page(
                    page_at(plain, 0, page_size as int, j),
                    (j + 1) as u32,
                    to@,
                    reserve as int,
                ) by {
                    if j < i {
                        assert(page_at(before, 0, page_size as int, j) == resealed_page(
                            page_at(plain, 0, page_size as int, j),
                            (j + 1) as u32,
                            to@,
                            reserve as int,
                        ));
                    }
                }
            }
        }
        pos = pos + page_size as usize;
        i = i + 1;
    }
    Ok(out)
}

/// How many of the first `count` pages open under `key`.
pub open spec fn pages_ok(
    data: Seq<u8>,
    start: int,
    page_size: int,
    count: nat,
    key: Seq<u8>,
    reserve: int,
) -> nat
    decreases count,
{
    if count == 0 {
        0
    } else {
        let rest = pages_ok(data, start, page_size, (count - 1) as nat, key, reserve);
        if decrypt_result(
            page_at(data, start, page_size, count - 1),
            count as u32,
            key,
            reserve,
        ) is Ok {
            rest + 1
        } else {
            rest
        }
    }
}

/// What checking `count` pages under `key` finds: how many open and how many
/// do not; or `TruncatedBackup` if the pages are not all there.
pub open spec fn check_result(
    data: Seq<u8>,
    start: int,
    page_size: int,
    count: u32,
    key: Seq<u8>,
    reserve: int,
) -> Result<VerifyResult, EvfsError> {
    if data.len() < start + count * page_size {
        Err(EvfsError::TruncatedBackup)
    } else {
        let ok = pages_ok(data, start, page_size, count as nat, key, reserve);
        Ok(VerifyResult { page_count: count, pages_ok: ok as u32, pages_bad: (count - ok) as u32 })
    }
}

/// Tries to open each of `count` pages under `dek` and counts.
pub fn check_pages(
    data: &[u8],
    start: usize,
    page_size: u32,
    count: u32,
    dek: &Dek,
    reserve: usize,
) -> (r: Result<VerifyResult, EvfsError>)
    ensures
        r == check_result(data@, start as int, page_size as int, count, dek@, reserve as int),
{
    if start > data.len() {
        assert(count * page_size >= 0) by (nonlinear_arith)
            requires
                count >= 0,
                page_size >= 0,
        ;
        return Err(EvfsError::TruncatedBackup);
    }
    let mut ok: u32 = 0;
    let mut pos: usize = start;
    let mut i: u32 = 0;
    while i < count
        invariant
            i <= count,
            start <= pos <= data@.len(),
            pos == start + i * page_size,
            ok == pages_ok(data@, start as int, page_size as int, i as nat, dek@, reserve as int),
            ok <= i,
        decreases count - i,
    {
        let page_no: u32 = i + 1;
        assert((i + 1) * page_size == i * page_size + page_size) by (nonlinear_arith);
        if data.len() - pos < page_size as usize {
            assert(count * page_size >= (i + 1) * page_size) by (nonlinear_arith)
                requires
                    count >= i + 1,
                    page_size >= 0,
            ;
            return Err(EvfsError::TruncatedBackup);
        }
        let mut page = slice_to_vec(slice_subrange(data, pos, pos + page_size as usize));
        assert(page@ == page_at(data@, start as int, page_size as int, i as int));
        match decrypt_page(&mut page, page_no, dek, reserve) {
            Ok(()) => {
                ok = ok + 1;
            },
            Err(_) => {},
        }
        pos = pos + page_size as usize;
        i = i + 1;
    }
    Ok(VerifyResult { page_count: count, pages_ok: ok, pages_bad: count - ok })
}

/// Whether a database of `len` bytes is a whole number of pages, few enough
/// for a header to count.
pub open spec fn whole_pages(len: int, page_size: u32) -> bool {
    page_size > 0 && len % (page_size as int) == 0 && len / (page_size as int) <= u32::MAX
}

/// The keyring name of the scope of the whole database.
pub open spec fn database_key() -> Seq<char> {
    KeyScope::Database.key()
}

/// Puts a serialized header and sealed pages together as a backup.
///
/// A header longer than the limit is refused with `HeaderTooLarge`.
pub fn assemble_backup(header: &[u8], pages: &[u8]) -> (r: Result<Vec<u8>, EvfsError>)
    ensures
        header@.len() > HEADER_LIMIT ==> r is Err && r->Err_0 == EvfsError::HeaderTooLarge,
        header@.len() <= HEADER_LIMIT ==> r is Ok && r->Ok_0@ == frame(header@, pages@),
{
    if header.len() > HEADER_LIMIT {
        return Err(EvfsError::HeaderTooLarge);
    }
    let mut out = slice_to_vec("EVFSBKUP".as_bytes());
    let mut len_bytes = u32_to_le_bytes(header.len() as u32);
    out.append(&mut len_bytes);
    out.extend_from_slice(header);
    out.extend_from_slice(pages);
    Ok(out)
}

/// Whether `out` is a backup of `source` whose header is `h`, whose pages are
/// sealed under the data key `bdek`, and whose source pages were opened with
/// `src` where they had to be opened.
pub open spec fn is_backup_of<Q: KmsProvider>(
    out: Seq<u8>,
    source: Seq<u8>,
    page_size: u32,
    reserve: int,
    backup_kms: &Q,
    h: BackupHeaderView,
    bdek: Seq<u8>,
    src: Option<Seq<u8>>,
    pages: Seq<u8>,
) -> bool {
    &&& h.version == BACKUP_VERSION
    &&& h.page_size == page_size
    &&& h.page_count == (source.len() as int) / (page_size as int)
    &&& h.reserve_size == reserve
    &&& wraps(backup_kms, h.wrapped_dek, bdek)
    &&& backup_kms.current() == Some(h.wrapped_dek.kek_id)
    &&& header_of(header_bytes(h)) == Some(h)
    &&& header_bytes(h).len() <= HEADER_LIMIT
    &&& pages.len() == h.page_count * page_size
    &&& all_open(pages, page_size as int, h.page_count as nat, bdek, reserve)
    &&& recrypt_pages_result(
        source,
        0,
        page_size as int,
        h.page_count as nat,
        src,
        bdek,
        reserve,
        true,
    ) == Ok::<Seq<u8>, EvfsError>(pages)
    &&& src is Some && !first_is_kept(source, 0, page_size as int, h.page_count as nat, true)
        ==> reseals(
        source,
        0,
        page_size as int,
        h.page_count as nat,
        src->0,
        bdek,
        reserve,
        Ok(pages),
    )
    &&& out == frame(header_bytes(h), pages)
}

/// Whether a backup of `source` needs the source's data key: it does unless
/// there is no page at all, or only a first page that is a plaintext header.
pub open spec fn needs_source_key(source: Seq<u8>, page_size: u32) -> bool {
    let count = (source.len() as int) / (page_size as int);
    count >= 2 || (count == 1 && key_for(
        page_at(source, 0, page_size as int, 0),
        1,
        Some(Seq::<u8>::empty()),
        true,
    ) is Some)
}

/// Whether the step from `pre` to `post` resolved the source's data key as far
/// as a backup needs it: to `src`, where pages have to be opened, and not at
/// all where none has to.
pub open spec fn source_resolved(
    source: Seq<u8>,
    page_size: u32,
    pre: crate::keyring::KeyringState,
    post: crate::keyring::KeyringState,
    src: Option<Seq<u8>>,
) -> bool {
    &&& src is Some <==> needs_source_key(source, page_size)
    &&& match src {
        Some(k) => dek_for_step(pre, database_key(), Ok::<Seq<u8>, EvfsError>(k), post),
        None => post == pre,
    }
}

/// How making a backup of a source whose geometry is in order may fail with
/// `e`: through the random source, the backup's provider or a header over the
/// limit, before the keyring is touched; through the source's data key, which
/// could not be resolved; or through a page that could not be opened and
/// sealed anew, once the keys were there.
pub open spec fn backup_failure(
    source: Seq<u8>,
    page_size: u32,
    reserve: int,
    pre: crate::keyring::KeyringState,
    post: crate::keyring::KeyringState,
    e: EvfsError,
) -> bool {
    ||| (e is Provider || e == EvfsError::Crypto || e == EvfsError::HeaderTooLarge) && post == pre
    ||| needs_source_key(source, page_size) && dek_for_step(
        pre,
        database_key(),
        Err::<Seq<u8>, EvfsError>(e),
        post,
    )
    ||| exists|bdek: Seq<u8>, src: Option<Seq<u8>>|
        source_resolved(source, page_size, pre, post, src) && #[trigger] recrypt_pages_result(
            source,
            0,
            page_size as int,
            ((source.len() as int) / (page_size as int)) as nat,
            src,
            bdek,
            reserve,
            true,
        ) == Err::<Seq<u8>, EvfsError>(e)
}

/// Makes an encrypted backup of the database whose bytes are `source`.
///
/// A source that is not a whole number of pages is refused with `BadPageSize`
/// and a reserve that a header cannot hold with `Crypto`; neither touches the
/// keyring. Otherwise a fresh data key is drawn and wrapped under
/// `backup_kms`, and each page is opened with the source's data key (but for a
/// first page that is a plaintext header) and sealed under the fresh key. A
/// failure on the way is one of those that `backup_failure` lists.
pub fn create_backup<P: KmsProvider, Q: KmsProvider>(
    source: &[u8],
    source_keyring: &mut Keyring<P>,
    backup_kms: &Q,
    page_size: u32,
    reserve: usize,
) -> (r: Result<Vec<u8>, EvfsError>)
    ensures
        final(source_keyring).kms() == old(source_keyring).kms(),
        !whole_pages(source@.len() as int, page_size) ==> r is Err && r->Err_0
            == EvfsError::BadPageSize && final(source_keyring).state() == old(source_keyring).state(),
        whole_pages(source@.len() as int, page_size) && reserve > u32::MAX ==> r is Err
            && r->Err_0 == EvfsError::Crypto && final(source_keyring).state() == old(source_keyring).state(),
        backup_kms.current() is None ==> r is Err,
        whole_pages(source@.len() as int, page_size) && reserve <= u32::MAX && r is Err
            ==> backup_failure(
            source@,
            page_size,
            reserve as int,
            old(source_keyring).state(),
            final(source_keyring).state(),
            r->Err_0,
        ),
        r is Ok ==> exists|h: BackupHeaderView, bdek: Seq<u8>, src: Option<Seq<u8>>, pages: Seq<u8>|
            {
                &&& #[trigger] is_backup_of(
                    r->Ok_0@,
                    source@,
                    page_size,
                    reserve as int,
                    backup_kms,
                    h,
                    bdek,
                    src,
                    pages,
                )
                &&& src is Some <==> needs_source_key(source@, page_size)
                &&& match src {
                    Some(k) => dek_for_step(
                        old(source_keyring).state(),
                        database_key(),
                        Ok::<Seq<u8>, EvfsError>(k),
                        final(source_keyring).state(),
                    ),
                    None => final(source_keyring).state() == old(source_keyring).state(),
                }
            },
{
    if page_size == 0 || source.len() % (page_size as usize) != 0 {
        return Err(EvfsError::BadPageSize);
    }
    let count = source.len() / (page_size as usize);
    if count as u64 > u32::MAX as u64 {
        return Err(EvfsError::BadPageSize);
    }
    if reserve as u64 > u32::MAX as u64 {
        return Err(EvfsError::Crypto);
    }
    let backup_dek = Dek::generate()?;
    let wrapped = wrap_dek(&backup_dek, backup_kms)?;
    let header = BackupHeader {
        version: BACKUP_VERSION,
        page_size,
        page_count: count as u32,
        reserve_size: reserve as u32,
        wrapped_dek: wrapped,
    };
    let header_buf = match encode_header(&header) {
        Some(bytes) => bytes,
        None => { return Err(EvfsError::BadHeader); },
    };
    if header_buf.len() > HEADER_LIMIT {
        return Err(EvfsError::HeaderTooLarge);
    }
    assert(source@.len() == count * page_size) by (nonlinear_arith)
        requires
            (source@.len() as int) % (page_size as int) == 0,
            count == (source@.len() as int) / (page_size as int),
            page_size > 0,
    ;
    proof {
        if count == 1 {
            assert(count * page_size == page_size) by (nonlinear_arith)
                requires
                    count == 1,
            ;
        }
    }
    let needs_key = count >= 2 || (count == 1 && !is_plaintext_header(
        slice_subrange(source, 0, page_size as usize),
    ));
    proof {
        if count == 1 {
            let ps = page_size as int;
            assert(0 + 0 * ps == 0 && 0 + (0 + 1) * ps == ps) by (nonlinear_arith);
            assert(page_at(source@, 0, page_size as int, 0) == source@.subrange(
                0,
                page_size as int,
            ));
        }
        assert(needs_key == needs_source_key(source@, page_size));
    }
    let ghost pre = source_keyring.state();
    let src_dek: Option<Dek> = if needs_key {
        match source_keyring.dek_for(&KeyScope::Database) {
            Ok(dek) => Some(dek),
            Err(e) => {
                assert(dek_for_step(
                    pre,
                    database_key(),
                    Err::<Seq<u8>, EvfsError>(e),
                    source_keyring.state(),
                ));
                return Err(e);
            },
        }
    } else {
        None
    };
    let ghost src: Option<Seq<u8>> = if src_dek is Some {
        Some(src_dek->0@)
    } else {
        None
    };
    assert(source_resolved(source@, page_size, pre, source_keyring.state(), src));
    let pages = match recrypt_pages(
        source,
        0,
        page_size,
        count as u32,
        src_dek.as_ref(),
        &backup_dek,
        reserve,
        true,
    ) {
        Ok(pages) => pages,
        Err(e) => {
            assert(recrypt_pages_result(
                source@,
                0,
                page_size as int,
                ((source@.len() as int) / (page_size as int)) as nat,
                src,
                backup_dek@,
                reserve as int,
                true,
            ) == Err::<Seq<u8>, EvfsError>(e));
            return Err(e);
        },
    };
    let out = assemble_backup(header_buf.as_slice(), pages.as_slice())?;
    proof {
        assert(is_backup_of(
            out@,
            source@,
            page_size,
            reserve as int,
            backup_kms,
            header@,
            backup_dek@,
            src,
            pages@,
        ));
    }
    Ok(out)
}

/// What restoring the backup `data` may answer, and what it may do to the
/// target keyring on the way from `pre` to `post`: what is wrong with the
/// backup's front; then the backup provider's own failure, or else what
/// opening the wrapped key with that provider's key gives, if that is an
/// error; up to there the keyring is untouched. With the backup's data key,
/// the target's key for the whole database is resolved, and a failure there is
/// the answer; with both keys the answer is that of opening every page and
/// sealing it anew.
pub open spec fn restore_outcome<Q: KmsProvider>(
    data: Seq<u8>,
    backup_kms: &Q,
    pre: crate::keyring::KeyringState,
    post: crate::keyring::KeyringState,
    r: Result<Seq<u8>, EvfsError>,
) -> bool {
    if parse_result(data) is Err {
        r == Err::<Seq<u8>, EvfsError>(parse_result(data)->Err_0) && post == pre
    } else {
        let h = parse_result(data)->Ok_0.0;
        let kek = backup_kms.kek(h.wrapped_dek.kek_id);
        ||| r is Err && r->Err_0 is Provider && post == pre
        ||| kek is Some && open_result(h.wrapped_dek, kek->0) is Err && r == Err::<
            Seq<u8>,
            EvfsError,
        >(open_result(h.wrapped_dek, kek->0)->Err_0) && post == pre
        ||| kek is Some && open_result(h.wrapped_dek, kek->0) is Ok && r is Err && dek_for_step(
            pre,
            database_key(),
            Err::<Seq<u8>, EvfsError>(r->Err_0),
            post,
        )
        ||| kek is Some && open_result(h.wrapped_dek, kek->0) is Ok && exists|tdek: Seq<u8>|
            {
                &&& #[trigger] dek_for_step(
                    pre,
                    database_key(),
                    Ok::<Seq<u8>, EvfsError>(tdek),
                    post,
                )
                &&& r == recrypt_pages_result(
                    data,
                    parse_result(data)->Ok_0.1,
                    h.page_size as int,
                    h.page_count as nat,
                    Some(open_result(h.wrapped_dek, kek->0)->Ok_0),
                    tdek,
                    h.reserve_size as int,
                    false,
                )
            }
    }
}

/// Restores a database from a backup: each page is opened with the backup's
/// data key and sealed under the target keyring's key for the whole database.
///
/// What is wrong with the backup's front is reported as `read_header` does,
/// and then the keyring is untouched. The bytes returned are the restored
/// database, for the caller to write in one piece.
pub fn restore_backup<Q: KmsProvider, P: KmsProvider>(
    data: &[u8],
    backup_kms: &Q,
    target_keyring: &mut Keyring<P>,
) -> (r: Result<Vec<u8>, EvfsError>)
    ensures
        final(target_keyring).kms() == old(target_keyring).kms(),
        parse_result(data@) is Err ==> r is Err && r->Err_0 == parse_result(data@)->Err_0 && final(target_keyring).state() == old(target_keyring).state(),
        r is Ok ==> exists|bdek: Seq<u8>, tdek: Seq<u8>| #[trigger]
            restored(
                r->Ok_0@,
                data@,
                backup_kms,
                bdek,
                tdek,
                old(target_keyring).state(),
                final(target_keyring).state(),
            ),
        forall|d: Seq<u8>|
            parse_result(data@) is Ok && #[trigger] wraps(
                backup_kms,
                parse_result(data@)->Ok_0.0.wrapped_dek,
                d,
            ) && r is Ok ==> exists|tdek: Seq<u8>| #[trigger]
                restored(
                    r->Ok_0@,
                    data@,
                    backup_kms,
                    d,
                    tdek,
                    old(target_keyring).state(),
                    final(target_keyring).state(),
                ),
        restore_outcome(
            data@,
            backup_kms,
            old(target_keyring).state(),
            final(target_keyring).state(),
            match r {
                Ok(out) => Ok(out@),
                Err(e) => Err(e),
            },
        ),
{
    let (header, start) = read_header(data)?;
    let backup_dek = unwrap_dek(&header.wrapped_dek, backup_kms)?;
    let ghost pre = target_keyring.state();
    let ghost wrapped = parse_result(data@)->Ok_0.0.wrapped_dek;
    let ghost found = open_result(wrapped, backup_kms.kek(wrapped.kek_id)->0);
    assert(found == Ok::<Seq<u8>, EvfsError>(backup_dek@));
    let target_dek = match target_keyring.dek_for(&KeyScope::Database) {
        Ok(dek) => dek,
        Err(e) => {
            assert(dek_for_step(
                pre,
                database_key(),
                Err::<Seq<u8>, EvfsError>(e),
                target_keyring.state(),
            ));
            return Err(e);
        },
    };
    assert(dek_for_step(
        pre,
        database_key(),
        Ok::<Seq<u8>, EvfsError>(target_dek@),
        target_keyring.state(),
    ));
    let out = match recrypt_pages(
        data,
        start,
        header.page_size,
        header.page_count,
        Some(&backup_dek),
        &target_dek,
        header.reserve_size as usize,
        false,
    ) {
        Ok(out) => out,
        Err(e) => {
            assert(restore_outcome(
                data@,
                backup_kms,
                pre,
                target_keyring.state(),
                Err::<Seq<u8>, EvfsError>(e),
            ));
            return Err(e);
        },
    };
    proof {
        assert(restored(
            out@,
            data@,
            backup_kms,
            backup_dek@,
            target_dek@,
            pre,
            target_keyring.state(),
        ));
        assert(restore_outcome(
            data@,
            backup_kms,
            pre,
            target_keyring.state(),
            Ok::<Seq<u8>, EvfsError>(out@),
        ));
    }
    Ok(out)
}

/// Whether `out` is what restoring the backup `data` gives when the backup's
/// data key is `bdek` and the target's key for the whole database, resolved in
/// the step from `pre` to `post`, is `tdek`.
pub open spec fn restored<Q: KmsProvider>(
    out: Seq<u8>,
    data: Seq<u8>,
    backup_kms: &Q,
    bdek: Seq<u8>,
    tdek: Seq<u8>,
    pre: crate::keyring::KeyringState,
    post: crate::keyring::KeyringState,
) -> bool {
    &&& parse_result(data) is Ok
    &&& wraps(backup_kms, parse_result(data)->Ok_0.0.wrapped_dek, bdek)
    &&& dek_for_step(pre, database_key(), Ok::<Seq<u8>, EvfsError>(tdek), post)
    &&& out.len() == parse_result(data)->Ok_0.0.page_count * parse_result(data)->Ok_0.0.page_size
    &&& all_open(
        out,
        parse_result(data)->Ok_0.0.page_size as int,
        parse_result(data)->Ok_0.0.page_count as nat,
        tdek,
        parse_result(data)->Ok_0.0.reserve_size as int,
    )
    &&& recrypt_pages_result(
        data,
        parse_result(data)->Ok_0.1,
        parse_result(data)->Ok_0.0.page_size as int,
        parse_result(data)->Ok_0.0.page_count as nat,
        Some(bdek),
        tdek,
        parse_result(data)->Ok_0.0.reserve_size as int,
        false,
    ) == Ok::<Seq<u8>, EvfsError>(out)
    &&& reseals(
        data,
        parse_result(data)->Ok_0.1,
        parse_result(data)->Ok_0.0.page_size as int,
        parse_result(data)->Ok_0.0.page_count as nat,
        bdek,
        tdek,
        parse_result(data)->Ok_0.0.reserve_size as int,
        Ok(out),
    )
}

/// What checking the backup `data` finds when its data key is `bdek`.
pub open spec fn verify_result(data: Seq<u8>, bdek: Seq<u8>) -> Result<VerifyResult, EvfsError> {
    match parse_result(data) {
        Err(e) => Err(e),
        Ok(found) => check_result(
            data,
            found.1,
            found.0.page_size as int,
            found.0.page_count,
            bdek,
            found.0.reserve_size as int,
        ),
    }
}

/// What checking the backup `data` with the provider `backup_kms` may answer:
/// what is wrong with the backup's front; then the provider's own failure, or
/// else what opening the wrapped key with the provider's key gives, an error
/// or the data key; and with the data key, what checking under it finds.
pub open spec fn verify_outcome<Q: KmsProvider>(
    data: Seq<u8>,
    backup_kms: &Q,
    r: Result<VerifyResult, EvfsError>,
) -> bool {
    match parse_result(data) {
        Err(e) => r == Err::<VerifyResult, EvfsError>(e),
        Ok(found) => (r is Err && r->Err_0 is Provider) || (backup_kms.kek(
            found.0.wrapped_dek.kek_id,
        ) is Some && match open_result(
            found.0.wrapped_dek,
            backup_kms.kek(found.0.wrapped_dek.kek_id)->0,
        ) {
            Ok(bdek) => r == verify_result(data, bdek),
            Err(e) => r == Err::<VerifyResult, EvfsError>(e),
        }),
    }
}

/// Checks a backup without restoring it: unwraps its data key and tries to
/// open every page.
///
/// What is wrong with the backup's front is reported as `read_header` does. If
/// the wrapped key is some key wrapped under `backup_kms`, the answer is what
/// checking under that key finds, unless the provider itself fails. A wrapped
/// key that does not open under the provider's key is reported as opening it
/// reports it.
pub fn verify_backup<Q: KmsProvider>(data: &[u8], backup_kms: &Q) -> (r: Result<
    VerifyResult,
    EvfsError,
>)
    ensures
        parse_result(data@) is Err ==> r == verify_result(data@, Seq::empty()),
        r is Ok ==> exists|bdek: Seq<u8>| #[trigger]
            wraps(backup_kms, parse_result(data@)->Ok_0.0.wrapped_dek, bdek) && r == verify_result(
                data@,
                bdek,
            ),
        forall|d: Seq<u8>|
            parse_result(data@) is Ok && #[trigger] wraps(
                backup_kms,
                parse_result(data@)->Ok_0.0.wrapped_dek,
                d,
            ) ==> r == verify_result(data@, d) || (r is Err && r->Err_0 is Provider),
        verify_outcome(data@, backup_kms, r),
{
    let (header, start) = read_header(data)?;
    let backup_dek = unwrap_dek(&header.wrapped_dek, backup_kms)?;
    let r = check_pages(
        data,
        start,
        header.page_size,
        header.page_count,
        &backup_dek,
        header.reserve_size as usize,
    );
    proof {
        assert(wraps(backup_kms, parse_result(data@)->Ok_0.0.wrapped_dek, backup_dek@));
        assert(r == verify_result(data@, backup_dek@));
    }
    r
}

/// Whether `out` is the backup `data` with its data key `dek` wrapped anew
/// under `new_kms`: the header `h2` differs from the old one in the wrapped key
/// alone, and the pages are the same bytes.
pub open spec fn rotated<Q: KmsProvider, R: KmsProvider>(
    out: Seq<u8>,
    data: Seq<u8>,
    old_kms: &Q,
    new_kms: &R,
    dek: Seq<u8>,
    h2: BackupHeaderView,
) -> bool {
    &&& parse_result(data) is Ok
    &&& wraps(old_kms, parse_result(data)->Ok_0.0.wrapped_dek, dek)
    &&& wraps(new_kms, h2.wrapped_dek, dek)
    &&& new_kms.current() == Some(h2.wrapped_dek.kek_id)
    &&& h2 == (BackupHeaderView { wrapped_dek: h2.wrapped_dek, ..parse_result(data)->Ok_0.0 })
    &&& header_of(header_bytes(h2)) == Some(h2)
    &&& header_bytes(h2).len() <= HEADER_LIMIT
    &&& out == frame(
        header_bytes(h2),
        data.subrange(parse_result(data)->Ok_0.1, data.len() as int),
    )
}

/// What rotating the key-encryption key of the backup `data` may answer: what
/// is wrong with the backup's front; then a provider's own failure or that of
/// the random source, or else what opening the wrapped key with the old
/// provider's key gives, if that is an error; and with the data key, the
/// rotated backup, or `HeaderTooLarge` where the new header is over the limit.
pub open spec fn rotate_outcome<Q: KmsProvider, R: KmsProvider>(
    data: Seq<u8>,
    old_kms: &Q,
    new_kms: &R,
    r: Result<Seq<u8>, EvfsError>,
) -> bool {
    if parse_result(data) is Err {
        r == Err::<Seq<u8>, EvfsError>(parse_result(data)->Err_0)
    } else {
        let wrapped = parse_result(data)->Ok_0.0.wrapped_dek;
        let kek = old_kms.kek(wrapped.kek_id);
        ||| r is Err && (r->Err_0 is Provider || r->Err_0 == EvfsError::Crypto)
        ||| kek is Some && open_result(wrapped, kek->0) is Err && r == Err::<Seq<u8>, EvfsError>(
            open_result(wrapped, kek->0)->Err_0,
        )
        ||| kek is Some && open_result(wrapped, kek->0) is Ok && r == Err::<Seq<u8>, EvfsError>(
            EvfsError::HeaderTooLarge,
        )
        ||| kek is Some && open_result(wrapped, kek->0) is Ok && r is Ok && exists|
            h2: BackupHeaderView,
        | #[trigger]
            rotated(r->Ok_0, data, old_kms, new_kms, open_result(wrapped, kek->0)->Ok_0, h2)
    }
}

/// Wraps a backup's data key under a new key-encryption key. Only the header
/// is written anew; no page is touched, whatever their number. Whatever key
/// the old provider's wrapping holds is the key that the new wrapping holds.
pub fn rotate_backup_kek<Q: KmsProvider, R: KmsProvider>(data: &[u8], old_kms: &Q, new_kms: &R) -> (r:
    Result<Vec<u8>, EvfsError>)
    ensures
        parse_result(data@) is Err ==> r is Err && r->Err_0 == parse_result(data@)->Err_0,
        r is Ok ==> exists|dek: Seq<u8>, h2: BackupHeaderView| #[trigger]
            rotated(r->Ok_0@, data@, old_kms, new_kms, dek, h2),
        forall|d: Seq<u8>|
            r is Ok && #[trigger] wraps(old_kms, parse_result(data@)->Ok_0.0.wrapped_dek, d)
                ==> exists|h2: BackupHeaderView| #[trigger]
                rotated(r->Ok_0@, data@, old_kms, new_kms, d, h2),
        rotate_outcome(
            data@,
            old_kms,
            new_kms,
            match r {
                Ok(out) => Ok(out@),
                Err(e) => Err(e),
            },
        ),
        new_kms.current() is None ==> r is Err,
{
    let (header, start) = read_header(data)?;
    let dek = unwrap_dek(&header.wrapped_dek, old_kms)?;
    let new_wrapped = wrap_dek(&dek, new_kms)?;
    let new_header = BackupHeader {
        version: header.version,
        page_size: header.page_size,
        page_count: header.page_count,
        reserve_size: header.reserve_size,
        wrapped_dek: new_wrapped,
    };
    let header_buf = match encode_header(&new_header) {
        Some(bytes) => bytes,
        None => { return Err(EvfsError::BadHeader); },
    };
    let out = assemble_backup(header_buf.as_slice(), slice_subrange(data, start, data.len()))?;
    proof {
        assert(rotated(out@, data@, old_kms, new_kms, dek@, new_header@));
        let wrapped = parse_result(data@)->Ok_0.0.wrapped_dek;
        let found = open_result(wrapped, old_kms.kek(wrapped.kek_id)->0);
        assert(found == Ok::<Seq<u8>, EvfsError>(dek@));
        let res = Ok::<Seq<u8>, EvfsError>(out@);
        assert(rotated(res->Ok_0, data@, old_kms, new_kms, found->Ok_0, new_header@));
        assert(rotate_outcome(data@, old_kms, new_kms, res));
    }
    Ok(out)
}

/// A backup put together from a header and pages reads back as that header,
/// with those pages behind it.
pub proof fn lemma_frame_reads_back(h: BackupHeaderView, pages: Seq<u8>)
    requires
        h.version == BACKUP_VERSION,
        header_of(header_bytes(h)) == Some(h),
        header_bytes(h).len() <= HEADER_LIMIT,
    ensures
        parse_result(frame(header_bytes(h), pages)) == Ok::<(BackupHeaderView, int), EvfsError>(
            (h, (magic().len() + 4 + header_bytes(h).len()) as int),
        ),
        frame(header_bytes(h), pages).subrange(
            (magic().len() + 4 + header_bytes(h).len()) as int,
            frame(header_bytes(h), pages).len() as int,
        ) == pages,
{
    let hb = header_bytes(h);
    let out = frame(hb, pages);
    let m = magic().len() as int;
    lemma_auto_spec_u32_to_from_le_bytes();
    let le = spec_u32_to_le_bytes(hb.len() as u32);
    assert(le.len() == 4);
    assert(out.len() == m + 4 + hb.len() + pages.len());
    assert(out.subrange(0, m) =~= magic());
    assert(out.subrange(m, m + 4) =~= le);
    assert(spec_u32_from_le_bytes(le) == hb.len() as u32);
    assert(out.subrange(m + 4, m + 4 + hb.len()) =~= hb);
    assert(out.subrange(m + 4 + hb.len(), out.len() as int) =~= pages);
}

/// Whether the first `count` pages open under a key depends on the pages
/// alone, not on where in a file they stand.
pub proof fn lemma_pages_ok_moves(
    a: Seq<u8>,
    a_start: int,
    b: Seq<u8>,
    b_start: int,
    page_size: int,
    count: nat,
    key: Seq<u8>,
    reserve: int,
)
    requires
        0 <= a_start <= a.len(),
        0 <= b_start <= b.len(),
        0 <= page_size,
        a.subrange(a_start, a.len() as int) == b.subrange(b_start, b.len() as int),
        a.len() >= a_start + count * page_size,
    ensures
        pages_ok(a, a_start, page_size, count, key, reserve) == pages_ok(
            b,
            b_start,
            page_size,
            count,
            key,
            reserve,
        ),
    decreases count,
{
    if count > 0 {
        let i = count - 1;
        assert(i * page_size <= count * page_size && (i + 1) * page_size == count * page_size
            && 0 <= i * page_size) by (nonlinear_arith)
            requires
                i == count - 1,
                i >= 0,
                page_size >= 0,
        ;
        lemma_pages_ok_moves(a, a_start, b, b_start, page_size, i as nat, key, reserve);
        let ra = a.subrange(a_start, a.len() as int);
        let rb = b.subrange(b_start, b.len() as int);
        assert(a.len() - a_start == ra.len());
        assert(b.len() - b_start == rb.len());
        assert(page_at(a, a_start, page_size, i) =~= ra.subrange(
            i * page_size,
            (i + 1) * page_size,
        ));
        assert(page_at(b, b_start, page_size, i) =~= rb.subrange(
            i * page_size,
            (i + 1) * page_size,
        ));
    }
}

/// Rotating a backup's key-encryption key changes nothing of what checking it
/// finds: the rotated backup reads back with the new header, its data key is
/// the old one wrapped under the new provider, and under that data key every
/// page opens or fails as it did before.
pub proof fn lemma_rotation_keeps_pages<Q: KmsProvider, R: KmsProvider>(
    out: Seq<u8>,
    data: Seq<u8>,
    old_kms: &Q,
    new_kms: &R,
    dek: Seq<u8>,
    h2: BackupHeaderView,
)
    requires
        rotated(out, data, old_kms, new_kms, dek, h2),
    ensures
        parse_result(out) is Ok,
        parse_result(out)->Ok_0.0 == h2,
        wraps(new_kms, parse_result(out)->Ok_0.0.wrapped_dek, dek),
        out.subrange(parse_result(out)->Ok_0.1, out.len() as int) == data.subrange(
            parse_result(data)->Ok_0.1,
            data.len() as int,
        ),
        verify_result(out, dek) == verify_result(data, dek),
{
    let h = parse_result(data)->Ok_0.0;
    let start = parse_result(data)->Ok_0.1;
    let pages = data.subrange(start, data.len() as int);
    lemma_frame_reads_back(h2, pages);
    let start2 = parse_result(out)->Ok_0.1;
    assert(out.len() - start2 == data.len() - start);
    let ps = h.page_size as int;
    let count = h.page_count;
    if data.len() >= start + count * ps {
        lemma_pages_ok_moves(
            out,
            start2,
            data,
            start,
            ps,
            count as nat,
            dek,
            h.reserve_size as int,
        );
    }
}

/// A backup that was just made is still sound once its key-encryption key was
/// rotated: checking it under the same data key finds every page good.
pub proof fn lemma_rotated_backup_verifies<Q: KmsProvider, R: KmsProvider>(
    rotated_out: Seq<u8>,
    out: Seq<u8>,
    source: Seq<u8>,
    page_size: u32,
    reserve: int,
    backup_kms: &Q,
    new_kms: &R,
    h: BackupHeaderView,
    h2: BackupHeaderView,
    bdek: Seq<u8>,
    src: Option<Seq<u8>>,
    pages: Seq<u8>,
)
    requires
        is_backup_of(out, source, page_size, reserve, backup_kms, h, bdek, src, pages),
        rotated(rotated_out, out, backup_kms, new_kms, bdek, h2),
    ensures
        wraps(new_kms, parse_result(rotated_out)->Ok_0.0.wrapped_dek, bdek),
        verify_result(rotated_out, bdek) == Ok::<VerifyResult, EvfsError>(
            VerifyResult { page_count: h.page_count, pages_ok: h.page_count, pages_bad: 0 },
        ),
{
    lemma_backup_verifies(out, source, page_size, reserve, backup_kms, h, bdek, src, pages);
    lemma_rotation_keeps_pages(rotated_out, out, backup_kms, new_kms, bdek, h2);
}

/// Pages that all open are counted as open, every one of them.
pub proof fn lemma_all_open_counts(
    pages: Seq<u8>,
    page_size: int,
    count: nat,
    key: Seq<u8>,
    reserve: int,
)
    requires
        all_open(pages, page_size, count, key, reserve),
    ensures
        pages_ok(pages, 0, page_size, count, key, reserve) == count,
    decreases count,
{
    if count > 0 {
        lemma_all_open_counts(pages, page_size, (count - 1) as nat, key, reserve);
        assert(decrypt_result(page_at(pages, 0, page_size, count - 1), count as u32, key, reserve) is Ok);
    }
}

/// A backup that was just made is sound: it reads back with the header it was
/// given, and checking it under its data key finds every page of the source,
/// and every one of them good.
pub proof fn lemma_backup_verifies<Q: KmsProvider>(
    out: Seq<u8>,
    source: Seq<u8>,
    page_size: u32,
    reserve: int,
    backup_kms: &Q,
    h: BackupHeaderView,
    bdek: Seq<u8>,
    src: Option<Seq<u8>>,
    pages: Seq<u8>,
)
    requires
        is_backup_of(out, source, page_size, reserve, backup_kms, h, bdek, src, pages),
    ensures
        parse_result(out) is Ok,
        parse_result(out)->Ok_0.0 == h,
        out.subrange(parse_result(out)->Ok_0.1, out.len() as int) == pages,
        verify_result(out, bdek) == Ok::<VerifyResult, EvfsError>(
            VerifyResult { page_count: h.page_count, pages_ok: h.page_count, pages_bad: 0 },
        ),
{
    lemma_frame_reads_back(h, pages);
    let start = parse_result(out)->Ok_0.1;
    let ps = page_size as int;
    let count = h.page_count as nat;
    assert(out.len() - start == pages.len());
    assert(pages.subrange(0, pages.len() as int) == pages);
    lemma_pages_ok_moves(out, start, pages, 0, ps, count, bdek, reserve);
    lemma_all_open_counts(pages, ps, count, bdek, reserve);
}

/// What a restore returns is a whole database: as many pages as the backup's
/// header counts, each of which opens under the target's data key.
pub proof fn lemma_restored_pages_open<Q: KmsProvider>(
    out: Seq<u8>,
    data: Seq<u8>,
    backup_kms: &Q,
    bdek: Seq<u8>,
    tdek: Seq<u8>,
    pre: crate::keyring::KeyringState,
    post: crate::keyring::KeyringState,
)
    requires
        restored(out, data, backup_kms, bdek, tdek, pre, post),
    ensures
        check_result(
            out,
            0,
            parse_result(data)->Ok_0.0.page_size as int,
            parse_result(data)->Ok_0.0.page_count,
            tdek,
            parse_result(data)->Ok_0.0.reserve_size as int,
        ) == Ok::<VerifyResult, EvfsError>(
            VerifyResult {
                page_count: parse_result(data)->Ok_0.0.page_count,
                pages_ok: parse_result(data)->Ok_0.0.page_count,
                pages_bad: 0,
            },
        ),
{
    let h = parse_result(data)->Ok_0.0;
    lemma_all_open_counts(
        out,
        h.page_size as int,
        h.page_count as nat,
        tdek,
        h.reserve_size as int,
    );
}

/// The pages of `plain`, each with its tag zeroed: what a run of sealed pages
/// holds once every page is opened.
pub open spec fn opened_pages(plain: Seq<u8>, page_size: int, count: nat, reserve: int) -> Seq<u8>
    decreases count,
{
    if count == 0 {
        Seq::empty()
    } else {
        opened_pages(plain, page_size, (count - 1) as nat, reserve) + decrypted_page(
            payload_of(page_at(plain, 0, page_size, count - 1), reserve),
            padding_of(page_at(plain, 0, page_size, count - 1), reserve),
        )
    }
}

proof fn lemma_opened_pages(plain: Seq<u8>, page_size: int, count: nat, reserve: int)
    requires
        page_fits(page_size, reserve),
        plain.len() >= count * page_size,
    ensures
        opened_pages(plain, page_size, count, reserve).len() == count * page_size,
        forall|i: int|
            0 <= i < count ==> #[trigger] page_at(
                opened_pages(plain, page_size, count, reserve),
                0,
                page_size,
                i,
            ) == decrypted_page(
                payload_of(page_at(plain, 0, page_size, i), reserve),
                padding_of(page_at(plain, 0, page_size, i), reserve),
            ),
    decreases count,
{
    if count == 0 {
        assert(0 * page_size == 0);
    } else {
        let n = count - 1;
        assert(n * page_size <= count * page_size && (n + 1) * page_size == count * page_size
            && 0 <= n * page_size) by (nonlinear_arith)
            requires
                n == count - 1,
                n >= 0,
                page_size >= 0,
        ;
        lemma_opened_pages(plain, page_size, n as nat, reserve);
        let before = opened_pages(plain, page_size, n as nat, reserve);
        let page = page_at(plain, 0, page_size, n);
        assert((n + 1) * page_size == n * page_size + page_size) by (nonlinear_arith);
        assert(page.len() == page_size);
        let last = decrypted_page(payload_of(page, reserve), padding_of(page, reserve));
        assert(last.len() == page_size);
        lemma_pages_of_append(before, last, page_size, n);
    }
}

/// An opened page that is opened again is as it was.
proof fn lemma_opened_twice(page: Seq<u8>, reserve: int)
    requires
        page_fits(page.len() as int, reserve),
    ensures
        ({
            let once = decrypted_page(payload_of(page, reserve), padding_of(page, reserve));
            decrypted_page(payload_of(once, reserve), padding_of(once, reserve)) == once
        }),
{
    let once = decrypted_page(payload_of(page, reserve), padding_of(page, reserve));
    assert(once.len() == page.len());
    assert(payload_of(once, reserve) =~= payload_of(page, reserve));
    assert(padding_of(once, reserve) =~= padding_of(page, reserve));
}

/// A backup that is restored reproduces its source: if the pages of the
/// source are the pages of `plain` sealed under the source's key, then the
/// pages restored are the pages of `plain`, tags zeroed, sealed under the
/// target's key. Opening them with that key gives the payloads of `plain`.
pub proof fn lemma_restore_reproduces_source<Q: KmsProvider>(
    source: Seq<u8>,
    plain: Seq<u8>,
    page_size: u32,
    reserve: int,
    backup_kms: &Q,
    h: BackupHeaderView,
    bdek: Seq<u8>,
    skey: Seq<u8>,
    pages: Seq<u8>,
    backup: Seq<u8>,
    out: Seq<u8>,
    tdek: Seq<u8>,
    pre: crate::keyring::KeyringState,
    post: crate::keyring::KeyringState,
)
    requires
        is_backup_of(backup, source, page_size, reserve, backup_kms, h, bdek, Some(skey), pages),
        !first_is_kept(source, 0, page_size as int, h.page_count as nat, true),
        sealed_under(source, 0, page_size as int, h.page_count as nat, skey, reserve, plain),
        restored(out, backup, backup_kms, bdek, tdek, pre, post),
    ensures
        pages_resealed(out, page_size as int, h.page_count as nat, tdek, reserve, plain),
{
    let ps = page_size as int;
    let n = h.page_count as nat;
    // What the backup holds.
    assert(pages_resealed(pages, ps, n, bdek, reserve, plain));
    lemma_frame_reads_back(h, pages);
    let start = parse_result(backup)->Ok_0.1;
    assert(backup.subrange(start, backup.len() as int) == pages);
    assert(backup.len() == start + pages.len());
    // The backup's pages are sealed pages: those of the source, opened.
    let opened = opened_pages(plain, ps, n, reserve);
    lemma_opened_pages(plain, ps, n, reserve);
    assert forall|i: int| 0 <= i < n implies #[trigger] page_at(backup, start, ps, i)
        == encrypted_page(page_at(opened, 0, ps, i), (i + 1) as u32, bdek, reserve) by {
        assert(0 <= i * ps && (i + 1) * ps <= n * ps && (i + 1) * ps == i * ps + ps)
            by (nonlinear_arith)
            requires
                0 <= i < n,
                0 <= ps,
        ;
        assert(page_at(backup, start, ps, i) =~= page_at(pages, 0, ps, i));
        assert(page_at(pages, 0, ps, i) == resealed_page(
            page_at(plain, 0, ps, i),
            (i + 1) as u32,
            bdek,
            reserve,
        ));
    }
    assert(sealed_under(backup, start, ps, n, bdek, reserve, opened));
    // So the restored pages are those pages, opened once more and sealed.
    assert(pages_resealed(out, ps, n, tdek, reserve, opened));
    assert forall|i: int| 0 <= i < n implies #[trigger] page_at(out, 0, ps, i) == resealed_page(
        page_at(plain, 0, ps, i),
        (i + 1) as u32,
        tdek,
        reserve,
    ) by {
        assert(0 <= i * ps && (i + 1) * ps <= n * ps && (i + 1) * ps == i * ps + ps)
            by (nonlinear_arith)
            requires
                0 <= i < n,
                0 <= ps,
        ;
        let page = page_at(plain, 0, ps, i);
        assert(page.len() == ps);
        lemma_opened_twice(page, reserve);
        assert(page_at(out, 0, ps, i) == resealed_page(
            page_at(opened, 0, ps, i),
            (i + 1) as u32,
            tdek,
            reserve,
        ));
    }
}

} // verus!
