//! The page cipher: one database page sealed in place.
//!
//! A sealed page keeps its length. Its payload, the first `len - reserve`
//! bytes, is replaced by ciphertext; the 16 bytes after it hold the tag; the
//! rest of the reserve is left as it was.

use vstd::bytes::{spec_u32_to_le_bytes, u32_to_le_bytes};
use vstd::prelude::*;
use vstd::slice::slice_subrange;

use crate::crypto::aead::{aead_open, aead_seal, opened, opens, seal, MAX_PLAINTEXT, TAG_LEN};
use crate::crypto::keys::Dek;
use crate::error::EvfsError;

verus! {

/// `n` zero bytes.
pub open spec fn zeros(n: int) -> Seq<u8> {
    Seq::new(n as nat, |i: int| 0u8)
}

/// The nonce of page `page_no`: the number in little-endian order, then eight
/// zero bytes.
pub open spec fn nonce_of(page_no: u32) -> Seq<u8> {
    spec_u32_to_le_bytes(page_no) + zeros(8)
}

/// Whether a page of `len` bytes with `reserve` reserved bytes can be sealed:
/// the reserve holds a tag, the page holds the reserve, and the payload is
/// within the cipher's limit.
pub open spec fn page_fits(len: int, reserve: int) -> bool {
    TAG_LEN <= reserve <= len && len - reserve <= MAX_PLAINTEXT
}

/// The payload of a page: everything before the reserve.
pub open spec fn payload_of(page: Seq<u8>, reserve: int) -> Seq<u8> {
    page.subrange(0, page.len() - reserve)
}

/// The payload of a page together with the 16 bytes of its tag.
pub open spec fn sealed_part(page: Seq<u8>, reserve: int) -> Seq<u8> {
    page.subrange(0, page.len() - reserve + TAG_LEN)
}

/// What follows the tag: the part of the reserve that sealing does not touch.
pub open spec fn padding_of(page: Seq<u8>, reserve: int) -> Seq<u8> {
    page.subrange(page.len() - reserve + TAG_LEN, page.len() as int)
}

/// The sealed form of `page` as page `page_no` under `key`.
pub open spec fn encrypted_page(page: Seq<u8>, page_no: u32, key: Seq<u8>, reserve: int) -> Seq<u8> {
    seal(key, nonce_of(page_no), payload_of(page, reserve)) + padding_of(page, reserve)
}

/// A page after decryption: the plaintext payload, a zeroed tag, and the
/// padding of the sealed page.
pub open spec fn decrypted_page(payload: Seq<u8>, padding: Seq<u8>) -> Seq<u8> {
    payload + zeros(TAG_LEN as int) + padding
}

/// Whether the bytes where a tag would stand are not all zero.
pub open spec fn tag_is_set(page: Seq<u8>, reserve: int) -> bool {
    exists|i: int| page.len() - reserve <= i < page.len() - reserve + TAG_LEN && page[i] != 0
}

/// What sealing a page gives: its sealed form, or `Crypto` for a page that
/// does not fit.
pub open spec fn encrypt_result(page: Seq<u8>, page_no: u32, key: Seq<u8>, reserve: int) -> Result<
    Seq<u8>,
    EvfsError,
> {
    if page_fits(page.len() as int, reserve) {
        Ok(encrypted_page(page, page_no, key, reserve))
    } else {
        Err(EvfsError::Crypto)
    }
}

/// What opening a page gives: `Crypto` for a page that does not fit;
/// `AuthFailure` for one whose payload and tag are not the sealed form of any
/// payload under this key and page number; otherwise that payload, a zeroed
/// tag and the page's padding.
pub open spec fn decrypt_result(page: Seq<u8>, page_no: u32, key: Seq<u8>, reserve: int) -> Result<
    Seq<u8>,
    EvfsError,
> {
    if !page_fits(page.len() as int, reserve) {
        Err(EvfsError::Crypto)
    } else if opens(key, nonce_of(page_no), sealed_part(page, reserve)) {
        Ok(
            decrypted_page(
                opened(key, nonce_of(page_no), sealed_part(page, reserve)),
                padding_of(page, reserve),
            ),
        )
    } else {
        Err(EvfsError::AuthFailure)
    }
}

/// Whether a call that was to turn `before` into `expected` did so: on success
/// the page is the expected one, on failure the error is the expected one and
/// the page is as it was.
pub open spec fn in_place(
    expected: Result<Seq<u8>, EvfsError>,
    before: Seq<u8>,
    r: Result<(), EvfsError>,
    after: Seq<u8>,
) -> bool {
    match expected {
        Ok(page) => r is Ok && after == page,
        Err(e) => r == Err::<(), EvfsError>(e) && after == before,
    }
}

/// A page sealed under one key and page number opens under another key or
/// number only if its payload and tag are a sealed form under those as well.
/// Wherever they are not, the answer is `AuthFailure`.
pub proof fn lemma_sealed_page_is_bound(
    page: Seq<u8>,
    page_no: u32,
    key: Seq<u8>,
    other_no: u32,
    other_key: Seq<u8>,
    reserve: int,
)
    requires
        page_fits(page.len() as int, reserve),
        encrypted_page(page, page_no, key, reserve).len() == page.len(),
        !opens(
            other_key,
            nonce_of(other_no),
            sealed_part(encrypted_page(page, page_no, key, reserve), reserve),
        ),
    ensures
        decrypt_result(encrypted_page(page, page_no, key, reserve), other_no, other_key, reserve)
            == Err::<Seq<u8>, EvfsError>(EvfsError::AuthFailure),
{
}

/// The nonce of a page, derived from its number alone.
pub fn page_nonce(page_no: u32) -> (n: [u8; 12])
    ensures
        n@ == nonce_of(page_no),
{
    let le = u32_to_le_bytes(page_no);
    let mut n = [0u8; 12];
    let mut i: usize = 0;
    while i < 4
        invariant
            i <= 4,
            le@ == spec_u32_to_le_bytes(page_no),
            le@.len() == 4,
            forall|j: int| 0 <= j < i ==> n@[j] == le@[j],
            forall|j: int| i <= j < 12 ==> n@[j] == 0,
        decreases 4 - i,
    {
        n[i] = le[i];
        i += 1;
    }
    assert(n@ =~= nonce_of(page_no));
    n
}

fn fits(len: usize, reserve: usize) -> (r: bool)
    ensures
        r == page_fits(len as int, reserve as int),
{
    reserve >= TAG_LEN && reserve <= len && (len - reserve) as u64 <= MAX_PLAINTEXT
}

/// A page with its payload and tag replaced by `sealed`, where `sealed` is as
/// long as the two together; nothing where it is not, or where the reserve
/// holds no tag or the page no reserve.
pub open spec fn with_sealed(page: Seq<u8>, sealed: Seq<u8>, reserve: int) -> Option<Seq<u8>> {
    if TAG_LEN <= reserve <= page.len() && sealed.len() == page.len() - reserve + TAG_LEN {
        Some(sealed + padding_of(page, reserve))
    } else {
        None
    }
}

/// A page with its payload replaced by `plain` and its tag by zeros, where
/// `plain` is as long as the payload; nothing where it is not, or where the
/// reserve holds no tag or the page no reserve.
pub open spec fn with_opened(page: Seq<u8>, plain: Seq<u8>, reserve: int) -> Option<Seq<u8>> {
    if TAG_LEN <= reserve <= page.len() && plain.len() == page.len() - reserve {
        Some(decrypted_page(plain, padding_of(page, reserve)))
    } else {
        None
    }
}

/// Puts what the cipher made of a page's payload in the payload's place, the
/// tag behind it, and keeps the page's padding.
pub fn lay_sealed(page: &[u8], sealed: Vec<u8>, reserve: usize) -> (r: Option<Vec<u8>>)
    ensures
        match with_sealed(page@, sealed@, reserve as int) {
            Some(out) => r is Some && r->0@ == out && out.len() == page@.len(),
            None => r is None,
        },
{
    let len = page.len();
    if reserve < TAG_LEN || reserve > len || sealed.len() != len - reserve + TAG_LEN {
        return None;
    }
    let mut out = sealed;
    out.extend_from_slice(slice_subrange(page, len - reserve + TAG_LEN, len));
    Some(out)
}

/// Puts an opened payload in the payload's place, zeros where the tag stood,
/// and keeps the page's padding.
pub fn lay_opened(page: &[u8], plain: Vec<u8>, reserve: usize) -> (r: Option<Vec<u8>>)
    ensures
        match with_opened(page@, plain@, reserve as int) {
            Some(out) => r is Some && r->0@ == out && out.len() == page@.len(),
            None => r is None,
        },
{
    let len = page.len();
    if reserve < TAG_LEN || reserve > len || plain.len() != len - reserve {
        return None;
    }
    let mut out = plain;
    let ghost payload = out@;
    let mut i: usize = 0;
    while i < TAG_LEN
        invariant
            i <= TAG_LEN,
            out@ == payload + zeros(i as int),
        decreases TAG_LEN - i,
    {
        out.push(0u8);
        i += 1;
        assert(out@ =~= payload + zeros(i as int));
    }
    out.extend_from_slice(slice_subrange(page, len - reserve + TAG_LEN, len));
    Some(out)
}

/// Seals a page in place.
///
/// A page that fits is always sealed; one that does not is refused with
/// `Crypto` and left as it was. A sealed page opens again under the same key
/// and page number.
pub fn encrypt_page(page: &mut Vec<u8>, page_no: u32, dek: &Dek, reserve: usize) -> (r: Result<
    (),
    EvfsError,
>)
    ensures
        final(page)@.len() == old(page)@.len(),
        in_place(
            encrypt_result(old(page)@, page_no, dek@, reserve as int),
            old(page)@,
            r,
            final(page)@,
        ),
        r is Ok ==> decrypt_result(final(page)@, page_no, dek@, reserve as int) is Ok,
{
    let len = page.len();
    if !fits(len, reserve) {
        return Err(EvfsError::Crypto);
    }
    let payload_len = len - reserve;
    let nonce = page_nonce(page_no);
    let sealed = aead_seal(
        dek.as_bytes().as_slice(),
        nonce.as_slice(),
        slice_subrange(page.as_slice(), 0, payload_len),
    );
    match sealed {
        Some(bytes) => match lay_sealed(page.as_slice(), bytes, reserve) {
            Some(out) => {
                assert(out@ == encrypted_page(page@, page_no, dek@, reserve as int));
                proof {
                    let payload = payload_of(page@, reserve as int);
                    assert(payload.len() <= MAX_PLAINTEXT);
                    assert(sealed_part(out@, reserve as int) =~= seal(
                        dek@,
                        nonce_of(page_no),
                        payload,
                    ));
                    assert(opens(dek@, nonce_of(page_no), sealed_part(out@, reserve as int)));
                }
                *page = out;
                Ok(())
            },
            None => Err(EvfsError::Crypto),
        },
        None => Err(EvfsError::Crypto),
    }
}

/// Opens a sealed page in place.
///
/// A page that does not fit is refused with `Crypto`. One that fits is opened
/// exactly when its payload and tag are the sealed form of some payload under
/// this key and page number; otherwise the answer is `AuthFailure`. A refused
/// page is left as it was. In particular, what `encrypt_page` made of a page is
/// opened to that page's payload, with the tag zeroed and the padding kept.
pub fn decrypt_page(page: &mut Vec<u8>, page_no: u32, dek: &Dek, reserve: usize) -> (r: Result<
    (),
    EvfsError,
>)
    ensures
        final(page)@.len() == old(page)@.len(),
        in_place(
            decrypt_result(old(page)@, page_no, dek@, reserve as int),
            old(page)@,
            r,
            final(page)@,
        ),
        r is Ok ==> seal(dek@, nonce_of(page_no), payload_of(final(page)@, reserve as int))
            == sealed_part(old(page)@, reserve as int),
        forall|p: Seq<u8>|
            page_fits(p.len() as int, reserve as int) && old(page)@ == #[trigger] encrypted_page(
                p,
                page_no,
                dek@,
                reserve as int,
            ) && p.len() == old(page)@.len() ==> r is Ok && final(page)@ == decrypted_page(
                payload_of(p, reserve as int),
                padding_of(p, reserve as int),
            ),
{
    let len = page.len();
    if !fits(len, reserve) {
        assert forall|p: Seq<u8>|
            page_fits(p.len() as int, reserve as int) && p.len() == page@.len() implies false by {}
        return Err(EvfsError::Crypto);
    }
    let payload_len = len - reserve;
    let nonce = page_nonce(page_no);
    let outcome = aead_open(
        dek.as_bytes().as_slice(),
        nonce.as_slice(),
        slice_subrange(page.as_slice(), 0, payload_len + TAG_LEN),
    );
    proof {
        let before = page@;
        assert forall|p: Seq<u8>|
            page_fits(p.len() as int, reserve as int) && before == #[trigger] encrypted_page(
                p,
                page_no,
                dek@,
                reserve as int,
            ) && p.len() == before.len() implies seal(
            dek@,
            nonce_of(page_no),
            payload_of(p, reserve as int),
        ) == sealed_part(before, reserve as int) && padding_of(p, reserve as int) == padding_of(
            before,
            reserve as int,
        ) by {
            let s = seal(dek@, nonce_of(page_no), payload_of(p, reserve as int));
            let t = padding_of(p, reserve as int);
            assert(before.len() == s.len() + t.len());
            assert(sealed_part(before, reserve as int) =~= s);
            assert(padding_of(before, reserve as int) =~= t);
        }
    }
    match outcome {
        Some(plain) => {
            let ghost payload = plain@;
            match lay_opened(page.as_slice(), plain, reserve) {
                Some(out) => {
                    assert(payload_of(out@, reserve as int) =~= payload);
                    assert(opened(dek@, nonce_of(page_no), sealed_part(page@, reserve as int))
                        == payload);
                    assert(out@ == decrypted_page(payload, padding_of(page@, reserve as int)));
                    *page = out;
                    Ok(())
                },
                None => Err(EvfsError::AuthFailure),
            }
        },
        None => Err(EvfsError::AuthFailure),
    }
}

/// A cheap guess at whether a stored page is sealed: sealing leaves a tag in
/// the reserve, while a fresh, zero-filled or opened page has zeros there.
pub fn is_encrypted_page(page: &[u8], reserve: usize) -> (r: bool)
    ensures
        r == (TAG_LEN <= reserve <= page@.len() && tag_is_set(page@, reserve as int)),
{
    let len = page.len();
    if reserve < TAG_LEN || reserve > len {
        return false;
    }
    let start = len - reserve;
    let mut i: usize = 0;
    while i < TAG_LEN
        invariant
            i <= TAG_LEN,
            start + TAG_LEN <= len,
            len == page@.len(),
            start == len - reserve,
            forall|j: int| start <= j < start + i ==> page@[j] == 0,
        decreases TAG_LEN - i,
    {
        if page[start + i] != 0 {
            return true;
        }
        i += 1;
    }
    false
}

} // verus!
