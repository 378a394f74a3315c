//! Text that crosses the boundary to the C side of the transport.

use vstd::prelude::*;
#[allow(unused_imports)]
use vstd::utf8::{decode_utf8, valid_utf8};

verus! {

/// The text that `String::from_utf8_lossy` makes of `bytes`.
pub uninterp spec fn utf8_lossy(bytes: Seq<u8>) -> Seq<char>;

/// Calls `String::from_utf8_lossy` of the standard library. The result is a
/// function of the bytes alone. Bytes that are valid UTF-8 are decoded as they are;
/// of others the standard library promises a replacement character for each invalid
/// sequence, which is not spelled out here.
#[verifier::external_body]
fn lossy_text(bytes: &[u8]) -> (r: String)
    ensures
        r@ == utf8_lossy(bytes@),
        valid_utf8(bytes@) ==> r@ == decode_utf8(bytes@),
{
    String::from_utf8_lossy(bytes).into_owned()
}

/// Calls `std::str::from_utf8`: bytes that are valid UTF-8 are decoded, and there is
/// no text for any others.
#[verifier::external_body]
fn strict_text(bytes: &[u8]) -> (r: Option<String>)
    ensures
        r is Some <==> valid_utf8(bytes@),
        r is Some ==> r->0@ == decode_utf8(bytes@),
{
    match std::str::from_utf8(bytes) {
        Ok(s) => Some(s.to_owned()),
        Err(_) => None,
    }
}

/// The number of bytes before the first zero byte, or of all bytes where none is
/// zero.
pub open spec fn nul_index(bytes: Seq<u8>) -> nat
    decreases bytes.len(),
{
    if bytes.len() == 0 || bytes[0] == 0 {
        0
    } else {
        1 + nul_index(bytes.drop_first())
    }
}

/// The bytes of a C string that starts `bytes`: those before the first zero byte.
pub open spec fn c_string(bytes: Seq<u8>) -> Seq<u8> {
    bytes.take(nul_index(bytes) as int)
}

/// `nul_index` is the least index of a zero byte, or the length.
proof fn lemma_nul_index(bytes: Seq<u8>, k: int)
    requires
        0 <= k <= bytes.len(),
        forall|i: int| 0 <= i < k ==> bytes[i] != 0,
        k < bytes.len() ==> bytes[k] == 0,
    ensures
        nul_index(bytes) == k,
    decreases bytes.len(),
{
    if k > 0 {
        let rest = bytes.drop_first();
        assert(forall|i: int| 0 <= i < k - 1 ==> rest[i] == bytes[i + 1]);
        assert(bytes[0] != 0);
        lemma_nul_index(rest, k - 1);
    }
}

/// The number of bytes before the first zero byte, or of all bytes where none is
/// zero.
pub fn c_length(bytes: &[u8]) -> (r: usize)
    ensures
        r == nul_index(bytes@),
        r <= bytes@.len(),
{
    let mut k: usize = 0;
    while k < bytes.len() && bytes[k] != 0
        invariant
            k <= bytes@.len(),
            forall|i: int| 0 <= i < k ==> bytes@[i] != 0,
        decreases bytes@.len() - k,
    {
        k += 1;
    }
    proof {
        lemma_nul_index(bytes@, k as int);
    }
    k
}

/// The text in a buffer that the transport has filled with a C string; a buffer
/// without a zero byte is text to its end.
pub fn text_in_buffer(buf: &[u8]) -> (r: String)
    ensures
        r@ == utf8_lossy(c_string(buf@)),
        valid_utf8(c_string(buf@)) ==> r@ == decode_utf8(c_string(buf@)),
{
    let len: usize = c_length(buf);
    let text = vstd::slice::slice_subrange(buf, 0, len);
    assert(text@ =~= c_string(buf@));
    lossy_text(text)
}

/// The text of a peer's address for an event: the bytes of a C string, or nothing
/// where the transport passed a null pointer.
pub fn event_address(address: Option<&[u8]>) -> (r: String)
    ensures
        address is None ==> r@ == Seq::<char>::empty(),
        address is Some ==> r@ == utf8_lossy(address->0@),
        address is Some && valid_utf8(address->0@) ==> r@ == decode_utf8(address->0@),
{
    match address {
        None => String::new(),
        Some(bytes) => lossy_text(bytes),
    }
}

/// The text of a peer's address for a callback: the bytes of a C string where they
/// are valid UTF-8, and nothing where they are not or where the transport passed a
/// null pointer.
pub fn callback_address(address: Option<&[u8]>) -> (r: String)
    ensures
        address is Some && valid_utf8(address->0@) ==> r@ == decode_utf8(address->0@),
        !(address is Some && valid_utf8(address->0@)) ==> r@ == Seq::<char>::empty(),
{
    match address {
        None => String::new(),
        Some(bytes) => match strict_text(bytes) {
            Some(text) => text,
            None => String::new(),
        },
    }
}

/// Whether `text` can be passed as a C string: it holds no zero character.
pub fn fits_c_string(text: &str) -> (r: bool)
    ensures
        r == !text@.contains('\0'),
{
    let len: usize = text.unicode_len();
    let mut i: usize = 0;
    while i < len
        invariant
            i <= len,
            len == text@.len(),
            forall|j: int| 0 <= j < i ==> text@[j] != '\0',
        decreases len - i,
    {
        if text.get_char(i) == '\0' {
            assert(text@[i as int] == '\0');
            return false;
        }
        i += 1;
    }
    true
}

/// A C string is what stands before the first zero byte: it holds none itself, and either all
/// bytes belong to it or the one behind it is zero.
pub proof fn law_c_string(bytes: Seq<u8>)
    ensures
        nul_index(bytes) <= bytes.len(),
        c_string(bytes) == bytes.take(c_string(bytes).len() as int),
        forall|i: int| 0 <= i < c_string(bytes).len() ==> #[trigger] c_string(bytes)[i] != 0,
        c_string(bytes).len() < bytes.len() ==> bytes[c_string(bytes).len() as int] == 0,
    decreases bytes.len(),
{
    if bytes.len() > 0 && bytes[0] != 0 {
        let rest = bytes.drop_first();
        law_c_string(rest);
        assert forall|i: int| 0 <= i < c_string(bytes).len() implies #[trigger] c_string(bytes)[i]
            != 0 by {
            if i > 0 {
                assert(c_string(bytes)[i] == c_string(rest)[i - 1]);
            }
        }
        if c_string(bytes).len() < bytes.len() {
            assert(bytes[c_string(bytes).len() as int] == rest[c_string(rest).len() as int]);
        }
    }
}

} // verus!
