//! Checksums: from the server's Base64 form to the hexadecimal form of the sync index.
use base64::Engine;
use vstd::prelude::*;
use crate::path;

verus! {

/// The bytes that a text stands for in standard Base64; none where it is not such a text.
pub uninterp spec fn base64_bytes(s: Seq<char>) -> Option<Seq<u8>>;

/// The standard engine's `decode` of the base64 crate: the bytes a text stands for, or an error
/// where the text is not canonically padded standard Base64. Both depend on the text alone; the
/// error is dropped.
#[verifier::external_body]
fn decode_base64(s: &str) -> (r: Option<Vec<u8>>)
    ensures
        r is Some <==> base64_bytes(s@) is Some,
        r matches Some(bytes) ==> bytes@ == base64_bytes(s@)->0,
{
    base64::engine::general_purpose::STANDARD.decode(s).ok()
}

/// The lower-case hexadecimal digit of a number below sixteen.
pub open spec fn hex_digit(n: nat) -> char {
    if n < 10 {
        (('0' as u8) + n) as u8 as char
    } else {
        (('a' as u8) + (n - 10)) as u8 as char
    }
}

/// The bytes in hexadecimal, two digits each.
pub open spec fn hex(bytes: Seq<u8>) -> Seq<char>
    decreases bytes.len(),
{
    if bytes.len() == 0 {
        Seq::empty()
    } else {
        let b = bytes.last() as nat;
        hex(bytes.drop_last()).push(hex_digit(b / 16)).push(hex_digit(b % 16))
    }
}

fn hex_char(n: u8) -> (r: char)
    requires
        n < 16,
    ensures
        r == hex_digit(n as nat),
{
    if n < 10 {
        (48u8 + n) as char
    } else {
        (97u8 + (n - 10)) as char
    }
}

/// The bytes in hexadecimal.
pub fn hex_text(bytes: &Vec<u8>) -> (r: String)
    ensures
        r@ == hex(bytes@),
{
    let mut out = String::new();
    let mut i: usize = 0;
    assert(bytes@.take(0) =~= Seq::<u8>::empty());
    while i < bytes.len()
        invariant
            i <= bytes.len(),
            out@ == hex(bytes@.take(i as int)),
        decreases bytes.len() - i,
    {
        assert(bytes@.take(i + 1).drop_last() =~= bytes@.take(i as int));
        let b: u8 = bytes[i];
        out.push(hex_char(b / 16));
        out.push(hex_char(b % 16));
        i = i + 1;
    }
    assert(bytes@.take(i as int) =~= bytes@);
    out
}

/// The hexadecimal form of a Base64 checksum.
pub open spec fn hex_of_checksum(checksum: Seq<char>) -> Option<Seq<char>> {
    match base64_bytes(checksum) {
        Some(bytes) => Some(hex(bytes)),
        None => None,
    }
}

/// The hexadecimal form of the server's Base64 checksum; none where the text is not Base64.
pub fn immich_checksum_to_hex(b64: &str) -> (r: Option<String>)
    ensures
        path::opt_view(r) == hex_of_checksum(b64@),
{
    match decode_base64(b64) {
        Some(bytes) => Some(hex_text(&bytes)),
        None => None,
    }
}

/// The hexadecimal form has two digits for each byte.
pub proof fn hex_has_two_digits_per_byte(bytes: Seq<u8>)
    ensures
        hex(bytes).len() == 2 * bytes.len(),
    decreases bytes.len(),
{
    if bytes.len() > 0 {
        hex_has_two_digits_per_byte(bytes.drop_last());
    }
}

/// Different bytes have different hexadecimal forms.
pub proof fn hex_tells_bytes_apart(a: Seq<u8>, b: Seq<u8>)
    requires
        hex(a) == hex(b),
    ensures
        a == b,
    decreases a.len(),
{
    hex_has_two_digits_per_byte(a);
    hex_has_two_digits_per_byte(b);
    if a.len() > 0 {
        let x = a.last() as nat;
        let y = b.last() as nat;
        let ha = hex(a);
        let hb = hex(b);
        assert(ha.drop_last().drop_last() =~= hex(a.drop_last()));
        assert(hb.drop_last().drop_last() =~= hex(b.drop_last()));
        assert(ha.last() == hex_digit(x % 16) && hb.last() == hex_digit(y % 16));
        assert(ha[ha.len() - 2] == hex_digit(x / 16) && hb[hb.len() - 2] == hex_digit(y / 16));
        hex_tells_bytes_apart(a.drop_last(), b.drop_last());
        assert(a.last() == b.last());
        assert(a =~= a.drop_last().push(a.last()));
        assert(b =~= b.drop_last().push(b.last()));
    } else {
        assert(a =~= b);
    }
}

/// The text writes the bytes down in lower-case hexadecimal: for each the digit of its upper half,
/// then that of its lower half.
pub open spec fn writes_bytes(digits: Seq<char>, bytes: Seq<u8>) -> bool {
    &&& digits.len() == 2 * bytes.len()
    &&& forall|i: int|
        0 <= i < bytes.len() ==> digits[2 * i] == "0123456789abcdef"@[(#[trigger] bytes[i]) as int
            / 16] && digits[2 * i + 1] == "0123456789abcdef"@[bytes[i] as int % 16]
}

/// The hexadecimal form of a checksum writes down the bytes that its Base64 form stands for.
pub proof fn checksum_is_written_in_hexadecimal(b64: &str, r: Option<String>)
    requires
        call_ensures(immich_checksum_to_hex, (b64,), r),
    ensures
        r is Some <==> base64_bytes(b64@) is Some,
        r matches Some(digits) ==> writes_bytes(digits@, base64_bytes(b64@)->0),
{
    if base64_bytes(b64@) is Some {
        hex_writes_bytes(base64_bytes(b64@)->0);
    }
}

proof fn digit_in_table(n: nat)
    requires
        n < 16,
    ensures
        hex_digit(n) == "0123456789abcdef"@[n as int],
{
    reveal_strlit("0123456789abcdef");
}

/// The hexadecimal form of bytes writes them down.
pub proof fn hex_writes_bytes(bytes: Seq<u8>)
    ensures
        writes_bytes(hex(bytes), bytes),
    decreases bytes.len(),
{
    if bytes.len() > 0 {
        let front = bytes.drop_last();
        let b = bytes.last() as nat;
        hex_writes_bytes(front);
        digit_in_table(b / 16);
        digit_in_table(b % 16);
        assert forall|i: int| 0 <= i < bytes.len() implies hex(bytes)[2 * i]
            == "0123456789abcdef"@[(#[trigger] bytes[i]) as int / 16] && hex(bytes)[2 * i + 1]
            == "0123456789abcdef"@[bytes[i] as int % 16] by {
            if i < front.len() {
                assert(front[i] == bytes[i]);
                assert(hex(bytes)[2 * i] == hex(front)[2 * i]);
                assert(hex(bytes)[2 * i + 1] == hex(front)[2 * i + 1]);
            }
        }
    }
}

/// Only one text writes given bytes down.
pub proof fn bytes_are_written_one_way(a: Seq<char>, b: Seq<char>, bytes: Seq<u8>)
    requires
        writes_bytes(a, bytes),
        writes_bytes(b, bytes),
    ensures
        a == b,
{
    assert forall|x: int| 0 <= x < a.len() implies a[x] == b[x] by {
        let i = x / 2;
        assert(0 <= i < bytes.len());
        let y = bytes[i];
        assert(x == 2 * i || x == 2 * i + 1);
    }
    assert(a =~= b);
}

} // verus!
