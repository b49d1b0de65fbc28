//! Small helpers: hex rendering of byte runs and the wall clock.

use vstd::prelude::*;

verus! {

use crate::rdfs_errors::RDFSError;
use vstd::string::StringExecFns;

/// The lowercase hex digit of a nibble below sixteen.
pub open spec fn spec_hex_char(n: u8) -> char {
    if n < 10 {
        ((48 + n) as u8) as char
    } else {
        ((87 + n) as u8) as char
    }
}

/// The lowercase hex rendering of a byte run: two digits per byte, high
/// nibble first.
pub open spec fn spec_hex_of(bytes: Seq<u8>) -> Seq<char> {
    Seq::new(
        (2 * bytes.len()) as nat,
        |i: int|
            if i % 2 == 0 {
                spec_hex_char(bytes[i / 2] >> 4)
            } else {
                spec_hex_char(bytes[i / 2] & 0xf)
            },
    )
}

/// The one-character string of the hex digit of a nibble.
fn hex_digit(nib: u8) -> (r: &'static str)
    requires
        nib < 16,
    ensures
        r@ == seq![spec_hex_char(nib)],
{
    proof {
        reveal_strlit("0");
        reveal_strlit("1");
        reveal_strlit("2");
        reveal_strlit("3");
        reveal_strlit("4");
        reveal_strlit("5");
        reveal_strlit("6");
        reveal_strlit("7");
        reveal_strlit("8");
        reveal_strlit("9");
        reveal_strlit("a");
        reveal_strlit("b");
        reveal_strlit("c");
        reveal_strlit("d");
        reveal_strlit("e");
        reveal_strlit("f");
    }
    let r = match nib {
        0 => "0",
        1 => "1",
        2 => "2",
        3 => "3",
        4 => "4",
        5 => "5",
        6 => "6",
        7 => "7",
        8 => "8",
        9 => "9",
        10 => "a",
        11 => "b",
        12 => "c",
        13 => "d",
        14 => "e",
        _ => "f",
    };
    assert(r@ =~= seq![spec_hex_char(nib)]);
    r
}

/// Renders a byte run as a lowercase hex string, two digits per byte.
pub fn bytes_to_hex(bytes: &[u8]) -> (r: String)
    ensures
        r@ == spec_hex_of(bytes@),
{
    let n = bytes.len();
    let mut r = String::new();
    let mut i: usize = 0;
    while i < n
        invariant
            n == bytes@.len(),
            i <= n,
            r@ == spec_hex_of(bytes@.subrange(0, i as int)),
        decreases n - i,
    {
        let b = *vstd::slice::slice_index_get(bytes, i);
        let hi = b >> 4;
        let lo = b & 0xf;
        assert(b >> 4 < 16 && b & 0xf < 16) by (bit_vector);
        r.append(hex_digit(hi));
        r.append(hex_digit(lo));
        proof {
            let pre = bytes@.subrange(0, i as int);
            let post = bytes@.subrange(0, i + 1);
            assert(spec_hex_of(pre) + seq![spec_hex_char(hi), spec_hex_char(lo)] =~= spec_hex_of(
                post,
            ));
        }
        i = i + 1;
    }
    assert(bytes@.subrange(0, n as int) =~= bytes@);
    r
}

/// Relies on `char::from_u32`: some character with the given scalar value
/// exactly when the value is a Unicode scalar, and none otherwise.
#[verifier::external_body]
pub fn char_from_u32(u: u32) -> (r: Option<char>)
    ensures
        r is Some <==> vstd::utf8::is_scalar(u),
        r is Some ==> r->0 as u32 == u,
{
    char::from_u32(u)
}

/// Relies on `String::push`: appends exactly one character at the end.
#[verifier::external_body]
pub fn push_char(s: &mut String, c: char)
    ensures
        final(s)@ == old(s)@.push(c),
{
    s.push(c);
}

/// Relies on `std::time::SystemTime::now` and `duration_since(UNIX_EPOCH)`:
/// the current wall time in whole seconds since the UNIX epoch, or an error
/// when the clock reads before the epoch. Nothing is promised of the value.
#[verifier::external_body]
pub fn current_time_as_u64() -> (r: Result<u64, RDFSError>) {
    match std::time::SystemTime::now().duration_since(std::time::UNIX_EPOCH) {
        Ok(d) => Ok(d.as_secs()),
        Err(_) => Err(RDFSError::TimeUnavailable),
    }
}

} // verus!
