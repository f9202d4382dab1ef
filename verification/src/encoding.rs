//! Percent-decoding of URL-encoded strings (`%20` is a space, `%27` a
//! quote).  The `+` character is not treated as a space; spaces must be
//! encoded as `%20`.

use vstd::prelude::*;
use vstd::string::StrSliceExecFns;
use vstd::string::StringSliceAdditionalSpecFns;
use vstd::utf8::{decode_utf8, valid_utf8};

verus! {

/// The value of an ASCII hex digit byte, if it is one.
pub open spec fn spec_hex_digit(b: u8) -> Option<u8> {
    if 48 <= b <= 57 {
        Some((b - 48) as u8)
    } else if 97 <= b <= 102 {
        Some((b - 87) as u8)
    } else if 65 <= b <= 70 {
        Some((b - 55) as u8)
    } else {
        None
    }
}

/// The percent-decoding of `s`: every `%` must be followed by two hex
/// digits, which decode to one byte; every other byte passes through.
pub open spec fn spec_percent_decode(s: Seq<u8>) -> Option<Seq<u8>>
    decreases s.len(),
{
    if s.len() == 0 {
        Some(Seq::empty())
    } else if s[0] == 37 {
        if s.len() >= 3 && spec_hex_digit(s[1]) is Some && spec_hex_digit(s[2]) is Some {
            match spec_percent_decode(s.skip(3)) {
                Option::None => None,
                Option::Some(r) => Some(
                    seq![
                        ((16 * spec_hex_digit(s[1]).unwrap() + spec_hex_digit(
                            s[2],
                        ).unwrap()) as u8),
                    ] + r,
                ),
            }
        } else {
            None
        }
    } else {
        match spec_percent_decode(s.skip(1)) {
            Option::None => None,
            Option::Some(r) => Some(seq![s[0]] + r),
        }
    }
}

/// The value of an ASCII hex digit byte, if it is one.
fn hex_digit(b: u8) -> (r: Option<u8>)
    ensures
        r == spec_hex_digit(b),
{
    if 48 <= b && b <= 57 {
        Some(b - 48)
    } else if 97 <= b && b <= 102 {
        Some(b - 87)
    } else if 65 <= b && b <= 70 {
        Some(b - 55)
    } else {
        None
    }
}

/// Relies on `String::from_utf8`: it succeeds exactly on valid UTF-8 and
/// hands back the string those bytes decode to.
#[verifier::external_body]
fn string_from_utf8(bytes: Vec<u8>) -> (r: Option<String>)
    ensures
        r is Some <==> valid_utf8(bytes@),
        r matches Some(s) ==> s@ == decode_utf8(bytes@),
{
    String::from_utf8(bytes).ok()
}

/// Decode a percent-encoded string.  The encoded form is read byte by byte:
/// a `%` must be followed by two hex digits naming one byte of the decoded
/// form, and any other byte passes through unchanged; the decoded bytes
/// must then be valid UTF-8.  Succeeds exactly when both conditions hold.
pub fn url_decode(input: &str) -> (r: Result<String, String>)
    ensures
        ({
            let pd = spec_percent_decode(input.spec_bytes());
            &&& (r is Ok <==> pd is Some && valid_utf8(pd.unwrap()))
            &&& (r matches Ok(s) ==> s@ == decode_utf8(pd.unwrap()))
        }),
{
    let ghost s = input.spec_bytes();
    let bytes = input.as_bytes_vec();
    let n = bytes.len();
    let mut out: Vec<u8> = Vec::new();
    let mut i: usize = 0;
    proof {
        assert(s.skip(0) =~= s);
    }
    while i < n
        invariant
            n == bytes@.len(),
            bytes@ == s,
            s == input.spec_bytes(),
            i <= n,
            spec_percent_decode(s) is Some <==> spec_percent_decode(s.skip(i as int)) is Some,
            spec_percent_decode(s.skip(i as int)) matches Some(x) ==> spec_percent_decode(s)
                == Some(out@ + x),
        decreases n - i,
    {
        let b = bytes[i];
        let ghost suf = s.skip(i as int);
        proof {
            assert(suf[0] == s[i as int]);
        }
        if b == 37 {
            if n - i < 3 {
                proof {
                    assert(suf.len() < 3);
                }
                let mut m = "Incomplete percent-encoding at end of: ".to_owned();
                m.append(input);
                return Err(m);
            }
            let hi = hex_digit(bytes[i + 1]);
            let lo = hex_digit(bytes[i + 2]);
            proof {
                assert(suf[1] == s[i + 1]);
                assert(suf[2] == s[i + 2]);
            }
            match (hi, lo) {
                (Some(h), Some(l)) => {
                    out.push(16 * h + l);
                    proof {
                        assert(suf.skip(3) =~= s.skip(i + 3));
                        let pd = spec_percent_decode(s.skip(i + 3));
                        if pd is Some {
                            let x = pd.unwrap();
                            assert(out@ + x =~= out@.drop_last() + (seq![(16 * h + l) as u8] + x));
                        }
                    }
                    i = i + 3;
                },
                _ => {
                    let mut m = "Invalid hex in percent-encoding: ".to_owned();
                    m.append(input);
                    return Err(m);
                },
            }
        } else {
            out.push(b);
            proof {
                assert(suf.skip(1) =~= s.skip(i + 1));
                let pd = spec_percent_decode(s.skip(i + 1));
                if pd is Some {
                    let x = pd.unwrap();
                    assert(out@ + x =~= out@.drop_last() + (seq![s[i as int]] + x));
                }
            }
            i = i + 1;
        }
    }
    proof {
        assert(s.skip(n as int) =~= Seq::<u8>::empty());
        assert(out@ + Seq::<u8>::empty() =~= out@);
    }
    match string_from_utf8(out) {
        Some(decoded) => Ok(decoded),
        None => {
            let mut m = "Invalid UTF-8 after percent-decoding: ".to_owned();
            m.append(input);
            Err(m)
        },
    }
}

} // verus!
