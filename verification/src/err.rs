//! Status-carrying error messages for the HTTP adapter.
//!
//! A status code is encoded into a message as `http_error:<code> -=> <text>`
//! and parsed back out on the way to a response; the tag marks a message as
//! carrying a code at all.

use vstd::prelude::*;
use vstd::string::StringExecFns;

use crate::text::{
    chars_vec, spec_all_digits, spec_dec, spec_dec_val, spec_find, spec_find_sub, u64_to_string,
};

verus! {

/// The marker prefix of a status-carrying error message.
pub fn http_err_tag() -> (r: String)
    ensures
        r@ == "http_error"@,
{
    "http_error".to_owned()
}

/// Encode `status_code` into `msg`, tagged.
pub fn http_err_msg(msg: &str, status_code: u16) -> (r: String)
    ensures
        r@ == "http_error"@ + ":"@ + spec_dec(status_code as nat) + " -=> "@ + msg@,
{
    let mut s = http_err_tag();
    s.append(":");
    s.append(u64_to_string(status_code as u64).as_str());
    s.append(" -=> ");
    s.append(msg);
    proof {
        assert(s@ =~= "http_error"@ + ":"@ + spec_dec(status_code as nat) + " -=> "@ + msg@);
    }
    s
}

/// The status code a three-digit segment names, or the server-error code
/// when the segment is not a code at all (it must be exactly three digits
/// and at least 100).
pub open spec fn spec_status_code_of(seg: Seq<char>) -> int {
    if seg.len() == 3 && spec_all_digits(seg) && spec_dec_val(seg) >= 100 {
        spec_dec_val(seg)
    } else {
        500
    }
}

/// The status code carried by a tagged message: the text between the
/// first and second colon of whatever precedes the first ` -=> ` names
/// the code.  A message without the tag carries none; a tagged message
/// without a colon carries none either.
pub open spec fn spec_parse_http_err_code(s: Seq<char>) -> Option<int> {
    if spec_find_sub(s, "http_error"@) < 0 {
        None
    } else {
        let f = spec_find_sub(s, " -=> "@);
        let prefix = if f >= 0 {
            s.take(f)
        } else {
            s
        };
        let c1 = spec_find(prefix, ':');
        if c1 < 0 {
            None
        } else {
            let rest = prefix.skip(c1 + 1);
            let c2 = spec_find(rest, ':');
            let seg = if c2 >= 0 {
                rest.take(c2)
            } else {
                rest
            };
            Some(spec_status_code_of(seg))
        }
    }
}

/// Parse the status code back out of a tagged message, per
/// [`spec_parse_http_err_code`].
pub fn parse_http_err_code(msg: &str) -> (r: Option<u16>)
    ensures
        match r {
            Some(c) => spec_parse_http_err_code(msg@) == Some(c as int),
            None => spec_parse_http_err_code(msg@) is None,
        },
{
    let v = chars_vec(msg);
    let tag = chars_vec("http_error");
    if matches!(crate::text::find_sub(&v, &tag), None) {
        return None;
    }
    let sep = chars_vec(" -=> ");
    let end: usize = match crate::text::find_sub(&v, &sep) {
        Some(f) => f,
        None => v.len(),
    };
    let ghost prefix = if spec_find_sub(msg@, " -=> "@) >= 0 {
        msg@.take(spec_find_sub(msg@, " -=> "@))
    } else {
        msg@
    };
    proof {
        assert(v@.subrange(0, end as int) =~= prefix);
    }
    let c1: usize = match crate::report::find_char_range(&v, 0, end, ':') {
        Some(j) => j,
        None => {
            return None;
        },
    };
    proof {
        assert(spec_find(prefix, ':') == c1 as int);
    }
    let c2_end: usize = match crate::report::find_char_range(&v, c1 + 1, end, ':') {
        Some(j) => j,
        None => end,
    };
    let ghost rest = prefix.skip(c1 as int + 1);
    let ghost seg = if spec_find(rest, ':') >= 0 {
        rest.take(spec_find(rest, ':'))
    } else {
        rest
    };
    proof {
        assert(rest =~= v@.subrange(c1 + 1, end as int));
        assert(v@.subrange(c1 + 1, c2_end as int) =~= seg);
    }
    let a = c1 + 1;
    let b = c2_end;
    if b - a == 3 {
        let d0 = v[a];
        let d1 = v[a + 1];
        let d2 = v[a + 2];
        if '0' <= d0 && d0 <= '9' && '0' <= d1 && d1 <= '9' && '0' <= d2 && d2 <= '9' {
            let value: u32 = 100 * (d0 as u32 - 48) + 10 * (d1 as u32 - 48) + (d2 as u32 - 48);
            proof {
                assert(seg.len() == 3);
                assert(seg[0] == d0 && seg[1] == d1 && seg[2] == d2);
                assert(spec_all_digits(seg));
                assert(seg.drop_last() =~= seg.take(2));
                assert(seg.take(2).drop_last() =~= seg.take(1));
                assert(seg.take(1).drop_last() =~= seg.take(0));
                assert(seg.take(0) =~= Seq::<char>::empty());
                assert(seg.take(2).last() == d1);
                assert(seg.take(1).last() == d0);
                assert(spec_dec_val(seg.take(0)) == 0);
                assert(spec_dec_val(seg.take(1)) == d0 as int - 48);
                assert(spec_dec_val(seg.take(2)) == (d0 as int - 48) * 10 + (d1 as int - 48));
                assert(seg.last() == d2);
                assert(spec_dec_val(seg) == spec_dec_val(seg.take(2)) * 10 + (d2 as int - 48));
                assert(spec_dec_val(seg) == value as int);
            }
            if value >= 100 {
                return Some(value as u16);
            }
            return Some(500);
        }
        proof {
            assert(seg[0] == d0 && seg[1] == d1 && seg[2] == d2);
            assert(!spec_all_digits(seg));
        }
        return Some(500);
    }
    Some(500)
}

} // verus!
