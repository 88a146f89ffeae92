//! String primitives the archive rules are written with.
//!
//! Strings are reasoned about through their `char` view (`s@`) and, where a
//! rule counts bytes, through their UTF-8 encoding (`s.spec_bytes()`).

use vstd::prelude::*;
use vstd::string::StringSliceAdditionalSpecFns;
use vstd::utf8::*;

verus! {

broadcast use {vstd::utf8::encode_utf8_valid_utf8, vstd::utf8::encode_utf8_decode_utf8};

/// Unicode `White_Space`, the set that `str::trim` removes.
pub open spec fn is_unicode_whitespace(c: char) -> bool {
    let u = c as u32;
    ||| 0x09 <= u <= 0x0D
    ||| u == 0x20
    ||| u == 0x85
    ||| u == 0xA0
    ||| u == 0x1680
    ||| 0x2000 <= u <= 0x200A
    ||| u == 0x2028
    ||| u == 0x2029
    ||| u == 0x202F
    ||| u == 0x205F
    ||| u == 0x3000
}

/// The sequence with its leading whitespace removed.
pub open spec fn trim_leading(s: Seq<char>) -> Seq<char>
    decreases s.len(),
{
    if s.len() > 0 && is_unicode_whitespace(s[0]) {
        trim_leading(s.drop_first())
    } else {
        s
    }
}

/// The sequence with its trailing whitespace removed.
pub open spec fn trim_trailing(s: Seq<char>) -> Seq<char>
    decreases s.len(),
{
    if s.len() > 0 && is_unicode_whitespace(s.last()) {
        trim_trailing(s.drop_last())
    } else {
        s
    }
}

/// The sequence with whitespace removed at both ends.
pub open spec fn trimmed(s: Seq<char>) -> Seq<char> {
    trim_trailing(trim_leading(s))
}

/// `str::trim`: the slice without leading and trailing `White_Space`.
///
/// Trusted: the contract restates the standard library's documentation of
/// `str::trim`, whose whitespace is the Unicode `White_Space` property.
#[verifier::external_body]
pub(crate) fn trim(s: &str) -> (r: &str)
    ensures
        r@ == trimmed(s@),
{
    s.trim()
}

/// Byte-wise equality of two strings decides equality of their characters.
pub fn str_eq(a: &str, b: &str) -> (r: bool)
    ensures
        r == (a@ == b@),
{
    let ab = a.as_bytes();
    let bb = b.as_bytes();
    if ab.len() != bb.len() {
        proof {
            if a@ == b@ {
                assert(a.spec_bytes() == b.spec_bytes());
            }
        }
        return false;
    }
    let mut i: usize = 0;
    while i < ab.len()
        invariant
            ab@ == a.spec_bytes(),
            bb@ == b.spec_bytes(),
            ab@.len() == bb@.len(),
            i <= ab@.len(),
            forall|k: int| 0 <= k < i ==> ab@[k] == bb@[k],
        decreases ab@.len() - i,
    {
        if ab[i] != bb[i] {
            proof {
                if a@ == b@ {
                    assert(ab@[i as int] == bb@[i as int]);
                }
            }
            return false;
        }
        i = i + 1;
    }
    proof {
        assert(a.spec_bytes() =~= b.spec_bytes());
        assert(decode_utf8(encode_utf8(a@)) == a@);
        assert(decode_utf8(encode_utf8(b@)) == b@);
    }
    true
}

/// ASCII lowercasing of one byte; every other byte is left unchanged.
pub open spec fn ascii_lower_byte(b: u8) -> u8 {
    if 65 <= b <= 90 {
        (b + 32) as u8
    } else {
        b
    }
}

/// ASCII lowercasing applied to each byte of a sequence.
pub open spec fn ascii_lower_bytes(s: Seq<u8>) -> Seq<u8> {
    Seq::new(s.len(), |i: int| ascii_lower_byte(s[i]))
}

/// Appends the ASCII-lowercased bytes of `bytes` to `out`
/// (the byte-level meaning of `str::to_ascii_lowercase`).
pub fn push_ascii_lowercase(out: &mut Vec<u8>, bytes: &[u8])
    ensures
        final(out)@ == old(out)@ + ascii_lower_bytes(bytes@),
{
    let ghost start = out@;
    let mut i: usize = 0;
    while i < bytes.len()
        invariant
            i <= bytes@.len(),
            out@ == start + ascii_lower_bytes(bytes@.take(i as int)),
        decreases bytes@.len() - i,
    {
        let b = bytes[i];
        let lower = if 65 <= b && b <= 90 {
            b + 32
        } else {
            b
        };
        out.push(lower);
        i = i + 1;
        assert(ascii_lower_bytes(bytes@.take(i as int)) =~= ascii_lower_bytes(
            bytes@.take(i - 1),
        ).push(lower));
    }
    assert(bytes@.take(i as int) =~= bytes@);
}

/// Appends every byte of `bytes` to `out`.
pub fn push_bytes(out: &mut Vec<u8>, bytes: &[u8])
    ensures
        final(out)@ == old(out)@ + bytes@,
{
    let ghost start = out@;
    let mut i: usize = 0;
    while i < bytes.len()
        invariant
            i <= bytes@.len(),
            out@ == start + bytes@.take(i as int),
        decreases bytes@.len() - i,
    {
        out.push(bytes[i]);
        i = i + 1;
        assert(bytes@.take(i as int) =~= bytes@.take(i - 1).push(bytes@[i - 1]));
    }
    assert(bytes@.take(i as int) =~= bytes@);
}

/// The largest character boundary of `bytes` at or below `index`.
pub open spec fn floor_char_boundary(bytes: Seq<u8>, index: int) -> int
    decreases index,
{
    if index <= 0 {
        0
    } else if is_char_boundary(bytes, index) {
        index
    } else {
        floor_char_boundary(bytes, index - 1)
    }
}

proof fn lemma_floor_char_boundary(bytes: Seq<u8>, index: int)
    requires
        valid_utf8(bytes),
        0 <= index <= bytes.len(),
    ensures
        0 <= floor_char_boundary(bytes, index) <= index,
        is_char_boundary(bytes, floor_char_boundary(bytes, index)),
        forall|k: int|
            floor_char_boundary(bytes, index) < k <= index ==> !is_char_boundary(bytes, k),
    decreases index,
{
    if index <= 0 {
        vstd::utf8::is_char_boundary_start_end_of_seq(bytes);
    } else if !is_char_boundary(bytes, index) {
        lemma_floor_char_boundary(bytes, index - 1);
    }
}

/// The longest prefix of `value` that is at most `limit` bytes long and ends
/// on a character boundary, so a cut never splits a character.
pub fn truncate_at_char_boundary(value: &str, limit: usize) -> (r: &str)
    ensures
        r.spec_bytes() == value.spec_bytes().take(
            floor_char_boundary(
                value.spec_bytes(),
                if value.spec_bytes().len() < limit {
                    value.spec_bytes().len() as int
                } else {
                    limit as int
                },
            ),
        ),
        r.spec_bytes().len() <= limit,
        value.spec_bytes().len() <= limit ==> r@ == value@,
{
    let ghost bytes = value.spec_bytes();
    let len = value.as_bytes().len();
    let start = if len < limit {
        len
    } else {
        limit
    };
    let mut end = start;
    proof {
        lemma_floor_char_boundary(bytes, start as int);
    }
    while end > 0 && !value.is_char_boundary(end)
        invariant
            valid_utf8(bytes),
            bytes == value.spec_bytes(),
            start <= bytes.len(),
            end <= start,
            floor_char_boundary(bytes, end as int) == floor_char_boundary(bytes, start as int),
        decreases end,
    {
        end = end - 1;
    }
    proof {
        if end == 0 {
            vstd::utf8::is_char_boundary_start_end_of_seq(bytes);
        }
        lemma_floor_char_boundary(bytes, end as int);
        assert(floor_char_boundary(bytes, end as int) == end as int);
        assert(bytes.take(end as int) =~= bytes.subrange(0, end as int));
    }
    let (head, _tail) = value.split_at(end);
    proof {
        assert(head.spec_bytes() == bytes.take(end as int));
        assert(start as int == (if bytes.len() < limit {
            bytes.len() as int
        } else {
            limit as int
        }));
        if bytes.len() <= limit {
            vstd::utf8::is_char_boundary_start_end_of_seq(bytes);
            assert(bytes.take(end as int) =~= bytes);
            assert(decode_utf8(encode_utf8(head@)) == head@);
            assert(decode_utf8(encode_utf8(value@)) == value@);
        }
    }
    head
}

} // verus!
