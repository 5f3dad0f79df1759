//! Parsing of server addresses of the form `proto!host!port`.
use vstd::prelude::*;
use vstd::string::StringSliceAdditionalSpecFns;
use vstd::utf8::{encode_utf8, is_char_boundary, valid_utf8};

verus! {

broadcast use vstd::utf8::group_utf8_lib;

/// The separator of the parts of an address.
pub const ADDR_SEP: u8 = 0x21;

/// The index of the first `c` in `b` at or after `from`, or the length of
/// `b` when there is none.
pub open spec fn find_byte(b: Seq<u8>, c: u8, from: int) -> int
    decreases b.len() - from,
{
    if from < 0 || from >= b.len() {
        b.len() as int
    } else if b[from] == c {
        from
    } else {
        find_byte(b, c, from + 1)
    }
}

/// The three parts of an address `proto!host!port`: the text before the
/// first `!`, the text between the first and the second, and the text after
/// the second up to a third `!` or the end. `None` when there are fewer than
/// two `!`.
pub open spec fn spec_parse_proto(b: Seq<u8>) -> Option<(Seq<u8>, Seq<u8>, Seq<u8>)> {
    let i = find_byte(b, ADDR_SEP, 0);
    let j = find_byte(b, ADDR_SEP, i + 1);
    let k = find_byte(b, ADDR_SEP, j + 1);
    if i >= b.len() || j >= b.len() {
        None
    } else {
        Some((b.subrange(0, i), b.subrange(i + 1, j), b.subrange(j + 1, k)))
    }
}

proof fn lemma_find_byte_range(b: Seq<u8>, c: u8, from: int)
    requires
        0 <= from,
    ensures
        from <= find_byte(b, c, from) <= b.len() || (from > b.len() && find_byte(b, c, from) == b.len()),
        find_byte(b, c, from) < b.len() ==> b[find_byte(b, c, from)] == c,
    decreases b.len() - from,
{
    if from < b.len() && b[from] != c {
        lemma_find_byte_range(b, c, from + 1);
    }
}

fn find_byte_exec(b: &[u8], c: u8, from: usize) -> (r: usize)
    requires
        from <= b@.len(),
    ensures
        r == find_byte(b@, c, from as int),
{
    let mut i = from;
    while i < b.len()
        invariant
            from <= i <= b@.len(),
            find_byte(b@, c, from as int) == find_byte(b@, c, i as int),
        decreases b@.len() - i,
    {
        if b[i] == c {
            return i;
        }
        i = i + 1;
    }
    i
}

/// A text may be split right before a separator or at its end.
proof fn lemma_boundary_at_sep(s: &str, i: int)
    requires
        0 <= i <= s.spec_bytes().len(),
        i < s.spec_bytes().len() ==> s.spec_bytes()[i] == ADDR_SEP,
    ensures
        is_char_boundary(s.spec_bytes(), i),
{
    let b = s.spec_bytes();
    assert(valid_utf8(encode_utf8(s@)));
    if i < b.len() {
        vstd::utf8::is_char_boundary_iff_not_is_continuation_byte(b, i);
    } else {
        vstd::utf8::is_char_boundary_start_end_of_seq(b);
    }
}

/// A text that starts with a separator may be split right after it.
proof fn lemma_boundary_after_sep(s: &str)
    requires
        s.spec_bytes().len() > 0,
        s.spec_bytes()[0] == ADDR_SEP,
    ensures
        is_char_boundary(s.spec_bytes(), 1),
{
    let b = s.spec_bytes();
    assert(valid_utf8(encode_utf8(s@)));
    reveal_with_fuel(is_char_boundary, 2);
}

/// Splits an address `proto!host!port` into its three parts.
pub fn parse_proto(arg: &str) -> (r: Option<(&str, &str, &str)>)
    ensures
        match (r, spec_parse_proto(arg.spec_bytes())) {
            (Some((p, a, q)), Some((x, y, z))) => p.spec_bytes() == x && a.spec_bytes() == y
                && q.spec_bytes() == z,
            (None, None) => true,
            _ => false,
        },
{
    let b = arg.as_bytes();
    let ghost bs = b@;
    let i = find_byte_exec(b, ADDR_SEP, 0);
    if i >= b.len() {
        return None;
    }
    let j = find_byte_exec(b, ADDR_SEP, i + 1);
    if j >= b.len() {
        return None;
    }
    let k = find_byte_exec(b, ADDR_SEP, j + 1);
    proof {
        lemma_find_byte_range(bs, ADDR_SEP, 0);
        lemma_find_byte_range(bs, ADDR_SEP, i + 1);
        lemma_find_byte_range(bs, ADDR_SEP, j + 1);
        lemma_boundary_at_sep(arg, i as int);
    }
    let (proto, r1) = arg.split_at(i);
    proof {
        lemma_boundary_after_sep(r1);
    }
    let (_, r2) = r1.split_at(1);
    proof {
        assert(r2.spec_bytes() =~= bs.subrange(i + 1, bs.len() as int));
        lemma_boundary_at_sep(r2, j - i - 1);
    }
    let (addr, r3) = r2.split_at(j - i - 1);
    proof {
        assert(r3.spec_bytes() =~= bs.subrange(j as int, bs.len() as int));
        lemma_boundary_after_sep(r3);
    }
    let (_, r4) = r3.split_at(1);
    proof {
        assert(r4.spec_bytes() =~= bs.subrange(j + 1, bs.len() as int));
        lemma_boundary_at_sep(r4, k - j - 1);
    }
    let (port, _) = r4.split_at(k - j - 1);
    proof {
        assert(addr.spec_bytes() =~= bs.subrange(i + 1, j as int));
        assert(port.spec_bytes() =~= bs.subrange(j + 1, k as int));
    }
    Some((proto, addr, port))
}

} // verus!
