use vstd::prelude::*;
use vstd::string::StrSliceExecFns;
use vstd::string::StringExecFns;

verus! {

/// The sixteen lower-case hex digits, in order.
pub open spec fn hex_digits() -> Seq<char> {
    seq!['0', '1', '2', '3', '4', '5', '6', '7', '8', '9', 'a', 'b', 'c', 'd', 'e', 'f']
}

/// Two lower-case hex digits for each byte, high nibble first.
pub open spec fn hex_text(b: Seq<u8>) -> Seq<char>
    decreases b.len(),
{
    if b.len() == 0 {
        Seq::empty()
    } else {
        let last = b.last();
        hex_text(b.drop_last()) + seq![hex_digits()[(last / 16) as int], hex_digits()[(last % 16) as int]]
    }
}

/// `0x` followed by the lower-case hex of the bytes.
pub open spec fn prefixed_hex_text(b: Seq<u8>) -> Seq<char> {
    seq!['0', 'x'] + hex_text(b)
}

fn push_digit(s: &mut String, n: u8)
    requires
        n < 16,
    ensures
        final(s)@ == old(s)@.push(hex_digits()[n as int]),
{
    let digits = "0123456789abcdef";
    proof {
        reveal_strlit("0123456789abcdef");
    }
    let d = digits.substring_char(n as usize, n as usize + 1);
    assert(d@ =~= seq![hex_digits()[n as int]]);
    s.append(d);
}

/// Renders bytes as `0x` and lower-case hex, as a 32-byte topic or an
/// address is displayed.
pub fn prefixed_hex(b: &[u8]) -> (r: String)
    ensures
        r@ == prefixed_hex_text(b@),
{
    let mut s = "0x".to_owned();
    proof {
        reveal_strlit("0x");
    }
    let mut i: usize = 0;
    while i < b.len()
        invariant
            i <= b@.len(),
            s@ == seq!['0', 'x'] + hex_text(b@.subrange(0, i as int)),
        decreases b@.len() - i,
    {
        let byte = b[i];
        push_digit(&mut s, byte / 16);
        push_digit(&mut s, byte % 16);
        proof {
            let p = b@.subrange(0, i as int + 1);
            assert(p.drop_last() =~= b@.subrange(0, i as int));
            assert(p.last() == byte);
        }
        i = i + 1;
    }
    assert(b@.subrange(0, b@.len() as int) =~= b@);
    s
}

/// Each digit reads back as its own value.
proof fn lemma_digit_value(n: int)
    requires
        0 <= n < 16,
    ensures
        crate::address::hex_value(hex_digits()[n]) == n,
{
    if n == 0 {
        assert(hex_digits()[0] == '0');
    } else if n == 1 {
        assert(hex_digits()[1] == '1');
    } else if n == 2 {
        assert(hex_digits()[2] == '2');
    } else if n == 3 {
        assert(hex_digits()[3] == '3');
    } else if n == 4 {
        assert(hex_digits()[4] == '4');
    } else if n == 5 {
        assert(hex_digits()[5] == '5');
    } else if n == 6 {
        assert(hex_digits()[6] == '6');
    } else if n == 7 {
        assert(hex_digits()[7] == '7');
    } else if n == 8 {
        assert(hex_digits()[8] == '8');
    } else if n == 9 {
        assert(hex_digits()[9] == '9');
    } else if n == 10 {
        assert(hex_digits()[10] == 'a');
    } else if n == 11 {
        assert(hex_digits()[11] == 'b');
    } else if n == 12 {
        assert(hex_digits()[12] == 'c');
    } else if n == 13 {
        assert(hex_digits()[13] == 'd');
    } else if n == 14 {
        assert(hex_digits()[14] == 'e');
    } else if n == 15 {
        assert(hex_digits()[15] == 'f');
    }
}

proof fn lemma_hex_text_len(b: Seq<u8>)
    ensures
        hex_text(b).len() == 2 * b.len(),
    decreases b.len(),
{
    if b.len() > 0 {
        lemma_hex_text_len(b.drop_last());
    }
}

/// Byte strings of one length with the same hex text are equal.
pub(crate) proof fn lemma_hex_text_injective(a: Seq<u8>, b: Seq<u8>)
    requires
        a.len() == b.len(),
        hex_text(a) == hex_text(b),
    ensures
        a == b,
    decreases a.len(),
{
    if a.len() > 0 {
        let pa = a.drop_last();
        let pb = b.drop_last();
        lemma_hex_text_len(pa);
        lemma_hex_text_len(pb);
        let n: int = 2 * (pa.len() as int);
        assert(hex_text(a)[n] == hex_digits()[(a.last() / 16) as int]);
        assert(hex_text(b)[n] == hex_digits()[(b.last() / 16) as int]);
        assert(hex_text(a)[n + 1] == hex_digits()[(a.last() % 16) as int]);
        assert(hex_text(b)[n + 1] == hex_digits()[(b.last() % 16) as int]);
        lemma_digit_value((a.last() / 16) as int);
        lemma_digit_value((b.last() / 16) as int);
        lemma_digit_value((a.last() % 16) as int);
        lemma_digit_value((b.last() % 16) as int);
        assert(a.last() == b.last());
        assert(hex_text(pa) =~= hex_text(a).subrange(0, n));
        assert(hex_text(pb) =~= hex_text(b).subrange(0, n));
        lemma_hex_text_injective(pa, pb);
        assert(a =~= pa.push(a.last()));
        assert(b =~= pb.push(b.last()));
    }
}

} // verus!
