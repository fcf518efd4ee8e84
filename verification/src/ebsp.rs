//! Emulation prevention: how a raw payload (RBSP) is escaped into an
//! encapsulated one (EBSP) in which no start code can be seen, and how a
//! decoder takes the escapes out again.

use vstd::prelude::*;

verus! {

/// The run of zero bytes after the byte `b`, where `zeros` zero bytes stood
/// before it.
pub open spec fn zeros_after(zeros: nat, b: u8) -> nat {
    if b == 0 {
        zeros + 1
    } else {
        0
    }
}

/// The escaped form of `x`, where `zeros` zero bytes have just been written:
/// a byte from `00` to `03` that would come third after two zero bytes gets
/// the byte `03` put before it, and the count of zero bytes starts again at
/// that byte.
pub open spec fn escape_from(x: Seq<u8>, zeros: nat) -> Seq<u8>
    decreases x.len(),
{
    if x.len() == 0 {
        Seq::<u8>::empty()
    } else if zeros >= 2 && x[0] <= 3 {
        seq![3u8, x[0]] + escape_from(x.drop_first(), zeros_after(0, x[0]))
    } else {
        seq![x[0]] + escape_from(x.drop_first(), zeros_after(zeros, x[0]))
    }
}

/// The encapsulated form of a raw payload.
pub open spec fn ebsp_encode(x: Seq<u8>) -> Seq<u8> {
    escape_from(x, 0)
}

/// What a decoder reads out of `y`, where `zeros` zero bytes have just been
/// read: every byte but a `03` that follows two zero bytes.
pub open spec fn unescape_from(y: Seq<u8>, zeros: nat) -> Seq<u8>
    decreases y.len(),
{
    if y.len() == 0 {
        Seq::<u8>::empty()
    } else if zeros >= 2 && y[0] == 3 {
        unescape_from(y.drop_first(), 0)
    } else {
        seq![y[0]] + unescape_from(y.drop_first(), zeros_after(zeros, y[0]))
    }
}

/// The raw payload that a decoder reads out of an encapsulated one.
pub open spec fn ebsp_decode(y: Seq<u8>) -> Seq<u8> {
    unescape_from(y, 0)
}

/// Whether no byte below `03` comes third after two zero bytes, and every
/// `03` that does is followed by a byte from `00` to `03`: what lets a
/// decoder take each such `03` for an escape.
pub open spec fn no_emulation(y: Seq<u8>) -> bool {
    forall|i: int|
        0 <= i && i + 2 < y.len() && #[trigger] y[i] == 0 && y[i + 1] == 0 ==> y[i + 2] >= 3 && (y[i
            + 2] == 3 ==> i + 3 < y.len() && y[i + 3] <= 3)
}

/// A decoder reads out of the escaped form what was escaped, from any count
/// of zero bytes on.
pub proof fn lemma_unescape_escape(x: Seq<u8>, zeros: nat)
    ensures
        unescape_from(escape_from(x, zeros), zeros) == x,
    decreases x.len(),
{
    if x.len() > 0 {
        let b = x[0];
        let rest = x.drop_first();
        if zeros >= 2 && b <= 3 {
            let tail = escape_from(rest, zeros_after(0, b));
            let out = seq![3u8, b] + tail;
            lemma_unescape_escape(rest, zeros_after(0, b));
            assert(out.drop_first() =~= seq![b] + tail);
            assert((seq![b] + tail).drop_first() =~= tail);
            assert(unescape_from(seq![b] + tail, 0) == seq![b] + unescape_from(
                tail,
                zeros_after(0, b),
            ));
        } else {
            let tail = escape_from(rest, zeros_after(zeros, b));
            let out = seq![b] + tail;
            lemma_unescape_escape(rest, zeros_after(zeros, b));
            assert(out.drop_first() =~= tail);
        }
    }
}

/// The escaped form is no shorter than the payload, and longer by at most
/// one byte for every two of the payload.
pub proof fn lemma_escape_len(x: Seq<u8>, zeros: nat)
    requires
        zeros <= 2,
    ensures
        x.len() <= escape_from(x, zeros).len() <= x.len() + (x.len() + zeros) / 2,
    decreases x.len(),
{
    if x.len() > 0 {
        let b = x[0];
        let rest = x.drop_first();
        if zeros >= 2 && b <= 3 {
            lemma_escape_len(rest, zeros_after(0, b));
        } else if zeros >= 2 {
            lemma_escape_len(rest, 0);
        } else {
            lemma_escape_len(rest, zeros_after(zeros, b));
        }
    }
}

/// What holds of the front of an escaped form, by the count of zero bytes
/// written before it, and of all of it.
proof fn lemma_escape_clean(x: Seq<u8>, zeros: nat)
    ensures
        no_emulation(escape_from(x, zeros)),
        ({
            let y = escape_from(x, zeros);
            &&& zeros >= 2 && y.len() >= 1 ==> y[0] >= 3 && (y[0] == 3 ==> y.len() >= 2 && y[1]
                <= 3)
            &&& zeros >= 1 && y.len() >= 2 && y[0] == 0 ==> y[1] >= 3 && (y[1] == 3 ==> y.len()
                >= 3 && y[2] <= 3)
        }),
    decreases x.len(),
{
    if x.len() > 0 {
        let b = x[0];
        let rest = x.drop_first();
        if zeros >= 2 && b <= 3 {
            lemma_escape_clean(rest, zeros_after(0, b));
        } else {
            lemma_escape_clean(rest, zeros_after(zeros, b));
        }
    }
}

/// A front part without a zero byte stands in the escaped form as it is.
proof fn lemma_escape_plain_prefix(s: Seq<u8>, k: int)
    requires
        0 <= k <= s.len(),
        forall|j: int| 0 <= j < k ==> s[j] != 0,
    ensures
        escape_from(s, 0) == s.subrange(0, k) + escape_from(s.subrange(k, s.len() as int), 0),
    decreases k,
{
    if k == 0 {
        assert(s.subrange(0, s.len() as int) =~= s);
    } else {
        let rest = s.drop_first();
        lemma_escape_plain_prefix(rest, k - 1);
        assert(rest.subrange(k - 1, rest.len() as int) =~= s.subrange(k, s.len() as int));
    }
}

/// A payload without a zero byte is its own escaped form.
pub proof fn lemma_escape_plain(s: Seq<u8>)
    requires
        forall|j: int| 0 <= j < s.len() ==> s[j] != 0,
    ensures
        escape_from(s, 0) == s,
{
    lemma_escape_plain_prefix(s, s.len() as int);
}

/// How the escaped form goes on at the first zero byte of a payload, which
/// stands at index `k`: by what follows that byte.
pub proof fn lemma_escape_at_zero(s: Seq<u8>, k: int)
    requires
        0 <= k < s.len(),
        forall|j: int| 0 <= j < k ==> s[j] != 0,
        s[k] == 0,
    ensures
        k + 1 < s.len() && s[k + 1] != 0 ==> escape_from(s, 0) == s.subrange(0, k + 1)
            + escape_from(s.subrange(k + 1, s.len() as int), 0),
        k + 2 < s.len() && s[k + 1] == 0 && s[k + 2] <= 3 ==> escape_from(s, 0) == s.subrange(
            0,
            k + 2,
        ) + seq![3u8] + escape_from(s.subrange(k + 2, s.len() as int), 0),
        k + 2 < s.len() && s[k + 1] == 0 && s[k + 2] > 3 ==> escape_from(s, 0) == s.subrange(
            0,
            k + 2,
        ) + escape_from(s.subrange(k + 2, s.len() as int), 0),
        k + 1 == s.len() || (k + 2 == s.len() && s[k + 1] == 0) ==> escape_from(s, 0) == s,
{
    let n = s.len() as int;
    let t = s.subrange(k, n);
    let t1 = s.subrange(k + 1, n);
    lemma_escape_plain_prefix(s, k);
    assert(t.drop_first() =~= t1);
    assert(escape_from(t, 0) == seq![0u8] + escape_from(t1, 1));
    if k + 1 < n && s[k + 1] == 0 {
        let t2 = s.subrange(k + 2, n);
        assert(t1.drop_first() =~= t2);
        assert(escape_from(t1, 1) == seq![0u8] + escape_from(t2, 2));
    }
}

/// A decoder reads out of the encapsulated form of every payload that
/// payload; and in the encapsulated form no byte below `03` comes third
/// after two zero bytes, while a `03` that does is an escape: a byte from
/// `00` to `03` follows it.
pub proof fn lemma_ebsp_round_trip(x: Seq<u8>)
    ensures
        ebsp_decode(ebsp_encode(x)) == x,
        no_emulation(ebsp_encode(x)),
        x.len() <= ebsp_encode(x).len() <= x.len() + x.len() / 2,
{
    lemma_unescape_escape(x, 0);
    lemma_escape_clean(x, 0);
    lemma_escape_len(x, 0);
}

} // verus!
