//! Text framed as a NUL-terminated byte buffer, the layout a C caller reads.
use vstd::prelude::*;
use vstd::string::StringSliceAdditionalSpecFns;

verus! {

/// Some byte of `s` is zero.
pub open spec fn contains_nul(s: Seq<u8>) -> bool {
    exists|i: int| 0 <= i < s.len() && s[i] == 0
}

/// `s` followed by one terminating zero byte.
pub open spec fn nul_terminated(s: Seq<u8>) -> Seq<u8> {
    s.push(0)
}

/// What a reader of NUL-terminated text takes from `buf`: the bytes before
/// the first zero byte (all of `buf` if it holds none).
pub open spec fn until_nul(buf: Seq<u8>) -> Seq<u8>
    decreases buf.len(),
{
    if buf.len() == 0 || buf[0] == 0 {
        Seq::empty()
    } else {
        seq![buf[0]] + until_nul(buf.drop_first())
    }
}

/// Text without a zero byte, once terminated, reads back as itself.
pub proof fn lemma_until_nul_round_trip(s: Seq<u8>)
    requires
        !contains_nul(s),
    ensures
        until_nul(nul_terminated(s)) == s,
    decreases s.len(),
{
    let t = nul_terminated(s);
    if s.len() == 0 {
        assert(t[0] == 0);
    } else {
        assert(t[0] == s[0]);
        let rest = s.drop_first();
        assert forall|i: int| 0 <= i < rest.len() implies rest[i] != 0 by {
            assert(rest[i] == s[i + 1]);
        }
        lemma_until_nul_round_trip(rest);
        assert(t.drop_first() =~= nul_terminated(rest));
        assert(seq![s[0]] + rest =~= s);
    }
}

/// The UTF-8 bytes of `text` followed by a zero byte, or `None` where `text`
/// holds a zero byte itself (a NUL-terminated reader would cut it short).
pub fn nul_terminated_bytes(text: &str) -> (r: Option<Vec<u8>>)
    ensures
        r is None <==> contains_nul(text.spec_bytes()),
        r matches Some(v) ==> v@ == nul_terminated(text.spec_bytes()),
{
    let bytes = text.as_bytes();
    let mut out: Vec<u8> = Vec::new();
    let mut i: usize = 0;
    while i < bytes.len()
        invariant
            bytes@ == text.spec_bytes(),
            i <= bytes@.len(),
            out@ == bytes@.take(i as int),
            forall|j: int| 0 <= j < i ==> bytes@[j] != 0,
        decreases bytes@.len() - i,
    {
        if bytes[i] == 0 {
            return None;
        }
        out.push(bytes[i]);
        i = i + 1;
        assert(out@ =~= bytes@.take(i as int));
    }
    out.push(0);
    assert(out@ =~= nul_terminated(bytes@));
    Some(out)
}

} // verus!
