//! The persisted form of a network, and proofs that writing and reading
//! are exact inverses.
//!
//! The layout is fixed-width and big-endian, with no magic number and no
//! version byte: three 16-bit node counts (input, hidden, output), the
//! 32-bit learning rate, then every input-to-hidden weight and every
//! hidden-to-output weight, row-major, four bytes each. The learning rate
//! and the weights are IEEE-754 single-precision bit patterns, carried
//! verbatim. The activation function is behavior, not data: it is never
//! written, and a decoded network comes back with none attached.

use vstd::prelude::*;

use crate::bytes::{
    be16, be16_val, be32, be32_val, lemma_be16_roundtrip, lemma_be32_roundtrip,
    lemma_words_bytes_len, lemma_words_bytes_push, lemma_words_bytes_word, push_be16, push_be32,
    read_be16, read_be32, word_at, words_at, words_bytes,
};
use crate::network::{ErrorKind, Network, NetworkErr, NetworkView};

verus! {

/// A value with a defined byte encoding.
pub trait BytesSerialize {
    /// When the value can be encoded at all.
    spec fn serial_wf(&self) -> bool;

    /// The bytes the value encodes to.
    spec fn serial(&self) -> Seq<u8>;

    /// Encodes the value, returning exactly the bytes of [`Self::serial`].
    fn to_bytes(&self) -> (r: Vec<u8>)
        requires
            self.serial_wf(),
        ensures
            r@ == self.serial(),
    ;
}

/// A value that can be restored from its byte encoding.
pub trait BytesDeserialize: View + Sized {
    /// What a byte stream decodes to, if anything. Bytes beyond the encoded
    /// value are ignored, as a stream reader would leave them unread.
    spec fn deserial(bytes: Seq<u8>) -> Option<Self::V>;

    /// Decodes a value from the front of `bytes`. Succeeds exactly when
    /// [`Self::deserial`] does, returns exactly the value it gives, and
    /// reports anything else as a decode error.
    fn from_bytes(bytes: &[u8]) -> (r: Result<Self, NetworkErr>)
        ensures
            r is Ok <==> Self::deserial(bytes@) is Some,
            r matches Ok(v) ==> Self::deserial(bytes@) == Some(v@),
            r matches Err(e) ==> e.kind == ErrorKind::Decode,
    ;
}

/// The bytes a network serializes to: the three node counts as big-endian
/// 16-bit words, the learning rate as a big-endian 32-bit word, then each
/// weight store row-major, four big-endian bytes per weight.
pub open spec fn spec_serialize(v: NetworkView) -> Seq<u8> {
    be16(v.input_nodes as u16) + be16(v.hidden_nodes as u16) + be16(v.output_nodes as u16) + be32(
        v.learning_rate,
    ) + words_bytes(v.w_ih) + words_bytes(v.w_ho)
}

/// The network a byte stream decodes to, if it is long enough: the header
/// names the shape, the shape says how many weight bytes must follow, and
/// any bytes beyond those are ignored. The decoded network has no
/// activation attached.
pub open spec fn spec_deserialize(bytes: Seq<u8>) -> Option<NetworkView> {
    if bytes.len() < 10 {
        None
    } else {
        let i = be16_val(bytes[0], bytes[1]) as nat;
        let h = be16_val(bytes[2], bytes[3]) as nat;
        let o = be16_val(bytes[4], bytes[5]) as nat;
        if bytes.len() < 10 + 4 * (h * i + o * h) {
            None
        } else {
            Some(
                NetworkView {
                    input_nodes: i,
                    hidden_nodes: h,
                    output_nodes: o,
                    learning_rate: be32_val(bytes[6], bytes[7], bytes[8], bytes[9]),
                    w_ih: words_at(bytes, 10, h * i),
                    w_ho: words_at(bytes, 10 + 4 * (h * i) as int, o * h),
                    activation: None,
                },
            )
        }
    }
}

/// A well-formed network's encoding is exactly the 10 header bytes plus
/// four bytes per weight.
pub proof fn lemma_serialized_len(v: NetworkView)
    requires
        v.wf(),
    ensures
        spec_serialize(v).len() == 10 + 4 * (v.hidden_nodes * v.input_nodes + v.output_nodes
            * v.hidden_nodes),
{
    lemma_words_bytes_len(v.w_ih);
    lemma_words_bytes_len(v.w_ho);
}

/// Whatever a byte stream decodes to is well formed: its counts come from
/// 16-bit fields and its weight stores have exactly the lengths the shape
/// demands.
pub proof fn lemma_deserialize_wf(bytes: Seq<u8>)
    ensures
        spec_deserialize(bytes) matches Some(v) ==> v.wf(),
{
}

/// Round trip: decoding a well-formed network's encoding gives the network
/// back — same shape, same learning rate, same weights — with the
/// activation cleared, since an activation is never serialized.
pub proof fn lemma_round_trip(v: NetworkView)
    requires
        v.wf(),
    ensures
        spec_deserialize(spec_serialize(v)) == Some(NetworkView { activation: None, ..v }),
{
    let s = spec_serialize(v);
    let n_ih = v.hidden_nodes * v.input_nodes;
    let n_ho = v.output_nodes * v.hidden_nodes;
    let wb_ih = words_bytes(v.w_ih);
    let wb_ho = words_bytes(v.w_ho);
    lemma_words_bytes_len(v.w_ih);
    lemma_words_bytes_len(v.w_ho);
    assert(s.len() == 10 + 4 * (n_ih + n_ho));

    let iw = v.input_nodes as u16;
    let hw = v.hidden_nodes as u16;
    let ow = v.output_nodes as u16;
    assert(s[0] == be16(iw)[0] && s[1] == be16(iw)[1]);
    assert(s[2] == be16(hw)[0] && s[3] == be16(hw)[1]);
    assert(s[4] == be16(ow)[0] && s[5] == be16(ow)[1]);
    lemma_be16_roundtrip(iw);
    lemma_be16_roundtrip(hw);
    lemma_be16_roundtrip(ow);
    assert(be16_val(s[0], s[1]) as nat == v.input_nodes);
    assert(be16_val(s[2], s[3]) as nat == v.hidden_nodes);
    assert(be16_val(s[4], s[5]) as nat == v.output_nodes);

    assert(s[6] == be32(v.learning_rate)[0] && s[7] == be32(v.learning_rate)[1] && s[8] == be32(
        v.learning_rate,
    )[2] && s[9] == be32(v.learning_rate)[3]);
    lemma_be32_roundtrip(v.learning_rate);
    assert(be32_val(s[6], s[7], s[8], s[9]) == v.learning_rate);

    assert forall|k: int| 0 <= k < n_ih implies words_at(s, 10, n_ih)[k] == v.w_ih[k] by {
        lemma_words_bytes_word(v.w_ih, k);
        assert(s[10 + 4 * k] == wb_ih[4 * k]);
        assert(s[10 + 4 * k + 1] == wb_ih[4 * k + 1]);
        assert(s[10 + 4 * k + 2] == wb_ih[4 * k + 2]);
        assert(s[10 + 4 * k + 3] == wb_ih[4 * k + 3]);
    }
    assert(words_at(s, 10, n_ih) =~= v.w_ih);

    let off = 10 + 4 * n_ih;
    assert forall|k: int| 0 <= k < n_ho implies words_at(s, off as int, n_ho)[k] == v.w_ho[k] by {
        lemma_words_bytes_word(v.w_ho, k);
        assert(s[off + 4 * k] == wb_ho[4 * k]);
        assert(s[off + 4 * k + 1] == wb_ho[4 * k + 1]);
        assert(s[off + 4 * k + 2] == wb_ho[4 * k + 2]);
        assert(s[off + 4 * k + 3] == wb_ho[4 * k + 3]);
    }
    assert(words_at(s, off as int, n_ho) =~= v.w_ho);

    assert(spec_deserialize(s) matches Some(d) && d =~= (NetworkView { activation: None, ..v }));
}

impl BytesSerialize for Network {
    /// A network can be encoded when it is well formed: the counts fit the
    /// 16-bit header fields and the weight stores fill their shapes.
    open spec fn serial_wf(&self) -> bool {
        self@.wf()
    }

    open spec fn serial(&self) -> Seq<u8> {
        spec_serialize(self@)
    }

    fn to_bytes(&self) -> (r: Vec<u8>) {
        let ghost hdr = be16(self@.input_nodes as u16) + be16(self@.hidden_nodes as u16) + be16(
            self@.output_nodes as u16,
        ) + be32(self@.learning_rate);
        let mut out: Vec<u8> = Vec::new();
        push_be16(&mut out, self.input_nodes() as u16);
        push_be16(&mut out, self.hidden_nodes() as u16);
        push_be16(&mut out, self.output_nodes() as u16);
        push_be32(&mut out, self.learning_rate_bits());
        assert(out@ =~= hdr);

        let w_ih = self.weights(0);
        let mut k: usize = 0;
        while k < w_ih.len()
            invariant
                k <= w_ih@.len(),
                w_ih@ == self@.w_ih,
                out@ == hdr + words_bytes(w_ih@.subrange(0, k as int)),
            decreases w_ih@.len() - k,
        {
            push_be32(&mut out, w_ih[k]);
            proof {
                lemma_words_bytes_push(w_ih@.subrange(0, k as int), w_ih@[k as int]);
                assert(w_ih@.subrange(0, k + 1) =~= w_ih@.subrange(0, k as int).push(
                    w_ih@[k as int],
                ));
                assert(out@ =~= hdr + words_bytes(w_ih@.subrange(0, k + 1)));
            }
            k = k + 1;
        }
        assert(w_ih@.subrange(0, w_ih@.len() as int) =~= w_ih@);

        let w_ho = self.weights(1);
        let mut k: usize = 0;
        while k < w_ho.len()
            invariant
                k <= w_ho@.len(),
                w_ho@ == self@.w_ho,
                out@ == hdr + words_bytes(self@.w_ih) + words_bytes(w_ho@.subrange(0, k as int)),
            decreases w_ho@.len() - k,
        {
            push_be32(&mut out, w_ho[k]);
            proof {
                lemma_words_bytes_push(w_ho@.subrange(0, k as int), w_ho@[k as int]);
                assert(w_ho@.subrange(0, k + 1) =~= w_ho@.subrange(0, k as int).push(
                    w_ho@[k as int],
                ));
                assert(out@ =~= hdr + words_bytes(self@.w_ih) + words_bytes(
                    w_ho@.subrange(0, k + 1),
                ));
            }
            k = k + 1;
        }
        assert(w_ho@.subrange(0, w_ho@.len() as int) =~= w_ho@);
        assert(out@ =~= spec_serialize(self@));
        out
    }
}

impl BytesDeserialize for Network {
    open spec fn deserial(bytes: Seq<u8>) -> Option<NetworkView> {
        spec_deserialize(bytes)
    }

    fn from_bytes(bytes: &[u8]) -> (r: Result<Network, NetworkErr>) {
        if bytes.len() < 10 {
            return Err(NetworkErr::decode());
        }
        let iw = read_be16(bytes, 0);
        let hw = read_be16(bytes, 2);
        let ow = read_be16(bytes, 4);
        let lr = read_be32(bytes, 6);

        let i64v: u64 = iw as u64;
        let h64v: u64 = hw as u64;
        let o64v: u64 = ow as u64;
        proof {
            assert(h64v * i64v < 0x1_0000_0000 && o64v * h64v < 0x1_0000_0000) by (nonlinear_arith)
                requires
                    h64v < 0x1_0000,
                    i64v < 0x1_0000,
                    o64v < 0x1_0000,
            ;
        }
        let n_ih64: u64 = h64v * i64v;
        let n_ho64: u64 = o64v * h64v;
        let needed: u64 = 10 + 4 * (n_ih64 + n_ho64);
        if (bytes.len() as u64) < needed {
            return Err(NetworkErr::decode());
        }
        let n_ih: usize = n_ih64 as usize;
        let n_ho: usize = n_ho64 as usize;
        let blen: usize = bytes.len();

        let mut w_ih: Vec<u32> = Vec::new();
        let mut k: usize = 0;
        while k < n_ih
            invariant
                k <= n_ih,
                blen == bytes@.len(),
                10 + 4 * (n_ih + n_ho) <= blen,
                w_ih@ == words_at(bytes@, 10, k as nat),
            decreases n_ih - k,
        {
            let off: usize = 10 + 4 * k;
            let word = read_be32(bytes, off);
            w_ih.push(word);
            proof {
                assert(words_at(bytes@, 10, (k + 1) as nat) =~= words_at(
                    bytes@,
                    10,
                    k as nat,
                ).push(word));
            }
            k = k + 1;
        }

        let base: usize = 10 + 4 * n_ih;
        let mut w_ho: Vec<u32> = Vec::new();
        let mut k: usize = 0;
        while k < n_ho
            invariant
                k <= n_ho,
                base == 10 + 4 * n_ih,
                blen == bytes@.len(),
                10 + 4 * (n_ih + n_ho) <= blen,
                w_ho@ == words_at(bytes@, base as int, k as nat),
            decreases n_ho - k,
        {
            let off: usize = base + 4 * k;
            let word = read_be32(bytes, off);
            w_ho.push(word);
            proof {
                assert(words_at(bytes@, base as int, (k + 1) as nat) =~= words_at(
                    bytes@,
                    base as int,
                    k as nat,
                ).push(word));
            }
            k = k + 1;
        }

        let n = Network::assemble(iw, hw, ow, lr, w_ih, w_ho);
        proof {
            let d = spec_deserialize(bytes@).unwrap();
            assert(n@ =~= d);
        }
        Ok(n)
    }
}

} // verus!
