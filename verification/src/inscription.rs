//! Inscriptions of the protocol: a transaction input `data:,` followed by a
//! JSON object. The library checks the framing; the JSON object itself is
//! read into the types below by the caller.

use vstd::prelude::*;
use crate::hex_text::{decode_hex_str, hex_decode, strip_hex_prefix_spec};

verus! {

/// A `deploy` inscription: protocol, operation, ticker, maximum supply and
/// per-mint limit, each as the text the inscription carries.
#[derive(Debug)]
pub struct InscriptionDeploy {
    pub p: String,
    pub op: String,
    pub tick: String,
    pub max: String,
    pub lim: String,
}

/// A `mint` inscription: protocol, operation, ticker, id and amount.
#[derive(Debug)]
pub struct InscriptionMint {
    pub p: String,
    pub op: String,
    pub tick: String,
    pub id: String,
    pub amt: String,
}

/// The bytes of `data:,`, which open every inscription.
pub open spec fn data_prefix() -> Seq<u8> {
    seq![100u8, 97u8, 116u8, 97u8, 58u8, 44u8]
}

/// The JSON text of an inscription: what follows `data:,`, in an input of at
/// least 8 bytes (the shortest inscription is `data:,{}`).
pub open spec fn inscription_payload_spec(data: Seq<u8>) -> Option<Seq<u8>> {
    if data.len() >= 8 && data.take(6) == data_prefix() {
        Some(data.skip(6))
    } else {
        None
    }
}

/// Checks the framing of an inscription and hands out its JSON text.
pub fn inscription_payload(data: &Vec<u8>) -> (res: Option<Vec<u8>>)
    ensures
        res is Some <==> inscription_payload_spec(data@) is Some,
        res matches Some(v) ==> v@ == inscription_payload_spec(data@)->0,
{
    let len = data.len();
    if len < 8 {
        return None;
    }
    let prefix: [u8; 6] = [100, 97, 116, 97, 58, 44];
    let mut i: usize = 0;
    while i < 6
        invariant
            i <= 6,
            len == data@.len(),
            len >= 8,
            prefix@ == data_prefix(),
            forall|j: int| 0 <= j < i ==> data@[j] == data_prefix()[j],
        decreases 6 - i,
    {
        if data[i] != prefix[i] {
            assert(data@.take(6)[i as int] != data_prefix()[i as int]);
            return None;
        }
        i = i + 1;
    }
    assert(data@.take(6) =~= data_prefix());
    let mut out: Vec<u8> = Vec::new();
    let mut k: usize = 6;
    while k < len
        invariant
            6 <= k <= len,
            len == data@.len(),
            out@ =~= data@.subrange(6, k as int),
        decreases len - k,
    {
        out.push(data[k]);
        k = k + 1;
    }
    assert(out@ =~= data@.skip(6));
    Some(out)
}

/// Reads an inscription given as hex text (any leading `0x` taken off) and
/// hands out its JSON text; `None` where the text is not hex or the bytes
/// are not framed as an inscription.
pub fn inscription_payload_from_hex(value: &str) -> (res: Option<Vec<u8>>)
    ensures
        res is Some <==> (hex_decode(strip_hex_prefix_spec(value@)) matches Some(b)
            && inscription_payload_spec(b) is Some),
        res matches Some(v) ==> v@ == inscription_payload_spec(
            hex_decode(strip_hex_prefix_spec(value@))->0,
        )->0,
{
    match decode_hex_str(value) {
        Some(buffer) => inscription_payload(&buffer),
        None => None,
    }
}

/// Only inputs framed by `data:,` (the bytes 100, 97, 116, 97, 58, 44) and
/// at least 8 bytes long are inscriptions, and the JSON text handed out is
/// exactly what follows those six bytes: unframed JSON, or a longer or
/// shorter prefix, is never taken.
pub proof fn lemma_payload_only_framed(data: Seq<u8>)
    ensures
        inscription_payload_spec(data) is Some ==> {
            &&& data.len() >= 8
            &&& data[0] == 100u8 && data[1] == 97u8 && data[2] == 116u8
            &&& data[3] == 97u8 && data[4] == 58u8 && data[5] == 44u8
            &&& inscription_payload_spec(data)->0 == data.subrange(6, data.len() as int)
        },
        (data.len() >= 8 && data[0] == 100u8 && data[1] == 97u8 && data[2] == 116u8 && data[3]
            == 97u8 && data[4] == 58u8 && data[5] == 44u8) ==> inscription_payload_spec(data)
            is Some,
{
    if inscription_payload_spec(data) is Some {
        assert(data.take(6)[0] == data[0]);
        assert(data.take(6)[1] == data[1]);
        assert(data.take(6)[2] == data[2]);
        assert(data.take(6)[3] == data[3]);
        assert(data.take(6)[4] == data[4]);
        assert(data.take(6)[5] == data[5]);
        assert(data.skip(6) =~= data.subrange(6, data.len() as int));
    }
    if data.len() >= 8 && data[0] == 100u8 && data[1] == 97u8 && data[2] == 116u8 && data[3]
        == 97u8 && data[4] == 58u8 && data[5] == 44u8 {
        assert(data.take(6) =~= data_prefix());
    }
}

/// Any text framed as `data:,` followed by at least two bytes (the shortest
/// being `data:,{}`) is taken as an inscription whose JSON text is exactly
/// what follows the prefix; shorter inputs are not inscriptions.
pub proof fn lemma_framed_payload(body: Seq<u8>)
    ensures
        inscription_payload_spec(data_prefix() + body) == (if body.len() >= 2 {
            Some(body)
        } else {
            None::<Seq<u8>>
        }),
{
    let framed = data_prefix() + body;
    assert(framed.take(6) =~= data_prefix());
    assert(framed.skip(6) =~= body);
}

} // verus!
