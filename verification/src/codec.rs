//! The binary wire format of the envelope.
//!
//! Every field is length-prefixed: a byte sequence is written as its length
//! in eight little-endian bytes followed by the raw bytes; a string is its
//! UTF-8 bytes written the same way; a list is its element count followed by
//! the encoded elements. The encoding is defined twice: once as spec
//! functions over mathematical sequences (the reference), and once as
//! executable functions proved to follow the reference. Decoding an encoded
//! envelope gives the envelope back (`lemma_transport_round_trip`).

use vstd::prelude::*;
use vstd::bytes::{spec_u64_to_le_bytes, spec_u64_from_le_bytes, lemma_auto_spec_u64_to_from_le_bytes, u64_to_le_bytes, u64_from_le_bytes};
use vstd::utf8::{encode_utf8, decode_utf8, valid_utf8, encode_utf8_valid_utf8, encode_utf8_decode_utf8};
use vstd::slice::{slice_subrange, slice_to_vec, slice_index_get};
use vstd::string::*;
use crate::schema::SchemaIdentifier;
use crate::transport::{RequestType, ModuleInfo, ModuleInfoV, Destination, DestinationV, GenerateMessageInfo, GenerateMessageInfoV, Data, DataV, RpcData, RpcDataV, TransportError, VecModuleInfo, VecData, VecRpcData, Payload, PayloadV, Transport, TransportV, spec_agrees, opt_schema_view};

verus! {

/// One more than the largest u64, the bound that a length prefix can carry.
pub open spec fn len_limit() -> int {
    0x1_0000_0000_0000_0000
}

// ---------------------------------------------------------------------
// Reference encoders, over mathematical sequences.
// ---------------------------------------------------------------------

pub open spec fn se_u64(x: u64) -> Seq<u8> {
    spec_u64_to_le_bytes(x)
}

pub open spec fn se_bytes(b: Seq<u8>) -> Seq<u8> {
    se_u64(b.len() as u64) + b
}

pub open spec fn se_string(s: Seq<char>) -> Seq<u8> {
    se_bytes(encode_utf8(s))
}

pub open spec fn se_opt_string(d: Option<Seq<char>>) -> Seq<u8> {
    match d {
        None => seq![0u8],
        Some(s) => seq![1u8] + se_string(s),
    }
}

/// The byte that stands for a request kind on the wire.
pub open spec fn rt_to_byte(rt: RequestType) -> u8 {
    match rt {
        RequestType::NONE => 0u8,
        RequestType::GET_INFO => 1u8,
        RequestType::GENERATE_MESSAGE => 2u8,
        RequestType::HANDLE_TRUSTED => 3u8,
        RequestType::RECEIVE_RPC_AS_CLIENT => 4u8,
        RequestType::RECEIVE_RPC_AS_SERVER => 5u8,
        RequestType::RECEIVE_PUBLIC_RPC => 6u8,
        RequestType::UNKNOWN(b) => b,
    }
}

/// Every byte decodes to a request kind; one that this version does not
/// know becomes `UNKNOWN`, so that newer messages still decode.
pub open spec fn rt_from_byte(b: u8) -> RequestType {
    if b == 0 {
        RequestType::NONE
    } else if b == 1 {
        RequestType::GET_INFO
    } else if b == 2 {
        RequestType::GENERATE_MESSAGE
    } else if b == 3 {
        RequestType::HANDLE_TRUSTED
    } else if b == 4 {
        RequestType::RECEIVE_RPC_AS_CLIENT
    } else if b == 5 {
        RequestType::RECEIVE_RPC_AS_SERVER
    } else if b == 6 {
        RequestType::RECEIVE_PUBLIC_RPC
    } else {
        RequestType::UNKNOWN(b)
    }
}

/// An `UNKNOWN` kind is well-formed only when its byte is not one that a
/// known kind already uses; every kind a program can otherwise construct is
/// well-formed.
pub open spec fn wf_request_type(rt: RequestType) -> bool {
    match rt {
        RequestType::UNKNOWN(b) => b >= 7,
        _ => true,
    }
}

pub open spec fn se_info(m: ModuleInfoV) -> Seq<u8> {
    se_string(m.schema) + se_string(m.display_name)
}

pub open spec fn se_data(d: DataV) -> Seq<u8> {
    se_string(d.schema) + se_bytes(d.serialized)
}

pub open spec fn se_rpc(r: RpcDataV) -> Seq<u8> {
    se_string(r.method_name) + se_string(r.schema) + se_bytes(r.serialized)
}

pub open spec fn se_bytes_seq(args: Seq<Seq<u8>>) -> Seq<u8>
    decreases args.len(),
{
    if args.len() == 0 {
        Seq::empty()
    } else {
        se_bytes(args[0]) + se_bytes_seq(args.drop_first())
    }
}

pub open spec fn se_gmi(g: GenerateMessageInfoV) -> Seq<u8> {
    se_string(g.schema) + se_string(g.template) + se_u64(g.args.len() as u64) + se_bytes_seq(
        g.args,
    )
}

pub open spec fn se_info_seq(ms: Seq<ModuleInfoV>) -> Seq<u8>
    decreases ms.len(),
{
    if ms.len() == 0 {
        Seq::empty()
    } else {
        se_info(ms[0]) + se_info_seq(ms.drop_first())
    }
}

pub open spec fn se_data_seq(ds: Seq<DataV>) -> Seq<u8>
    decreases ds.len(),
{
    if ds.len() == 0 {
        Seq::empty()
    } else {
        se_data(ds[0]) + se_data_seq(ds.drop_first())
    }
}

pub open spec fn se_rpc_seq(rs: Seq<RpcDataV>) -> Seq<u8>
    decreases rs.len(),
{
    if rs.len() == 0 {
        Seq::empty()
    } else {
        se_rpc(rs[0]) + se_rpc_seq(rs.drop_first())
    }
}

pub open spec fn se_payload(p: PayloadV) -> Seq<u8> {
    match p {
        PayloadV::destination(d) => seq![0u8] + se_opt_string(d.schema),
        PayloadV::generatemessageinfo(g) => seq![1u8] + se_gmi(g),
        PayloadV::data(d) => seq![2u8] + se_data(d),
        PayloadV::rpcdata(r) => seq![3u8] + se_rpc(r),
        PayloadV::error(e) => seq![4u8] + se_string(e),
        PayloadV::vecmoduleinfo(ms) => seq![5u8] + se_u64(ms.len() as u64) + se_info_seq(ms),
        PayloadV::vecdata(ds) => seq![6u8] + se_u64(ds.len() as u64) + se_data_seq(ds),
        PayloadV::vecrpcdata(rs) => seq![7u8] + se_u64(rs.len() as u64) + se_rpc_seq(rs),
    }
}

pub open spec fn se_transport(t: TransportV) -> Seq<u8> {
    seq![rt_to_byte(t.request_type)] + se_opt_string(t.destination) + se_payload(t.payload)
}

pub open spec fn se_transport_seq(ts: Seq<TransportV>) -> Seq<u8>
    decreases ts.len(),
{
    if ts.len() == 0 {
        Seq::empty()
    } else {
        se_transport(ts[0]) + se_transport_seq(ts.drop_first())
    }
}

/// A collection of result envelopes, as returned across the foreign
/// boundary: the count, then each envelope.
pub open spec fn se_transports(ts: Seq<TransportV>) -> Seq<u8> {
    se_u64(ts.len() as u64) + se_transport_seq(ts)
}

// ---------------------------------------------------------------------
// What the length prefixes can carry: every piece must be shorter than
// the largest u64. Every value built from executable vectors and strings
// satisfies these bounds.
// ---------------------------------------------------------------------

pub open spec fn encodable_string(s: Seq<char>) -> bool {
    encode_utf8(s).len() < len_limit()
}

pub open spec fn encodable_opt_string(d: Option<Seq<char>>) -> bool {
    match d {
        None => true,
        Some(s) => encodable_string(s),
    }
}

pub open spec fn encodable_info(m: ModuleInfoV) -> bool {
    encodable_string(m.schema) && encodable_string(m.display_name)
}

pub open spec fn encodable_data(d: DataV) -> bool {
    encodable_string(d.schema) && d.serialized.len() < len_limit()
}

pub open spec fn encodable_rpc(r: RpcDataV) -> bool {
    encodable_string(r.method_name) && encodable_string(r.schema) && r.serialized.len()
        < len_limit()
}

pub open spec fn encodable_gmi(g: GenerateMessageInfoV) -> bool {
    &&& encodable_string(g.schema)
    &&& encodable_string(g.template)
    &&& g.args.len() < len_limit()
    &&& forall|i: int| 0 <= i < g.args.len() ==> (#[trigger] g.args[i]).len() < len_limit()
}

pub open spec fn encodable_payload(p: PayloadV) -> bool {
    match p {
        PayloadV::destination(d) => encodable_opt_string(d.schema),
        PayloadV::generatemessageinfo(g) => encodable_gmi(g),
        PayloadV::data(d) => encodable_data(d),
        PayloadV::rpcdata(r) => encodable_rpc(r),
        PayloadV::error(e) => encodable_string(e),
        PayloadV::vecmoduleinfo(ms) => ms.len() < len_limit() && forall|i: int|
            0 <= i < ms.len() ==> encodable_info(#[trigger] ms[i]),
        PayloadV::vecdata(ds) => ds.len() < len_limit() && forall|i: int|
            0 <= i < ds.len() ==> encodable_data(#[trigger] ds[i]),
        PayloadV::vecrpcdata(rs) => rs.len() < len_limit() && forall|i: int|
            0 <= i < rs.len() ==> encodable_rpc(#[trigger] rs[i]),
    }
}

/// A well-formed envelope: its request kind and payload agree, its unknown
/// kinds use bytes no known kind uses, and its pieces fit the length
/// prefixes.
pub open spec fn wf_transport(t: TransportV) -> bool {
    &&& wf_request_type(t.request_type)
    &&& spec_agrees(t.request_type, t.payload)
    &&& encodable_opt_string(t.destination)
    &&& encodable_payload(t.payload)
}

// ---------------------------------------------------------------------
// Reference parsers: each consumes a prefix of the byte sequence and
// yields the parsed value with the remainder, or nothing on malformed
// input.
// ---------------------------------------------------------------------

pub open spec fn sp_u64(s: Seq<u8>) -> Option<(u64, Seq<u8>)> {
    if s.len() >= 8 {
        Some((spec_u64_from_le_bytes(s.take(8)), s.skip(8)))
    } else {
        None
    }
}

pub open spec fn sp_bytes(s: Seq<u8>) -> Option<(Seq<u8>, Seq<u8>)> {
    match sp_u64(s) {
        None => None,
        Some((n, rest)) => if rest.len() >= n {
            Some((rest.take(n as int), rest.skip(n as int)))
        } else {
            None
        },
    }
}

pub open spec fn sp_string(s: Seq<u8>) -> Option<(Seq<char>, Seq<u8>)> {
    match sp_bytes(s) {
        None => None,
        Some((b, rest)) => if valid_utf8(b) {
            Some((decode_utf8(b), rest))
        } else {
            None
        },
    }
}

pub open spec fn sp_opt_string(s: Seq<u8>) -> Option<(Option<Seq<char>>, Seq<u8>)> {
    if s.len() < 1 {
        None
    } else if s[0] == 0 {
        Some((None, s.skip(1)))
    } else if s[0] == 1 {
        match sp_string(s.skip(1)) {
            None => None,
            Some((v, rest)) => Some((Some(v), rest)),
        }
    } else {
        None
    }
}

pub open spec fn sp_info(s: Seq<u8>) -> Option<(ModuleInfoV, Seq<u8>)> {
    match sp_string(s) {
        None => None,
        Some((schema, rest)) => match sp_string(rest) {
            None => None,
            Some((display_name, rest2)) => Some((ModuleInfoV { schema, display_name }, rest2)),
        },
    }
}

pub open spec fn sp_data(s: Seq<u8>) -> Option<(DataV, Seq<u8>)> {
    match sp_string(s) {
        None => None,
        Some((schema, rest)) => match sp_bytes(rest) {
            None => None,
            Some((serialized, rest2)) => Some((DataV { schema, serialized }, rest2)),
        },
    }
}

pub open spec fn sp_rpc(s: Seq<u8>) -> Option<(RpcDataV, Seq<u8>)> {
    match sp_string(s) {
        None => None,
        Some((method_name, rest)) => match sp_string(rest) {
            None => None,
            Some((schema, rest2)) => match sp_bytes(rest2) {
                None => None,
                Some((serialized, rest3)) => Some(
                    (RpcDataV { method_name, schema, serialized }, rest3),
                ),
            },
        },
    }
}

pub open spec fn sp_bytes_seq(s: Seq<u8>, n: nat) -> Option<(Seq<Seq<u8>>, Seq<u8>)>
    decreases n,
{
    if n == 0 {
        Some((Seq::empty(), s))
    } else {
        match sp_bytes(s) {
            None => None,
            Some((b, rest)) => match sp_bytes_seq(rest, (n - 1) as nat) {
                None => None,
                Some((bs, rest2)) => Some((seq![b] + bs, rest2)),
            },
        }
    }
}

pub open spec fn sp_gmi(s: Seq<u8>) -> Option<(GenerateMessageInfoV, Seq<u8>)> {
    match sp_string(s) {
        None => None,
        Some((schema, rest)) => match sp_string(rest) {
            None => None,
            Some((template, rest2)) => match sp_u64(rest2) {
                None => None,
                Some((n, rest3)) => match sp_bytes_seq(rest3, n as nat) {
                    None => None,
                    Some((args, rest4)) => Some(
                        (GenerateMessageInfoV { schema, template, args }, rest4),
                    ),
                },
            },
        },
    }
}

pub open spec fn sp_info_seq(s: Seq<u8>, n: nat) -> Option<(Seq<ModuleInfoV>, Seq<u8>)>
    decreases n,
{
    if n == 0 {
        Some((Seq::empty(), s))
    } else {
        match sp_info(s) {
            None => None,
            Some((m, rest)) => match sp_info_seq(rest, (n - 1) as nat) {
                None => None,
                Some((ms, rest2)) => Some((seq![m] + ms, rest2)),
            },
        }
    }
}

pub open spec fn sp_data_seq(s: Seq<u8>, n: nat) -> Option<(Seq<DataV>, Seq<u8>)>
    decreases n,
{
    if n == 0 {
        Some((Seq::empty(), s))
    } else {
        match sp_data(s) {
            None => None,
            Some((d, rest)) => match sp_data_seq(rest, (n - 1) as nat) {
                None => None,
                Some((ds, rest2)) => Some((seq![d] + ds, rest2)),
            },
        }
    }
}

pub open spec fn sp_rpc_seq(s: Seq<u8>, n: nat) -> Option<(Seq<RpcDataV>, Seq<u8>)>
    decreases n,
{
    if n == 0 {
        Some((Seq::empty(), s))
    } else {
        match sp_rpc(s) {
            None => None,
            Some((r, rest)) => match sp_rpc_seq(rest, (n - 1) as nat) {
                None => None,
                Some((rs, rest2)) => Some((seq![r] + rs, rest2)),
            },
        }
    }
}

pub open spec fn sp_payload(s: Seq<u8>) -> Option<(PayloadV, Seq<u8>)> {
    if s.len() < 1 {
        None
    } else {
        let tag = s[0];
        let body = s.skip(1);
        if tag == 0 {
            match sp_opt_string(body) {
                None => None,
                Some((d, rest)) => Some((PayloadV::destination(DestinationV { schema: d }), rest)),
            }
        } else if tag == 1 {
            match sp_gmi(body) {
                None => None,
                Some((g, rest)) => Some((PayloadV::generatemessageinfo(g), rest)),
            }
        } else if tag == 2 {
            match sp_data(body) {
                None => None,
                Some((d, rest)) => Some((PayloadV::data(d), rest)),
            }
        } else if tag == 3 {
            match sp_rpc(body) {
                None => None,
                Some((r, rest)) => Some((PayloadV::rpcdata(r), rest)),
            }
        } else if tag == 4 {
            match sp_string(body) {
                None => None,
                Some((e, rest)) => Some((PayloadV::error(e), rest)),
            }
        } else if tag == 5 {
            match sp_u64(body) {
                None => None,
                Some((n, rest)) => match sp_info_seq(rest, n as nat) {
                    None => None,
                    Some((ms, rest2)) => Some((PayloadV::vecmoduleinfo(ms), rest2)),
                },
            }
        } else if tag == 6 {
            match sp_u64(body) {
                None => None,
                Some((n, rest)) => match sp_data_seq(rest, n as nat) {
                    None => None,
                    Some((ds, rest2)) => Some((PayloadV::vecdata(ds), rest2)),
                },
            }
        } else if tag == 7 {
            match sp_u64(body) {
                None => None,
                Some((n, rest)) => match sp_rpc_seq(rest, n as nat) {
                    None => None,
                    Some((rs, rest2)) => Some((PayloadV::vecrpcdata(rs), rest2)),
                },
            }
        } else {
            None
        }
    }
}

pub open spec fn sp_transport(s: Seq<u8>) -> Option<(TransportV, Seq<u8>)> {
    if s.len() < 1 {
        None
    } else {
        let request_type = rt_from_byte(s[0]);
        match sp_opt_string(s.skip(1)) {
            None => None,
            Some((destination, rest)) => match sp_payload(rest) {
                None => None,
                Some((payload, rest2)) => if spec_agrees(request_type, payload) {
                    Some((TransportV { request_type, destination, payload }, rest2))
                } else {
                    None
                },
            },
        }
    }
}

pub open spec fn sp_transport_seq(s: Seq<u8>, n: nat) -> Option<(Seq<TransportV>, Seq<u8>)>
    decreases n,
{
    if n == 0 {
        Some((Seq::empty(), s))
    } else {
        match sp_transport(s) {
            None => None,
            Some((t, rest)) => match sp_transport_seq(rest, (n - 1) as nat) {
                None => None,
                Some((ts, rest2)) => Some((seq![t] + ts, rest2)),
            },
        }
    }
}

pub open spec fn sp_transports(s: Seq<u8>) -> Option<(Seq<TransportV>, Seq<u8>)> {
    match sp_u64(s) {
        None => None,
        Some((n, rest)) => sp_transport_seq(rest, n as nat),
    }
}

// ---------------------------------------------------------------------
// Parsing an encoding gives the encoded value back, with the remainder
// untouched.
// ---------------------------------------------------------------------

proof fn lemma_rt_u64(x: u64, rest: Seq<u8>)
    ensures
        sp_u64(se_u64(x) + rest) == Some((x, rest)),
{
    lemma_auto_spec_u64_to_from_le_bytes();
    let s = se_u64(x) + rest;
    assert(s.take(8) =~= se_u64(x));
    assert(s.skip(8) =~= rest);
}

proof fn lemma_rt_bytes(b: Seq<u8>, rest: Seq<u8>)
    requires
        b.len() < len_limit(),
    ensures
        sp_bytes(se_bytes(b) + rest) == Some((b, rest)),
{
    lemma_rt_u64(b.len() as u64, b + rest);
    assert(se_bytes(b) + rest =~= se_u64(b.len() as u64) + (b + rest));
    assert((b + rest).take(b.len() as int) =~= b);
    assert((b + rest).skip(b.len() as int) =~= rest);
}

proof fn lemma_rt_string(s: Seq<char>, rest: Seq<u8>)
    requires
        encodable_string(s),
    ensures
        sp_string(se_string(s) + rest) == Some((s, rest)),
{
    broadcast use encode_utf8_valid_utf8, encode_utf8_decode_utf8;

    lemma_rt_bytes(encode_utf8(s), rest);
}

proof fn lemma_rt_opt_string(d: Option<Seq<char>>, rest: Seq<u8>)
    requires
        encodable_opt_string(d),
    ensures
        sp_opt_string(se_opt_string(d) + rest) == Some((d, rest)),
{
    match d {
        None => {
            let s = se_opt_string(d) + rest;
            assert(s.skip(1) =~= rest);
        },
        Some(v) => {
            let s = se_opt_string(d) + rest;
            assert(s.skip(1) =~= se_string(v) + rest);
            lemma_rt_string(v, rest);
        },
    }
}

proof fn lemma_rt_info(m: ModuleInfoV, rest: Seq<u8>)
    requires
        encodable_info(m),
    ensures
        sp_info(se_info(m) + rest) == Some((m, rest)),
{
    assert(se_info(m) + rest =~= se_string(m.schema) + (se_string(m.display_name) + rest));
    lemma_rt_string(m.schema, se_string(m.display_name) + rest);
    lemma_rt_string(m.display_name, rest);
}

proof fn lemma_rt_data(d: DataV, rest: Seq<u8>)
    requires
        encodable_data(d),
    ensures
        sp_data(se_data(d) + rest) == Some((d, rest)),
{
    assert(se_data(d) + rest =~= se_string(d.schema) + (se_bytes(d.serialized) + rest));
    lemma_rt_string(d.schema, se_bytes(d.serialized) + rest);
    lemma_rt_bytes(d.serialized, rest);
}

proof fn lemma_rt_rpc(r: RpcDataV, rest: Seq<u8>)
    requires
        encodable_rpc(r),
    ensures
        sp_rpc(se_rpc(r) + rest) == Some((r, rest)),
{
    assert(se_rpc(r) + rest =~= se_string(r.method_name) + (se_string(r.schema) + (se_bytes(
        r.serialized,
    ) + rest)));
    lemma_rt_string(r.method_name, se_string(r.schema) + (se_bytes(r.serialized) + rest));
    lemma_rt_string(r.schema, se_bytes(r.serialized) + rest);
    lemma_rt_bytes(r.serialized, rest);
}

proof fn lemma_rt_bytes_seq(args: Seq<Seq<u8>>, rest: Seq<u8>)
    requires
        forall|i: int| 0 <= i < args.len() ==> (#[trigger] args[i]).len() < len_limit(),
    ensures
        sp_bytes_seq(se_bytes_seq(args) + rest, args.len()) == Some((args, rest)),
    decreases args.len(),
{
    if args.len() == 0 {
        assert(se_bytes_seq(args) + rest =~= rest);
        assert(sp_bytes_seq(rest, 0) == Some((Seq::<Seq<u8>>::empty(), rest)));
        assert(args =~= Seq::<Seq<u8>>::empty());
    } else {
        let tail = args.drop_first();
        assert(se_bytes_seq(args) + rest =~= se_bytes(args[0]) + (se_bytes_seq(tail) + rest));
        lemma_rt_bytes(args[0], se_bytes_seq(tail) + rest);
        lemma_rt_bytes_seq(tail, rest);
        assert(seq![args[0]] + tail =~= args);
    }
}

proof fn lemma_rt_gmi(g: GenerateMessageInfoV, rest: Seq<u8>)
    requires
        encodable_gmi(g),
    ensures
        sp_gmi(se_gmi(g) + rest) == Some((g, rest)),
{
    let tail3 = se_u64(g.args.len() as u64) + (se_bytes_seq(g.args) + rest);
    assert(se_gmi(g) + rest =~= se_string(g.schema) + (se_string(g.template) + tail3));
    lemma_rt_string(g.schema, se_string(g.template) + tail3);
    lemma_rt_string(g.template, tail3);
    lemma_rt_u64(g.args.len() as u64, se_bytes_seq(g.args) + rest);
    lemma_rt_bytes_seq(g.args, rest);
}

proof fn lemma_rt_info_seq(ms: Seq<ModuleInfoV>, rest: Seq<u8>)
    requires
        forall|i: int| 0 <= i < ms.len() ==> encodable_info(#[trigger] ms[i]),
    ensures
        sp_info_seq(se_info_seq(ms) + rest, ms.len()) == Some((ms, rest)),
    decreases ms.len(),
{
    if ms.len() == 0 {
        assert(se_info_seq(ms) + rest =~= rest);
        assert(ms =~= Seq::<ModuleInfoV>::empty());
    } else {
        let tail = ms.drop_first();
        assert(se_info_seq(ms) + rest =~= se_info(ms[0]) + (se_info_seq(tail) + rest));
        lemma_rt_info(ms[0], se_info_seq(tail) + rest);
        lemma_rt_info_seq(tail, rest);
        assert(seq![ms[0]] + tail =~= ms);
    }
}

proof fn lemma_rt_data_seq(ds: Seq<DataV>, rest: Seq<u8>)
    requires
        forall|i: int| 0 <= i < ds.len() ==> encodable_data(#[trigger] ds[i]),
    ensures
        sp_data_seq(se_data_seq(ds) + rest, ds.len()) == Some((ds, rest)),
    decreases ds.len(),
{
    if ds.len() == 0 {
        assert(se_data_seq(ds) + rest =~= rest);
        assert(ds =~= Seq::<DataV>::empty());
    } else {
        let tail = ds.drop_first();
        assert(se_data_seq(ds) + rest =~= se_data(ds[0]) + (se_data_seq(tail) + rest));
        lemma_rt_data(ds[0], se_data_seq(tail) + rest);
        lemma_rt_data_seq(tail, rest);
        assert(seq![ds[0]] + tail =~= ds);
    }
}

proof fn lemma_rt_rpc_seq(rs: Seq<RpcDataV>, rest: Seq<u8>)
    requires
        forall|i: int| 0 <= i < rs.len() ==> encodable_rpc(#[trigger] rs[i]),
    ensures
        sp_rpc_seq(se_rpc_seq(rs) + rest, rs.len()) == Some((rs, rest)),
    decreases rs.len(),
{
    if rs.len() == 0 {
        assert(se_rpc_seq(rs) + rest =~= rest);
        assert(rs =~= Seq::<RpcDataV>::empty());
    } else {
        let tail = rs.drop_first();
        assert(se_rpc_seq(rs) + rest =~= se_rpc(rs[0]) + (se_rpc_seq(tail) + rest));
        lemma_rt_rpc(rs[0], se_rpc_seq(tail) + rest);
        lemma_rt_rpc_seq(tail, rest);
        assert(seq![rs[0]] + tail =~= rs);
    }
}

proof fn lemma_rt_payload(p: PayloadV, rest: Seq<u8>)
    requires
        encodable_payload(p),
    ensures
        sp_payload(se_payload(p) + rest) == Some((p, rest)),
{
    let s = se_payload(p) + rest;
    match p {
        PayloadV::destination(d) => {
            assert(s.skip(1) =~= se_opt_string(d.schema) + rest);
            lemma_rt_opt_string(d.schema, rest);
            assert(DestinationV { schema: d.schema } == d);
        },
        PayloadV::generatemessageinfo(g) => {
            assert(s.skip(1) =~= se_gmi(g) + rest);
            lemma_rt_gmi(g, rest);
        },
        PayloadV::data(d) => {
            assert(s.skip(1) =~= se_data(d) + rest);
            lemma_rt_data(d, rest);
        },
        PayloadV::rpcdata(r) => {
            assert(s.skip(1) =~= se_rpc(r) + rest);
            lemma_rt_rpc(r, rest);
        },
        PayloadV::error(e) => {
            assert(s.skip(1) =~= se_string(e) + rest);
            lemma_rt_string(e, rest);
        },
        PayloadV::vecmoduleinfo(ms) => {
            assert(s.skip(1) =~= se_u64(ms.len() as u64) + (se_info_seq(ms) + rest));
            lemma_rt_u64(ms.len() as u64, se_info_seq(ms) + rest);
            lemma_rt_info_seq(ms, rest);
        },
        PayloadV::vecdata(ds) => {
            assert(s.skip(1) =~= se_u64(ds.len() as u64) + (se_data_seq(ds) + rest));
            lemma_rt_u64(ds.len() as u64, se_data_seq(ds) + rest);
            lemma_rt_data_seq(ds, rest);
        },
        PayloadV::vecrpcdata(rs) => {
            assert(s.skip(1) =~= se_u64(rs.len() as u64) + (se_rpc_seq(rs) + rest));
            lemma_rt_u64(rs.len() as u64, se_rpc_seq(rs) + rest);
            lemma_rt_rpc_seq(rs, rest);
        },
    }
}

/// Parsing the encoding of a well-formed envelope yields that envelope and
/// leaves the bytes that follow it untouched.
pub proof fn lemma_rt_transport(t: TransportV, rest: Seq<u8>)
    requires
        wf_transport(t),
    ensures
        sp_transport(se_transport(t) + rest) == Some((t, rest)),
{
    let s = se_transport(t) + rest;
    assert(s[0] == rt_to_byte(t.request_type));
    assert(rt_from_byte(rt_to_byte(t.request_type)) == t.request_type);
    assert(s.skip(1) =~= se_opt_string(t.destination) + (se_payload(t.payload) + rest));
    lemma_rt_opt_string(t.destination, se_payload(t.payload) + rest);
    lemma_rt_payload(t.payload, rest);
}

/// Encoding an envelope and then decoding it reproduces an equal envelope,
/// for every well-formed envelope, the broadcast case (no destination)
/// included.
pub proof fn lemma_transport_round_trip(t: TransportV)
    requires
        wf_transport(t),
    ensures
        sp_transport(se_transport(t)) == Some((t, Seq::<u8>::empty())),
{
    lemma_rt_transport(t, Seq::empty());
    assert(se_transport(t) + Seq::<u8>::empty() =~= se_transport(t));
}

/// Parsing the encoding of a collection of well-formed envelopes yields
/// that collection.
#[verifier::spinoff_prover]
#[verifier::rlimit(50)]
pub proof fn lemma_rt_transport_seq(ts: Seq<TransportV>, rest: Seq<u8>)
    requires
        forall|i: int| 0 <= i < ts.len() ==> wf_transport(#[trigger] ts[i]),
        ts.len() < len_limit(),
    ensures
        sp_transports(se_transports(ts) + rest) == Some((ts, rest)),
    decreases ts.len(),
{
    let s = se_transports(ts) + rest;
    let tail = se_transport_seq(ts) + rest;
    lemma_rt_u64(ts.len() as u64, tail);
    assert(s =~= se_u64(ts.len() as u64) + tail);
    assert(sp_u64(s) == Some((ts.len() as u64, tail)));
    assert((ts.len() as u64) as nat == ts.len());
    lemma_rt_transport_seq_n(ts, rest);
    assert(sp_transports(s) == sp_transport_seq(tail, ts.len()));
}

#[verifier::spinoff_prover]
#[verifier::rlimit(100)]
proof fn lemma_rt_transport_seq_n(ts: Seq<TransportV>, rest: Seq<u8>)
    requires
        forall|i: int| 0 <= i < ts.len() ==> wf_transport(#[trigger] ts[i]),
    ensures
        sp_transport_seq(se_transport_seq(ts) + rest, ts.len()) == Some((ts, rest)),
    decreases ts.len(),
{
    if ts.len() == 0 {
        assert(se_transport_seq(ts) + rest =~= rest);
        assert(ts =~= Seq::<TransportV>::empty());
    } else {
        let tail = ts.drop_first();
        assert(se_transport_seq(ts) + rest =~= se_transport(ts[0]) + (se_transport_seq(tail)
            + rest));
        lemma_rt_transport(ts[0], se_transport_seq(tail) + rest);
        lemma_rt_transport_seq_n(tail, rest);
        assert(seq![ts[0]] + tail =~= ts);
    }
}

// ---------------------------------------------------------------------
// Appending one element to an encoded list appends its encoding.
// ---------------------------------------------------------------------

proof fn lemma_se_bytes_seq_snoc(xs: Seq<Seq<u8>>, x: Seq<u8>)
    ensures
        se_bytes_seq(xs.push(x)) == se_bytes_seq(xs) + se_bytes(x),
    decreases xs.len(),
{
    let s = xs.push(x);
    if xs.len() == 0 {
        assert(s[0] == x);
        assert(s.drop_first() =~= xs);
        assert(se_bytes_seq(xs) =~= Seq::<u8>::empty());
        assert(se_bytes_seq(s) =~= se_bytes(x) + se_bytes_seq(xs));
        assert(se_bytes(x) + Seq::<u8>::empty() =~= se_bytes(x));
        assert(se_bytes_seq(xs) + se_bytes(x) =~= se_bytes(x));
    } else {
        assert(s[0] == xs[0]);
        assert(s.drop_first() =~= xs.drop_first().push(x));
        lemma_se_bytes_seq_snoc(xs.drop_first(), x);
        assert(se_bytes_seq(s) =~= se_bytes(xs[0]) + (se_bytes_seq(xs.drop_first()) + se_bytes(x)));
        assert(se_bytes_seq(xs) + se_bytes(x) =~= se_bytes(xs[0]) + (se_bytes_seq(xs.drop_first()) + se_bytes(x)));
    }
}

proof fn lemma_se_info_seq_snoc(xs: Seq<ModuleInfoV>, x: ModuleInfoV)
    ensures
        se_info_seq(xs.push(x)) == se_info_seq(xs) + se_info(x),
    decreases xs.len(),
{
    let s = xs.push(x);
    if xs.len() == 0 {
        assert(s[0] == x);
        assert(s.drop_first() =~= xs);
        assert(se_info_seq(xs) =~= Seq::<u8>::empty());
        assert(se_info_seq(s) =~= se_info(x) + se_info_seq(xs));
        assert(se_info(x) + Seq::<u8>::empty() =~= se_info(x));
        assert(se_info_seq(xs) + se_info(x) =~= se_info(x));
    } else {
        assert(s[0] == xs[0]);
        assert(s.drop_first() =~= xs.drop_first().push(x));
        lemma_se_info_seq_snoc(xs.drop_first(), x);
        assert(se_info_seq(s) =~= se_info(xs[0]) + (se_info_seq(xs.drop_first()) + se_info(x)));
        assert(se_info_seq(xs) + se_info(x) =~= se_info(xs[0]) + (se_info_seq(xs.drop_first()) + se_info(x)));
    }
}

proof fn lemma_se_data_seq_snoc(xs: Seq<DataV>, x: DataV)
    ensures
        se_data_seq(xs.push(x)) == se_data_seq(xs) + se_data(x),
    decreases xs.len(),
{
    let s = xs.push(x);
    if xs.len() == 0 {
        assert(s[0] == x);
        assert(s.drop_first() =~= xs);
        assert(se_data_seq(xs) =~= Seq::<u8>::empty());
        assert(se_data_seq(s) =~= se_data(x) + se_data_seq(xs));
        assert(se_data(x) + Seq::<u8>::empty() =~= se_data(x));
        assert(se_data_seq(xs) + se_data(x) =~= se_data(x));
    } else {
        assert(s[0] == xs[0]);
        assert(s.drop_first() =~= xs.drop_first().push(x));
        lemma_se_data_seq_snoc(xs.drop_first(), x);
        assert(se_data_seq(s) =~= se_data(xs[0]) + (se_data_seq(xs.drop_first()) + se_data(x)));
        assert(se_data_seq(xs) + se_data(x) =~= se_data(xs[0]) + (se_data_seq(xs.drop_first()) + se_data(x)));
    }
}

proof fn lemma_se_rpc_seq_snoc(xs: Seq<RpcDataV>, x: RpcDataV)
    ensures
        se_rpc_seq(xs.push(x)) == se_rpc_seq(xs) + se_rpc(x),
    decreases xs.len(),
{
    let s = xs.push(x);
    if xs.len() == 0 {
        assert(s[0] == x);
        assert(s.drop_first() =~= xs);
        assert(se_rpc_seq(xs) =~= Seq::<u8>::empty());
        assert(se_rpc_seq(s) =~= se_rpc(x) + se_rpc_seq(xs));
        assert(se_rpc(x) + Seq::<u8>::empty() =~= se_rpc(x));
        assert(se_rpc_seq(xs) + se_rpc(x) =~= se_rpc(x));
    } else {
        assert(s[0] == xs[0]);
        assert(s.drop_first() =~= xs.drop_first().push(x));
        lemma_se_rpc_seq_snoc(xs.drop_first(), x);
        assert(se_rpc_seq(s) =~= se_rpc(xs[0]) + (se_rpc_seq(xs.drop_first()) + se_rpc(x)));
        assert(se_rpc_seq(xs) + se_rpc(x) =~= se_rpc(xs[0]) + (se_rpc_seq(xs.drop_first()) + se_rpc(x)));
    }
}

proof fn lemma_se_transport_seq_snoc(xs: Seq<TransportV>, x: TransportV)
    ensures
        se_transport_seq(xs.push(x)) == se_transport_seq(xs) + se_transport(x),
    decreases xs.len(),
{
    let s = xs.push(x);
    if xs.len() == 0 {
        assert(s[0] == x);
        assert(s.drop_first() =~= xs);
        assert(se_transport_seq(xs) =~= Seq::<u8>::empty());
        assert(se_transport_seq(s) =~= se_transport(x) + se_transport_seq(xs));
        assert(se_transport(x) + Seq::<u8>::empty() =~= se_transport(x));
        assert(se_transport_seq(xs) + se_transport(x) =~= se_transport(x));
    } else {
        assert(s[0] == xs[0]);
        assert(s.drop_first() =~= xs.drop_first().push(x));
        lemma_se_transport_seq_snoc(xs.drop_first(), x);
        assert(se_transport_seq(s) =~= se_transport(xs[0]) + (se_transport_seq(xs.drop_first()) + se_transport(x)));
        assert(se_transport_seq(xs) + se_transport(x) =~= se_transport(xs[0]) + (se_transport_seq(xs.drop_first()) + se_transport(x)));
    }
}

// ---------------------------------------------------------------------
// Executable encoders, proved to write exactly the reference encoding.
// ---------------------------------------------------------------------

pub(crate) fn en_u64(out: &mut Vec<u8>, x: u64)
    ensures
        final(out)@ == old(out)@ + se_u64(x),
{
    let b = u64_to_le_bytes(x);
    out.extend_from_slice(b.as_slice());
}

pub(crate) fn en_bytes(out: &mut Vec<u8>, b: &Vec<u8>)
    ensures
        final(out)@ == old(out)@ + se_bytes(b@),
{
    en_u64(out, b.len() as u64);
    out.extend_from_slice(b.as_slice());
    assert(final(out)@ =~= old(out)@ + se_bytes(b@));
}

pub(crate) fn en_string(out: &mut Vec<u8>, s: &str)
    ensures
        final(out)@ == old(out)@ + se_string(s@),
{
    let bv = s.as_bytes_vec();
    en_bytes(out, &bv);
}

fn en_opt_schema(out: &mut Vec<u8>, d: &Option<SchemaIdentifier>)
    ensures
        final(out)@ == old(out)@ + se_opt_string(opt_schema_view(d)),
{
    match d {
        None => {
            out.push(0u8);
            assert(final(out)@ =~= old(out)@ + se_opt_string(opt_schema_view(d)));
        },
        Some(s) => {
            out.push(1u8);
            en_string(out, s.val.as_str());
            assert(final(out)@ =~= old(out)@ + se_opt_string(opt_schema_view(d)));
        },
    }
}

fn request_type_byte(rt: &RequestType) -> (r: u8)
    ensures
        r == rt_to_byte(*rt),
{
    match rt {
        RequestType::NONE => 0u8,
        RequestType::GET_INFO => 1u8,
        RequestType::GENERATE_MESSAGE => 2u8,
        RequestType::HANDLE_TRUSTED => 3u8,
        RequestType::RECEIVE_RPC_AS_CLIENT => 4u8,
        RequestType::RECEIVE_RPC_AS_SERVER => 5u8,
        RequestType::RECEIVE_PUBLIC_RPC => 6u8,
        RequestType::UNKNOWN(b) => *b,
    }
}

fn en_info(out: &mut Vec<u8>, m: &ModuleInfo)
    ensures
        final(out)@ == old(out)@ + se_info(m@),
{
    en_string(out, m.schema.val.as_str());
    en_string(out, m.display_name.as_str());
    assert(final(out)@ =~= old(out)@ + se_info(m@));
}

fn en_data(out: &mut Vec<u8>, d: &Data)
    ensures
        final(out)@ == old(out)@ + se_data(d@),
{
    en_string(out, d.schema.val.as_str());
    en_bytes(out, &d.serialized);
    assert(final(out)@ =~= old(out)@ + se_data(d@));
}

fn en_rpc(out: &mut Vec<u8>, r: &RpcData)
    ensures
        final(out)@ == old(out)@ + se_rpc(r@),
{
    en_string(out, r.method_name.as_str());
    en_string(out, r.schema.val.as_str());
    en_bytes(out, &r.serialized);
    assert(final(out)@ =~= old(out)@ + se_rpc(r@));
}

fn en_gmi(out: &mut Vec<u8>, g: &GenerateMessageInfo)
    ensures
        final(out)@ == old(out)@ + se_gmi(g@),
{
    en_string(out, g.schema.val.as_str());
    en_string(out, g.template.as_str());
    en_u64(out, g.args.len() as u64);
    let ghost mid = out@;
    let ghost argsv = g@.args;
    let n = g.args.len();
    let mut i: usize = 0;
    while i < n
        invariant
            i <= n,
            n == g.args.len(),
            argsv == g@.args,
            out@ == mid + se_bytes_seq(argsv.take(i as int)),
        decreases n - i,
    {
        en_bytes(out, &g.args[i]);
        proof {
            lemma_se_bytes_seq_snoc(argsv.take(i as int), argsv[i as int]);
            assert(argsv.take(i + 1) =~= argsv.take(i as int).push(argsv[i as int]));
            assert(out@ =~= mid + se_bytes_seq(argsv.take(i + 1)));
        }
        i = i + 1;
    }
    proof {
        assert(argsv.take(n as int) =~= argsv);
        assert(final(out)@ =~= old(out)@ + se_gmi(g@));
    }
}

fn en_payload(out: &mut Vec<u8>, p: &Payload)
    ensures
        final(out)@ == old(out)@ + se_payload(p@),
{
    match p {
        Payload::destination(d) => {
            out.push(0u8);
            en_opt_schema(out, &d.schema);
            assert(final(out)@ =~= old(out)@ + se_payload(p@));
        },
        Payload::generatemessageinfo(g) => {
            out.push(1u8);
            en_gmi(out, g);
            assert(final(out)@ =~= old(out)@ + se_payload(p@));
        },
        Payload::data(d) => {
            out.push(2u8);
            en_data(out, d);
            assert(final(out)@ =~= old(out)@ + se_payload(p@));
        },
        Payload::rpcdata(r) => {
            out.push(3u8);
            en_rpc(out, r);
            assert(final(out)@ =~= old(out)@ + se_payload(p@));
        },
        Payload::error(e) => {
            out.push(4u8);
            en_string(out, e.val.as_str());
            assert(final(out)@ =~= old(out)@ + se_payload(p@));
        },
        Payload::vecmoduleinfo(ms) => {
            out.push(5u8);
            en_u64(out, ms.vec.len() as u64);
            let ghost mid = out@;
            let ghost msv = ms@;
            let n = ms.vec.len();
            let mut i: usize = 0;
            while i < n
                invariant
                    i <= n,
                    n == ms.vec.len(),
                    msv == ms@,
                    out@ == mid + se_info_seq(msv.take(i as int)),
                decreases n - i,
            {
                en_info(out, &ms.vec[i]);
                proof {
                    lemma_se_info_seq_snoc(msv.take(i as int), msv[i as int]);
                    assert(msv.take(i + 1) =~= msv.take(i as int).push(msv[i as int]));
                    assert(out@ =~= mid + se_info_seq(msv.take(i + 1)));
                }
                i = i + 1;
            }
            proof {
                assert(msv.take(n as int) =~= msv);
                assert(final(out)@ =~= old(out)@ + se_payload(p@));
            }
        },
        Payload::vecdata(ds) => {
            out.push(6u8);
            en_u64(out, ds.vec.len() as u64);
            let ghost mid = out@;
            let ghost dsv = ds@;
            let n = ds.vec.len();
            let mut i: usize = 0;
            while i < n
                invariant
                    i <= n,
                    n == ds.vec.len(),
                    dsv == ds@,
                    out@ == mid + se_data_seq(dsv.take(i as int)),
                decreases n - i,
            {
                en_data(out, &ds.vec[i]);
                proof {
                    lemma_se_data_seq_snoc(dsv.take(i as int), dsv[i as int]);
                    assert(dsv.take(i + 1) =~= dsv.take(i as int).push(dsv[i as int]));
                    assert(out@ =~= mid + se_data_seq(dsv.take(i + 1)));
                }
                i = i + 1;
            }
            proof {
                assert(dsv.take(n as int) =~= dsv);
                assert(final(out)@ =~= old(out)@ + se_payload(p@));
            }
        },
        Payload::vecrpcdata(rs) => {
            out.push(7u8);
            en_u64(out, rs.vec.len() as u64);
            let ghost mid = out@;
            let ghost rsv = rs@;
            let n = rs.vec.len();
            let mut i: usize = 0;
            while i < n
                invariant
                    i <= n,
                    n == rs.vec.len(),
                    rsv == rs@,
                    out@ == mid + se_rpc_seq(rsv.take(i as int)),
                decreases n - i,
            {
                en_rpc(out, &rs.vec[i]);
                proof {
                    lemma_se_rpc_seq_snoc(rsv.take(i as int), rsv[i as int]);
                    assert(rsv.take(i + 1) =~= rsv.take(i as int).push(rsv[i as int]));
                    assert(out@ =~= mid + se_rpc_seq(rsv.take(i + 1)));
                }
                i = i + 1;
            }
            proof {
                assert(rsv.take(n as int) =~= rsv);
                assert(final(out)@ =~= old(out)@ + se_payload(p@));
            }
        },
    }
}

/// Serializes one envelope to the wire format.
pub fn encode_transport(t: &Transport) -> (r: Vec<u8>)
    ensures
        r@ == se_transport(t@),
{
    let mut out: Vec<u8> = Vec::new();
    out.push(request_type_byte(&t.request_type));
    en_opt_schema(&mut out, &t.destination);
    en_payload(&mut out, &t.payload);
    proof {
        assert(out@ =~= se_transport(t@));
    }
    out
}

/// Serializes a collection of result envelopes, as returned across the
/// foreign boundary: the count, then each envelope.
pub fn encode_transports(ts: &Vec<Transport>) -> (r: Vec<u8>)
    ensures
        r@ == se_transports(ts@.map_values(|t: Transport| t@)),
{
    let mut out: Vec<u8> = Vec::new();
    en_u64(&mut out, ts.len() as u64);
    let ghost mid = out@;
    let ghost tsv = ts@.map_values(|t: Transport| t@);
    let n = ts.len();
    let mut i: usize = 0;
    while i < n
        invariant
            i <= n,
            n == ts.len(),
            tsv == ts@.map_values(|t: Transport| t@),
            out@ == mid + se_transport_seq(tsv.take(i as int)),
        decreases n - i,
    {
        let enc = encode_transport(&ts[i]);
        out.extend_from_slice(enc.as_slice());
        proof {
            lemma_se_transport_seq_snoc(tsv.take(i as int), tsv[i as int]);
            assert(tsv.take(i + 1) =~= tsv.take(i as int).push(tsv[i as int]));
            assert(out@ =~= mid + se_transport_seq(tsv.take(i + 1)));
        }
        i = i + 1;
    }
    proof {
        assert(tsv.take(n as int) =~= tsv);
        assert(out@ =~= se_transports(tsv));
    }
    out
}

// ---------------------------------------------------------------------
// Executable decoders, proved to parse exactly as the reference parsers.
// Each works at a cursor position inside the byte slice; the relation to
// the reference parser is stated on the bytes from that position on.
// ---------------------------------------------------------------------

/// Relies on String::from_utf8: it succeeds exactly on valid UTF-8 input
/// and returns the string those bytes spell.
#[verifier::external_body]
pub(crate) fn string_from_utf8(v: Vec<u8>) -> (r: Option<String>)
    ensures
        r is Some <==> valid_utf8(v@),
        r matches Some(s) ==> s@ == decode_utf8(v@),
{
    String::from_utf8(v).ok()
}

/// Holds of a list parse in progress: what the whole parse yields is the
/// already-parsed prefix joined with whatever the remaining parse yields.
pub open spec fn seq_parse_inv<T>(
    whole: Option<(Seq<T>, Seq<u8>)>,
    prefix: Seq<T>,
    rest_parse: Option<(Seq<T>, Seq<u8>)>,
) -> bool {
    match rest_parse {
        None => whole is None,
        Some(pair) => whole == Some((prefix + pair.0, pair.1)),
    }
}

pub(crate) fn de_u64(bytes: &[u8], pos: usize) -> (r: Option<(u64, usize)>)
    requires
        pos <= bytes@.len(),
    ensures
        match r {
            Some(p) => p.1 <= bytes@.len() && sp_u64(bytes@.skip(pos as int)) == Some(
                (p.0, bytes@.skip(p.1 as int)),
            ),
            None => sp_u64(bytes@.skip(pos as int)) is None,
        },
{
    if bytes.len() - pos >= 8 {
        let sub = slice_subrange(bytes, pos, pos + 8);
        let x = u64_from_le_bytes(sub);
        proof {
            assert(bytes@.skip(pos as int).take(8) =~= bytes@.subrange(pos as int, pos + 8));
            assert(bytes@.skip(pos as int).skip(8) =~= bytes@.skip(pos + 8));
        }
        Some((x, pos + 8))
    } else {
        None
    }
}

pub(crate) fn de_bytes(bytes: &[u8], pos: usize) -> (r: Option<(Vec<u8>, usize)>)
    requires
        pos <= bytes@.len(),
    ensures
        match r {
            Some(p) => p.1 <= bytes@.len() && sp_bytes(bytes@.skip(pos as int)) == Some(
                (p.0@, bytes@.skip(p.1 as int)),
            ),
            None => sp_bytes(bytes@.skip(pos as int)) is None,
        },
{
    match de_u64(bytes, pos) {
        None => None,
        Some((n, p1)) => {
            if n <= (bytes.len() - p1) as u64 {
                let nn = n as usize;
                let sub = slice_subrange(bytes, p1, p1 + nn);
                let v = slice_to_vec(sub);
                proof {
                    assert(bytes@.skip(p1 as int).take(n as int) =~= bytes@.subrange(
                        p1 as int,
                        p1 + nn,
                    ));
                    assert(bytes@.skip(p1 as int).skip(n as int) =~= bytes@.skip(p1 + nn));
                }
                Some((v, p1 + nn))
            } else {
                None
            }
        },
    }
}

pub(crate) fn de_string(bytes: &[u8], pos: usize) -> (r: Option<(String, usize)>)
    requires
        pos <= bytes@.len(),
    ensures
        match r {
            Some(p) => p.1 <= bytes@.len() && sp_string(bytes@.skip(pos as int)) == Some(
                (p.0@, bytes@.skip(p.1 as int)),
            ),
            None => sp_string(bytes@.skip(pos as int)) is None,
        },
{
    match de_bytes(bytes, pos) {
        None => None,
        Some((b, p1)) => match string_from_utf8(b) {
            None => None,
            Some(s) => Some((s, p1)),
        },
    }
}

fn de_opt_schema(bytes: &[u8], pos: usize) -> (r: Option<(Option<SchemaIdentifier>, usize)>)
    requires
        pos <= bytes@.len(),
    ensures
        match r {
            Some(p) => p.1 <= bytes@.len() && sp_opt_string(bytes@.skip(pos as int)) == Some(
                (opt_schema_view(&p.0), bytes@.skip(p.1 as int)),
            ),
            None => sp_opt_string(bytes@.skip(pos as int)) is None,
        },
{
    if pos >= bytes.len() {
        return None;
    }
    let tag = *slice_index_get(bytes, pos);
    proof {
        assert(bytes@.skip(pos as int)[0] == bytes@[pos as int]);
        assert(bytes@.skip(pos as int).skip(1) =~= bytes@.skip(pos + 1));
    }
    if tag == 0 {
        Some((None, pos + 1))
    } else if tag == 1 {
        match de_string(bytes, pos + 1) {
            None => None,
            Some((s, p1)) => Some((Some(SchemaIdentifier::new(s)), p1)),
        }
    } else {
        None
    }
}

fn de_info(bytes: &[u8], pos: usize) -> (r: Option<(ModuleInfo, usize)>)
    requires
        pos <= bytes@.len(),
    ensures
        match r {
            Some(p) => p.1 <= bytes@.len() && sp_info(bytes@.skip(pos as int)) == Some(
                (p.0@, bytes@.skip(p.1 as int)),
            ),
            None => sp_info(bytes@.skip(pos as int)) is None,
        },
{
    match de_string(bytes, pos) {
        None => None,
        Some((schema, p1)) => match de_string(bytes, p1) {
            None => None,
            Some((display_name, p2)) => Some(
                (ModuleInfo { schema: SchemaIdentifier { val: schema }, display_name }, p2),
            ),
        },
    }
}

fn de_data(bytes: &[u8], pos: usize) -> (r: Option<(Data, usize)>)
    requires
        pos <= bytes@.len(),
    ensures
        match r {
            Some(p) => p.1 <= bytes@.len() && sp_data(bytes@.skip(pos as int)) == Some(
                (p.0@, bytes@.skip(p.1 as int)),
            ),
            None => sp_data(bytes@.skip(pos as int)) is None,
        },
{
    match de_string(bytes, pos) {
        None => None,
        Some((schema, p1)) => match de_bytes(bytes, p1) {
            None => None,
            Some((serialized, p2)) => Some(
                (Data { schema: SchemaIdentifier { val: schema }, serialized }, p2),
            ),
        },
    }
}

fn de_rpc(bytes: &[u8], pos: usize) -> (r: Option<(RpcData, usize)>)
    requires
        pos <= bytes@.len(),
    ensures
        match r {
            Some(p) => p.1 <= bytes@.len() && sp_rpc(bytes@.skip(pos as int)) == Some(
                (p.0@, bytes@.skip(p.1 as int)),
            ),
            None => sp_rpc(bytes@.skip(pos as int)) is None,
        },
{
    match de_string(bytes, pos) {
        None => None,
        Some((method_name, p1)) => match de_string(bytes, p1) {
            None => None,
            Some((schema, p2)) => match de_bytes(bytes, p2) {
                None => None,
                Some((serialized, p3)) => Some(
                    (
                        RpcData {
                            method_name,
                            schema: SchemaIdentifier { val: schema },
                            serialized,
                        },
                        p3,
                    ),
                ),
            },
        },
    }
}

fn de_bytes_vec(bytes: &[u8], pos: usize, n: u64) -> (r: Option<(Vec<Vec<u8>>, usize)>)
    requires
        pos <= bytes@.len(),
    ensures
        match r {
            Some(p) => p.1 <= bytes@.len() && sp_bytes_seq(bytes@.skip(pos as int), n as nat)
                == Some((p.0@.map_values(|a: Vec<u8>| a@), bytes@.skip(p.1 as int))),
            None => sp_bytes_seq(bytes@.skip(pos as int), n as nat) is None,
        },
{
    let ghost whole = sp_bytes_seq(bytes@.skip(pos as int), n as nat);
    let mut v: Vec<Vec<u8>> = Vec::new();
    let mut p: usize = pos;
    let mut i: u64 = 0;
    while i < n
        invariant
            i <= n,
            p <= bytes@.len(),
            whole == sp_bytes_seq(bytes@.skip(pos as int), n as nat),
            seq_parse_inv(
                whole,
                v@.map_values(|a: Vec<u8>| a@),
                sp_bytes_seq(bytes@.skip(p as int), (n - i) as nat),
            ),
        decreases n - i,
    {
        let ghost prefix = v@.map_values(|a: Vec<u8>| a@);
        let ghost left = (n - i) as nat;
        match de_bytes(bytes, p) {
            None => {
                proof {
                    assert(sp_bytes_seq(bytes@.skip(p as int), left) is None);
                }
                return None;
            },
            Some((b, p2)) => {
                proof {
                    match sp_bytes_seq(bytes@.skip(p2 as int), (left - 1) as nat) {
                        None => {},
                        Some(pair) => {
                            assert(prefix + (seq![b@] + pair.0) =~= prefix.push(b@) + pair.0);
                        },
                    }
                }
                v.push(b);
                proof {
                    assert(v@.map_values(|a: Vec<u8>| a@) =~= prefix.push(v@[v@.len() - 1]@));
                }
                p = p2;
            },
        }
        i = i + 1;
    }
    proof {
        assert(sp_bytes_seq(bytes@.skip(p as int), 0) == Some(
            (Seq::<Seq<u8>>::empty(), bytes@.skip(p as int)),
        ));
        assert(v@.map_values(|a: Vec<u8>| a@) + Seq::<Seq<u8>>::empty() =~= v@.map_values(
            |a: Vec<u8>| a@,
        ));
    }
    Some((v, p))
}

fn de_info_vec(bytes: &[u8], pos: usize, n: u64) -> (r: Option<(Vec<ModuleInfo>, usize)>)
    requires
        pos <= bytes@.len(),
    ensures
        match r {
            Some(p) => p.1 <= bytes@.len() && sp_info_seq(bytes@.skip(pos as int), n as nat)
                == Some((p.0@.map_values(|m: ModuleInfo| m@), bytes@.skip(p.1 as int))),
            None => sp_info_seq(bytes@.skip(pos as int), n as nat) is None,
        },
{
    let ghost whole = sp_info_seq(bytes@.skip(pos as int), n as nat);
    let mut v: Vec<ModuleInfo> = Vec::new();
    let mut p: usize = pos;
    let mut i: u64 = 0;
    while i < n
        invariant
            i <= n,
            p <= bytes@.len(),
            whole == sp_info_seq(bytes@.skip(pos as int), n as nat),
            seq_parse_inv(
                whole,
                v@.map_values(|m: ModuleInfo| m@),
                sp_info_seq(bytes@.skip(p as int), (n - i) as nat),
            ),
        decreases n - i,
    {
        let ghost prefix = v@.map_values(|m: ModuleInfo| m@);
        let ghost left = (n - i) as nat;
        match de_info(bytes, p) {
            None => {
                proof {
                    assert(sp_info_seq(bytes@.skip(p as int), left) is None);
                }
                return None;
            },
            Some((m, p2)) => {
                proof {
                    match sp_info_seq(bytes@.skip(p2 as int), (left - 1) as nat) {
                        None => {},
                        Some(pair) => {
                            assert(prefix + (seq![m@] + pair.0) =~= prefix.push(m@) + pair.0);
                        },
                    }
                }
                v.push(m);
                proof {
                    assert(v@.map_values(|m2: ModuleInfo| m2@) =~= prefix.push(
                        v@[v@.len() - 1]@,
                    ));
                }
                p = p2;
            },
        }
        i = i + 1;
    }
    proof {
        assert(sp_info_seq(bytes@.skip(p as int), 0) == Some(
            (Seq::<ModuleInfoV>::empty(), bytes@.skip(p as int)),
        ));
        assert(v@.map_values(|m: ModuleInfo| m@) + Seq::<ModuleInfoV>::empty() =~= v@.map_values(
            |m: ModuleInfo| m@,
        ));
    }
    Some((v, p))
}

fn de_data_vec(bytes: &[u8], pos: usize, n: u64) -> (r: Option<(Vec<Data>, usize)>)
    requires
        pos <= bytes@.len(),
    ensures
        match r {
            Some(p) => p.1 <= bytes@.len() && sp_data_seq(bytes@.skip(pos as int), n as nat)
                == Some((p.0@.map_values(|d: Data| d@), bytes@.skip(p.1 as int))),
            None => sp_data_seq(bytes@.skip(pos as int), n as nat) is None,
        },
{
    let ghost whole = sp_data_seq(bytes@.skip(pos as int), n as nat);
    let mut v: Vec<Data> = Vec::new();
    let mut p: usize = pos;
    let mut i: u64 = 0;
    while i < n
        invariant
            i <= n,
            p <= bytes@.len(),
            whole == sp_data_seq(bytes@.skip(pos as int), n as nat),
            seq_parse_inv(
                whole,
                v@.map_values(|d: Data| d@),
                sp_data_seq(bytes@.skip(p as int), (n - i) as nat),
            ),
        decreases n - i,
    {
        let ghost prefix = v@.map_values(|d: Data| d@);
        let ghost left = (n - i) as nat;
        match de_data(bytes, p) {
            None => {
                proof {
                    assert(sp_data_seq(bytes@.skip(p as int), left) is None);
                }
                return None;
            },
            Some((d, p2)) => {
                proof {
                    match sp_data_seq(bytes@.skip(p2 as int), (left - 1) as nat) {
                        None => {},
                        Some(pair) => {
                            assert(prefix + (seq![d@] + pair.0) =~= prefix.push(d@) + pair.0);
                        },
                    }
                }
                v.push(d);
                proof {
                    assert(v@.map_values(|d2: Data| d2@) =~= prefix.push(v@[v@.len() - 1]@));
                }
                p = p2;
            },
        }
        i = i + 1;
    }
    proof {
        assert(sp_data_seq(bytes@.skip(p as int), 0) == Some(
            (Seq::<DataV>::empty(), bytes@.skip(p as int)),
        ));
        assert(v@.map_values(|d: Data| d@) + Seq::<DataV>::empty() =~= v@.map_values(
            |d: Data| d@,
        ));
    }
    Some((v, p))
}

fn de_rpc_vec(bytes: &[u8], pos: usize, n: u64) -> (r: Option<(Vec<RpcData>, usize)>)
    requires
        pos <= bytes@.len(),
    ensures
        match r {
            Some(p) => p.1 <= bytes@.len() && sp_rpc_seq(bytes@.skip(pos as int), n as nat)
                == Some((p.0@.map_values(|d: RpcData| d@), bytes@.skip(p.1 as int))),
            None => sp_rpc_seq(bytes@.skip(pos as int), n as nat) is None,
        },
{
    let ghost whole = sp_rpc_seq(bytes@.skip(pos as int), n as nat);
    let mut v: Vec<RpcData> = Vec::new();
    let mut p: usize = pos;
    let mut i: u64 = 0;
    while i < n
        invariant
            i <= n,
            p <= bytes@.len(),
            whole == sp_rpc_seq(bytes@.skip(pos as int), n as nat),
            seq_parse_inv(
                whole,
                v@.map_values(|d: RpcData| d@),
                sp_rpc_seq(bytes@.skip(p as int), (n - i) as nat),
            ),
        decreases n - i,
    {
        let ghost prefix = v@.map_values(|d: RpcData| d@);
        let ghost left = (n - i) as nat;
        match de_rpc(bytes, p) {
            None => {
                proof {
                    assert(sp_rpc_seq(bytes@.skip(p as int), left) is None);
                }
                return None;
            },
            Some((d, p2)) => {
                proof {
                    match sp_rpc_seq(bytes@.skip(p2 as int), (left - 1) as nat) {
                        None => {},
                        Some(pair) => {
                            assert(prefix + (seq![d@] + pair.0) =~= prefix.push(d@) + pair.0);
                        },
                    }
                }
                v.push(d);
                proof {
                    assert(v@.map_values(|d2: RpcData| d2@) =~= prefix.push(v@[v@.len() - 1]@));
                }
                p = p2;
            },
        }
        i = i + 1;
    }
    proof {
        assert(sp_rpc_seq(bytes@.skip(p as int), 0) == Some(
            (Seq::<RpcDataV>::empty(), bytes@.skip(p as int)),
        ));
        assert(v@.map_values(|d: RpcData| d@) + Seq::<RpcDataV>::empty() =~= v@.map_values(
            |d: RpcData| d@,
        ));
    }
    Some((v, p))
}

fn de_gmi(bytes: &[u8], pos: usize) -> (r: Option<(GenerateMessageInfo, usize)>)
    requires
        pos <= bytes@.len(),
    ensures
        match r {
            Some(p) => p.1 <= bytes@.len() && sp_gmi(bytes@.skip(pos as int)) == Some(
                (p.0@, bytes@.skip(p.1 as int)),
            ),
            None => sp_gmi(bytes@.skip(pos as int)) is None,
        },
{
    match de_string(bytes, pos) {
        None => None,
        Some((schema, p1)) => match de_string(bytes, p1) {
            None => None,
            Some((template, p2)) => match de_u64(bytes, p2) {
                None => None,
                Some((n, p3)) => match de_bytes_vec(bytes, p3, n) {
                    None => None,
                    Some((args, p4)) => Some(
                        (
                            GenerateMessageInfo {
                                schema: SchemaIdentifier { val: schema },
                                template,
                                args,
                            },
                            p4,
                        ),
                    ),
                },
            },
        },
    }
}

fn de_payload(bytes: &[u8], pos: usize) -> (r: Option<(Payload, usize)>)
    requires
        pos <= bytes@.len(),
    ensures
        match r {
            Some(p) => p.1 <= bytes@.len() && sp_payload(bytes@.skip(pos as int)) == Some(
                (p.0@, bytes@.skip(p.1 as int)),
            ),
            None => sp_payload(bytes@.skip(pos as int)) is None,
        },
{
    if pos >= bytes.len() {
        return None;
    }
    let tag = *slice_index_get(bytes, pos);
    let body = pos + 1;
    proof {
        assert(bytes@.skip(pos as int)[0] == bytes@[pos as int]);
        assert(bytes@.skip(pos as int).skip(1) =~= bytes@.skip(pos + 1));
    }
    if tag == 0 {
        match de_opt_schema(bytes, body) {
            None => None,
            Some((schema, p1)) => Some((Payload::destination(Destination { schema }), p1)),
        }
    } else if tag == 1 {
        match de_gmi(bytes, body) {
            None => None,
            Some((g, p1)) => Some((Payload::generatemessageinfo(g), p1)),
        }
    } else if tag == 2 {
        match de_data(bytes, body) {
            None => None,
            Some((d, p1)) => Some((Payload::data(d), p1)),
        }
    } else if tag == 3 {
        match de_rpc(bytes, body) {
            None => None,
            Some((r0, p1)) => Some((Payload::rpcdata(r0), p1)),
        }
    } else if tag == 4 {
        match de_string(bytes, body) {
            None => None,
            Some((e, p1)) => Some((Payload::error(TransportError { val: e }), p1)),
        }
    } else if tag == 5 {
        match de_u64(bytes, body) {
            None => None,
            Some((n, p1)) => match de_info_vec(bytes, p1, n) {
                None => None,
                Some((ms, p2)) => Some((Payload::vecmoduleinfo(VecModuleInfo { vec: ms }), p2)),
            },
        }
    } else if tag == 6 {
        match de_u64(bytes, body) {
            None => None,
            Some((n, p1)) => match de_data_vec(bytes, p1, n) {
                None => None,
                Some((ds, p2)) => Some((Payload::vecdata(VecData { vec: ds }), p2)),
            },
        }
    } else if tag == 7 {
        match de_u64(bytes, body) {
            None => None,
            Some((n, p1)) => match de_rpc_vec(bytes, p1, n) {
                None => None,
                Some((rs, p2)) => Some((Payload::vecrpcdata(VecRpcData { vec: rs }), p2)),
            },
        }
    } else {
        None
    }
}

fn byte_to_request_type(b: u8) -> (r: RequestType)
    ensures
        r == rt_from_byte(b),
{
    if b == 0 {
        RequestType::NONE
    } else if b == 1 {
        RequestType::GET_INFO
    } else if b == 2 {
        RequestType::GENERATE_MESSAGE
    } else if b == 3 {
        RequestType::HANDLE_TRUSTED
    } else if b == 4 {
        RequestType::RECEIVE_RPC_AS_CLIENT
    } else if b == 5 {
        RequestType::RECEIVE_RPC_AS_SERVER
    } else if b == 6 {
        RequestType::RECEIVE_PUBLIC_RPC
    } else {
        RequestType::UNKNOWN(b)
    }
}

fn agrees(rt: &RequestType, p: &Payload) -> (r: bool)
    ensures
        r == spec_agrees(*rt, p@),
{
    match rt {
        RequestType::GET_INFO => matches!(p, Payload::destination(_)),
        RequestType::GENERATE_MESSAGE => matches!(p, Payload::generatemessageinfo(_)),
        RequestType::HANDLE_TRUSTED => matches!(p, Payload::data(_)),
        RequestType::RECEIVE_RPC_AS_CLIENT => matches!(p, Payload::rpcdata(_)),
        RequestType::RECEIVE_RPC_AS_SERVER => matches!(p, Payload::rpcdata(_)),
        RequestType::RECEIVE_PUBLIC_RPC => matches!(p, Payload::rpcdata(_)),
        RequestType::NONE => true,
        RequestType::UNKNOWN(_) => true,
    }
}

fn de_transport(bytes: &[u8], pos: usize) -> (r: Option<(Transport, usize)>)
    requires
        pos <= bytes@.len(),
    ensures
        match r {
            Some(p) => p.1 <= bytes@.len() && sp_transport(bytes@.skip(pos as int)) == Some(
                (p.0@, bytes@.skip(p.1 as int)),
            ),
            None => sp_transport(bytes@.skip(pos as int)) is None,
        },
{
    if pos >= bytes.len() {
        return None;
    }
    let b = *slice_index_get(bytes, pos);
    let request_type = byte_to_request_type(b);
    proof {
        assert(bytes@.skip(pos as int)[0] == bytes@[pos as int]);
        assert(bytes@.skip(pos as int).skip(1) =~= bytes@.skip(pos + 1));
    }
    match de_opt_schema(bytes, pos + 1) {
        None => None,
        Some((destination, p1)) => match de_payload(bytes, p1) {
            None => None,
            Some((payload, p2)) => {
                if agrees(&request_type, &payload) {
                    Some((Transport { request_type, destination, payload }, p2))
                } else {
                    None
                }
            },
        },
    }
}

/// Deserializes one envelope from the wire format. The whole input must be
/// exactly one envelope; malformed bytes, an unknown payload tag, or a
/// request kind that does not agree with the payload variant are a decode
/// failure.
pub fn decode_transport(bytes: &[u8]) -> (r: Result<Transport, TransportError>)
    ensures
        match r {
            Ok(t) => sp_transport(bytes@) matches Some(pair) && pair.0 == t@ && pair.1.len()
                == 0,
            Err(_) => !(sp_transport(bytes@) matches Some(pair) && pair.1.len() == 0),
        },
{
    proof {
        assert(bytes@.skip(0) =~= bytes@);
    }
    match de_transport(bytes, 0) {
        Some((t, p)) => {
            if p == bytes.len() {
                proof {
                    assert(bytes@.skip(p as int).len() == 0);
                }
                Ok(t)
            } else {
                proof {
                    assert(bytes@.skip(p as int).len() != 0);
                }
                Err(TransportError { val: String::from_str("trailing bytes after the envelope") })
            }
        },
        None => Err(
            TransportError { val: String::from_str("cannot parse the envelope bytes") },
        ),
    }
}

/// Deserializes a collection of result envelopes, as returned across the
/// foreign boundary.
pub fn decode_transports(bytes: &[u8]) -> (r: Result<Vec<Transport>, TransportError>)
    ensures
        match r {
            Ok(ts) => sp_transports(bytes@) matches Some(pair) && pair.0 == ts@.map_values(
                |t: Transport| t@,
            ) && pair.1.len() == 0,
            Err(_) => !(sp_transports(bytes@) matches Some(pair) && pair.1.len() == 0),
        },
{
    proof {
        assert(bytes@.skip(0) =~= bytes@);
    }
    let r = match de_u64(bytes, 0) {
        None => None,
        Some((n, p1)) => de_transport_vec(bytes, p1, n),
    };
    match r {
        Some((ts, p)) => {
            if p == bytes.len() {
                proof {
                    assert(bytes@.skip(p as int).len() == 0);
                }
                Ok(ts)
            } else {
                proof {
                    assert(bytes@.skip(p as int).len() != 0);
                }
                Err(TransportError { val: String::from_str("trailing bytes after the results") })
            }
        },
        None => Err(
            TransportError { val: String::from_str("cannot parse the result bytes") },
        ),
    }
}

fn de_transport_vec(bytes: &[u8], pos: usize, n: u64) -> (r: Option<(Vec<Transport>, usize)>)
    requires
        pos <= bytes@.len(),
    ensures
        match r {
            Some(p) => p.1 <= bytes@.len() && sp_transport_seq(bytes@.skip(pos as int), n as nat)
                == Some((p.0@.map_values(|t: Transport| t@), bytes@.skip(p.1 as int))),
            None => sp_transport_seq(bytes@.skip(pos as int), n as nat) is None,
        },
{
    let ghost whole = sp_transport_seq(bytes@.skip(pos as int), n as nat);
    let mut v: Vec<Transport> = Vec::new();
    let mut p: usize = pos;
    let mut i: u64 = 0;
    while i < n
        invariant
            i <= n,
            p <= bytes@.len(),
            whole == sp_transport_seq(bytes@.skip(pos as int), n as nat),
            seq_parse_inv(
                whole,
                v@.map_values(|t: Transport| t@),
                sp_transport_seq(bytes@.skip(p as int), (n - i) as nat),
            ),
        decreases n - i,
    {
        let ghost prefix = v@.map_values(|t: Transport| t@);
        let ghost left = (n - i) as nat;
        match de_transport(bytes, p) {
            None => {
                proof {
                    assert(sp_transport_seq(bytes@.skip(p as int), left) is None);
                }
                return None;
            },
            Some((t, p2)) => {
                proof {
                    match sp_transport_seq(bytes@.skip(p2 as int), (left - 1) as nat) {
                        None => {},
                        Some(pair) => {
                            assert(prefix + (seq![t@] + pair.0) =~= prefix.push(t@) + pair.0);
                        },
                    }
                }
                v.push(t);
                proof {
                    assert(v@.map_values(|t2: Transport| t2@) =~= prefix.push(v@[v@.len() - 1]@));
                }
                p = p2;
            },
        }
        i = i + 1;
    }
    proof {
        assert(sp_transport_seq(bytes@.skip(p as int), 0) == Some(
            (Seq::<TransportV>::empty(), bytes@.skip(p as int)),
        ));
        assert(v@.map_values(|t: Transport| t@) + Seq::<TransportV>::empty() =~= v@.map_values(
            |t: Transport| t@,
        ));
    }
    Some((v, p))
}

} // verus!
