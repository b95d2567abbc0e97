//! Building result envelopes, and the combiner that merges the
//! heterogeneous per-module results of one dispatch into a single typed
//! aggregate. Error results never reach an aggregate: they are split off
//! and handed back as the dispatch's log.

#![allow(non_snake_case)]

use vstd::prelude::*;
use vstd::string::*;
use crate::transport::{Data, DataV, ModuleInfo, ModuleInfoV, RpcData, RpcDataV, TransportError, VecModuleInfo, VecData, VecRpcData, Payload, PayloadV, Transport, TransportV};
use crate::transport_glue::{TransportRequest, spec_result_transport, spec_error_transport};

verus! {

broadcast use vstd::prelude::Seq::lemma_push_map_commute, vstd::prelude::Seq::lemma_map_take_succ;

/// Builders for result envelopes.
pub struct TransportResponse;

impl TransportResponse {
    /// Wraps a result payload into a result envelope.
    pub fn create(data: Payload) -> (r: Transport)
        ensures
            r@ == spec_result_transport(data@),
    {
        TransportRequest::create_Transport_result(data)
    }

    /// Wraps an error text into a result envelope, so that a failure
    /// travels as data instead of crossing any boundary as an unwind.
    pub fn create_TransportError(e: &str) -> (r: Transport)
        ensures
            r@ == spec_error_transport(e@),
    {
        TransportRequest::create_Transport_result(
            Payload::error(TransportError::new(<String as StringExecFns>::from_str(e))),
        )
    }
}

/// The payloads of the results that are not error results, in order.
pub open spec fn spec_kept(ts: Seq<TransportV>) -> Seq<PayloadV>
    decreases ts.len(),
{
    if ts.len() == 0 {
        Seq::empty()
    } else {
        let rest = spec_kept(ts.drop_first());
        match ts[0].payload {
            PayloadV::error(_) => rest,
            p => seq![p] + rest,
        }
    }
}

/// The texts of the error results, in order: what the combiner logs and
/// discards.
pub open spec fn spec_error_texts(ts: Seq<TransportV>) -> Seq<Seq<char>>
    decreases ts.len(),
{
    if ts.len() == 0 {
        Seq::empty()
    } else {
        let rest = spec_error_texts(ts.drop_first());
        match ts[0].payload {
            PayloadV::error(e) => seq![e] + rest,
            _ => rest,
        }
    }
}

/// The concatenation of the module-description aggregates among the kept
/// payloads.
pub open spec fn spec_infos_of(ps: Seq<PayloadV>) -> Seq<ModuleInfoV>
    decreases ps.len(),
{
    if ps.len() == 0 {
        Seq::empty()
    } else {
        let rest = spec_infos_of(ps.drop_first());
        match ps[0] {
            PayloadV::vecmoduleinfo(ms) => ms + rest,
            _ => rest,
        }
    }
}

/// The concatenation of the message aggregates among the kept payloads.
pub open spec fn spec_vecdatas_of(ps: Seq<PayloadV>) -> Seq<DataV>
    decreases ps.len(),
{
    if ps.len() == 0 {
        Seq::empty()
    } else {
        let rest = spec_vecdatas_of(ps.drop_first());
        match ps[0] {
            PayloadV::vecdata(ds) => ds + rest,
            _ => rest,
        }
    }
}

/// The concatenation of the remote-call aggregates among the kept
/// payloads.
pub open spec fn spec_rpcs_of(ps: Seq<PayloadV>) -> Seq<RpcDataV>
    decreases ps.len(),
{
    if ps.len() == 0 {
        Seq::empty()
    } else {
        let rest = spec_rpcs_of(ps.drop_first());
        match ps[0] {
            PayloadV::vecrpcdata(rs) => rs + rest,
            _ => rest,
        }
    }
}

/// The single-message answers among the kept payloads, for the
/// single-value target of `generate_message`.
pub open spec fn spec_datas_of(ps: Seq<PayloadV>) -> Seq<DataV>
    decreases ps.len(),
{
    if ps.len() == 0 {
        Seq::empty()
    } else {
        let rest = spec_datas_of(ps.drop_first());
        match ps[0] {
            PayloadV::data(d) => seq![d] + rest,
            _ => rest,
        }
    }
}

/// The views of a list of collected error texts.
pub open spec fn view_errors(es: Seq<TransportError>) -> Seq<Seq<char>> {
    es.map_values(|e: TransportError| e@)
}

/// Splits raw per-module results into the payloads worth keeping and the
/// error texts to log: every error result is absent from the first part
/// and present, in order, in the second.
pub fn filter_some_and_print_errors(ret: Vec<Transport>) -> (r: (Vec<Payload>, Vec<TransportError>))
    ensures
        r.0@.map_values(|p: Payload| p@) == spec_kept(ret@.map_values(|t: Transport| t@)),
        view_errors(r.1@) == spec_error_texts(ret@.map_values(|t: Transport| t@)),
{
    let ghost tsv = ret@.map_values(|t: Transport| t@);
    let mut kept: Vec<Payload> = Vec::new();
    let mut errors: Vec<TransportError> = Vec::new();
    let n = ret.len();
    let mut i: usize = 0;
    proof {
        assert(tsv.skip(0) =~= tsv);
        assert(kept@.map_values(|p: Payload| p@) + spec_kept(tsv) =~= spec_kept(tsv));
        assert(view_errors(errors@) + spec_error_texts(tsv) =~= spec_error_texts(tsv));
    }
    while i < n
        invariant
            i <= n,
            n == ret.len(),
            tsv == ret@.map_values(|t: Transport| t@),
            kept@.map_values(|p: Payload| p@) + spec_kept(tsv.skip(i as int)) == spec_kept(tsv),
            view_errors(errors@) + spec_error_texts(tsv.skip(i as int)) == spec_error_texts(tsv),
        decreases n - i,
    {
        let ghost pre_k = kept@.map_values(|p: Payload| p@);
        let ghost pre_e = view_errors(errors@);
        let ghost rest = tsv.skip(i as int);
        proof {
            assert(rest[0] == tsv[i as int]);
            assert(rest.drop_first() =~= tsv.skip(i + 1));
        }
        let t = &ret[i];
        match &t.payload {
            Payload::error(e) => {
                errors.push(TransportError { val: e.val.clone() });
                proof {
                    assert(view_errors(errors@) =~= pre_e.push(tsv[i as int].payload->error_0));
                    assert(pre_e + (seq![tsv[i as int].payload->error_0] + spec_error_texts(
                        tsv.skip(i + 1),
                    )) =~= pre_e.push(tsv[i as int].payload->error_0) + spec_error_texts(
                        tsv.skip(i + 1),
                    ));
                }
            },
            other => {
                kept.push(clone_payload(other));
                proof {
                    assert(kept@.map_values(|p: Payload| p@) =~= pre_k.push(
                        tsv[i as int].payload,
                    ));
                    assert(pre_k + (seq![tsv[i as int].payload] + spec_kept(tsv.skip(i + 1)))
                        =~= pre_k.push(tsv[i as int].payload) + spec_kept(tsv.skip(i + 1)));
                }
            },
        }
        i = i + 1;
    }
    proof {
        assert(tsv.skip(n as int) =~= Seq::<TransportV>::empty());
        assert(kept@.map_values(|p: Payload| p@) + Seq::<PayloadV>::empty() =~= kept@.map_values(
            |p: Payload| p@,
        ));
        assert(view_errors(errors@) + Seq::<Seq<char>>::empty() =~= view_errors(errors@));
    }
    (kept, errors)
}

fn clone_schema(s: &crate::schema::SchemaIdentifier) -> (r: crate::schema::SchemaIdentifier)
    ensures
        r@ == s@,
{
    crate::schema::SchemaIdentifier { val: s.val.clone() }
}

fn clone_data(d: &Data) -> (r: Data)
    ensures
        r@ == d@,
{
    Data { schema: clone_schema(&d.schema), serialized: d.serialized.clone() }
}

fn clone_info(m: &ModuleInfo) -> (r: ModuleInfo)
    ensures
        r@ == m@,
{
    ModuleInfo { schema: clone_schema(&m.schema), display_name: m.display_name.clone() }
}

fn clone_rpc(d: &RpcData) -> (r: RpcData)
    ensures
        r@ == d@,
{
    RpcData {
        method_name: d.method_name.clone(),
        schema: clone_schema(&d.schema),
        serialized: d.serialized.clone(),
    }
}

fn clone_data_vec(ds: &Vec<Data>) -> (r: Vec<Data>)
    ensures
        r@.map_values(|d: Data| d@) == ds@.map_values(|d: Data| d@),
{
    let mut out: Vec<Data> = Vec::new();
    let n = ds.len();
    let mut i: usize = 0;
    while i < n
        invariant
            i <= n,
            n == ds.len(),
            out@.map_values(|d: Data| d@) == ds@.map_values(|d: Data| d@).take(i as int),
        decreases n - i,
    {
        out.push(clone_data(&ds[i]));
        proof {
            assert(out@.map_values(|d: Data| d@) =~= ds@.map_values(|d: Data| d@).take(i + 1));
        }
        i = i + 1;
    }
    proof {
        assert(ds@.map_values(|d: Data| d@).take(n as int) =~= ds@.map_values(|d: Data| d@));
    }
    out
}

fn clone_info_vec(ms: &Vec<ModuleInfo>) -> (r: Vec<ModuleInfo>)
    ensures
        r@.map_values(|m: ModuleInfo| m@) == ms@.map_values(|m: ModuleInfo| m@),
{
    let mut out: Vec<ModuleInfo> = Vec::new();
    let n = ms.len();
    let mut i: usize = 0;
    while i < n
        invariant
            i <= n,
            n == ms.len(),
            out@.map_values(|m: ModuleInfo| m@) == ms@.map_values(|m: ModuleInfo| m@).take(
                i as int,
            ),
        decreases n - i,
    {
        out.push(clone_info(&ms[i]));
        proof {
            assert(out@.map_values(|m: ModuleInfo| m@) =~= ms@.map_values(
                |m: ModuleInfo| m@,
            ).take(i + 1));
        }
        i = i + 1;
    }
    proof {
        assert(ms@.map_values(|m: ModuleInfo| m@).take(n as int) =~= ms@.map_values(
            |m: ModuleInfo| m@,
        ));
    }
    out
}

fn clone_rpc_vec(rs: &Vec<RpcData>) -> (r: Vec<RpcData>)
    ensures
        r@.map_values(|d: RpcData| d@) == rs@.map_values(|d: RpcData| d@),
{
    let mut out: Vec<RpcData> = Vec::new();
    let n = rs.len();
    let mut i: usize = 0;
    while i < n
        invariant
            i <= n,
            n == rs.len(),
            out@.map_values(|d: RpcData| d@) == rs@.map_values(|d: RpcData| d@).take(i as int),
        decreases n - i,
    {
        out.push(clone_rpc(&rs[i]));
        proof {
            assert(out@.map_values(|d: RpcData| d@) =~= rs@.map_values(|d: RpcData| d@).take(
                i + 1,
            ));
        }
        i = i + 1;
    }
    proof {
        assert(rs@.map_values(|d: RpcData| d@).take(n as int) =~= rs@.map_values(
            |d: RpcData| d@,
        ));
    }
    out
}

fn clone_bytes_vec(bs: &Vec<Vec<u8>>) -> (r: Vec<Vec<u8>>)
    ensures
        r@.map_values(|b: Vec<u8>| b@) == bs@.map_values(|b: Vec<u8>| b@),
{
    let mut out: Vec<Vec<u8>> = Vec::new();
    let n = bs.len();
    let mut i: usize = 0;
    while i < n
        invariant
            i <= n,
            n == bs.len(),
            out@.map_values(|b: Vec<u8>| b@) == bs@.map_values(|b: Vec<u8>| b@).take(i as int),
        decreases n - i,
    {
        out.push(bs[i].clone());
        proof {
            assert(out@.map_values(|b: Vec<u8>| b@) =~= bs@.map_values(|b: Vec<u8>| b@).take(
                i + 1,
            ));
        }
        i = i + 1;
    }
    proof {
        assert(bs@.map_values(|b: Vec<u8>| b@).take(n as int) =~= bs@.map_values(
            |b: Vec<u8>| b@,
        ));
    }
    out
}

/// A copy of a payload, equal to it in view.
fn clone_payload(p: &Payload) -> (r: Payload)
    ensures
        r@ == p@,
{
    match p {
        Payload::destination(d) => Payload::destination(
            crate::transport::Destination {
                schema: match &d.schema {
                    Some(s) => Some(clone_schema(s)),
                    None => None,
                },
            },
        ),
        Payload::generatemessageinfo(g) => {
            let c = crate::transport::GenerateMessageInfo {
                schema: clone_schema(&g.schema),
                template: g.template.clone(),
                args: clone_bytes_vec(&g.args),
            };
            proof {
                assert(c@.args =~= g@.args);
            }
            Payload::generatemessageinfo(c)
        },
        Payload::data(d) => Payload::data(clone_data(d)),
        Payload::rpcdata(r0) => Payload::rpcdata(clone_rpc(r0)),
        Payload::error(e) => Payload::error(TransportError { val: e.val.clone() }),
        Payload::vecmoduleinfo(ms) => {
            let c = VecModuleInfo { vec: clone_info_vec(&ms.vec) };
            proof {
                assert(c@ =~= ms@);
            }
            Payload::vecmoduleinfo(c)
        },
        Payload::vecdata(ds) => {
            let c = VecData { vec: clone_data_vec(&ds.vec) };
            proof {
                assert(c@ =~= ds@);
            }
            Payload::vecdata(c)
        },
        Payload::vecrpcdata(rs) => {
            let c = VecRpcData { vec: clone_rpc_vec(&rs.vec) };
            proof {
                assert(c@ =~= rs@);
            }
            Payload::vecrpcdata(c)
        },
    }
}

/// Merges per-module results into one typed aggregate. Every error result
/// is logged (the second half of each return) and left out of the
/// aggregate; one misbehaving module never fails the whole dispatch.
pub struct TransportCombiner;

impl TransportCombiner {
    /// Merges every module-description aggregate among the results, in
    /// order. An empty outcome is valid.
    pub fn combine_to_VecModuleInfo(transports: Vec<Transport>) -> (r: (
        VecModuleInfo,
        Vec<TransportError>,
    ))
        ensures
            r.0@ == spec_infos_of(spec_kept(transports@.map_values(|t: Transport| t@))),
            view_errors(r.1@) == spec_error_texts(transports@.map_values(|t: Transport| t@)),
    {
        let ghost tsv = transports@.map_values(|t: Transport| t@);
        let (kept, errors) = filter_some_and_print_errors(transports);
        let ghost psv = spec_kept(tsv);
        let mut out: Vec<ModuleInfo> = Vec::new();
        let n = kept.len();
        let mut i: usize = 0;
        proof {
            assert(psv.skip(0) =~= psv);
            assert(out@.map_values(|m: ModuleInfo| m@) + spec_infos_of(psv) =~= spec_infos_of(
                psv,
            ));
        }
        while i < n
            invariant
                i <= n,
                n == kept.len(),
                psv == kept@.map_values(|p: Payload| p@),
                out@.map_values(|m: ModuleInfo| m@) + spec_infos_of(psv.skip(i as int))
                    == spec_infos_of(psv),
            decreases n - i,
        {
            let ghost pre = out@.map_values(|m: ModuleInfo| m@);
            let ghost rest = psv.skip(i as int);
            proof {
                assert(rest[0] == psv[i as int]);
                assert(rest.drop_first() =~= psv.skip(i + 1));
            }
            match &kept[i] {
                Payload::vecmoduleinfo(ms) => {
                    let mut add = clone_info_vec(&ms.vec);
                    let ghost addv = add@.map_values(|m: ModuleInfo| m@);
                    out.append(&mut add);
                    proof {
                        assert(out@.map_values(|m: ModuleInfo| m@) =~= pre + addv);
                        assert((pre + addv) + spec_infos_of(psv.skip(i + 1)) =~= pre + (addv
                            + spec_infos_of(psv.skip(i + 1))));
                    }
                },
                _ => {},
            }
            i = i + 1;
        }
        proof {
            assert(psv.skip(n as int) =~= Seq::<PayloadV>::empty());
            assert(out@.map_values(|m: ModuleInfo| m@) + Seq::<ModuleInfoV>::empty()
                =~= out@.map_values(|m: ModuleInfo| m@));
        }
        (VecModuleInfo { vec: out }, errors)
    }

    /// Merges every message aggregate among the results, in order.
    pub fn combine_to_VecData(transports: Vec<Transport>) -> (r: (VecData, Vec<TransportError>))
        ensures
            r.0@ == spec_vecdatas_of(spec_kept(transports@.map_values(|t: Transport| t@))),
            view_errors(r.1@) == spec_error_texts(transports@.map_values(|t: Transport| t@)),
    {
        let ghost tsv = transports@.map_values(|t: Transport| t@);
        let (kept, errors) = filter_some_and_print_errors(transports);
        let ghost psv = spec_kept(tsv);
        let mut out: Vec<Data> = Vec::new();
        let n = kept.len();
        let mut i: usize = 0;
        proof {
            assert(psv.skip(0) =~= psv);
            assert(out@.map_values(|d: Data| d@) + spec_vecdatas_of(psv) =~= spec_vecdatas_of(
                psv,
            ));
        }
        while i < n
            invariant
                i <= n,
                n == kept.len(),
                psv == kept@.map_values(|p: Payload| p@),
                out@.map_values(|d: Data| d@) + spec_vecdatas_of(psv.skip(i as int))
                    == spec_vecdatas_of(psv),
            decreases n - i,
        {
            let ghost pre = out@.map_values(|d: Data| d@);
            let ghost rest = psv.skip(i as int);
            proof {
                assert(rest[0] == psv[i as int]);
                assert(rest.drop_first() =~= psv.skip(i + 1));
            }
            match &kept[i] {
                Payload::vecdata(ds) => {
                    let mut add = clone_data_vec(&ds.vec);
                    let ghost addv = add@.map_values(|d: Data| d@);
                    out.append(&mut add);
                    proof {
                        assert(out@.map_values(|d: Data| d@) =~= pre + addv);
                        assert((pre + addv) + spec_vecdatas_of(psv.skip(i + 1)) =~= pre + (addv
                            + spec_vecdatas_of(psv.skip(i + 1))));
                    }
                },
                _ => {},
            }
            i = i + 1;
        }
        proof {
            assert(psv.skip(n as int) =~= Seq::<PayloadV>::empty());
            assert(out@.map_values(|d: Data| d@) + Seq::<DataV>::empty() =~= out@.map_values(
                |d: Data| d@,
            ));
        }
        (VecData { vec: out }, errors)
    }

    /// Merges every remote-call aggregate among the results, in order.
    pub fn combine_to_VecRpcData(transports: Vec<Transport>) -> (r: (
        VecRpcData,
        Vec<TransportError>,
    ))
        ensures
            r.0@ == spec_rpcs_of(spec_kept(transports@.map_values(|t: Transport| t@))),
            view_errors(r.1@) == spec_error_texts(transports@.map_values(|t: Transport| t@)),
    {
        let ghost tsv = transports@.map_values(|t: Transport| t@);
        let (kept, errors) = filter_some_and_print_errors(transports);
        let ghost psv = spec_kept(tsv);
        let mut out: Vec<RpcData> = Vec::new();
        let n = kept.len();
        let mut i: usize = 0;
        proof {
            assert(psv.skip(0) =~= psv);
            assert(out@.map_values(|d: RpcData| d@) + spec_rpcs_of(psv) =~= spec_rpcs_of(psv));
        }
        while i < n
            invariant
                i <= n,
                n == kept.len(),
                psv == kept@.map_values(|p: Payload| p@),
                out@.map_values(|d: RpcData| d@) + spec_rpcs_of(psv.skip(i as int))
                    == spec_rpcs_of(psv),
            decreases n - i,
        {
            let ghost pre = out@.map_values(|d: RpcData| d@);
            let ghost rest = psv.skip(i as int);
            proof {
                assert(rest[0] == psv[i as int]);
                assert(rest.drop_first() =~= psv.skip(i + 1));
            }
            match &kept[i] {
                Payload::vecrpcdata(rs) => {
                    let mut add = clone_rpc_vec(&rs.vec);
                    let ghost addv = add@.map_values(|d: RpcData| d@);
                    out.append(&mut add);
                    proof {
                        assert(out@.map_values(|d: RpcData| d@) =~= pre + addv);
                        assert((pre + addv) + spec_rpcs_of(psv.skip(i + 1)) =~= pre + (addv
                            + spec_rpcs_of(psv.skip(i + 1))));
                    }
                },
                _ => {},
            }
            i = i + 1;
        }
        proof {
            assert(psv.skip(n as int) =~= Seq::<PayloadV>::empty());
            assert(out@.map_values(|d: RpcData| d@) + Seq::<RpcDataV>::empty()
                =~= out@.map_values(|d: RpcData| d@));
        }
        (VecRpcData { vec: out }, errors)
    }

    /// Picks the single-message answer. No answer at all is a hard error;
    /// more than one answer keeps the first and adds a warning to the log,
    /// because concurrent modules are expected to be mutually exclusive
    /// for generation requests.
    pub fn combine_to_Data(transports: Vec<Transport>) -> (r: (
        Result<Data, TransportError>,
        Vec<TransportError>,
    ))
        ensures
            ({
                let ds = spec_datas_of(spec_kept(transports@.map_values(|t: Transport| t@)));
                let es = spec_error_texts(transports@.map_values(|t: Transport| t@));
                &&& (ds.len() == 0 <==> r.0 is Err)
                &&& (ds.len() == 0 ==> (r.0 matches Err(e) && e@
                    == "no response for request for target Data"@))
                &&& (ds.len() > 0 ==> (r.0 matches Ok(d) && d@ == ds[0]))
                &&& (ds.len() <= 1 ==> view_errors(r.1@) == es)
                &&& (ds.len() > 1 ==> view_errors(r.1@) == es.push(
                    "multiple responses, expecting only one; keeping the first"@,
                ))
            }),
    {
        let ghost tsv = transports@.map_values(|t: Transport| t@);
        let (kept, mut errors) = filter_some_and_print_errors(transports);
        let ghost psv = spec_kept(tsv);
        let mut out: Vec<Data> = Vec::new();
        let n = kept.len();
        let mut i: usize = 0;
        proof {
            assert(psv.skip(0) =~= psv);
            assert(out@.map_values(|d: Data| d@) + spec_datas_of(psv) =~= spec_datas_of(psv));
        }
        while i < n
            invariant
                i <= n,
                n == kept.len(),
                psv == kept@.map_values(|p: Payload| p@),
                out@.map_values(|d: Data| d@) + spec_datas_of(psv.skip(i as int))
                    == spec_datas_of(psv),
            decreases n - i,
        {
            let ghost pre = out@.map_values(|d: Data| d@);
            let ghost rest = psv.skip(i as int);
            proof {
                assert(rest[0] == psv[i as int]);
                assert(rest.drop_first() =~= psv.skip(i + 1));
            }
            match &kept[i] {
                Payload::data(d) => {
                    out.push(clone_data(d));
                    proof {
                        assert(out@.map_values(|d2: Data| d2@) =~= pre.push(
                            psv[i as int]->data_0,
                        ));
                        assert(pre + (seq![psv[i as int]->data_0] + spec_datas_of(
                            psv.skip(i + 1),
                        )) =~= pre.push(psv[i as int]->data_0) + spec_datas_of(psv.skip(i + 1)));
                    }
                },
                _ => {},
            }
            i = i + 1;
        }
        proof {
            assert(psv.skip(n as int) =~= Seq::<PayloadV>::empty());
            assert(out@.map_values(|d: Data| d@) + Seq::<DataV>::empty() =~= out@.map_values(
                |d: Data| d@,
            ));
        }
        if out.len() == 0 {
            (
                Err(
                    TransportError::new(
                        <String as StringExecFns>::from_str(
                            "no response for request for target Data",
                        ),
                    ),
                ),
                errors,
            )
        } else {
            if out.len() > 1 {
                errors.push(
                    TransportError::new(
                        <String as StringExecFns>::from_str(
                            "multiple responses, expecting only one; keeping the first",
                        ),
                    ),
                );
                proof {
                    assert(view_errors(errors@) =~= spec_error_texts(tsv).push(
                        "multiple responses, expecting only one; keeping the first"@,
                    ));
                }
            }
            let mut out = out;
            let first = out.remove(0);
            (Ok(first), errors)
        }
    }
}

// ---------------------------------------------------------------------
// Error isolation, as a law.
// ---------------------------------------------------------------------

/// Results without any error result are kept whole, and nothing is
/// logged.
pub proof fn lemma_kept_error_free(ts: Seq<TransportV>)
    requires
        forall|j: int| 0 <= j < ts.len() ==> !((#[trigger] ts[j]).payload is error),
    ensures
        spec_kept(ts) == ts.map_values(|t: TransportV| t.payload),
        spec_error_texts(ts) == Seq::<Seq<char>>::empty(),
    decreases ts.len(),
{
    if ts.len() == 0 {
        assert(spec_kept(ts) =~= ts.map_values(|t: TransportV| t.payload));
    } else {
        assert forall|j: int|
            0 <= j < ts.drop_first().len() implies !((#[trigger] ts.drop_first()[j]).payload
            is error) by {
            assert(ts.drop_first()[j] == ts[j + 1]);
        }
        lemma_kept_error_free(ts.drop_first());
        assert(spec_kept(ts) =~= seq![ts[0].payload] + ts.drop_first().map_values(
            |t: TransportV| t.payload,
        ));
        assert(spec_kept(ts) =~= ts.map_values(|t: TransportV| t.payload));
    }
}

/// Error isolation: when exactly one of the results is an error result,
/// what is kept is exactly the other results' payloads, in order, and
/// the log is exactly that one error.
pub proof fn lemma_error_isolation(ts: Seq<TransportV>, k: int)
    requires
        0 <= k < ts.len(),
        ts[k].payload is error,
        forall|j: int| 0 <= j < ts.len() && j != k ==> !((#[trigger] ts[j]).payload is error),
    ensures
        spec_kept(ts) == ts.remove(k).map_values(|t: TransportV| t.payload),
        spec_error_texts(ts) == seq![ts[k].payload->error_0],
    decreases ts.len(),
{
    if k == 0 {
        assert forall|j: int|
            0 <= j < ts.drop_first().len() implies !((#[trigger] ts.drop_first()[j]).payload
            is error) by {
            assert(ts.drop_first()[j] == ts[j + 1]);
        }
        lemma_kept_error_free(ts.drop_first());
        assert(ts.remove(0) =~= ts.drop_first());
        assert(spec_error_texts(ts) =~= seq![ts[0].payload->error_0]);
    } else {
        assert(ts.drop_first()[k - 1] == ts[k]);
        assert forall|j: int|
            0 <= j < ts.drop_first().len() && j != k - 1 implies !((
        #[trigger] ts.drop_first()[j]).payload is error) by {
            assert(ts.drop_first()[j] == ts[j + 1]);
        }
        lemma_error_isolation(ts.drop_first(), k - 1);
        assert(ts.remove(k)[0] == ts[0]);
        assert(ts.remove(k).drop_first() =~= ts.drop_first().remove(k - 1));
        assert(spec_kept(ts) =~= seq![ts[0].payload] + ts.drop_first().remove(k - 1).map_values(
            |t: TransportV| t.payload,
        ));
        assert(spec_kept(ts) =~= ts.remove(k).map_values(|t: TransportV| t.payload));
        assert(spec_error_texts(ts) =~= seq![ts[k].payload->error_0]);
    }
}

} // verus!
