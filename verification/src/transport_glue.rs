//! Glue between envelopes and the module operation set: building a request
//! envelope for each operation, and unwrapping an incoming envelope into
//! the one operation call its request kind selects. This is the only place
//! where operation dispatch by request kind occurs.

#![allow(non_snake_case)]

use vstd::prelude::*;
use vstd::string::*;
use crate::schema::SchemaIdentifier;
use crate::transport::{RequestType, Destination, GenerateMessageInfo, Data, RpcData, TransportError, VecModuleInfo, VecData, VecRpcData, Payload, PayloadV, Transport, TransportV};
use crate::common::CommonModule;

verus! {

/// Builders for request envelopes, one per module operation. The envelope's
/// destination is taken from the payload's own schema, and its request kind
/// always agrees with its payload variant.
pub struct TransportRequest;

/// A result envelope: it answers a request, so it carries no request kind
/// and no destination of its own, only the result payload.
pub open spec fn spec_result_transport(p: PayloadV) -> TransportV {
    TransportV { request_type: RequestType::NONE, destination: None, payload: p }
}

/// An error turned into a result envelope, as the tree reports one
/// module's failure without failing the whole dispatch.
pub open spec fn spec_error_transport(e: Seq<char>) -> TransportV {
    spec_result_transport(PayloadV::error(e))
}

impl TransportRequest {
    /// Wraps a result payload into a result envelope.
    pub fn create_Transport_result(data: Payload) -> (r: Transport)
        ensures
            r@ == spec_result_transport(data@),
    {
        Transport { request_type: RequestType::NONE, destination: None, payload: data }
    }

    /// The request envelope of `get_info`.
    pub fn create_GET_INFO(data: Destination) -> (r: Transport)
        ensures
            r@.request_type == RequestType::GET_INFO,
            r@.destination == data@.schema,
            r@.payload == PayloadV::destination(data@),
    {
        let destination = match &data.schema {
            Some(s) => Some(SchemaIdentifier { val: s.val.clone() }),
            None => None,
        };
        Transport {
            request_type: RequestType::GET_INFO,
            destination,
            payload: Payload::destination(data),
        }
    }

    /// The request envelope of `generate_message`.
    pub fn create_GENERATE_MESSAGE(data: GenerateMessageInfo) -> (r: Transport)
        ensures
            r@.request_type == RequestType::GENERATE_MESSAGE,
            r@.destination == Some(data@.schema),
            r@.payload == PayloadV::generatemessageinfo(data@),
    {
        let destination = Some(SchemaIdentifier { val: data.schema.val.clone() });
        Transport {
            request_type: RequestType::GENERATE_MESSAGE,
            destination,
            payload: Payload::generatemessageinfo(data),
        }
    }

    /// The request envelope of `handle_trusted`.
    pub fn create_HANDLE_TRUSTED(data: Data) -> (r: Transport)
        ensures
            r@.request_type == RequestType::HANDLE_TRUSTED,
            r@.destination == Some(data@.schema),
            r@.payload == PayloadV::data(data@),
    {
        let destination = Some(SchemaIdentifier { val: data.schema.val.clone() });
        Transport {
            request_type: RequestType::HANDLE_TRUSTED,
            destination,
            payload: Payload::data(data),
        }
    }

    /// The request envelope of a trusted remote call in the client role.
    pub fn create_RECEIVE_TRUSTED_RPC(data: RpcData) -> (r: Transport)
        ensures
            r@.request_type == RequestType::RECEIVE_RPC_AS_CLIENT,
            r@.destination == Some(data@.schema),
            r@.payload == PayloadV::rpcdata(data@),
    {
        let destination = Some(SchemaIdentifier { val: data.schema.val.clone() });
        Transport {
            request_type: RequestType::RECEIVE_RPC_AS_CLIENT,
            destination,
            payload: Payload::rpcdata(data),
        }
    }

    /// The request envelope of a trusted remote call in the server role.
    pub fn create_RECEIVE_SERVER_RPC(data: RpcData) -> (r: Transport)
        ensures
            r@.request_type == RequestType::RECEIVE_RPC_AS_SERVER,
            r@.destination == Some(data@.schema),
            r@.payload == PayloadV::rpcdata(data@),
    {
        let destination = Some(SchemaIdentifier { val: data.schema.val.clone() });
        Transport {
            request_type: RequestType::RECEIVE_RPC_AS_SERVER,
            destination,
            payload: Payload::rpcdata(data),
        }
    }

    /// The request envelope of a remote call from an untrusted peer.
    pub fn create_RECEIVE_UNTRUSTED_RPC(data: RpcData) -> (r: Transport)
        ensures
            r@.request_type == RequestType::RECEIVE_PUBLIC_RPC,
            r@.destination == Some(data@.schema),
            r@.payload == PayloadV::rpcdata(data@),
    {
        let destination = Some(SchemaIdentifier { val: data.schema.val.clone() });
        Transport {
            request_type: RequestType::RECEIVE_PUBLIC_RPC,
            destination,
            payload: Payload::rpcdata(data),
        }
    }
}

/// What unwrapping an envelope into the module operation it selects
/// answers: the operation's result wrapped back into one result envelope,
/// the operation's failure text, a mismatch failure when the payload is not
/// the variant the request kind selects, and zero results for a request
/// kind this version does not know.
pub open spec fn spec_handle_transport<M: CommonModule>(m: &M, t: TransportV) -> Result<
    Seq<TransportV>,
    Seq<char>,
> {
    match t.request_type {
        RequestType::GET_INFO => match t.payload {
            PayloadV::destination(d) => match m.spec_get_info(d) {
                Ok(infos) => Ok(seq![spec_result_transport(PayloadV::vecmoduleinfo(infos))]),
                Err(e) => Err(e),
            },
            _ => Err("request payload does not match the request type"@),
        },
        RequestType::GENERATE_MESSAGE => match t.payload {
            PayloadV::generatemessageinfo(g) => match m.spec_generate_message(g) {
                Ok(d) => Ok(seq![spec_result_transport(PayloadV::data(d))]),
                Err(e) => Err(e),
            },
            _ => Err("request payload does not match the request type"@),
        },
        RequestType::HANDLE_TRUSTED => match t.payload {
            PayloadV::data(d) => match m.spec_handle_trusted(d) {
                Ok(ds) => Ok(seq![spec_result_transport(PayloadV::vecdata(ds))]),
                Err(e) => Err(e),
            },
            _ => Err("request payload does not match the request type"@),
        },
        RequestType::RECEIVE_RPC_AS_CLIENT => match t.payload {
            PayloadV::rpcdata(r) => match m.spec_receive_rpc_as_client(r) {
                Ok(rs) => Ok(seq![spec_result_transport(PayloadV::vecrpcdata(rs))]),
                Err(e) => Err(e),
            },
            _ => Err("request payload does not match the request type"@),
        },
        RequestType::RECEIVE_RPC_AS_SERVER => match t.payload {
            PayloadV::rpcdata(r) => match m.spec_receive_rpc_as_server(r) {
                Ok(rs) => Ok(seq![spec_result_transport(PayloadV::vecrpcdata(rs))]),
                Err(e) => Err(e),
            },
            _ => Err("request payload does not match the request type"@),
        },
        RequestType::RECEIVE_PUBLIC_RPC => match t.payload {
            PayloadV::rpcdata(r) => match m.spec_receive_public_rpc(r) {
                Ok(rs) => Ok(seq![spec_result_transport(PayloadV::vecrpcdata(rs))]),
                Err(e) => Err(e),
            },
            _ => Err("request payload does not match the request type"@),
        },
        RequestType::NONE => Ok(Seq::empty()),
        RequestType::UNKNOWN(_) => Ok(Seq::empty()),
    }
}

/// The view of a dispatch outcome.
pub open spec fn view_transports_result(r: Result<Vec<Transport>, TransportError>) -> Result<
    Seq<TransportV>,
    Seq<char>,
> {
    match r {
        Ok(ts) => Ok(ts@.map_values(|t: Transport| t@)),
        Err(e) => Err(e@),
    }
}

/// Passes an envelope on to the one module operation its request kind
/// selects and wraps the answer into a result envelope. A request kind this
/// version does not know yields zero results rather than a failure.
pub fn handle_transport<M: CommonModule>(m: &M, t: &Transport) -> (r: Result<
    Vec<Transport>,
    TransportError,
>)
    ensures
        view_transports_result(r) == spec_handle_transport(m, t@),
{
    let mismatch = "request payload does not match the request type";
    match &t.request_type {
        RequestType::GET_INFO => match &t.payload {
            Payload::destination(d) => match m.get_info(d) {
                Ok(infos) => {
                    let ret = TransportRequest::create_Transport_result(
                        Payload::vecmoduleinfo(infos),
                    );
                    let mut out: Vec<Transport> = Vec::new();
                    out.push(ret);
                    proof {
                        assert(out@.map_values(|t2: Transport| t2@) =~= seq![
                            spec_result_transport(
                                PayloadV::vecmoduleinfo(
                                    m.spec_get_info(t@.payload->destination_0)->Ok_0,
                                ),
                            ),
                        ]);
                    }
                    Ok(out)
                },
                Err(e) => Err(e),
            },
            _ => Err(TransportError { val: String::from_str(mismatch) }),
        },
        RequestType::GENERATE_MESSAGE => match &t.payload {
            Payload::generatemessageinfo(g) => match m.generate_message(g) {
                Ok(d) => {
                    let ret = TransportRequest::create_Transport_result(Payload::data(d));
                    let mut out: Vec<Transport> = Vec::new();
                    out.push(ret);
                    proof {
                        assert(out@.map_values(|t2: Transport| t2@) =~= seq![
                            spec_result_transport(
                                PayloadV::data(
                                    m.spec_generate_message(
                                        t@.payload->generatemessageinfo_0,
                                    )->Ok_0,
                                ),
                            ),
                        ]);
                    }
                    Ok(out)
                },
                Err(e) => Err(e),
            },
            _ => Err(TransportError { val: String::from_str(mismatch) }),
        },
        RequestType::HANDLE_TRUSTED => match &t.payload {
            Payload::data(d) => match m.handle_trusted(d) {
                Ok(ds) => {
                    let ret = TransportRequest::create_Transport_result(Payload::vecdata(ds));
                    let mut out: Vec<Transport> = Vec::new();
                    out.push(ret);
                    proof {
                        assert(out@.map_values(|t2: Transport| t2@) =~= seq![
                            spec_result_transport(
                                PayloadV::vecdata(m.spec_handle_trusted(t@.payload->data_0)->Ok_0),
                            ),
                        ]);
                    }
                    Ok(out)
                },
                Err(e) => Err(e),
            },
            _ => Err(TransportError { val: String::from_str(mismatch) }),
        },
        RequestType::RECEIVE_RPC_AS_CLIENT => match &t.payload {
            Payload::rpcdata(rp) => match m.receive_rpc_as_client(rp) {
                Ok(rs) => {
                    let ret = TransportRequest::create_Transport_result(Payload::vecrpcdata(rs));
                    let mut out: Vec<Transport> = Vec::new();
                    out.push(ret);
                    proof {
                        assert(out@.map_values(|t2: Transport| t2@) =~= seq![
                            spec_result_transport(
                                PayloadV::vecrpcdata(
                                    m.spec_receive_rpc_as_client(t@.payload->rpcdata_0)->Ok_0,
                                ),
                            ),
                        ]);
                    }
                    Ok(out)
                },
                Err(e) => Err(e),
            },
            _ => Err(TransportError { val: String::from_str(mismatch) }),
        },
        RequestType::RECEIVE_RPC_AS_SERVER => match &t.payload {
            Payload::rpcdata(rp) => match m.receive_rpc_as_server(rp) {
                Ok(rs) => {
                    let ret = TransportRequest::create_Transport_result(Payload::vecrpcdata(rs));
                    let mut out: Vec<Transport> = Vec::new();
                    out.push(ret);
                    proof {
                        assert(out@.map_values(|t2: Transport| t2@) =~= seq![
                            spec_result_transport(
                                PayloadV::vecrpcdata(
                                    m.spec_receive_rpc_as_server(t@.payload->rpcdata_0)->Ok_0,
                                ),
                            ),
                        ]);
                    }
                    Ok(out)
                },
                Err(e) => Err(e),
            },
            _ => Err(TransportError { val: String::from_str(mismatch) }),
        },
        RequestType::RECEIVE_PUBLIC_RPC => match &t.payload {
            Payload::rpcdata(rp) => match m.receive_public_rpc(rp) {
                Ok(rs) => {
                    let ret = TransportRequest::create_Transport_result(Payload::vecrpcdata(rs));
                    let mut out: Vec<Transport> = Vec::new();
                    out.push(ret);
                    proof {
                        assert(out@.map_values(|t2: Transport| t2@) =~= seq![
                            spec_result_transport(
                                PayloadV::vecrpcdata(
                                    m.spec_receive_public_rpc(t@.payload->rpcdata_0)->Ok_0,
                                ),
                            ),
                        ]);
                    }
                    Ok(out)
                },
                Err(e) => Err(e),
            },
            _ => Err(TransportError { val: String::from_str(mismatch) }),
        },
        RequestType::NONE => {
            let out: Vec<Transport> = Vec::new();
            proof {
                assert(out@.map_values(|t2: Transport| t2@) =~= Seq::<TransportV>::empty());
            }
            Ok(out)
        },
        RequestType::UNKNOWN(_) => {
            let out: Vec<Transport> = Vec::new();
            proof {
                assert(out@.map_values(|t2: Transport| t2@) =~= Seq::<TransportV>::empty());
            }
            Ok(out)
        },
    }
}

// ---------------------------------------------------------------------
// Router-side entry points: each wraps an operation argument into a
// request envelope, dispatches it through a router, and merges the
// results into the operation's aggregate, handing back the error log.
// ---------------------------------------------------------------------

/// Queries every addressed module's self-description through the router.
pub fn get_info<P: crate::propagator::Propagator>(node: &P, data: Destination) -> (r: (
    VecModuleInfo,
    Vec<TransportError>,
))
    ensures
        ({
            let req = TransportV {
                request_type: RequestType::GET_INFO,
                destination: data@.schema,
                payload: PayloadV::destination(data@),
            };
            let results = node.spec_propagate_view(req);
            &&& r.0@ == crate::transportresponse::spec_infos_of(
                crate::transportresponse::spec_kept(results),
            )
            &&& crate::transportresponse::view_errors(r.1@)
                == crate::transportresponse::spec_error_texts(results)
        }),
{
    let transport = TransportRequest::create_GET_INFO(data);
    let transport_results = node.propagate_transport(&transport);
    crate::transportresponse::TransportCombiner::combine_to_VecModuleInfo(transport_results)
}

/// Asks the addressed modules to produce a message of a named template.
/// Exactly one module is expected to answer: none is a hard error, more
/// than one keeps the first answer and logs a warning.
pub fn generate_message<P: crate::propagator::Propagator>(
    node: &P,
    data: GenerateMessageInfo,
) -> (r: (Result<Data, TransportError>, Vec<TransportError>))
    ensures
        ({
            let req = TransportV {
                request_type: RequestType::GENERATE_MESSAGE,
                destination: Some(data@.schema),
                payload: PayloadV::generatemessageinfo(data@),
            };
            let results = node.spec_propagate_view(req);
            let ds = crate::transportresponse::spec_datas_of(
                crate::transportresponse::spec_kept(results),
            );
            let es = crate::transportresponse::spec_error_texts(results);
            &&& (ds.len() == 0 <==> r.0 is Err)
            &&& (ds.len() == 0 ==> (r.0 matches Err(e) && e@
                == "no response for request for target Data"@))
            &&& (ds.len() > 0 ==> (r.0 matches Ok(d) && d@ == ds[0]))
            &&& (ds.len() <= 1 ==> crate::transportresponse::view_errors(r.1@) == es)
            &&& (ds.len() > 1 ==> crate::transportresponse::view_errors(r.1@) == es.push(
                "multiple responses, expecting only one; keeping the first"@,
            ))
        }),
{
    let transport = TransportRequest::create_GENERATE_MESSAGE(data);
    let transport_results = node.propagate_transport(&transport);
    crate::transportresponse::TransportCombiner::combine_to_Data(transport_results)
}

/// Hands an authenticated message to the addressed modules and merges the
/// follow-up messages they return.
pub fn handle_trusted<P: crate::propagator::Propagator>(node: &P, data: Data) -> (r: (
    VecData,
    Vec<TransportError>,
))
    ensures
        ({
            let req = TransportV {
                request_type: RequestType::HANDLE_TRUSTED,
                destination: Some(data@.schema),
                payload: PayloadV::data(data@),
            };
            let results = node.spec_propagate_view(req);
            &&& r.0@ == crate::transportresponse::spec_vecdatas_of(
                crate::transportresponse::spec_kept(results),
            )
            &&& crate::transportresponse::view_errors(r.1@)
                == crate::transportresponse::spec_error_texts(results)
        }),
{
    let transport = TransportRequest::create_HANDLE_TRUSTED(data);
    let transport_results = node.propagate_transport(&transport);
    crate::transportresponse::TransportCombiner::combine_to_VecData(transport_results)
}

/// Delivers a trusted client-role remote call and merges the follow-up
/// calls the addressed modules return.
pub fn receive_rpc_as_client<P: crate::propagator::Propagator>(node: &P, data: RpcData) -> (r: (
    VecRpcData,
    Vec<TransportError>,
))
    ensures
        ({
            let req = TransportV {
                request_type: RequestType::RECEIVE_RPC_AS_CLIENT,
                destination: Some(data@.schema),
                payload: PayloadV::rpcdata(data@),
            };
            let results = node.spec_propagate_view(req);
            &&& r.0@ == crate::transportresponse::spec_rpcs_of(
                crate::transportresponse::spec_kept(results),
            )
            &&& crate::transportresponse::view_errors(r.1@)
                == crate::transportresponse::spec_error_texts(results)
        }),
{
    let transport = TransportRequest::create_RECEIVE_TRUSTED_RPC(data);
    let transport_results = node.propagate_transport(&transport);
    crate::transportresponse::TransportCombiner::combine_to_VecRpcData(transport_results)
}

/// Delivers a trusted server-role remote call and merges the follow-up
/// calls the addressed modules return.
pub fn receive_rpc_as_server<P: crate::propagator::Propagator>(node: &P, data: RpcData) -> (r: (
    VecRpcData,
    Vec<TransportError>,
))
    ensures
        ({
            let req = TransportV {
                request_type: RequestType::RECEIVE_RPC_AS_SERVER,
                destination: Some(data@.schema),
                payload: PayloadV::rpcdata(data@),
            };
            let results = node.spec_propagate_view(req);
            &&& r.0@ == crate::transportresponse::spec_rpcs_of(
                crate::transportresponse::spec_kept(results),
            )
            &&& crate::transportresponse::view_errors(r.1@)
                == crate::transportresponse::spec_error_texts(results)
        }),
{
    let transport = TransportRequest::create_RECEIVE_SERVER_RPC(data);
    let transport_results = node.propagate_transport(&transport);
    crate::transportresponse::TransportCombiner::combine_to_VecRpcData(transport_results)
}

/// Delivers a remote call from an untrusted peer and merges the follow-up
/// calls the addressed modules return.
pub fn receive_public_rpc<P: crate::propagator::Propagator>(node: &P, data: RpcData) -> (r: (
    VecRpcData,
    Vec<TransportError>,
))
    ensures
        ({
            let req = TransportV {
                request_type: RequestType::RECEIVE_PUBLIC_RPC,
                destination: Some(data@.schema),
                payload: PayloadV::rpcdata(data@),
            };
            let results = node.spec_propagate_view(req);
            &&& r.0@ == crate::transportresponse::spec_rpcs_of(
                crate::transportresponse::spec_kept(results),
            )
            &&& crate::transportresponse::view_errors(r.1@)
                == crate::transportresponse::spec_error_texts(results)
        }),
{
    let transport = TransportRequest::create_RECEIVE_UNTRUSTED_RPC(data);
    let transport_results = node.propagate_transport(&transport);
    crate::transportresponse::TransportCombiner::combine_to_VecRpcData(transport_results)
}

/// The module side of the glue as a capability: any handler module can be
/// handed a whole envelope. This is the one call surface the tree uses,
/// whatever kind of module stands behind it.
pub trait TransportationToModuleGlue: CommonModule {
    /// Passes the envelope on to the one operation its request kind
    /// selects, exactly as [`handle_transport`] does.
    fn handle_transmission(&self, transmission: &Transport) -> (r: Result<
        Vec<Transport>,
        TransportError,
    >)
        ensures
            view_transports_result(r) == spec_handle_transport(self, transmission@),
    ;
}

impl<M: CommonModule> TransportationToModuleGlue for M {
    fn handle_transmission(&self, transmission: &Transport) -> (r: Result<
        Vec<Transport>,
        TransportError,
    >) {
        handle_transport(self, transmission)
    }
}

} // verus!
