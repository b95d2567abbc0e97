//! The wire message (the envelope) and its payload variants: the request
//! kind, the optional destination schema, and one operation-specific payload.

#![allow(non_camel_case_types)]
#![allow(non_snake_case)]

use vstd::prelude::*;
use crate::schema::SchemaIdentifier;

verus! {

/// Selects which module operation a payload is intended for. A byte value
/// that this version does not know decodes to `UNKNOWN`, so that newer
/// messages still decode (they are then answered with no results).
#[derive(Clone, Copy, PartialEq, Eq, Structural, Debug)]
pub enum RequestType {
    NONE,
    GET_INFO,
    GENERATE_MESSAGE,
    HANDLE_TRUSTED,
    RECEIVE_RPC_AS_CLIENT,
    RECEIVE_RPC_AS_SERVER,
    RECEIVE_PUBLIC_RPC,
    UNKNOWN(u8),
}

/// A module's self-description, obtained once at load time via `get_info`.
#[derive(Clone, Debug, PartialEq, Eq)]
pub struct ModuleInfo {
    pub schema: SchemaIdentifier,
    pub display_name: String,
}

pub struct ModuleInfoV {
    pub schema: Seq<char>,
    pub display_name: Seq<char>,
}

impl View for ModuleInfo {
    type V = ModuleInfoV;

    open spec fn view(&self) -> ModuleInfoV {
        ModuleInfoV { schema: self.schema@, display_name: self.display_name@ }
    }
}

impl ModuleInfo {
    pub fn new(schema: SchemaIdentifier, display_name: String) -> (r: ModuleInfo)
        ensures
            r@.schema == schema@,
            r@.display_name == display_name@,
    {
        ModuleInfo { schema, display_name }
    }
}

/// A plain schema query: which modules serve this schema (none means all).
#[derive(Clone, Debug, PartialEq, Eq)]
pub struct Destination {
    pub schema: Option<SchemaIdentifier>,
}

pub struct DestinationV {
    pub schema: Option<Seq<char>>,
}

impl View for Destination {
    type V = DestinationV;

    open spec fn view(&self) -> DestinationV {
        DestinationV { schema: crate::transport::opt_schema_view(&self.schema) }
    }
}

/// The view of an optional schema identifier.
pub open spec fn opt_schema_view(d: &Option<SchemaIdentifier>) -> Option<Seq<char>> {
    match d {
        Some(s) => Some(s@),
        None => None,
    }
}

/// A request to produce a message of a named template from positional raw
/// byte arguments.
#[derive(Clone, Debug, PartialEq, Eq)]
pub struct GenerateMessageInfo {
    pub schema: SchemaIdentifier,
    pub template: String,
    pub args: Vec<Vec<u8>>,
}

pub struct GenerateMessageInfoV {
    pub schema: Seq<char>,
    pub template: Seq<char>,
    pub args: Seq<Seq<u8>>,
}

impl View for GenerateMessageInfo {
    type V = GenerateMessageInfoV;

    open spec fn view(&self) -> GenerateMessageInfoV {
        GenerateMessageInfoV {
            schema: self.schema@,
            template: self.template@,
            args: self.args@.map_values(|a: Vec<u8>| a@),
        }
    }
}

/// A serialized message together with the schema it was encoded with.
#[derive(Clone, Debug, PartialEq, Eq)]
pub struct Data {
    pub schema: SchemaIdentifier,
    pub serialized: Vec<u8>,
}

pub struct DataV {
    pub schema: Seq<char>,
    pub serialized: Seq<u8>,
}

impl View for Data {
    type V = DataV;

    open spec fn view(&self) -> DataV {
        DataV { schema: self.schema@, serialized: self.serialized@ }
    }
}

impl Data {
    pub fn new(schema: SchemaIdentifier, serialized: Vec<u8>) -> (r: Data)
        ensures
            r@.schema == schema@,
            r@.serialized == serialized@,
    {
        Data { schema, serialized }
    }
}

/// A remote-call-style message: a method name of the form
/// `"<ServiceName>/<method>"`, the schema of the argument, and the
/// serialized argument bytes.
#[derive(Clone, Debug, PartialEq, Eq)]
pub struct RpcData {
    pub method_name: String,
    pub schema: SchemaIdentifier,
    pub serialized: Vec<u8>,
}

pub struct RpcDataV {
    pub method_name: Seq<char>,
    pub schema: Seq<char>,
    pub serialized: Seq<u8>,
}

impl View for RpcData {
    type V = RpcDataV;

    open spec fn view(&self) -> RpcDataV {
        RpcDataV {
            method_name: self.method_name@,
            schema: self.schema@,
            serialized: self.serialized@,
        }
    }
}

impl RpcData {
    pub fn new(method_name: String, schema: SchemaIdentifier, serialized: Vec<u8>) -> (r: RpcData)
        ensures
            r@.method_name == method_name@,
            r@.schema == schema@,
            r@.serialized == serialized@,
    {
        RpcData { method_name, schema, serialized }
    }
}

/// A module's textual failure, carried as data rather than as an unwind.
#[derive(Clone, Debug, PartialEq, Eq)]
pub struct TransportError {
    pub val: String,
}

impl View for TransportError {
    type V = Seq<char>;

    open spec fn view(&self) -> Seq<char> {
        self.val@
    }
}

impl TransportError {
    pub fn new(val: String) -> (r: TransportError)
        ensures
            r@ == val@,
    {
        TransportError { val }
    }
}

/// Aggregate of module self-descriptions, produced by merging results.
#[derive(Clone, Debug, PartialEq, Eq)]
pub struct VecModuleInfo {
    pub vec: Vec<ModuleInfo>,
}

impl View for VecModuleInfo {
    type V = Seq<ModuleInfoV>;

    open spec fn view(&self) -> Seq<ModuleInfoV> {
        self.vec@.map_values(|m: ModuleInfo| m@)
    }
}

impl VecModuleInfo {
    pub fn new(vec: Vec<ModuleInfo>) -> (r: VecModuleInfo)
        ensures
            r@ == vec@.map_values(|m: ModuleInfo| m@),
    {
        VecModuleInfo { vec }
    }
}

/// Aggregate of serialized messages, produced by merging results.
#[derive(Clone, Debug, PartialEq, Eq)]
pub struct VecData {
    pub vec: Vec<Data>,
}

impl View for VecData {
    type V = Seq<DataV>;

    open spec fn view(&self) -> Seq<DataV> {
        self.vec@.map_values(|d: Data| d@)
    }
}

impl VecData {
    pub fn new(vec: Vec<Data>) -> (r: VecData)
        ensures
            r@ == vec@.map_values(|d: Data| d@),
    {
        VecData { vec }
    }
}

/// Aggregate of remote-call messages, produced by merging results.
#[derive(Clone, Debug, PartialEq, Eq)]
pub struct VecRpcData {
    pub vec: Vec<RpcData>,
}

impl View for VecRpcData {
    type V = Seq<RpcDataV>;

    open spec fn view(&self) -> Seq<RpcDataV> {
        self.vec@.map_values(|d: RpcData| d@)
    }
}

impl VecRpcData {
    pub fn new(vec: Vec<RpcData>) -> (r: VecRpcData)
        ensures
            r@ == vec@.map_values(|d: RpcData| d@),
    {
        VecRpcData { vec }
    }
}

/// The operation-specific payload of an envelope.
#[derive(Clone, Debug, PartialEq, Eq)]
pub enum Payload {
    destination(Destination),
    generatemessageinfo(GenerateMessageInfo),
    data(Data),
    rpcdata(RpcData),
    error(TransportError),
    vecmoduleinfo(VecModuleInfo),
    vecdata(VecData),
    vecrpcdata(VecRpcData),
}

pub enum PayloadV {
    destination(DestinationV),
    generatemessageinfo(GenerateMessageInfoV),
    data(DataV),
    rpcdata(RpcDataV),
    error(Seq<char>),
    vecmoduleinfo(Seq<ModuleInfoV>),
    vecdata(Seq<DataV>),
    vecrpcdata(Seq<RpcDataV>),
}

impl View for Payload {
    type V = PayloadV;

    open spec fn view(&self) -> PayloadV {
        match self {
            Payload::destination(d) => PayloadV::destination(d@),
            Payload::generatemessageinfo(g) => PayloadV::generatemessageinfo(g@),
            Payload::data(d) => PayloadV::data(d@),
            Payload::rpcdata(r) => PayloadV::rpcdata(r@),
            Payload::error(e) => PayloadV::error(e@),
            Payload::vecmoduleinfo(v) => PayloadV::vecmoduleinfo(v@),
            Payload::vecdata(v) => PayloadV::vecdata(v@),
            Payload::vecrpcdata(v) => PayloadV::vecrpcdata(v@),
        }
    }
}

/// The wire message: the request kind, the optional destination schema
/// (none means broadcast), and the operation payload.
#[derive(Clone, Debug, PartialEq, Eq)]
pub struct Transport {
    pub request_type: RequestType,
    pub destination: Option<SchemaIdentifier>,
    pub payload: Payload,
}

pub struct TransportV {
    pub request_type: RequestType,
    pub destination: Option<Seq<char>>,
    pub payload: PayloadV,
}

impl View for Transport {
    type V = TransportV;

    open spec fn view(&self) -> TransportV {
        TransportV {
            request_type: self.request_type,
            destination: opt_schema_view(&self.destination),
            payload: self.payload@,
        }
    }
}

/// A request kind and a payload agree when the payload is the variant that
/// the request kind selects. The kind is redundant information derivable
/// from the variant tag in a well-formed message; the decoder treats a
/// mismatch as a decode failure, not a match failure.
pub open spec fn spec_agrees(rt: RequestType, p: PayloadV) -> bool {
    match rt {
        RequestType::GET_INFO => p is destination,
        RequestType::GENERATE_MESSAGE => p is generatemessageinfo,
        RequestType::HANDLE_TRUSTED => p is data,
        RequestType::RECEIVE_RPC_AS_CLIENT => p is rpcdata,
        RequestType::RECEIVE_RPC_AS_SERVER => p is rpcdata,
        RequestType::RECEIVE_PUBLIC_RPC => p is rpcdata,
        RequestType::NONE => true,
        RequestType::UNKNOWN(_) => true,
    }
}

} // verus!
