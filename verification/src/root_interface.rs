//! The root-message handler module: the outermost protocol whose messages
//! only say which schema their inner bytes belong to. Handling one
//! produces a follow-up message addressed to that inner schema, which the
//! router then dispatches in turn.

use vstd::prelude::*;
use vstd::string::*;
use crate::schema::SchemaIdentifier;
use crate::transport::{Destination, DestinationV, GenerateMessageInfo, GenerateMessageInfoV, ModuleInfo, ModuleInfoV, Data, DataV, RpcData, RpcDataV, TransportError, VecModuleInfo, VecData, VecRpcData};
use crate::common::CommonModule;
use crate::codec::{se_string, sp_string, se_bytes, sp_bytes, en_string, en_bytes, de_string, de_bytes};

verus! {

/// A root message: the schema of the inner message, and the inner bytes
/// themselves.
#[derive(Clone, Debug, PartialEq, Eq)]
pub struct RootMessage {
    pub schema_url: String,
    pub unencrypted_message: Vec<u8>,
}

pub struct RootMessageV {
    pub schema_url: Seq<char>,
    pub unencrypted_message: Seq<u8>,
}

impl View for RootMessage {
    type V = RootMessageV;

    open spec fn view(&self) -> RootMessageV {
        RootMessageV {
            schema_url: self.schema_url@,
            unencrypted_message: self.unencrypted_message@,
        }
    }
}

/// The wire form of a root message: the schema, then the inner bytes,
/// each length-prefixed.
pub open spec fn se_root(m: RootMessageV) -> Seq<u8> {
    se_string(m.schema_url) + se_bytes(m.unencrypted_message)
}

/// Parses a root message and returns it with the remainder.
pub open spec fn sp_root(s: Seq<u8>) -> Option<(RootMessageV, Seq<u8>)> {
    match sp_string(s) {
        None => None,
        Some((schema_url, rest)) => match sp_bytes(rest) {
            None => None,
            Some((unencrypted_message, rest2)) => Some(
                (RootMessageV { schema_url, unencrypted_message }, rest2),
            ),
        },
    }
}

/// Whether a byte sequence is exactly one well-formed root message.
pub open spec fn is_root_bytes(s: Seq<u8>) -> bool {
    match sp_root(s) {
        None => false,
        Some(pair) => pair.1.len() == 0,
    }
}

/// Builds the wire form of a root message around inner bytes.
pub fn generate_root_message(schema_url: &str, data: Vec<u8>) -> (r: Vec<u8>)
    ensures
        r@ == se_root(RootMessageV { schema_url: schema_url@, unencrypted_message: data@ }),
{
    let mut out: Vec<u8> = Vec::new();
    en_string(&mut out, schema_url);
    en_bytes(&mut out, &data);
    proof {
        assert(out@ =~= se_root(
            RootMessageV { schema_url: schema_url@, unencrypted_message: data@ },
        ));
    }
    out
}

/// Deserializes exactly one root message; trailing bytes are a failure.
pub fn decode_root_message(bytes: &[u8]) -> (r: Option<RootMessage>)
    ensures
        match r {
            Some(m) => sp_root(bytes@) == Some((m@, bytes@.skip(bytes@.len() as int)))
                && is_root_bytes(bytes@),
            None => !is_root_bytes(bytes@),
        },
{
    proof {
        assert(bytes@.skip(0) =~= bytes@);
    }
    match de_string(bytes, 0) {
        None => None,
        Some((schema_url, p1)) => match de_bytes(bytes, p1) {
            None => None,
            Some((unencrypted_message, p2)) => {
                if p2 == bytes.len() {
                    Some(RootMessage { schema_url, unencrypted_message })
                } else {
                    proof {
                        assert(bytes@.skip(p2 as int).len() != 0);
                    }
                    None
                }
            },
        },
    }
}

/// The in-process root-message handler: unwraps a root message and hands
/// its inner bytes back as a follow-up addressed to the inner schema.
pub struct RootInterface {
    pub schema: SchemaIdentifier,
}

impl RootInterface {
    pub fn new(schema: SchemaIdentifier) -> (r: RootInterface)
        ensures
            r.schema@ == schema@,
    {
        RootInterface { schema }
    }
}

impl CommonModule for RootInterface {
    /// One self-description, displayed as `Root`.
    open spec fn spec_get_info(&self, p: DestinationV) -> Result<Seq<ModuleInfoV>, Seq<char>> {
        Ok(seq![ModuleInfoV { schema: self.schema@, display_name: "Root"@ }])
    }

    /// The one known template is `root`: its two arguments are the inner
    /// schema as text and the inner bytes.
    open spec fn spec_generate_message(&self, p: GenerateMessageInfoV) -> Result<
        DataV,
        Seq<char>,
    > {
        if p.template == "root"@ {
            if p.args.len() == 2 && vstd::utf8::valid_utf8(p.args[0]) {
                Ok(
                    DataV {
                        schema: self.schema@,
                        serialized: se_root(
                            RootMessageV {
                                schema_url: vstd::utf8::decode_utf8(p.args[0]),
                                unencrypted_message: p.args[1],
                            },
                        ),
                    },
                )
            } else {
                Err("template root takes a text schema and the inner bytes"@)
            }
        } else {
            Err("unknown template "@ + p.template + "; the templates accepted here: root"@)
        }
    }

    /// Unwrapping a root message yields one follow-up: the inner bytes,
    /// addressed to the inner schema. Bytes that are not a root message
    /// are this module's failure.
    open spec fn spec_handle_trusted(&self, p: DataV) -> Result<Seq<DataV>, Seq<char>> {
        match sp_root(p.serialized) {
            Some(pair) => if pair.1.len() == 0 {
                Ok(
                    seq![
                        DataV {
                            schema: pair.0.schema_url,
                            serialized: pair.0.unencrypted_message,
                        },
                    ],
                )
            } else {
                Err("cannot decode the root message"@)
            },
            None => Err("cannot decode the root message"@),
        }
    }

    /// No client-role methods exist here.
    open spec fn spec_receive_rpc_as_client(&self, p: RpcDataV) -> Result<
        Seq<RpcDataV>,
        Seq<char>,
    > {
        Err("unknown method "@ + p.method_name)
    }

    /// No server-role methods exist here.
    open spec fn spec_receive_rpc_as_server(&self, p: RpcDataV) -> Result<
        Seq<RpcDataV>,
        Seq<char>,
    > {
        Err("unknown method "@ + p.method_name)
    }

    /// No public methods exist here.
    open spec fn spec_receive_public_rpc(&self, p: RpcDataV) -> Result<Seq<RpcDataV>, Seq<char>> {
        Err("unknown method "@ + p.method_name)
    }

    fn get_info(&self, p: &Destination) -> (r: Result<VecModuleInfo, TransportError>) {
        let info = ModuleInfo {
            schema: SchemaIdentifier { val: self.schema.val.clone() },
            display_name: <String as StringExecFns>::from_str("Root"),
        };
        let mut vec: Vec<ModuleInfo> = Vec::new();
        vec.push(info);
        let out = VecModuleInfo { vec };
        proof {
            assert(out@ =~= seq![ModuleInfoV { schema: self.schema@, display_name: "Root"@ }]);
        }
        Ok(out)
    }

    fn generate_message(&self, p: &GenerateMessageInfo) -> (r: Result<Data, TransportError>) {
        let root_name = <String as StringExecFns>::from_str("root");
        if p.template == root_name {
            if p.args.len() == 2 {
                match crate::codec::string_from_utf8(p.args[0].clone()) {
                    Some(schema_url) => {
                        let serialized = generate_root_message(
                            schema_url.as_str(),
                            p.args[1].clone(),
                        );
                        Ok(
                            Data {
                                schema: SchemaIdentifier { val: self.schema.val.clone() },
                                serialized,
                            },
                        )
                    },
                    None => Err(
                        TransportError::new(
                            <String as StringExecFns>::from_str(
                                "template root takes a text schema and the inner bytes",
                            ),
                        ),
                    ),
                }
            } else {
                Err(
                    TransportError::new(
                        <String as StringExecFns>::from_str(
                            "template root takes a text schema and the inner bytes",
                        ),
                    ),
                )
            }
        } else {
            let mut msg = <String as StringExecFns>::from_str("unknown template ");
            msg.append(p.template.as_str());
            msg.append("; the templates accepted here: root");
            Err(TransportError::new(msg))
        }
    }

    fn handle_trusted(&self, p: &Data) -> (r: Result<VecData, TransportError>) {
        match decode_root_message(p.serialized.as_slice()) {
            Some(m) => {
                let follow_up = Data {
                    schema: SchemaIdentifier { val: m.schema_url },
                    serialized: m.unencrypted_message,
                };
                let mut vec: Vec<Data> = Vec::new();
                vec.push(follow_up);
                let out = VecData { vec };
                proof {
                    assert(out@ =~= self.spec_handle_trusted(p@)->Ok_0);
                }
                Ok(out)
            },
            None => Err(
                TransportError::new(
                    <String as StringExecFns>::from_str("cannot decode the root message"),
                ),
            ),
        }
    }

    fn receive_rpc_as_client(&self, p: &RpcData) -> (r: Result<VecRpcData, TransportError>) {
        let mut msg = <String as StringExecFns>::from_str("unknown method ");
        msg.append(p.method_name.as_str());
        Err(TransportError::new(msg))
    }

    fn receive_rpc_as_server(&self, p: &RpcData) -> (r: Result<VecRpcData, TransportError>) {
        let mut msg = <String as StringExecFns>::from_str("unknown method ");
        msg.append(p.method_name.as_str());
        Err(TransportError::new(msg))
    }

    fn receive_public_rpc(&self, p: &RpcData) -> (r: Result<VecRpcData, TransportError>) {
        let mut msg = <String as StringExecFns>::from_str("unknown method ");
        msg.append(p.method_name.as_str());
        Err(TransportError::new(msg))
    }
}

} // verus!
