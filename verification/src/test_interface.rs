//! A small in-process handler module: it serves one schema, offers one
//! message template named `test`, and answers the client-role remote call
//! `ClientRPC/receive_test`, whose argument is a `Test` record.

use vstd::prelude::*;
use vstd::string::*;
use vstd::utf8::{decode_utf8, valid_utf8};
use crate::schema::SchemaIdentifier;
use crate::transport::{Destination, DestinationV, GenerateMessageInfo, GenerateMessageInfoV, ModuleInfo, ModuleInfoV, Data, DataV, RpcData, RpcDataV, TransportError, VecModuleInfo, VecData, VecRpcData};
use crate::common::CommonModule;
use crate::codec::{se_string, sp_string, en_string, de_string};

verus! {

/// The record that `ClientRPC/receive_test` receives: a name and a piece
/// of text data.
#[derive(Clone, Debug, PartialEq, Eq)]
pub struct Test {
    pub name: String,
    pub data: String,
}

pub struct TestV {
    pub name: Seq<char>,
    pub data: Seq<char>,
}

impl View for Test {
    type V = TestV;

    open spec fn view(&self) -> TestV {
        TestV { name: self.name@, data: self.data@ }
    }
}

impl Test {
    pub fn new(name: String, data: String) -> (r: Test)
        ensures
            r@.name == name@,
            r@.data == data@,
    {
        Test { name, data }
    }
}

/// The wire form of a `Test` record: its two strings, each
/// length-prefixed.
pub open spec fn se_test(t: TestV) -> Seq<u8> {
    se_string(t.name) + se_string(t.data)
}

/// Parses a `Test` record and returns it with the remainder.
pub open spec fn sp_test(s: Seq<u8>) -> Option<(TestV, Seq<u8>)> {
    match sp_string(s) {
        None => None,
        Some((name, rest)) => match sp_string(rest) {
            None => None,
            Some((data, rest2)) => Some((TestV { name, data }, rest2)),
        },
    }
}

/// Whether a byte sequence is exactly one well-formed `Test` record.
pub open spec fn is_test_bytes(s: Seq<u8>) -> bool {
    match sp_test(s) {
        None => false,
        Some(pair) => pair.1.len() == 0,
    }
}

/// Serializes a `Test` record.
pub fn encode_test(t: &Test) -> (r: Vec<u8>)
    ensures
        r@ == se_test(t@),
{
    let mut out: Vec<u8> = Vec::new();
    en_string(&mut out, t.name.as_str());
    en_string(&mut out, t.data.as_str());
    proof {
        assert(out@ =~= se_test(t@));
    }
    out
}

/// Deserializes exactly one `Test` record; trailing bytes are a failure.
pub fn decode_test(bytes: &[u8]) -> (r: Option<Test>)
    ensures
        match r {
            Some(t) => sp_test(bytes@) == Some((t@, bytes@.skip(bytes@.len() as int)))
                && is_test_bytes(bytes@),
            None => !is_test_bytes(bytes@),
        },
{
    proof {
        assert(bytes@.skip(0) =~= bytes@);
    }
    match de_string(bytes, 0) {
        None => None,
        Some((name, p1)) => match de_string(bytes, p1) {
            None => None,
            Some((data, p2)) => {
                if p2 == bytes.len() {
                    Some(Test { name, data })
                } else {
                    proof {
                        assert(bytes@.skip(p2 as int).len() != 0);
                    }
                    None
                }
            },
        },
    }
}

/// The in-process test-protocol handler: one schema, the `test` template,
/// and the `ClientRPC/receive_test` client-role method.
pub struct Interface {
    pub schema: SchemaIdentifier,
    pub display_name: String,
}

impl Interface {
    pub fn new(schema: SchemaIdentifier, display_name: String) -> (r: Interface)
        ensures
            r.schema@ == schema@,
            r.display_name@ == display_name@,
    {
        Interface { schema, display_name }
    }
}

/// What the `test` template answers for given arguments: a `Test` record
/// built from the two text arguments, or the failure text when the
/// arguments are not two pieces of text.
pub open spec fn spec_test_template(schema: Seq<char>, args: Seq<Seq<u8>>) -> Result<
    DataV,
    Seq<char>,
> {
    if args.len() == 2 && valid_utf8(args[0]) && valid_utf8(args[1]) {
        Ok(
            DataV {
                schema,
                serialized: se_test(
                    TestV { name: decode_utf8(args[0]), data: decode_utf8(args[1]) },
                ),
            },
        )
    } else {
        Err("template test takes two text arguments"@)
    }
}

impl CommonModule for Interface {
    /// One self-description: this module's schema and display name.
    open spec fn spec_get_info(&self, p: DestinationV) -> Result<Seq<ModuleInfoV>, Seq<char>> {
        Ok(seq![ModuleInfoV { schema: self.schema@, display_name: self.display_name@ }])
    }

    /// The one known template is `test`; an unknown template name is an
    /// error naming the template and the accepted set.
    open spec fn spec_generate_message(&self, p: GenerateMessageInfoV) -> Result<
        DataV,
        Seq<char>,
    > {
        if p.template == "test"@ {
            spec_test_template(self.schema@, p.args)
        } else {
            Err("unknown template "@ + p.template + "; the templates accepted here: test"@)
        }
    }

    /// This module consumes trusted messages without follow-ups.
    open spec fn spec_handle_trusted(&self, p: DataV) -> Result<Seq<DataV>, Seq<char>> {
        Ok(Seq::empty())
    }

    /// `ClientRPC/receive_test` takes one `Test` record and produces no
    /// follow-up calls; an unrecognized method name is an error naming the
    /// method.
    open spec fn spec_receive_rpc_as_client(&self, p: RpcDataV) -> Result<
        Seq<RpcDataV>,
        Seq<char>,
    > {
        if p.method_name == "ClientRPC/receive_test"@ {
            if is_test_bytes(p.serialized) {
                Ok(Seq::empty())
            } else {
                Err("cannot decode the argument of ClientRPC/receive_test"@)
            }
        } else {
            Err("unknown method "@ + p.method_name)
        }
    }

    /// No server-role methods exist here.
    open spec fn spec_receive_rpc_as_server(&self, p: RpcDataV) -> Result<
        Seq<RpcDataV>,
        Seq<char>,
    > {
        Err("unknown method "@ + p.method_name)
    }

    /// No public methods exist here.
    open spec fn spec_receive_public_rpc(&self, p: RpcDataV) -> Result<Seq<RpcDataV>, Seq<char>> {
        Err("unknown method "@ + p.method_name)
    }

    fn get_info(&self, p: &Destination) -> (r: Result<VecModuleInfo, TransportError>) {
        let info = ModuleInfo {
            schema: SchemaIdentifier { val: self.schema.val.clone() },
            display_name: self.display_name.clone(),
        };
        let mut vec: Vec<ModuleInfo> = Vec::new();
        vec.push(info);
        let out = VecModuleInfo { vec };
        proof {
            assert(out@ =~= seq![
                ModuleInfoV { schema: self.schema@, display_name: self.display_name@ },
            ]);
        }
        Ok(out)
    }

    fn generate_message(&self, p: &GenerateMessageInfo) -> (r: Result<Data, TransportError>) {
        let test_name = <String as StringExecFns>::from_str("test");
        if p.template == test_name {
            if p.args.len() == 2 {
                let name = crate::codec::string_from_utf8(p.args[0].clone());
                let data = crate::codec::string_from_utf8(p.args[1].clone());
                match (name, data) {
                    (Some(name), Some(data)) => {
                        let t = Test { name, data };
                        let serialized = encode_test(&t);
                        Ok(
                            Data {
                                schema: SchemaIdentifier { val: self.schema.val.clone() },
                                serialized,
                            },
                        )
                    },
                    _ => Err(
                        TransportError::new(
                            <String as StringExecFns>::from_str(
                                "template test takes two text arguments",
                            ),
                        ),
                    ),
                }
            } else {
                Err(
                    TransportError::new(
                        <String as StringExecFns>::from_str(
                            "template test takes two text arguments",
                        ),
                    ),
                )
            }
        } else {
            let mut msg = <String as StringExecFns>::from_str("unknown template ");
            msg.append(p.template.as_str());
            msg.append("; the templates accepted here: test");
            Err(TransportError::new(msg))
        }
    }

    fn handle_trusted(&self, p: &Data) -> (r: Result<VecData, TransportError>) {
        let out = VecData { vec: Vec::new() };
        proof {
            assert(out@ =~= Seq::<DataV>::empty());
        }
        Ok(out)
    }

    fn receive_rpc_as_client(&self, p: &RpcData) -> (r: Result<VecRpcData, TransportError>) {
        let method = <String as StringExecFns>::from_str("ClientRPC/receive_test");
        if p.method_name == method {
            match decode_test(p.serialized.as_slice()) {
                Some(_t) => {
                    let out = VecRpcData { vec: Vec::new() };
                    proof {
                        assert(out@ =~= Seq::<RpcDataV>::empty());
                    }
                    Ok(out)
                },
                None => Err(
                    TransportError::new(
                        <String as StringExecFns>::from_str(
                            "cannot decode the argument of ClientRPC/receive_test",
                        ),
                    ),
                ),
            }
        } else {
            let mut msg = <String as StringExecFns>::from_str("unknown method ");
            msg.append(p.method_name.as_str());
            Err(TransportError::new(msg))
        }
    }

    fn receive_rpc_as_server(&self, p: &RpcData) -> (r: Result<VecRpcData, TransportError>) {
        let mut msg = <String as StringExecFns>::from_str("unknown method ");
        msg.append(p.method_name.as_str());
        Err(TransportError::new(msg))
    }

    fn receive_public_rpc(&self, p: &RpcData) -> (r: Result<VecRpcData, TransportError>) {
        let mut msg = <String as StringExecFns>::from_str("unknown method ");
        msg.append(p.method_name.as_str());
        Err(TransportError::new(msg))
    }
}

} // verus!
