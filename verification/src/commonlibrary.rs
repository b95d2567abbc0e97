//! The handler modules this crate ships, as one value type, so a single
//! tree can hold any mix of them.

use vstd::prelude::*;
use crate::transport::{Destination, DestinationV, GenerateMessageInfo, GenerateMessageInfoV, ModuleInfoV, Data, DataV, RpcData, RpcDataV, TransportError, VecModuleInfo, VecData, VecRpcData};
use crate::common::CommonModule;
use crate::test_interface::Interface;
use crate::root_interface::RootInterface;

verus! {

/// One of the crate's own handler modules: the root-message handler or
/// the test-protocol handler. Every operation is the inner module's
/// operation.
pub enum StandardModule {
    Root(RootInterface),
    Test(Interface),
}

impl CommonModule for StandardModule {
    open spec fn spec_get_info(&self, p: DestinationV) -> Result<Seq<ModuleInfoV>, Seq<char>> {
        match self {
            StandardModule::Root(m) => m.spec_get_info(p),
            StandardModule::Test(m) => m.spec_get_info(p),
        }
    }

    open spec fn spec_generate_message(&self, p: GenerateMessageInfoV) -> Result<
        DataV,
        Seq<char>,
    > {
        match self {
            StandardModule::Root(m) => m.spec_generate_message(p),
            StandardModule::Test(m) => m.spec_generate_message(p),
        }
    }

    open spec fn spec_handle_trusted(&self, p: DataV) -> Result<Seq<DataV>, Seq<char>> {
        match self {
            StandardModule::Root(m) => m.spec_handle_trusted(p),
            StandardModule::Test(m) => m.spec_handle_trusted(p),
        }
    }

    open spec fn spec_receive_rpc_as_client(&self, p: RpcDataV) -> Result<
        Seq<RpcDataV>,
        Seq<char>,
    > {
        match self {
            StandardModule::Root(m) => m.spec_receive_rpc_as_client(p),
            StandardModule::Test(m) => m.spec_receive_rpc_as_client(p),
        }
    }

    open spec fn spec_receive_rpc_as_server(&self, p: RpcDataV) -> Result<
        Seq<RpcDataV>,
        Seq<char>,
    > {
        match self {
            StandardModule::Root(m) => m.spec_receive_rpc_as_server(p),
            StandardModule::Test(m) => m.spec_receive_rpc_as_server(p),
        }
    }

    open spec fn spec_receive_public_rpc(&self, p: RpcDataV) -> Result<Seq<RpcDataV>, Seq<char>> {
        match self {
            StandardModule::Root(m) => m.spec_receive_public_rpc(p),
            StandardModule::Test(m) => m.spec_receive_public_rpc(p),
        }
    }

    fn get_info(&self, p: &Destination) -> (r: Result<VecModuleInfo, TransportError>) {
        match self {
            StandardModule::Root(m) => m.get_info(p),
            StandardModule::Test(m) => m.get_info(p),
        }
    }

    fn generate_message(&self, p: &GenerateMessageInfo) -> (r: Result<Data, TransportError>) {
        match self {
            StandardModule::Root(m) => m.generate_message(p),
            StandardModule::Test(m) => m.generate_message(p),
        }
    }

    fn handle_trusted(&self, p: &Data) -> (r: Result<VecData, TransportError>) {
        match self {
            StandardModule::Root(m) => m.handle_trusted(p),
            StandardModule::Test(m) => m.handle_trusted(p),
        }
    }

    fn receive_rpc_as_client(&self, p: &RpcData) -> (r: Result<VecRpcData, TransportError>) {
        match self {
            StandardModule::Root(m) => m.receive_rpc_as_client(p),
            StandardModule::Test(m) => m.receive_rpc_as_client(p),
        }
    }

    fn receive_rpc_as_server(&self, p: &RpcData) -> (r: Result<VecRpcData, TransportError>) {
        match self {
            StandardModule::Root(m) => m.receive_rpc_as_server(p),
            StandardModule::Test(m) => m.receive_rpc_as_server(p),
        }
    }

    fn receive_public_rpc(&self, p: &RpcData) -> (r: Result<VecRpcData, TransportError>) {
        match self {
            StandardModule::Root(m) => m.receive_public_rpc(p),
            StandardModule::Test(m) => m.receive_public_rpc(p),
        }
    }
}

} // verus!
