//! The module contract: the fixed operation set that every handler exposes,
//! whether it is linked in-process or reached across a foreign boundary.

use vstd::prelude::*;
use crate::transport::{Destination, DestinationV, GenerateMessageInfo, GenerateMessageInfoV, Data, DataV, RpcData, RpcDataV, TransportError, VecModuleInfo, ModuleInfoV, VecData, VecRpcData};

verus! {

/// The view of a `get_info` outcome: the described modules, or the failure
/// text.
pub open spec fn view_info_result(r: Result<VecModuleInfo, TransportError>) -> Result<
    Seq<ModuleInfoV>,
    Seq<char>,
> {
    match r {
        Ok(v) => Ok(v@),
        Err(e) => Err(e@),
    }
}

/// The view of a `generate_message` outcome.
pub open spec fn view_data_result(r: Result<Data, TransportError>) -> Result<DataV, Seq<char>> {
    match r {
        Ok(d) => Ok(d@),
        Err(e) => Err(e@),
    }
}

/// The view of a `handle_trusted` outcome.
pub open spec fn view_vecdata_result(r: Result<VecData, TransportError>) -> Result<
    Seq<DataV>,
    Seq<char>,
> {
    match r {
        Ok(v) => Ok(v@),
        Err(e) => Err(e@),
    }
}

/// The view of an RPC outcome.
pub open spec fn view_vecrpc_result(r: Result<VecRpcData, TransportError>) -> Result<
    Seq<RpcDataV>,
    Seq<char>,
> {
    match r {
        Ok(v) => Ok(v@),
        Err(e) => Err(e@),
    }
}

/// The operation set of a handler module. Each executable operation is
/// pinned to a spec-level counterpart, so that everything routed through a
/// module can be reasoned about from the module value alone.
///
/// The crate's own in-process modules implement and prove this contract.
/// A handler that lives outside the process never implements it: such a
/// handler is reached through the foreign boundary instead.
pub trait CommonModule: Sized {
    /// What `get_info` answers.
    spec fn spec_get_info(&self, p: DestinationV) -> Result<Seq<ModuleInfoV>, Seq<char>>;

    /// What `generate_message` answers.
    spec fn spec_generate_message(&self, p: GenerateMessageInfoV) -> Result<DataV, Seq<char>>;

    /// What `handle_trusted` answers.
    spec fn spec_handle_trusted(&self, p: DataV) -> Result<Seq<DataV>, Seq<char>>;

    /// What `receive_rpc_as_client` answers.
    spec fn spec_receive_rpc_as_client(&self, p: RpcDataV) -> Result<Seq<RpcDataV>, Seq<char>>;

    /// What `receive_rpc_as_server` answers.
    spec fn spec_receive_rpc_as_server(&self, p: RpcDataV) -> Result<Seq<RpcDataV>, Seq<char>>;

    /// What `receive_public_rpc` answers.
    spec fn spec_receive_public_rpc(&self, p: RpcDataV) -> Result<Seq<RpcDataV>, Seq<char>>;

    /// Self-description; called once at load time and freely re-queried.
    fn get_info(&self, p: &Destination) -> (r: Result<VecModuleInfo, TransportError>)
        ensures
            view_info_result(r) == self.spec_get_info(p@),
    ;

    /// Produce a message of a named template from raw byte arguments.
    fn generate_message(&self, p: &GenerateMessageInfo) -> (r: Result<Data, TransportError>)
        ensures
            view_data_result(r) == self.spec_generate_message(p@),
    ;

    /// Process an authenticated message; may return follow-up messages to
    /// be routed again.
    fn handle_trusted(&self, p: &Data) -> (r: Result<VecData, TransportError>)
        ensures
            view_vecdata_result(r) == self.spec_handle_trusted(p@),
    ;

    /// A remote call in the trusted client role.
    fn receive_rpc_as_client(&self, p: &RpcData) -> (r: Result<VecRpcData, TransportError>)
        ensures
            view_vecrpc_result(r) == self.spec_receive_rpc_as_client(p@),
    ;

    /// A remote call in the trusted server role.
    fn receive_rpc_as_server(&self, p: &RpcData) -> (r: Result<VecRpcData, TransportError>)
        ensures
            view_vecrpc_result(r) == self.spec_receive_rpc_as_server(p@),
    ;

    /// A remote call from an untrusted peer.
    fn receive_public_rpc(&self, p: &RpcData) -> (r: Result<VecRpcData, TransportError>)
        ensures
            view_vecrpc_result(r) == self.spec_receive_public_rpc(p@),
    ;
}

} // verus!
