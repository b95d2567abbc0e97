//! A schema-addressed message router. Every message travels as a binary
//! envelope that declares the schema it was encoded with; the router
//! finds every loaded handler module willing to accept that schema,
//! delivers the message, and merges the per-module results, discarding
//! and logging failures instead of failing the whole dispatch.
//!
//! The pieces, leaf to root: the envelope and its wire format
//! ([`transport`], [`codec`]), the operation set every handler exposes
//! ([`common`]), the glue between envelopes and operations
//! ([`transport_glue`]), the propagation tree ([`propagator`]), the
//! result combiner ([`transportresponse`]), the plugin table with its
//! version gate ([`pluginmanager`]), the byte-level foreign boundary
//! ([`pluginhandler`]), the rendezvous tables of the sandboxed boundary
//! ([`wasmhandler`]), and the cascade runner ([`transporter`]).

use vstd::prelude::*;

pub mod schema;
pub mod transport;
pub mod codec;
pub mod common;
pub mod transport_glue;
pub mod propagator;
pub mod transportresponse;
pub mod test_interface;
pub mod root_interface;
pub mod pluginhandler;
pub mod pluginmanager;
pub mod wasmhandler;
pub mod buildfunctions;
pub mod transporter;
pub mod commonlibrary;

pub use crate::schema::SchemaIdentifier;
pub use crate::transport::{RequestType, Transport, TransportError};
pub use crate::common::CommonModule;
pub use crate::propagator::{Propagator, TransportNode};
pub use crate::transporter::{RootTransporter, Transporter};
pub use crate::pluginhandler::CommonFFI;

verus! {

/// The tree of in-process handler modules together with the byte-level
/// boundary entry over it: what a plugin hands its received bytes to.
pub struct PluginHandler<M> {
    pub node: TransportNode<M>,
}

impl<M: CommonModule> PluginHandler<M> {
    /// A handler around an empty tree.
    pub fn new() -> (r: PluginHandler<M>)
        ensures
            r.node.modules@.len() == 0,
            r.node.nodes@.len() == 0,
    {
        PluginHandler { node: TransportNode::new() }
    }

    /// The module side of the foreign boundary over this handler's tree:
    /// bytes in, bytes out, never an unwind.
    pub fn handle_received_bytes(&self, bytes: &[u8]) -> (r: Vec<u8>)
        ensures
            r@ == crate::pluginhandler::spec_ffi_response(&self.node, bytes@),
    {
        crate::pluginhandler::ffi_handle_received_bytes(&self.node, bytes)
    }
}

} // verus!
