//! The byte-level entry point of the foreign boundary, and the host-side
//! call into a foreign module. Whatever arrives as bytes is decoded,
//! dispatched, and the results are encoded back; a decode failure travels
//! back as a well-formed error envelope, never as an unwind.

use vstd::prelude::*;
use crate::transport::{Transport, TransportError};
use crate::transport_glue::spec_error_transport;
use crate::propagator::Propagator;
use crate::codec::{sp_transport, se_transports, sp_transports, encode_transport, decode_transport, encode_transports, decode_transports};

verus! {

/// What the byte entry point answers: the encoded dispatch results when
/// the bytes are exactly one envelope, and one encoded error envelope
/// otherwise.
pub open spec fn spec_ffi_response<P: Propagator>(node: &P, bytes: Seq<u8>) -> Seq<u8> {
    match sp_transport(bytes) {
        Some(pair) => if pair.1.len() == 0 {
            se_transports(node.spec_propagate_view(pair.0))
        } else {
            se_transports(
                seq![spec_error_transport("cannot parse data, possibly incorrect version"@)],
            )
        },
        None => se_transports(
            seq![spec_error_transport("cannot parse data, possibly incorrect version"@)],
        ),
    }
}

/// The module side of the foreign boundary: bytes in, bytes out. The
/// bytes are decoded into an envelope, dispatched through the given
/// router, and the collected results are encoded back. Malformed bytes
/// yield one well-formed error envelope instead of a failure.
pub fn ffi_handle_received_bytes<P: Propagator>(node: &P, bytes: &[u8]) -> (r: Vec<u8>)
    ensures
        r@ == spec_ffi_response(node, bytes@),
{
    match decode_transport(bytes) {
        Ok(transport) => {
            let results = node.propagate_transport(&transport);
            encode_transports(&results)
        },
        Err(_) => {
            let err = crate::transportresponse::TransportResponse::create_TransportError(
                "cannot parse data, possibly incorrect version",
            );
            let mut out: Vec<Transport> = Vec::new();
            out.push(err);
            let enc = encode_transports(&out);
            proof {
                assert(out@.map_values(|t: Transport| t@) =~= seq![
                    spec_error_transport("cannot parse data, possibly incorrect version"@),
                ]);
            }
            enc
        },
    }
}

/// One synchronous, blocking call across the foreign boundary. The host
/// hands over the serialized request envelope and receives serialized
/// result envelopes; what the foreign code computes is its own affair.
/// Implementations live outside this crate, one per boundary kind.
pub trait CommonFFI {
    /// Carries serialized bytes across the boundary and brings the
    /// serialized answer back, or reports that the call itself failed.
    fn call_ffi_raw(&self, bytes: &Vec<u8>) -> Result<Vec<u8>, TransportError>;

    /// The module's one-time setup, called once before any other call.
    fn call_ffi_init(&self) -> Result<(), TransportError>;
}

/// The host side of the foreign boundary: serializes the request
/// envelope, carries it across, and decodes whatever came back. Since the
/// foreign code is not to be trusted, every outcome is accounted for: a
/// successful result is always a collection that decodes from some byte
/// sequence, and bytes that do not decode are an error, never a crash.
pub fn call_ffi_handle_request<F: CommonFFI>(library: &F, request: &Transport) -> (r: Result<
    Vec<Transport>,
    TransportError,
>)
    ensures
        r matches Ok(ts) ==> exists|bs: Seq<u8>|
            {
                &&& #[trigger] sp_transports(bs) matches Some(pair)
                &&& pair.0 == ts@.map_values(|t: Transport| t@)
                &&& pair.1.len() == 0
            },
{
    let bytes = encode_transport(request);
    match library.call_ffi_raw(&bytes) {
        Ok(from_ffi) => match decode_transports(from_ffi.as_slice()) {
            Ok(ts) => {
                proof {
                    let bs = from_ffi@;
                    assert(sp_transports(bs) matches Some(pair) && pair.0 == ts@.map_values(
                        |t: Transport| t@,
                    ) && pair.1.len() == 0);
                }
                Ok(ts)
            },
            Err(e) => Err(e),
        },
        Err(e) => Err(e),
    }
}

} // verus!
