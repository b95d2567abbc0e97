//! The buffer-rendezvous scheme of the sandboxed boundary. The guest
//! environment cannot reach host memory, so argument and result bytes are
//! parked in a table under an integer identifier, and only the identifier
//! and a length cross the boundary. Every identifier is single-use:
//! writing under a live identifier is a protocol violation and is
//! refused, and reading removes the entry, so the table never grows
//! without bound.

use vstd::prelude::*;
use vstd::string::*;
use crate::transport::{Transport, TransportError};
use crate::codec::{encode_transport, decode_transports, sp_transports};

verus! {

/// The bytes parked under an identifier, if any: the first entry wins,
/// though a well-formed table never holds two entries under one
/// identifier.
pub open spec fn spec_get_entries(es: Seq<(i32, Vec<u8>)>, id: i32) -> Option<Seq<u8>>
    decreases es.len(),
{
    if es.len() == 0 {
        None
    } else if es[0].0 == id {
        Some(es[0].1@)
    } else {
        spec_get_entries(es.drop_first(), id)
    }
}

/// A rendezvous table: byte buffers parked under single-use integer
/// identifiers.
pub struct RendezvousTable {
    entries: Vec<(i32, Vec<u8>)>,
}

impl RendezvousTable {
    /// No identifier is parked twice. Outside this crate the table can
    /// only be built empty and changed through the operations below, so
    /// every reachable table is well-formed.
    pub closed spec fn wf(&self) -> bool {
        forall|i: int, j: int|
            0 <= i < j < self.entries@.len() ==> (#[trigger] self.entries@[i]).0 != (
            #[trigger] self.entries@[j]).0
    }

    /// The bytes parked under an identifier, if any.
    pub closed spec fn spec_get(&self, id: i32) -> Option<Seq<u8>> {
        spec_get_entries(self.entries@, id)
    }

    /// How many identifiers are live.
    pub closed spec fn spec_len(&self) -> nat {
        self.entries@.len()
    }

    /// How many identifiers are live.
    pub fn len(&self) -> (r: usize)
        ensures
            r == self.spec_len(),
    {
        self.entries.len()
    }

    /// An empty table.
    pub fn new() -> (r: RendezvousTable)
        ensures
            r.wf(),
            r.spec_len() == 0,
            forall|id: i32| r.spec_get(id) is None,
    {
        let t = RendezvousTable { entries: Vec::new() };
        proof {
            assert forall|id: i32| t.spec_get(id) is None by {
                assert(t.entries@.len() == 0);
            }
        }
        t
    }

    /// Whether an identifier is live.
    pub fn contains(&self, identifier: i32) -> (r: bool)
        ensures
            r == (self.spec_get(identifier) is Some),
    {
        let n = self.entries.len();
        let mut i: usize = 0;
        proof {
            assert(self.entries@.skip(0) =~= self.entries@);
        }
        while i < n
            invariant
                i <= n,
                n == self.entries@.len(),
                spec_get_entries(self.entries@.skip(i as int), identifier) == self.spec_get(
                    identifier,
                ),
            decreases n - i,
        {
            let ghost rest = self.entries@.skip(i as int);
            proof {
                assert(rest[0] == self.entries@[i as int]);
                assert(rest.drop_first() =~= self.entries@.skip(i + 1));
            }
            if self.entries[i].0 == identifier {
                return true;
            }
            i = i + 1;
        }
        proof {
            assert(self.entries@.skip(n as int) =~= Seq::<(i32, Vec<u8>)>::empty());
        }
        false
    }

    /// Parks bytes under an identifier. A live identifier is refused
    /// unchanged: reuse is a protocol violation of the guest, reported,
    /// never a crash.
    pub fn put(&mut self, identifier: i32, bytes: Vec<u8>) -> (r: bool)
        requires
            old(self).wf(),
        ensures
            final(self).wf(),
            old(self).spec_get(identifier) is Some ==> r == false && *final(self) == *old(self),
            old(self).spec_get(identifier) is None ==> {
                &&& r == true
                &&& final(self).spec_get(identifier) == Some(bytes@)
                &&& forall|other: i32|
                    other != identifier ==> #[trigger] final(self).spec_get(other) == old(
                        self,
                    ).spec_get(other)
            },
    {
        if self.contains(identifier) {
            false
        } else {
            proof {
                lemma_get_none_no_index(self.entries@, identifier);
            }
            self.entries.push((identifier, bytes));
            proof {
                lemma_get_push(old(self).entries@, identifier, bytes, identifier);
                assert forall|other: i32| other != identifier implies #[trigger] self.spec_get(
                    other,
                ) == old(self).spec_get(other) by {
                    lemma_get_push(old(self).entries@, identifier, bytes, other);
                }
            }
            true
        }
    }

    /// Takes the bytes parked under an identifier out of the table: each
    /// identifier hands its bytes out once, then it is gone.
    pub fn take(&mut self, identifier: i32) -> (r: Option<Vec<u8>>)
        requires
            old(self).wf(),
        ensures
            final(self).wf(),
            match r {
                Some(b) => {
                    &&& old(self).spec_get(identifier) == Some(b@)
                    &&& final(self).spec_get(identifier) is None
                    &&& forall|other: i32|
                        other != identifier ==> #[trigger] final(self).spec_get(other) == old(
                            self,
                        ).spec_get(other)
                },
                None => old(self).spec_get(identifier) is None && *final(self) == *old(self),
            },
    {
        let n = self.entries.len();
        let mut i: usize = 0;
        proof {
            assert(self.entries@.skip(0) =~= self.entries@);
        }
        while i < n
            invariant
                i <= n,
                n == self.entries@.len(),
                *self == *old(self),
                old(self).wf(),
                spec_get_entries(self.entries@.skip(i as int), identifier) == self.spec_get(
                    identifier,
                ),
                forall|k: int|
                    0 <= k < i ==> (#[trigger] self.entries@[k]).0 != identifier,
            decreases n - i,
        {
            let ghost rest = self.entries@.skip(i as int);
            proof {
                assert(rest[0] == self.entries@[i as int]);
                assert(rest.drop_first() =~= self.entries@.skip(i + 1));
            }
            if self.entries[i].0 == identifier {
                let (_id, bytes) = self.entries.remove(i);
                proof {
                    let es = old(self).entries@;
                    assert forall|a: int, b: int|
                        0 <= a < b < self.entries@.len() implies (#[trigger] self.entries@[a]).0
                        != (#[trigger] self.entries@[b]).0 by {
                        if a < i as int {
                            assert(self.entries@[a] == es[a]);
                        } else {
                            assert(self.entries@[a] == es[a + 1]);
                        }
                        if b < i as int {
                            assert(self.entries@[b] == es[b]);
                        } else {
                            assert(self.entries@[b] == es[b + 1]);
                        }
                    }
                    lemma_get_remove(old(self).entries@, i as int, identifier);
                    assert forall|other: i32| other != identifier implies #[trigger] self.spec_get(
                        other,
                    ) == old(self).spec_get(other) by {
                        lemma_get_remove(old(self).entries@, i as int, other);
                    }
                }
                return Some(bytes);
            }
            i = i + 1;
        }
        proof {
            assert(self.entries@.skip(n as int) =~= Seq::<(i32, Vec<u8>)>::empty());
        }
        None
    }

    /// Parks argument bytes under a freshly drawn random identifier,
    /// drawing again on a collision, up to the given number of attempts.
    /// The identifier handed back is live and holds exactly those bytes.
    pub fn allocate_identifier(&mut self, bytes: Vec<u8>, attempts: usize) -> (r: Result<
        i32,
        TransportError,
    >)
        requires
            old(self).wf(),
        ensures
            final(self).wf(),
            match r {
                Ok(id) => {
                    &&& old(self).spec_get(id) is None
                    &&& final(self).spec_get(id) == Some(bytes@)
                    &&& forall|other: i32|
                        other != id ==> #[trigger] final(self).spec_get(other) == old(
                            self,
                        ).spec_get(other)
                },
                Err(_) => *final(self) == *old(self),
            },
        decreases attempts,
    {
        if attempts == 0 {
            return Err(
                TransportError::new(
                    <String as StringExecFns>::from_str(
                        "cannot draw a fresh rendezvous identifier",
                    ),
                ),
            );
        }
        let id = random_i32();
        if self.contains(id) {
            self.allocate_identifier(bytes, attempts - 1)
        } else {
            let ok = self.put(id, bytes);
            Ok(id)
        }
    }
}

/// Relies on rand::random: an arbitrary machine integer; nothing is
/// promised of its value, and two draws may or may not differ.
#[verifier::external_body]
fn random_i32() -> i32 {
    rand::random::<i32>()
}

proof fn lemma_get_none_no_index(es: Seq<(i32, Vec<u8>)>, id: i32)
    requires
        spec_get_entries(es, id) is None,
    ensures
        forall|k: int| 0 <= k < es.len() ==> (#[trigger] es[k]).0 != id,
    decreases es.len(),
{
    if es.len() > 0 {
        lemma_get_none_no_index(es.drop_first(), id);
        assert forall|k: int| 0 <= k < es.len() implies (#[trigger] es[k]).0 != id by {
            if k > 0 {
                assert(es.drop_first()[k - 1] == es[k]);
            }
        }
    }
}

/// Looking an identifier up after parking a new entry at the end: the new
/// identifier finds the new bytes if it was absent, and every other
/// identifier finds what it found before.
proof fn lemma_get_push(es: Seq<(i32, Vec<u8>)>, id: i32, bytes: Vec<u8>, probe: i32)
    ensures
        spec_get_entries(es.push((id, bytes)), probe) == if probe == id {
            match spec_get_entries(es, id) {
                Some(b) => Some(b),
                None => Some(bytes@),
            }
        } else {
            spec_get_entries(es, probe)
        },
    decreases es.len(),
{
    let s = es.push((id, bytes));
    if es.len() == 0 {
        assert(s[0] == (id, bytes));
        assert(s.drop_first() =~= Seq::<(i32, Vec<u8>)>::empty());
    } else {
        assert(s[0] == es[0]);
        assert(s.drop_first() =~= es.drop_first().push((id, bytes)));
        lemma_get_push(es.drop_first(), id, bytes, probe);
    }
}

/// Looking an identifier up after removing one entry: the removed
/// identifier is gone (in a well-formed table), and every other
/// identifier finds what it found before.
proof fn lemma_get_remove(es: Seq<(i32, Vec<u8>)>, i: int, probe: i32)
    requires
        0 <= i < es.len(),
        forall|a: int, b: int|
            0 <= a < b < es.len() ==> (#[trigger] es[a]).0 != (#[trigger] es[b]).0,
        forall|k: int| 0 <= k < i ==> (#[trigger] es[k]).0 != es[i].0,
    ensures
        spec_get_entries(es.remove(i), probe) == if probe == es[i].0 {
            None::<Seq<u8>>
        } else {
            spec_get_entries(es, probe)
        },
    decreases es.len(),
{
    if i == 0 {
        assert(es.remove(0) =~= es.drop_first());
        if probe == es[0].0 {
            lemma_get_absent(es.drop_first(), probe);
        }
    } else {
        assert(es.remove(i)[0] == es[0]);
        assert(es.remove(i).drop_first() =~= es.drop_first().remove(i - 1));
        assert forall|a: int, b: int|
            0 <= a < b < es.drop_first().len() implies (#[trigger] es.drop_first()[a]).0 != (
        #[trigger] es.drop_first()[b]).0 by {
            assert(es.drop_first()[a] == es[a + 1]);
            assert(es.drop_first()[b] == es[b + 1]);
        }
        assert forall|k: int| 0 <= k < i - 1 implies (#[trigger] es.drop_first()[k]).0 != es.drop_first()[
            i - 1
        ].0 by {
            assert(es.drop_first()[k] == es[k + 1]);
            assert(es.drop_first()[i - 1] == es[i]);
        }
        lemma_get_remove(es.drop_first(), i - 1, probe);
        assert(es.drop_first()[i - 1] == es[i]);
    }
}

/// An identifier no entry carries is not found.
proof fn lemma_get_absent(es: Seq<(i32, Vec<u8>)>, probe: i32)
    requires
        forall|k: int| 0 <= k < es.len() ==> (#[trigger] es[k]).0 != probe,
    ensures
        spec_get_entries(es, probe) is None,
    decreases es.len(),
{
    if es.len() > 0 {
        assert forall|k: int|
            0 <= k < es.drop_first().len() implies (#[trigger] es.drop_first()[k]).0 != probe by {
            assert(es.drop_first()[k] == es[k + 1]);
        }
        lemma_get_absent(es.drop_first(), probe);
    }
}

/// The guest side of the sandboxed boundary. A call hands over only an
/// identifier and a byte length; the guest pulls the argument bytes out
/// of the argument table, parks its result bytes in the result table
/// under an identifier of its own choosing, and answers with that
/// identifier. Implementations live outside this crate, wherever a guest
/// runtime is linked; nothing is assumed of what they do to the tables
/// beyond keeping them well-formed through the table operations
/// themselves.
pub trait WasmGuest {
    /// One blocking guest call: the argument identifier and length go
    /// in, the result identifier comes back, or the call itself fails.
    fn handle_request_ffi_wasm(
        &self,
        args: &mut RendezvousTable,
        rets: &mut RendezvousTable,
        identifier: i32,
        length: usize,
    ) -> (r: Result<i32, TransportError>)
        requires
            old(args).wf(),
            old(rets).wf(),
        ensures
            final(args).wf(),
            final(rets).wf(),
    ;
}

/// The host side of the sandboxed boundary: the serialized request is
/// parked under a fresh random identifier, the guest is called with only
/// that identifier and the length, and the guest's answer is pulled back
/// out of the result table and decoded. Both identifiers are single-use,
/// and the argument identifier is cleaned out on every path, so the
/// tables never grow without bound.
pub fn call_ffi_handle_request_wasm<G: WasmGuest>(
    guest: &G,
    args: &mut RendezvousTable,
    rets: &mut RendezvousTable,
    request: &Transport,
    attempts: usize,
) -> (r: Result<Vec<Transport>, TransportError>)
    requires
        old(args).wf(),
        old(rets).wf(),
    ensures
        final(args).wf(),
        final(rets).wf(),
        r matches Ok(ts) ==> exists|bs: Seq<u8>|
            {
                &&& #[trigger] sp_transports(bs) matches Some(pair)
                &&& pair.0 == ts@.map_values(|t: Transport| t@)
                &&& pair.1.len() == 0
            },
{
    let bytes = encode_transport(request);
    let length = bytes.len();
    let identifier = match args.allocate_identifier(bytes, attempts) {
        Ok(id) => id,
        Err(e) => {
            return Err(e);
        },
    };
    let called = guest.handle_request_ffi_wasm(args, rets, identifier, length);
    // The argument identifier must die here whatever happened: a guest
    // that never pulled its argument must not leave it parked forever.
    let _leftover_argument = args.take(identifier);
    match called {
        Ok(result_identifier) => match rets.take(result_identifier) {
            Some(from_ffi) => match decode_transports(from_ffi.as_slice()) {
                Ok(ts) => {
                    proof {
                        let bs = from_ffi@;
                        assert(sp_transports(bs) matches Some(pair) && pair.0 == ts@.map_values(
                            |t: Transport| t@,
                        ) && pair.1.len() == 0);
                    }
                    Ok(ts)
                },
                Err(e) => Err(e),
            },
            None => Err(
                TransportError::new(
                    <String as StringExecFns>::from_str(
                        "the guest answered with an identifier that holds no result",
                    ),
                ),
            ),
        },
        Err(e) => Err(e),
    }
}

} // verus!
