//! The plugin table: foreign modules registered under every schema they
//! report, behind a protocol-version gate. Loading and lookup never race
//! in spirit: a failed load leaves the table exactly as it was.

use vstd::prelude::*;
use vstd::string::*;
use crate::schema::SchemaIdentifier;
use crate::transport::{GenerateMessageInfo, Data, TransportError, VecModuleInfo, ModuleInfoV, VecData, Payload, Transport, TransportV};
use crate::transport_glue::spec_error_transport;
use crate::codec::sp_transports;
use crate::transport_glue::TransportRequest;
use crate::transportresponse::TransportCombiner;
use crate::pluginhandler::{CommonFFI, call_ffi_handle_request};

verus! {

/// One loaded foreign module, addressed through its boundary handle.
pub struct Plugin<H> {
    pub library: H,
}

impl<H: CommonFFI> Plugin<H> {
    /// Queries the foreign module's self-description through its single
    /// boundary entry point, as the loader does once at load time.
    pub fn get_info(&self) -> (r: Result<VecModuleInfo, TransportError>)
        ensures
            r matches Ok(v) ==> exists|results: Seq<crate::transport::TransportV>|
                v@ == crate::transportresponse::spec_infos_of(
                    #[trigger] crate::transportresponse::spec_kept(results),
                ),
    {
        let request = TransportRequest::create_GET_INFO(
            crate::transport::Destination { schema: None },
        );
        match call_ffi_handle_request(&self.library, &request) {
            Ok(results) => {
                let (infos, _log) = TransportCombiner::combine_to_VecModuleInfo(results);
                Ok(infos)
            },
            Err(e) => Err(e),
        }
    }

    /// Asks the foreign module to generate a message of the named
    /// template, through its single boundary entry point.
    pub fn generate_message(&self, data: GenerateMessageInfo) -> (r: Result<Data, TransportError>)
        ensures
            r matches Ok(d) ==> exists|results: Seq<crate::transport::TransportV>|
                {
                    let ds = crate::transportresponse::spec_datas_of(
                        #[trigger] crate::transportresponse::spec_kept(results),
                    );
                    ds.len() > 0 && d@ == ds[0]
                },
    {
        let transport = TransportRequest::create_GENERATE_MESSAGE(data);
        match call_ffi_handle_request(&self.library, &transport) {
            Ok(results) => {
                let ghost resultsv = results@.map_values(|t: Transport| t@);
                let (out, _log) = TransportCombiner::combine_to_Data(results);
                out
            },
            Err(e) => Err(e),
        }
    }
}

/// The last entry under a schema key, if the key is present: a later
/// registration shadows an earlier one for the same schema.
pub open spec fn spec_lookup_last(entries: Seq<(SchemaIdentifier, usize)>, s: Seq<char>) -> Option<
    int,
>
    decreases entries.len(),
{
    if entries.len() == 0 {
        None
    } else if entries.last().0@ == s {
        Some(entries.len() - 1)
    } else {
        spec_lookup_last(entries.drop_last(), s)
    }
}

/// A found entry lies inside the table.
proof fn lemma_lookup_last_in_range(entries: Seq<(SchemaIdentifier, usize)>, s: Seq<char>)
    requires
        spec_lookup_last(entries, s) is Some,
    ensures
        spec_lookup_last(entries, s) matches Some(i) && 0 <= i < entries.len(),
    decreases entries.len(),
{
    if entries.len() > 0 && entries.last().0@ != s {
        lemma_lookup_last_in_range(entries.drop_last(), s);
    }
}

/// The load-rejection text of the version gate, naming the version the
/// module reports and the version the host expects.
pub open spec fn spec_version_mismatch_text(reported: Seq<char>, expected: Seq<char>) -> Seq<
    char,
> {
    "protocol version mismatch: the module reports "@ + reported + " and the host expects "@
        + expected
}

/// The load-rejection text for a dispatch to a schema nobody registered,
/// naming the schema.
pub open spec fn spec_not_loaded_text(schema: Seq<char>) -> Seq<char> {
    "the requested schema is not loaded: "@ + schema
}

/// Every reported schema is non-empty: what a module must satisfy before
/// anything of it is registered.
pub open spec fn spec_all_schemas_nonempty(infos: Seq<ModuleInfoV>) -> bool {
    forall|i: int| 0 <= i < infos.len() ==> (#[trigger] infos[i]).schema.len() > 0
}

/// The table of loaded foreign modules, keyed by every schema each one
/// reported at load time. A table starts empty and grows only through
/// registration, which keeps every key pointing at a loaded plugin; the
/// contracts below rely on that shape.
pub struct PluginManager<H> {
    pub plugins: Vec<Plugin<H>>,
    pub map: Vec<(SchemaIdentifier, usize)>,
}

impl<H> PluginManager<H> {
    /// Every key points at a loaded plugin.
    pub open spec fn wf(&self) -> bool {
        forall|i: int| 0 <= i < self.map@.len() ==> (#[trigger] self.map@[i]).1 < self.plugins@.len()
    }

    /// The plugin index registered under a schema, newest registration
    /// first.
    pub open spec fn spec_lookup(&self, s: Seq<char>) -> Option<int> {
        match spec_lookup_last(self.map@, s) {
            None => None,
            Some(i) => Some(self.map@[i].1 as int),
        }
    }

    /// An empty table.
    pub fn new() -> (r: PluginManager<H>)
        ensures
            r.plugins@.len() == 0,
            r.map@.len() == 0,
            r.wf(),
    {
        PluginManager { plugins: Vec::new(), map: Vec::new() }
    }

    /// The compatibility gate and registration step of a load. When the
    /// module's reported protocol version matches the host's expectation,
    /// the handle is registered under every schema its self-description
    /// reported; otherwise nothing is registered at all, and the error
    /// names both versions. A failed load never leaves a partial
    /// registration behind.
    pub fn register_plugin(
        &mut self,
        plugin: Plugin<H>,
        infos: &VecModuleInfo,
        reported_version: &String,
        expected_version: &String,
    ) -> (r: Result<(), TransportError>)
        requires
            old(self).wf(),
        ensures
            final(self).wf(),
            reported_version@ != expected_version@ ==> {
                &&& (r matches Err(e) && e@ == spec_version_mismatch_text(
                    reported_version@,
                    expected_version@,
                ))
                &&& final(self).map@ == old(self).map@
                &&& final(self).plugins@ == old(self).plugins@
            },
            reported_version@ == expected_version@ && !spec_all_schemas_nonempty(infos@) ==> {
                &&& (r matches Err(e) && e@
                    == "the module reports an empty schema; nothing was registered"@)
                &&& final(self).map@ == old(self).map@
                &&& final(self).plugins@ == old(self).plugins@
            },
            reported_version@ == expected_version@ && spec_all_schemas_nonempty(infos@) ==> {
                &&& r is Ok
                &&& final(self).plugins@ == old(self).plugins@.push(plugin)
                &&& final(self).map@.len() == old(self).map@.len() + infos@.len()
                &&& final(self).map@.take(old(self).map@.len() as int) == old(self).map@
                &&& forall|j: int|
                    0 <= j < infos@.len() ==> {
                        &&& (#[trigger] final(self).map@[old(self).map@.len() + j]).0@
                            == infos@[j].schema
                        &&& final(self).map@[old(self).map@.len() + j].1
                            == old(self).plugins@.len()
                    }
            },
    {
        if !(*reported_version == *expected_version) {
            let mut msg = <String as StringExecFns>::from_str(
                "protocol version mismatch: the module reports ",
            );
            msg.append(reported_version.as_str());
            msg.append(" and the host expects ");
            msg.append(expected_version.as_str());
            proof {
                assert(msg@ =~= spec_version_mismatch_text(
                    reported_version@,
                    expected_version@,
                ));
            }
            return Err(TransportError::new(msg));
        }
        let check_n = infos.vec.len();
        let mut c: usize = 0;
        while c < check_n
            invariant
                c <= check_n,
                check_n == infos.vec.len(),
                *self == *old(self),
                old(self).wf(),
                reported_version@ == expected_version@,
                forall|k: int| 0 <= k < c ==> (#[trigger] infos@[k]).schema.len() > 0,
            decreases check_n - c,
        {
            if infos.vec[c].schema.val.as_str().unicode_len() == 0 {
                proof {
                    assert((infos@[c as int]).schema.len() == 0);
                    assert(!spec_all_schemas_nonempty(infos@));
                }
                return Err(
                    TransportError::new(
                        <String as StringExecFns>::from_str(
                            "the module reports an empty schema; nothing was registered",
                        ),
                    ),
                );
            }
            c = c + 1;
        }
        let index = self.plugins.len();
        self.plugins.push(plugin);
        let n = infos.vec.len();
        let mut j: usize = 0;
        proof {
            assert(self.map@.take(old(self).map@.len() as int) =~= old(self).map@);
        }
        while j < n
            invariant
                j <= n,
                n == infos.vec.len(),
                index < self.plugins@.len(),
                self.plugins@ == old(self).plugins@.push(plugin),
                index == old(self).plugins@.len(),
                self.map@.len() == old(self).map@.len() + j,
                self.map@.take(old(self).map@.len() as int) == old(self).map@,
                forall|k: int| 0 <= k < j ==> {
                    &&& (#[trigger] self.map@[old(self).map@.len() + k]).0@ == infos@[k].schema
                    &&& self.map@[old(self).map@.len() + k].1 == index
                },
                old(self).wf(),
                self.wf(),
            decreases n - j,
        {
            let schema = SchemaIdentifier { val: infos.vec[j].schema.val.clone() };
            self.map.push((schema, index));
            proof {
                assert(self.map@.take(old(self).map@.len() as int) =~= old(self).map@);
            }
            j = j + 1;
        }
        Ok(())
    }

    /// The index of the plugin serving a schema, or nothing when no
    /// loaded plugin reported it.
    pub fn lookup(&self, hash: &String) -> (r: Option<usize>)
        ensures
            match r {
                Some(i) => self.spec_lookup(hash@) == Some(i as int),
                None => self.spec_lookup(hash@) is None,
            },
    {
        let mut i: usize = self.map.len();
        proof {
            assert(self.map@.take(i as int) =~= self.map@);
        }
        while i > 0
            invariant
                i <= self.map@.len(),
                spec_lookup_last(self.map@.take(i as int), hash@) == spec_lookup_last(
                    self.map@,
                    hash@,
                ),
            decreases i,
        {
            let ghost pre = self.map@.take(i as int);
            proof {
                assert(pre.last() == self.map@[i - 1]);
                assert(pre.drop_last() =~= self.map@.take(i - 1));
            }
            if self.map[i - 1].0.val == *hash {
                return Some(self.map[i - 1].1);
            }
            i = i - 1;
        }
        proof {
            assert(self.map@.take(0) =~= Seq::<(SchemaIdentifier, usize)>::empty());
        }
        None
    }
}

impl<H: CommonFFI> PluginManager<H> {
    /// Generates a message of the named template through the plugin
    /// registered under the schema. A schema nobody registered is exactly
    /// the error that names it; what a registered plugin answers is the
    /// plugin's own affair.
    pub fn generate_message(&self, hash: &String, template_name: &String) -> (r: Result<
        Data,
        TransportError,
    >)
        requires
            self.wf(),
        ensures
            self.spec_lookup(hash@) is None ==> (r matches Err(e) && e@ == spec_not_loaded_text(
                hash@,
            )),
    {
        match self.lookup(hash) {
            None => {
                let mut msg = <String as StringExecFns>::from_str(
                    "the requested schema is not loaded: ",
                );
                msg.append(hash.as_str());
                Err(TransportError::new(msg))
            },
            Some(index) => {
                proof {
                    lemma_lookup_last_in_range(self.map@, hash@);
                }
                let plugin = &self.plugins[index];
                let info = GenerateMessageInfo {
                    schema: SchemaIdentifier { val: hash.clone() },
                    template: template_name.clone(),
                    args: Vec::new(),
                };
                plugin.generate_message(info)
            },
        }
    }
}

impl<H: CommonFFI> PluginManager<H> {
    /// Hands an authenticated message to the plugin registered under the
    /// message's own schema and returns the follow-up messages it
    /// answered with, beside the failures it logged; the caller decides
    /// how to dispatch the follow-ups. A schema nobody registered is
    /// exactly the error that names it.
    pub fn handle_msg_and_submsgs(&self, data: Data) -> (r: Result<
        (VecData, Vec<TransportError>),
        TransportError,
    >)
        requires
            self.wf(),
        ensures
            self.spec_lookup(data@.schema) is None ==> (r matches Err(e) && e@
                == spec_not_loaded_text(data@.schema)),
    {
        let hash = data.schema.val.clone();
        match self.lookup(&hash) {
            None => {
                let mut msg = <String as StringExecFns>::from_str(
                    "the requested schema is not loaded: ",
                );
                msg.append(hash.as_str());
                Err(TransportError::new(msg))
            },
            Some(index) => {
                proof {
                    lemma_lookup_last_in_range(self.map@, hash@);
                }
                let plugin = &self.plugins[index];
                let transport = TransportRequest::create_HANDLE_TRUSTED(data);
                match call_ffi_handle_request(&plugin.library, &transport) {
                    Ok(results) => Ok(TransportCombiner::combine_to_VecData(results)),
                    Err(e) => Err(e),
                }
            },
        }
    }

    /// Carries one envelope to the plugin registered under its
    /// destination schema and hands every result back as data: a missing
    /// destination, an unknown schema, and a failed boundary call each
    /// become a single error envelope naming the reason, never a crash.
    /// When the call went through, the results are whatever the foreign
    /// module answered, decoded from some byte sequence.
    pub fn transport_data(&self, transport: &Transport) -> (r: Vec<Transport>)
        requires
            self.wf(),
        ensures
            ({
                let rv = r@.map_values(|t: Transport| t@);
                match transport@.destination {
                    None => rv == seq![
                        spec_error_transport("the envelope names no destination schema"@),
                    ],
                    Some(schema) => {
                        if self.spec_lookup(schema) is None {
                            rv == seq![
                                spec_error_transport(
                                    "no loaded module supports the destination schema "@
                                        + schema,
                                ),
                            ]
                        } else {
                            (exists|bs: Seq<u8>|
                                {
                                    &&& #[trigger] sp_transports(bs) matches Some(pair)
                                    &&& pair.0 == rv
                                    &&& pair.1.len() == 0
                                }) || (exists|e: Seq<char>|
                                rv == seq![
                                    #[trigger] spec_error_transport(
                                        "Return Transport Error: "@ + e,
                                    ),
                                ])
                        }
                    },
                }
            }),
    {
        let dest = match &transport.destination {
            None => {
                let err = TransportRequest::create_Transport_result(
                    Payload::error(
                        TransportError::new(
                            <String as StringExecFns>::from_str(
                                "the envelope names no destination schema",
                            ),
                        ),
                    ),
                );
                let mut out: Vec<Transport> = Vec::new();
                out.push(err);
                proof {
                    assert(out@.map_values(|t: Transport| t@) =~= seq![
                        spec_error_transport("the envelope names no destination schema"@),
                    ]);
                }
                return out;
            },
            Some(schema) => schema,
        };
        match self.lookup(&dest.val) {
            None => {
                let mut msg = <String as StringExecFns>::from_str(
                    "no loaded module supports the destination schema ",
                );
                msg.append(dest.val.as_str());
                let err = TransportRequest::create_Transport_result(
                    Payload::error(TransportError::new(msg)),
                );
                let mut out: Vec<Transport> = Vec::new();
                out.push(err);
                proof {
                    assert(out@.map_values(|t: Transport| t@) =~= seq![
                        spec_error_transport(
                            "no loaded module supports the destination schema "@ + dest@,
                        ),
                    ]);
                }
                out
            },
            Some(index) => {
                proof {
                    lemma_lookup_last_in_range(self.map@, dest@);
                }
                let plugin = &self.plugins[index];
                match call_ffi_handle_request(&plugin.library, transport) {
                    Ok(results) => results,
                    Err(e) => {
                        let mut msg = <String as StringExecFns>::from_str(
                            "Return Transport Error: ",
                        );
                        msg.append(e.val.as_str());
                        let err = TransportRequest::create_Transport_result(
                            Payload::error(TransportError::new(msg)),
                        );
                        let mut out: Vec<Transport> = Vec::new();
                        out.push(err);
                        proof {
                            assert(out@.map_values(|t: Transport| t@) =~= seq![
                                spec_error_transport("Return Transport Error: "@ + e@),
                            ]);
                        }
                        out
                    },
                }
            },
        }
    }
}

/// The two foreign-call boundaries a module can be loaded behind.
pub enum BoundaryKind {
    /// A native shared library, called through its exported entry point.
    Native,
    /// A sandboxed bytecode module, called through the rendezvous
    /// tables.
    Sandboxed,
}

/// Whether a path names a sandboxed bytecode module: it ends in the
/// bytecode extension.
pub open spec fn spec_is_wasm_path(s: Seq<char>) -> bool {
    s.len() >= 5 && s.subrange(s.len() - 5, s.len() as int) == ".wasm"@
}

/// Selects the boundary to load a module behind, by its path's
/// extension: bytecode goes behind the sandboxed boundary, everything
/// else behind the native one.
pub fn select_boundary(path: &str) -> (r: BoundaryKind)
    ensures
        r is Sandboxed <==> spec_is_wasm_path(path@),
{
    proof {
        reveal_strlit(".wasm");
    }
    let n = path.unicode_len();
    if n < 5 {
        return BoundaryKind::Native;
    }
    let suffix = ".wasm";
    let mut j: usize = 0;
    while j < 5
        invariant
            j <= 5,
            n == path@.len(),
            n >= 5,
            suffix@ == ".wasm"@,
            suffix@.len() == 5,
            forall|k: int| 0 <= k < j ==> path@[n - 5 + k] == ".wasm"@[k],
        decreases 5 - j,
    {
        let a = path.get_char(n - 5 + j);
        let b = suffix.get_char(j);
        if a != b {
            proof {
                if spec_is_wasm_path(path@) {
                    assert(path@.subrange(n - 5, n as int)[j as int] == ".wasm"@[j as int]);
                }
            }
            return BoundaryKind::Native;
        }
        j = j + 1;
    }
    proof {
        assert(path@.subrange(n - 5, n as int) =~= ".wasm"@);
    }
    BoundaryKind::Sandboxed
}

} // verus!
