//! The propagation tree: each node holds modules keyed by their schema and
//! child nodes. An envelope is delivered to every module in the tree whose
//! schema its destination addresses, root first; the results are the
//! concatenation of every addressed module's answer followed by the
//! children's results. One module's failure never blocks the others: it
//! becomes an error envelope among the results.

use vstd::prelude::*;
use crate::schema::{SchemaIdentifier, spec_matches};
use crate::transport::{Destination, TransportError, Transport, TransportV, Payload};
use crate::common::CommonModule;
use crate::transport_glue::{spec_handle_transport, spec_error_transport, handle_transport, TransportRequest};

verus! {

/// A routing node: modules keyed by the schema they serve, and child
/// nodes. Registration keeps the module list map-shaped (no schema
/// twice), and new nodes are only ever appended, so the structure stays
/// a tree.
pub struct TransportNode<M> {
    pub modules: Vec<(SchemaIdentifier, M)>,
    pub nodes: Vec<TransportNode<M>>,
}

/// What one module answers inside a dispatch: its glue result on success,
/// and its failure wrapped as a single error envelope otherwise.
pub open spec fn spec_module_output<M: CommonModule>(m: &M, t: TransportV) -> Seq<TransportV> {
    match spec_handle_transport(m, t) {
        Ok(ts) => ts,
        Err(e) => seq![spec_error_transport("Module Error: "@ + e)],
    }
}

/// The concatenated answers of the addressed modules in one module list,
/// in list order. A module is addressed exactly when the destination is
/// absent or equals its schema.
pub open spec fn spec_module_results<M: CommonModule>(
    mods: Seq<(SchemaIdentifier, M)>,
    t: TransportV,
) -> Seq<TransportV>
    decreases mods.len(),
{
    if mods.len() == 0 {
        Seq::empty()
    } else {
        let head = if spec_matches(t.destination, mods[0].0@) {
            spec_module_output(&mods[0].1, t)
        } else {
            Seq::empty()
        };
        head + spec_module_results(mods.drop_first(), t)
    }
}

impl<M: CommonModule> TransportNode<M> {
    /// The complete dispatch result of this node: its own modules' answers,
    /// then the children's, in order.
    pub open spec fn spec_propagate(&self, t: TransportV) -> Seq<TransportV>
        decreases *self,
    {
        spec_module_results(self.modules@, t) + spec_children_results(self.nodes@, t)
    }
}

/// The concatenated dispatch results of a list of child nodes.
pub open spec fn spec_children_results<M: CommonModule>(
    ns: Seq<TransportNode<M>>,
    t: TransportV,
) -> Seq<TransportV>
    decreases ns,
{
    if ns.len() == 0 {
        Seq::empty()
    } else {
        ns[0].spec_propagate(t) + spec_children_results(ns.drop_first(), t)
    }
}

/// The schemas of a module list that a destination addresses, in list
/// order.
pub open spec fn spec_matching_schemas<M: CommonModule>(
    mods: Seq<(SchemaIdentifier, M)>,
    dest: Option<Seq<char>>,
) -> Seq<Seq<char>>
    decreases mods.len(),
{
    if mods.len() == 0 {
        Seq::empty()
    } else {
        let rest = spec_matching_schemas(mods.drop_first(), dest);
        if spec_matches(dest, mods[0].0@) {
            seq![mods[0].0@] + rest
        } else {
            rest
        }
    }
}

/// No two modules of one node share a schema: the module list keeps the
/// shape of a map, as registration maintains it.
pub open spec fn spec_distinct_schemas<M>(mods: Seq<(SchemaIdentifier, M)>) -> bool {
    forall|i: int, j: int|
        0 <= i < j < mods.len() ==> (#[trigger] mods[i]).0@ != (#[trigger] mods[j]).0@
}

/// The position of the module registered under a schema, if any: the
/// first, which in a map-shaped list is the only one.
pub open spec fn spec_schema_index<M>(mods: Seq<(SchemaIdentifier, M)>, s: Seq<char>) -> Option<
    int,
>
    decreases mods.len(),
{
    if mods.len() == 0 {
        None
    } else if mods[0].0@ == s {
        Some(0)
    } else {
        match spec_schema_index(mods.drop_first(), s) {
            None => None,
            Some(k) => Some(k + 1),
        }
    }
}

/// A found position lies inside the list, carries the schema, and
/// nothing before it does.
proof fn lemma_schema_index_range<M>(mods: Seq<(SchemaIdentifier, M)>, s: Seq<char>)
    requires
        spec_schema_index(mods, s) is Some,
    ensures
        spec_schema_index(mods, s) matches Some(k) && 0 <= k < mods.len() && mods[k].0@ == s
            && forall|j: int| 0 <= j < k ==> (#[trigger] mods[j]).0@ != s,
    decreases mods.len(),
{
    if mods.len() > 0 && mods[0].0@ != s {
        lemma_schema_index_range(mods.drop_first(), s);
        let k0 = spec_schema_index(mods.drop_first(), s)->Some_0;
        assert forall|j: int| 0 <= j < k0 + 1 implies (#[trigger] mods[j]).0@ != s by {
            if j > 0 {
                assert(mods.drop_first()[j - 1] == mods[j]);
            }
        }
        assert(mods.drop_first()[k0] == mods[k0 + 1]);
    }
}

/// A schema without a position occurs nowhere in the list.
proof fn lemma_schema_index_none<M>(mods: Seq<(SchemaIdentifier, M)>, s: Seq<char>)
    requires
        spec_schema_index(mods, s) is None,
    ensures
        forall|j: int| 0 <= j < mods.len() ==> (#[trigger] mods[j]).0@ != s,
    decreases mods.len(),
{
    if mods.len() > 0 {
        lemma_schema_index_none(mods.drop_first(), s);
        assert forall|j: int| 0 <= j < mods.len() implies (#[trigger] mods[j]).0@ != s by {
            if j > 0 {
                assert(mods.drop_first()[j - 1] == mods[j]);
            }
        }
    }
}

/// Taking the one module registered under a schema out of a map-shaped
/// list leaves it map-shaped, with that schema gone.
proof fn lemma_distinct_after_replace<M>(
    orig: Seq<(SchemaIdentifier, M)>,
    mid: Seq<(SchemaIdentifier, M)>,
    s: Seq<char>,
)
    requires
        spec_distinct_schemas(orig),
        match spec_schema_index(orig, s) {
            None => mid == orig,
            Some(k) => mid == orig.remove(k),
        },
    ensures
        spec_distinct_schemas(mid),
        forall|j: int| 0 <= j < mid.len() ==> (#[trigger] mid[j]).0@ != s,
{
    match spec_schema_index(orig, s) {
        None => {
            lemma_schema_index_none(orig, s);
        },
        Some(k) => {
            lemma_schema_index_range(orig, s);
            assert forall|j: int| 0 <= j < mid.len() implies (#[trigger] mid[j]).0@ != s by {
                if j < k {
                    assert(mid[j] == orig[j]);
                } else {
                    assert(mid[j] == orig[j + 1]);
                }
            }
            assert forall|a: int, b: int|
                0 <= a < b < mid.len() implies (#[trigger] mid[a]).0@ != (
            #[trigger] mid[b]).0@ by {
                if a < k {
                    assert(mid[a] == orig[a]);
                } else {
                    assert(mid[a] == orig[a + 1]);
                }
                if b < k {
                    assert(mid[b] == orig[b]);
                } else {
                    assert(mid[b] == orig[b + 1]);
                }
            }
        },
    }
}

impl<M: CommonModule> TransportNode<M> {
    /// An empty node: no modules, no children. Valid, and answers every
    /// dispatch with no results.
    pub fn new() -> (r: TransportNode<M>)
        ensures
            r.modules@.len() == 0,
            r.nodes@.len() == 0,
    {
        TransportNode { modules: Vec::new(), nodes: Vec::new() }
    }

    /// Asks the module to describe itself and, when it reports exactly
    /// one description with a non-empty schema, registers it under that
    /// schema; a module already registered under the same schema is
    /// replaced, so the module list keeps the shape of a map. A module
    /// that reports no description, more than one, an empty schema, or a
    /// failure is not added, and the error says why.
    pub fn add_interface(&mut self, module: M) -> (r: Result<(), TransportError>)
        ensures
            final(self).nodes@ == old(self).nodes@,
            spec_distinct_schemas(old(self).modules@) ==> spec_distinct_schemas(
                final(self).modules@,
            ),
            match module.spec_get_info(crate::transport::DestinationV { schema: None }) {
                Ok(infos) => {
                    if infos.len() == 1 && infos[0].schema.len() > 0 {
                        &&& r is Ok
                        &&& final(self).modules@.len() >= 1
                        &&& final(self).modules@.last().0@ == infos[0].schema
                        &&& final(self).modules@.last().1 == module
                        &&& match spec_schema_index(old(self).modules@, infos[0].schema) {
                            None => final(self).modules@.drop_last() == old(self).modules@,
                            Some(k) => final(self).modules@.drop_last() == old(
                                self,
                            ).modules@.remove(k),
                        }
                    } else {
                        r is Err && final(self).modules@ == old(self).modules@
                    }
                },
                Err(_) => r is Err && final(self).modules@ == old(self).modules@,
            },
    {
        let probe = Destination { schema: None };
        match module.get_info(&probe) {
            Ok(vec_info) => {
                if vec_info.vec.len() == 1 {
                    let info = &vec_info.vec[0];
                    if info.schema.val.as_str().unicode_len() == 0 {
                        return Err(
                            TransportError::new(
                                <String as vstd::string::StringExecFns>::from_str(
                                    "module reports an empty schema",
                                ),
                            ),
                        );
                    }
                    let schema = SchemaIdentifier { val: info.schema.val.clone() };
                    match self.find_schema(&schema) {
                        Some(k) => {
                            proof {
                                lemma_schema_index_range(self.modules@, schema@);
                            }
                            let _replaced = self.modules.remove(k);
                        },
                        None => {
                            proof {
                                lemma_schema_index_none(self.modules@, schema@);
                            }
                        },
                    }
                    let ghost mid = self.modules@;
                    let ghost sv = schema@;
                    self.modules.push((schema, module));
                    proof {
                        assert(self.modules@.drop_last() =~= mid);
                        if spec_distinct_schemas(old(self).modules@) {
                            lemma_distinct_after_replace(old(self).modules@, mid, sv);
                            assert forall|a: int, b: int|
                                0 <= a < b < self.modules@.len() implies (
                            #[trigger] self.modules@[a]).0@ != (
                            #[trigger] self.modules@[b]).0@ by {
                                assert(self.modules@[a] == mid[a]);
                                if b < self.modules@.len() - 1 {
                                    assert(self.modules@[b] == mid[b]);
                                } else {
                                    assert(self.modules@[b].0@ == sv);
                                }
                            }
                        }
                    }
                    Ok(())
                } else if vec_info.vec.len() == 0 {
                    Err(TransportError::new(<String as vstd::string::StringExecFns>::from_str(
                        "no info available from module",
                    )))
                } else {
                    Err(TransportError::new(<String as vstd::string::StringExecFns>::from_str(
                        "module is returning too much info",
                    )))
                }
            },
            Err(e) => Err(e),
        }
    }

    /// The position of this node's module registered under a schema, if
    /// any.
    fn find_schema(&self, schema: &SchemaIdentifier) -> (r: Option<usize>)
        ensures
            match r {
                Some(k) => spec_schema_index(self.modules@, schema@) == Some(k as int),
                None => spec_schema_index(self.modules@, schema@) is None,
            },
    {
        let n = self.modules.len();
        let mut i: usize = 0;
        proof {
            assert(self.modules@.skip(0) =~= self.modules@);
        }
        while i < n
            invariant
                i <= n,
                n == self.modules@.len(),
                match spec_schema_index(self.modules@.skip(i as int), schema@) {
                    None => spec_schema_index(self.modules@, schema@) is None,
                    Some(k) => spec_schema_index(self.modules@, schema@) == Some(k + i),
                },
            decreases n - i,
        {
            let ghost rest = self.modules@.skip(i as int);
            proof {
                assert(rest[0] == self.modules@[i as int]);
                assert(rest.drop_first() =~= self.modules@.skip(i + 1));
            }
            if self.modules[i].0.val == schema.val {
                return Some(i);
            }
            i = i + 1;
        }
        proof {
            assert(self.modules@.skip(n as int) =~= Seq::<(SchemaIdentifier, M)>::empty());
        }
        None
    }

    /// Appends a child node.
    pub fn add_node(&mut self, node: TransportNode<M>)
        ensures
            final(self).modules@ == old(self).modules@,
            final(self).nodes@ == old(self).nodes@.push(node),
    {
        self.nodes.push(node);
    }

    /// The schemas of this node's modules that the envelope's destination
    /// addresses: every module schema when there is no destination, and
    /// exactly the equal ones otherwise.
    pub fn get_appropriate_modules(&self, transport: &Transport) -> (r: Vec<SchemaIdentifier>)
        ensures
            r@.map_values(|s: SchemaIdentifier| s@) == spec_matching_schemas(
                self.modules@,
                t_dest(transport),
            ),
    {
        let mut out: Vec<SchemaIdentifier> = Vec::new();
        let n = self.modules.len();
        let mut i: usize = 0;
        proof {
            assert(self.modules@.skip(0) =~= self.modules@);
            assert(out@.map_values(|s: SchemaIdentifier| s@) + spec_matching_schemas(
                self.modules@,
                t_dest(transport),
            ) =~= spec_matching_schemas(self.modules@, t_dest(transport)));
        }
        while i < n
            invariant
                i <= n,
                n == self.modules.len(),
                out@.map_values(|s: SchemaIdentifier| s@) + spec_matching_schemas(
                    self.modules@.skip(i as int),
                    t_dest(transport),
                ) == spec_matching_schemas(self.modules@, t_dest(transport)),
            decreases n - i,
        {
            let ghost pre = out@.map_values(|s: SchemaIdentifier| s@);
            let ghost rest = self.modules@.skip(i as int);
            proof {
                assert(rest[0] == self.modules@[i as int]);
                assert(rest.drop_first() =~= self.modules@.skip(i + 1));
            }
            if crate::schema::matches(&transport.destination, &self.modules[i].0) {
                out.push(SchemaIdentifier { val: self.modules[i].0.val.clone() });
                proof {
                    assert(out@.map_values(|s: SchemaIdentifier| s@) =~= pre.push(
                        self.modules@[i as int].0@,
                    ));
                    assert(pre + (seq![rest[0].0@] + spec_matching_schemas(
                        rest.drop_first(),
                        t_dest(transport),
                    )) =~= pre.push(self.modules@[i as int].0@) + spec_matching_schemas(
                        self.modules@.skip(i + 1),
                        t_dest(transport),
                    ));
                }
            }
            i = i + 1;
        }
        proof {
            assert(self.modules@.skip(n as int) =~= Seq::<(SchemaIdentifier, M)>::empty());
            assert(out@.map_values(|s: SchemaIdentifier| s@) + Seq::<Seq<char>>::empty()
                =~= out@.map_values(|s: SchemaIdentifier| s@));
        }
        out
    }

    /// Delivers the envelope to each of this node's addressed modules and
    /// collects every answer; one module's failure becomes an error
    /// envelope among the results and blocks nobody.
    pub fn handle_appropriate_modules(&self, transport: &Transport) -> (r: Vec<Transport>)
        ensures
            r@.map_values(|t: Transport| t@) == spec_module_results(self.modules@, transport@),
    {
        let mut out: Vec<Transport> = Vec::new();
        let n = self.modules.len();
        let mut i: usize = 0;
        proof {
            assert(self.modules@.skip(0) =~= self.modules@);
            assert(out@.map_values(|t: Transport| t@) + spec_module_results(
                self.modules@,
                transport@,
            ) =~= spec_module_results(self.modules@, transport@));
        }
        while i < n
            invariant
                i <= n,
                n == self.modules.len(),
                out@.map_values(|t: Transport| t@) + spec_module_results(
                    self.modules@.skip(i as int),
                    transport@,
                ) == spec_module_results(self.modules@, transport@),
            decreases n - i,
        {
            let ghost pre = out@.map_values(|t: Transport| t@);
            let ghost rest = self.modules@.skip(i as int);
            proof {
                assert(rest[0] == self.modules@[i as int]);
                assert(rest.drop_first() =~= self.modules@.skip(i + 1));
            }
            if crate::schema::matches(&transport.destination, &self.modules[i].0) {
                let mut results = module_output(&self.modules[i].1, transport);
                let ghost resv = results@.map_values(|t: Transport| t@);
                out.append(&mut results);
                proof {
                    assert(out@.map_values(|t: Transport| t@) =~= pre + resv);
                    assert((pre + resv) + spec_module_results(
                        self.modules@.skip(i + 1),
                        transport@,
                    ) =~= pre + (resv + spec_module_results(
                        self.modules@.skip(i + 1),
                        transport@,
                    )));
                }
            } else {
                proof {
                    assert(pre + (Seq::<TransportV>::empty() + spec_module_results(
                        self.modules@.skip(i + 1),
                        transport@,
                    )) =~= pre + spec_module_results(self.modules@.skip(i + 1), transport@));
                }
            }
            i = i + 1;
        }
        proof {
            assert(self.modules@.skip(n as int) =~= Seq::<(SchemaIdentifier, M)>::empty());
            assert(out@.map_values(|t: Transport| t@) + Seq::<TransportV>::empty()
                =~= out@.map_values(|t: Transport| t@));
        }
        out
    }
}

/// The envelope's destination, viewed.
pub open spec fn t_dest(t: &Transport) -> Option<Seq<char>> {
    t@.destination
}

/// One module's answer inside a dispatch, failures already wrapped as an
/// error envelope.
fn module_output<M: CommonModule>(m: &M, t: &Transport) -> (r: Vec<Transport>)
    ensures
        r@.map_values(|x: Transport| x@) == spec_module_output(m, t@),
{
    match handle_transport(m, t) {
        Ok(ts) => ts,
        Err(e) => {
            let mut msg = <String as vstd::string::StringExecFns>::from_str("Module Error: ");
            msg.append(e.val.as_str());
            let err = TransportRequest::create_Transport_result(
                Payload::error(TransportError::new(msg)),
            );
            let mut out: Vec<Transport> = Vec::new();
            out.push(err);
            proof {
                assert(out@.map_values(|x: Transport| x@) =~= seq![
                    spec_error_transport("Module Error: "@ + e@),
                ]);
            }
            out
        },
    }
}

/// Routing: deliver an envelope to every addressed module across the whole
/// tree and collect the results.
pub trait Propagator {
    /// The view of the complete dispatch result.
    spec fn spec_propagate_view(&self, t: TransportV) -> Seq<TransportV>;

    /// Dispatches the envelope through this router and returns every
    /// collected result. An envelope nobody is addressed by yields an
    /// empty collection, not an error.
    fn propagate_transport(&self, transport: &Transport) -> (r: Vec<Transport>)
        ensures
            r@.map_values(|t: Transport| t@) == self.spec_propagate_view(transport@),
    ;
}

impl<M: CommonModule> Propagator for TransportNode<M> {
    open spec fn spec_propagate_view(&self, t: TransportV) -> Seq<TransportV> {
        self.spec_propagate(t)
    }

    /// Handles the envelope at this node, then recurses into every child
    /// with the same envelope, collecting everything in order.
    fn propagate_transport(&self, transport: &Transport) -> (r: Vec<Transport>)
        decreases *self,
    {
        let mut ret = self.handle_appropriate_modules(transport);
        let n = self.nodes.len();
        let mut i: usize = 0;
        proof {
            assert(self.nodes@.skip(0) =~= self.nodes@);
        }
        while i < n
            invariant
                i <= n,
                n == self.nodes.len(),
                ret@.map_values(|t: Transport| t@) + spec_children_results(
                    self.nodes@.skip(i as int),
                    transport@,
                ) == self.spec_propagate(transport@),
            decreases n - i,
        {
            let ghost pre = ret@.map_values(|t: Transport| t@);
            let ghost rest = self.nodes@.skip(i as int);
            proof {
                assert(rest[0] == self.nodes@[i as int]);
                assert(rest.drop_first() =~= self.nodes@.skip(i + 1));
                assert(decreases_to!(*self => self.nodes));
                assert(decreases_to!(self.nodes => self.nodes@));
                assert(decreases_to!(self.nodes@ => self.nodes@[i as int]));
            }
            let mut sub = self.nodes[i].propagate_transport(transport);
            let ghost subv = sub@.map_values(|t: Transport| t@);
            ret.append(&mut sub);
            proof {
                assert(ret@.map_values(|t: Transport| t@) =~= pre + subv);
                assert((pre + subv) + spec_children_results(self.nodes@.skip(i + 1), transport@)
                    =~= pre + (subv + spec_children_results(
                    self.nodes@.skip(i + 1),
                    transport@,
                )));
            }
            i = i + 1;
        }
        proof {
            assert(self.nodes@.skip(n as int) =~= Seq::<TransportNode<M>>::empty());
            assert(ret@.map_values(|t: Transport| t@) + Seq::<TransportV>::empty()
                =~= ret@.map_values(|t: Transport| t@));
        }
        ret
    }
}

// ---------------------------------------------------------------------
// The matching rule, as laws.
// ---------------------------------------------------------------------

/// The modules of a list that a destination addresses, with their
/// schemas, in list order.
pub open spec fn spec_selected_modules<M: CommonModule>(
    mods: Seq<(SchemaIdentifier, M)>,
    dest: Option<Seq<char>>,
) -> Seq<(SchemaIdentifier, M)>
    decreases mods.len(),
{
    if mods.len() == 0 {
        Seq::empty()
    } else {
        let rest = spec_selected_modules(mods.drop_first(), dest);
        if spec_matches(dest, mods[0].0@) {
            seq![mods[0]] + rest
        } else {
            rest
        }
    }
}

/// The concatenated answers of every module in a list, with no
/// destination test at all.
pub open spec fn spec_all_results<M: CommonModule>(
    mods: Seq<(SchemaIdentifier, M)>,
    t: TransportV,
) -> Seq<TransportV>
    decreases mods.len(),
{
    if mods.len() == 0 {
        Seq::empty()
    } else {
        spec_module_output(&mods[0].1, t) + spec_all_results(mods.drop_first(), t)
    }
}

/// The matching rule: a module is selected exactly when the destination
/// is absent or equals its schema. Selection keeps only such modules
/// (soundness), and every module whose schema is addressed is kept
/// (completeness, stated through the schema list).
pub proof fn lemma_matching_rule<M: CommonModule>(
    mods: Seq<(SchemaIdentifier, M)>,
    dest: Option<Seq<char>>,
    i: int,
)
    requires
        0 <= i < mods.len(),
    ensures
        spec_matching_schemas(mods, dest).contains(mods[i].0@) <==> spec_matches(
            dest,
            mods[i].0@,
        ),
    decreases mods.len(),
{
    lemma_matching_schemas_sound(mods, dest);
    if spec_matches(dest, mods[i].0@) {
        lemma_matching_schemas_complete(mods, dest, i);
    }
}

/// Every schema the selection lists is addressed by the destination and
/// belongs to some module of the list.
pub proof fn lemma_matching_schemas_sound<M: CommonModule>(
    mods: Seq<(SchemaIdentifier, M)>,
    dest: Option<Seq<char>>,
)
    ensures
        forall|s: Seq<char>|
            #[trigger] spec_matching_schemas(mods, dest).contains(s) ==> spec_matches(dest, s)
                && exists|j: int| 0 <= j < mods.len() && (#[trigger] mods[j]).0@ == s,
    decreases mods.len(),
{
    if mods.len() > 0 {
        lemma_matching_schemas_sound(mods.drop_first(), dest);
        let rest = spec_matching_schemas(mods.drop_first(), dest);
        assert forall|s: Seq<char>|
            #[trigger] spec_matching_schemas(mods, dest).contains(s) implies spec_matches(
            dest,
            s,
        ) && exists|j: int| 0 <= j < mods.len() && (#[trigger] mods[j]).0@ == s by {
            if spec_matches(dest, mods[0].0@) && s == mods[0].0@ {
                assert(mods[0] == mods[0]);
            } else {
                if spec_matches(dest, mods[0].0@) {
                    let whole = seq![mods[0].0@] + rest;
                    let k = choose|k: int| 0 <= k < whole.len() && whole[k] == s;
                    assert(rest[k - 1] == s);
                    assert(rest.contains(s));
                } else {
                    assert(rest.contains(s));
                }
                let j0 = choose|j: int|
                    0 <= j < mods.drop_first().len() && (#[trigger] mods.drop_first()[j]).0@
                        == s;
                assert(mods[j0 + 1] == mods.drop_first()[j0]);
            }
        }
    }
}

/// Every module the destination addresses has its schema in the
/// selection.
pub proof fn lemma_matching_schemas_complete<M: CommonModule>(
    mods: Seq<(SchemaIdentifier, M)>,
    dest: Option<Seq<char>>,
    i: int,
)
    requires
        0 <= i < mods.len(),
        spec_matches(dest, mods[i].0@),
    ensures
        spec_matching_schemas(mods, dest).contains(mods[i].0@),
    decreases mods.len(),
{
    let rest = spec_matching_schemas(mods.drop_first(), dest);
    if i == 0 {
        let whole = seq![mods[0].0@] + rest;
        assert(whole[0] == mods[0].0@);
    } else {
        assert(mods.drop_first()[i - 1] == mods[i]);
        lemma_matching_schemas_complete(mods.drop_first(), dest, i - 1);
        let k = choose|k: int| 0 <= k < rest.len() && rest[k] == mods[i].0@;
        if spec_matches(dest, mods[0].0@) {
            let whole = seq![mods[0].0@] + rest;
            assert(whole[k + 1] == mods[i].0@);
        }
    }
}

/// Each matching key appears exactly once: in a map-shaped node (no two
/// modules share a schema, as registration maintains), the selection
/// lists no schema twice.
pub proof fn lemma_matching_schemas_unique<M: CommonModule>(
    mods: Seq<(SchemaIdentifier, M)>,
    dest: Option<Seq<char>>,
)
    requires
        spec_distinct_schemas(mods),
    ensures
        spec_matching_schemas(mods, dest).no_duplicates(),
    decreases mods.len(),
{
    if mods.len() > 0 {
        assert forall|i: int, j: int|
            0 <= i < j < mods.drop_first().len() implies (
        #[trigger] mods.drop_first()[i]).0@ != (#[trigger] mods.drop_first()[j]).0@ by {
            assert(mods.drop_first()[i] == mods[i + 1]);
            assert(mods.drop_first()[j] == mods[j + 1]);
        }
        lemma_matching_schemas_unique(mods.drop_first(), dest);
        lemma_matching_schemas_sound(mods.drop_first(), dest);
        let rest = spec_matching_schemas(mods.drop_first(), dest);
        if spec_matches(dest, mods[0].0@) {
            let whole = seq![mods[0].0@] + rest;
            assert(!rest.contains(mods[0].0@)) by {
                if rest.contains(mods[0].0@) {
                    let j0 = choose|j: int|
                        0 <= j < mods.drop_first().len() && (
                        #[trigger] mods.drop_first()[j]).0@ == mods[0].0@;
                    assert(mods.drop_first()[j0] == mods[j0 + 1]);
                }
            }
            assert forall|i: int, j: int|
                0 <= i < whole.len() && 0 <= j < whole.len() && i != j implies whole[i]
                != whole[j] by {
                if i == 0 {
                    assert(whole[j] == rest[j - 1]);
                    assert(rest.contains(rest[j - 1]));
                } else if j == 0 {
                    assert(whole[i] == rest[i - 1]);
                    assert(rest.contains(rest[i - 1]));
                } else {
                    assert(whole[i] == rest[i - 1]);
                    assert(whole[j] == rest[j - 1]);
                }
            }
        }
    }
}

// ---------------------------------------------------------------------
// Broadcast against unicast, as laws.
// ---------------------------------------------------------------------

/// A dispatch with no destination at all selects every module: the
/// node-local results are every module's answer, in order.
pub proof fn lemma_broadcast_selects_all<M: CommonModule>(
    mods: Seq<(SchemaIdentifier, M)>,
    t: TransportV,
)
    requires
        t.destination is None,
    ensures
        spec_module_results(mods, t) == spec_all_results(mods, t),
    decreases mods.len(),
{
    if mods.len() > 0 {
        lemma_broadcast_selects_all(mods.drop_first(), t);
    }
}

/// A dispatch with a destination selects exactly the modules whose
/// schema equals it: the node-local results are the answers of those
/// modules and nobody else's.
pub proof fn lemma_unicast_selects_matching<M: CommonModule>(
    mods: Seq<(SchemaIdentifier, M)>,
    t: TransportV,
    s: Seq<char>,
)
    requires
        t.destination == Some(s),
    ensures
        spec_module_results(mods, t) == spec_all_results(
            spec_selected_modules(mods, t.destination),
            t,
        ),
        forall|j: int|
            0 <= j < spec_selected_modules(mods, t.destination).len() ==> (
            #[trigger] spec_selected_modules(mods, t.destination)[j]).0@ == s,
    decreases mods.len(),
{
    if mods.len() > 0 {
        lemma_unicast_selects_matching(mods.drop_first(), t, s);
        let rest_sel = spec_selected_modules(mods.drop_first(), t.destination);
        if spec_matches(t.destination, mods[0].0@) {
            let sel = seq![mods[0]] + rest_sel;
            assert(sel[0] == mods[0]);
            assert(sel.drop_first() =~= rest_sel);
            assert forall|j: int| 0 <= j < sel.len() implies (#[trigger] sel[j]).0@ == s by {
                if j > 0 {
                    assert(sel[j] == rest_sel[j - 1]);
                }
            }
        }
    }
}

/// The whole-tree answers of every module, with no destination test at
/// all.
pub open spec fn spec_all_tree_results<M: CommonModule>(
    node: &TransportNode<M>,
    t: TransportV,
) -> Seq<TransportV>
    decreases *node,
{
    spec_all_results(node.modules@, t) + spec_all_children_results(node.nodes@, t)
}

/// The whole-tree answers of every module of a list of children.
pub open spec fn spec_all_children_results<M: CommonModule>(
    ns: Seq<TransportNode<M>>,
    t: TransportV,
) -> Seq<TransportV>
    decreases ns,
{
    if ns.len() == 0 {
        Seq::empty()
    } else {
        spec_all_tree_results(&ns[0], t) + spec_all_children_results(ns.drop_first(), t)
    }
}

/// Broadcast over the whole tree: dispatching with no destination into a
/// tree yields every module's answer, across every node.
pub proof fn lemma_tree_broadcast<M: CommonModule>(node: &TransportNode<M>, t: TransportV)
    requires
        t.destination is None,
    ensures
        node.spec_propagate(t) == spec_all_tree_results(node, t),
    decreases *node,
{
    lemma_broadcast_selects_all(node.modules@, t);
    lemma_children_broadcast(node.nodes@, t);
}

proof fn lemma_children_broadcast<M: CommonModule>(ns: Seq<TransportNode<M>>, t: TransportV)
    requires
        t.destination is None,
    ensures
        spec_children_results(ns, t) == spec_all_children_results(ns, t),
    decreases ns,
{
    if ns.len() > 0 {
        lemma_tree_broadcast(&ns[0], t);
        lemma_children_broadcast(ns.drop_first(), t);
    }
}

/// The whole-tree answers of the selected modules alone, node by node.
pub open spec fn spec_selected_tree_results<M: CommonModule>(
    node: &TransportNode<M>,
    t: TransportV,
) -> Seq<TransportV>
    decreases *node,
{
    spec_all_results(spec_selected_modules(node.modules@, t.destination), t)
        + spec_selected_children_results(node.nodes@, t)
}

/// The whole-tree answers of the selected modules of a list of children.
pub open spec fn spec_selected_children_results<M: CommonModule>(
    ns: Seq<TransportNode<M>>,
    t: TransportV,
) -> Seq<TransportV>
    decreases ns,
{
    if ns.len() == 0 {
        Seq::empty()
    } else {
        spec_selected_tree_results(&ns[0], t) + spec_selected_children_results(
            ns.drop_first(),
            t,
        )
    }
}

/// Unicast over the whole tree: dispatching with a destination yields the
/// answers of exactly the modules whose schema equals it, at every node.
pub proof fn lemma_tree_unicast<M: CommonModule>(
    node: &TransportNode<M>,
    t: TransportV,
    s: Seq<char>,
)
    requires
        t.destination == Some(s),
    ensures
        node.spec_propagate(t) == spec_selected_tree_results(node, t),
    decreases *node,
{
    lemma_unicast_selects_matching(node.modules@, t, s);
    lemma_children_unicast(node.nodes@, t, s);
}

proof fn lemma_children_unicast<M: CommonModule>(
    ns: Seq<TransportNode<M>>,
    t: TransportV,
    s: Seq<char>,
)
    requires
        t.destination == Some(s),
    ensures
        spec_children_results(ns, t) == spec_selected_children_results(ns, t),
    decreases ns,
{
    if ns.len() > 0 {
        lemma_tree_unicast(&ns[0], t, s);
        lemma_children_unicast(ns.drop_first(), t, s);
    }
}

} // verus!
