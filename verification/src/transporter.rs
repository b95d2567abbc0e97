//! The cascade runner. A module handling a trusted message may answer
//! with follow-up messages; each follow-up is dispatched through the same
//! tree in turn. The cascade runs as an explicit work queue under a fuel
//! bound, so it is boundable and observable: the caller sees every
//! logged failure and whatever work was still queued when the fuel ran
//! out.

use vstd::prelude::*;
use crate::transport::{RequestType, Data, DataV, TransportError, Transport, TransportV, PayloadV};
use crate::common::CommonModule;
use crate::propagator::{TransportNode, Propagator};
use crate::transportresponse::{spec_kept, spec_error_texts, spec_vecdatas_of, view_errors};

verus! {

/// A router that can carry one envelope to its handlers and give the
/// results back.
pub trait Transporter: Sized {
    /// The view of the complete dispatch result.
    spec fn spec_transport_view(&self, t: TransportV) -> Seq<TransportV>;

    /// Dispatches one envelope and returns every collected result.
    fn transport_data(&mut self, transport: &Transport) -> (r: Vec<Transport>)
        ensures
            r@.map_values(|t: Transport| t@) == old(self).spec_transport_view(transport@),
            *final(self) == *old(self),
    ;
}

/// The request envelope that hands one trusted message to its handlers.
pub open spec fn spec_trusted_request(d: DataV) -> TransportV {
    TransportV {
        request_type: RequestType::HANDLE_TRUSTED,
        destination: Some(d.schema),
        payload: PayloadV::data(d),
    }
}

/// What one cascade step yields from one queued message: the follow-up
/// messages the handlers answered with, and the failure texts they
/// logged.
pub open spec fn spec_cascade_step<M: CommonModule>(node: &TransportNode<M>, d: DataV) -> (
    Seq<DataV>,
    Seq<Seq<char>>,
) {
    let results = node.spec_propagate(spec_trusted_request(d));
    (spec_vecdatas_of(spec_kept(results)), spec_error_texts(results))
}

/// What a fuel-bounded cascade leaves behind: the messages still queued
/// when the fuel ran out (none if the cascade drained), and everything
/// logged along the way, in order.
pub open spec fn spec_cascade<M: CommonModule>(
    node: &TransportNode<M>,
    queue: Seq<DataV>,
    fuel: nat,
) -> (Seq<DataV>, Seq<Seq<char>>)
    decreases fuel,
{
    if fuel == 0 || queue.len() == 0 {
        (queue, Seq::empty())
    } else {
        let step = spec_cascade_step(node, queue[0]);
        let rest = spec_cascade(node, queue.drop_first() + step.0, (fuel - 1) as nat);
        (rest.0, step.1 + rest.1)
    }
}

/// The tree together with the cascade runner at its root.
pub struct RootTransporter<M> {
    pub node: TransportNode<M>,
}

impl<M: CommonModule> Transporter for RootTransporter<M> {
    open spec fn spec_transport_view(&self, t: TransportV) -> Seq<TransportV> {
        self.node.spec_propagate(t)
    }

    fn transport_data(&mut self, transport: &Transport) -> (r: Vec<Transport>) {
        self.node.propagate_transport(transport)
    }
}

impl<M: CommonModule> RootTransporter<M> {
    /// Runs the cascade: messages are dispatched in queue order, each
    /// answer's follow-ups join the back of the queue, and every logged
    /// failure is collected rather than lost. One unit of fuel pays for
    /// one dispatched message; what the fuel did not cover comes back as
    /// the leftover queue.
    pub fn exec(&self, initial: Vec<Data>, fuel: usize) -> (r: (Vec<Data>, Vec<TransportError>))
        ensures
            ({
                let out = spec_cascade(
                    &self.node,
                    initial@.map_values(|d: Data| d@),
                    fuel as nat,
                );
                &&& r.0@.map_values(|d: Data| d@) == out.0
                &&& view_errors(r.1@) == out.1
            }),
    {
        let ghost q0 = initial@.map_values(|d: Data| d@);
        let mut queue = initial;
        let mut log: Vec<TransportError> = Vec::new();
        let mut left = fuel;
        proof {
            assert(view_errors(log@) =~= Seq::<Seq<char>>::empty());
            assert(Seq::<Seq<char>>::empty() + spec_cascade(&self.node, q0, fuel as nat).1
                =~= spec_cascade(&self.node, q0, fuel as nat).1);
        }
        while left > 0 && queue.len() > 0
            invariant
                spec_cascade(&self.node, q0, fuel as nat).0 == spec_cascade(
                    &self.node,
                    queue@.map_values(|d: Data| d@),
                    left as nat,
                ).0,
                spec_cascade(&self.node, q0, fuel as nat).1 == view_errors(log@) + spec_cascade(
                    &self.node,
                    queue@.map_values(|d: Data| d@),
                    left as nat,
                ).1,
            decreases left,
        {
            let ghost qv = queue@.map_values(|d: Data| d@);
            let ghost logv = view_errors(log@);
            let head = queue.remove(0);
            proof {
                assert(queue@.map_values(|d: Data| d@) =~= qv.drop_first());
                assert(qv[0] == head@);
            }
            let (follow, mut errs) = crate::transport_glue::handle_trusted(&self.node, head);
            let ghost errsv = view_errors(errs@);
            let ghost followv = follow@;
            let mut follow_vec = follow.vec;
            proof {
                assert(follow_vec@.map_values(|d: Data| d@) == followv);
            }
            queue.append(&mut follow_vec);
            log.append(&mut errs);
            left = left - 1;
            proof {
                let step = spec_cascade_step(&self.node, qv[0]);
                assert(spec_trusted_request(qv[0]) == TransportV {
                    request_type: RequestType::HANDLE_TRUSTED,
                    destination: Some(head@.schema),
                    payload: PayloadV::data(head@),
                });
                assert(followv == step.0);
                assert(errsv == step.1);
                assert(queue@.map_values(|d: Data| d@) =~= qv.drop_first() + step.0);
                assert(view_errors(log@) =~= logv + errsv);
                assert(logv + (step.1 + spec_cascade(
                    &self.node,
                    qv.drop_first() + step.0,
                    left as nat,
                ).1) =~= (logv + step.1) + spec_cascade(
                    &self.node,
                    qv.drop_first() + step.0,
                    left as nat,
                ).1);
            }
        }
        proof {
            assert(spec_cascade(&self.node, queue@.map_values(|d: Data| d@), left as nat).0
                == queue@.map_values(|d: Data| d@));
            assert(view_errors(log@) + Seq::<Seq<char>>::empty() =~= view_errors(log@));
        }
        (queue, log)
    }
}

} // verus!
