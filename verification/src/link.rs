//! The only way to a device: a transport together with the record of what was asked.
//!
//! Outside this module nothing is known of when a transport can be called, so that no
//! other function can call one. What was asked of a device is therefore what its link
//! recorded.
use crate::conversation::{self, Exchange, Reply, Target};
use crate::protocol::Report;
use vstd::prelude::*;

verus! {

/// Every exchange of a log is one that the transport can make.
pub open spec fn carried_out<T: FnMut(&Report) -> Reply>(
    transport: T,
    log: Seq<Exchange>,
) -> bool {
    forall|i: int|
        0 <= i < log.len() ==> call_ensures(
            transport,
            (&(#[trigger] log[i]).request,),
            log[i].reply,
        )
}

/// A transport that can be handed any report.
pub closed spec fn accepts_reports<T: FnMut(&Report) -> Reply>(transport: T) -> bool {
    forall|request: &Report| call_requires(transport, (request,))
}

/// A closure that can be called with any report is a transport.
pub proof fn closures_accept_reports<T: FnMut(&Report) -> Reply>(transport: T)
    requires
        forall|request: &Report| call_requires(transport, (request,)),
    ensures
        accepts_reports(transport),
{
}

/// A link over the transport was closed, and this is its record: all that was asked,
/// from the first exchange to the last. Only `close` says so. It takes the link, and a
/// link takes its transport, so that nothing was asked before, beside or after.
pub closed spec fn closed_with<T: FnMut(&Report) -> Reply>(
    transport: T,
    log: Seq<Exchange>,
) -> bool {
    exists|link: Link<T>| link.wf() && link.transport() == transport && #[trigger] link.log() == log
}

/// A transport, the control it is used for, and the exchanges made so far. Whoever
/// holds a link reaches the transport through `ask` alone, which records every
/// exchange.
pub struct Link<T: FnMut(&Report) -> Reply> {
    transport: T,
    target: Target,
    log: Ghost<Seq<Exchange>>,
}

impl<T: FnMut(&Report) -> Reply> Link<T> {
    pub closed spec fn transport(self) -> T {
        self.transport
    }

    pub closed spec fn target(self) -> Target {
        self.target
    }

    /// The exchanges made so far.
    pub closed spec fn log(self) -> Seq<Exchange> {
        self.log@
    }

    pub open spec fn wf(self) -> bool {
        &&& accepts_reports(self.transport())
        &&& carried_out(self.transport(), self.log())
    }

    /// The link after more exchanges of the same transport about the same control.
    pub open spec fn extends(self, before: Self) -> bool {
        &&& self.wf()
        &&& self.transport() == before.transport()
        &&& self.target() == before.target()
        &&& before.log().is_prefix_of(self.log())
    }

    pub fn new(transport: T, target: Target) -> (link: Self)
        requires
            accepts_reports(transport),
        ensures
            link.wf(),
            link.transport() == transport,
            link.target() == target,
            link.log() == Seq::<Exchange>::empty(),
    {
        Link { transport, target, log: Ghost(Seq::empty()) }
    }

    /// The control that the link is used for.
    pub fn control(&self) -> (cid: u16)
        ensures
            cid == self.target().cid,
    {
        self.target.cid
    }

    /// Asks the device and records the exchange.
    pub fn ask(&mut self, function: u8, software_id: u8, payload: &[u8]) -> (reply: Reply)
        requires
            old(self).wf(),
            function <= 15,
            1 <= software_id <= 15,
            payload@.len() <= 16,
        ensures
            final(self).extends(*old(self)),
            final(self).log().len() == old(self).log().len() + 1,
            final(self).log().last().reply == reply,
            final(self).log().last().request@ == conversation::control_request(
                old(self).target(),
                function,
                software_id,
                payload@,
            ),
    {
        let request = match Report::request(
            self.target.index,
            self.target.feature,
            function,
            software_id,
            payload,
        ) {
            Ok(request) => request,
            Err(_) => vstd::pervasive::unreached(),
        };
        let reply = (self.transport)(&request);
        proof {
            self.log@ = self.log@.push(Exchange { request, reply });
        }
        reply
    }

    /// Ends the conversation. The record stays as it is from here on.
    pub fn close(self) -> (log: Ghost<Seq<Exchange>>)
        requires
            self.wf(),
        ensures
            log@ == self.log(),
            closed_with(self.transport(), self.log()),
    {
        Ghost(self.log@)
    }
}

} // verus!
