//! The relay path: where each incoming media or feedback packet goes.

use vstd::prelude::*;

use crate::switchboard::{SessionId, Switchboard, subscribers_of};

verus! {

/// What to do with one incoming RTCP packet.
pub enum RtcpAction {
    /// Send a fresh picture-loss indication to each of these publishers.
    SendPli(Vec<SessionId>),
    /// Send a fresh full-intra request to each of these publishers, each
    /// with the next number of its own feedback counter.
    SendFir(Vec<SessionId>),
    /// Relay the packet unchanged to each of these subscribers.
    Relay(Vec<SessionId>),
}

/// The sessions of `o`: none, or the one it holds.
pub open spec fn option_seq(o: Option<SessionId>) -> Seq<SessionId> {
    match o {
        Some(s) => seq![s],
        None => Seq::empty(),
    }
}

/// The publisher of `subscriber`, if any, as a list.
fn publisher_list(switchboard: &Switchboard, subscriber: SessionId) -> (r: Vec<SessionId>)
    requires
        switchboard.wf(),
    ensures
        r@ == option_seq(
            if switchboard@.subscriptions.contains_key(subscriber) {
                Some(switchboard@.subscriptions[subscriber])
            } else {
                None
            },
        ),
{
    let mut r: Vec<SessionId> = Vec::new();
    match switchboard.publisher_to(subscriber) {
        Some(p) => {
            r.push(p);
            assert(r@ =~= seq![p]);
        },
        None => {},
    }
    r
}

/// The subscribers that an RTP packet from `sender` is relayed to.
pub fn incoming_rtp(switchboard: &Switchboard, sender: SessionId) -> (r: Vec<SessionId>)
    requires
        switchboard.wf(),
    ensures
        r@.no_duplicates(),
        r@.to_set() == subscribers_of(switchboard@.subscriptions, sender),
{
    switchboard.subscribers_to(sender)
}

/// The publishers that a session asks for a full-intra refresh once its
/// media is up: its own publisher, if it has one.
pub fn setup_media(switchboard: &Switchboard, session: SessionId) -> (r: Vec<SessionId>)
    requires
        switchboard.wf(),
    ensures
        r@ == option_seq(
            if switchboard@.subscriptions.contains_key(session) {
                Some(switchboard@.subscriptions[session])
            } else {
                None
            },
        ),
{
    publisher_list(switchboard, session)
}

/// What to do with an RTCP packet from `sender`. On the video direction, a
/// picture-loss indication or a full-intra request turns into a fresh one
/// for the sender's publisher; any other packet is relayed to the sender's
/// subscribers.
pub fn incoming_rtcp(
    switchboard: &Switchboard,
    sender: SessionId,
    video: bool,
    has_pli: bool,
    has_fir: bool,
) -> (r: RtcpAction)
    requires
        switchboard.wf(),
    ensures
        ({
            let publisher = option_seq(
                if switchboard@.subscriptions.contains_key(sender) {
                    Some(switchboard@.subscriptions[sender])
                } else {
                    None
                },
            );
            if video && has_pli {
                r matches RtcpAction::SendPli(to) && to@ == publisher
            } else if video && has_fir {
                r matches RtcpAction::SendFir(to) && to@ == publisher
            } else {
                r matches RtcpAction::Relay(to) && to@.no_duplicates() && to@.to_set()
                    == subscribers_of(switchboard@.subscriptions, sender)
            }
        }),
{
    if video && has_pli {
        RtcpAction::SendPli(publisher_list(switchboard, sender))
    } else if video && has_fir {
        RtcpAction::SendFir(publisher_list(switchboard, sender))
    } else {
        RtcpAction::Relay(switchboard.subscribers_to(sender))
    }
}

} // verus!
