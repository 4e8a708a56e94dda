//! The two event vocabularies of the directory protocol: requests a peer sends
//! to the server, and responses the server sends back, each with a
//! mathematical view used by the contracts.

use crate::models::PeerId;
use vstd::prelude::*;

verus! {

/// A request from a remote peer to the directory service.
pub enum PeerEvent {
    /// Probe whether the service is reachable.
    Check,
    /// Look up the active record with the given name.
    Search(String),
    /// Create a record: name, bio, avatar. The owner is the requesting peer.
    Register(String, String, Vec<u8>),
    /// Replace the bio and avatar of the named record (owner only).
    Update(String, String, Vec<u8>),
    /// Make the named record invisible to Search (owner only).
    Suspend(String),
    /// Make the named record visible to Search again (owner only).
    Active(String),
    /// Soft-delete the named record (owner only; idempotent).
    Delete(String),
    /// Reserved for a future introduction flow; ignored.
    Request(String, String, String),
}

/// The mathematical view of a [`PeerEvent`].
pub enum PeerEventView {
    Check,
    Search(Seq<char>),
    Register(Seq<char>, Seq<char>, Seq<u8>),
    Update(Seq<char>, Seq<char>, Seq<u8>),
    Suspend(Seq<char>),
    Active(Seq<char>),
    Delete(Seq<char>),
    Request(Seq<char>, Seq<char>, Seq<char>),
}

impl View for PeerEvent {
    type V = PeerEventView;

    open spec fn view(&self) -> PeerEventView {
        match self {
            PeerEvent::Check => PeerEventView::Check,
            PeerEvent::Search(name) => PeerEventView::Search(name@),
            PeerEvent::Register(name, bio, avatar) => PeerEventView::Register(
                name@,
                bio@,
                avatar@,
            ),
            PeerEvent::Update(name, bio, avatar) => PeerEventView::Update(name@, bio@, avatar@),
            PeerEvent::Suspend(name) => PeerEventView::Suspend(name@),
            PeerEvent::Active(name) => PeerEventView::Active(name@),
            PeerEvent::Delete(name) => PeerEventView::Delete(name@),
            PeerEvent::Request(name, target, remark) => PeerEventView::Request(
                name@,
                target@,
                remark@,
            ),
        }
    }
}

/// A response from the directory service to a peer.
pub enum ServerEvent {
    /// The service's display name and whether it supports proxy requests.
    Status(String, bool),
    /// A found record: owner address, name, bio, avatar.
    Info(PeerId, String, String, Vec<u8>),
    /// No active record carries the given name.
    NotFound(String),
    /// Whether a Register of the given name succeeded.
    RegisterResult(String, bool),
    /// The named record's visibility after a Suspend or Active request.
    Actived(String, bool),
    /// Acknowledges a Delete of the given name.
    Deleted(String),
}

/// The mathematical view of a [`ServerEvent`].
pub enum ServerEventView {
    Status(Seq<char>, bool),
    Info(Seq<u8>, Seq<char>, Seq<char>, Seq<u8>),
    NotFound(Seq<char>),
    RegisterResult(Seq<char>, bool),
    Actived(Seq<char>, bool),
    Deleted(Seq<char>),
}

impl View for ServerEvent {
    type V = ServerEventView;

    open spec fn view(&self) -> ServerEventView {
        match self {
            ServerEvent::Status(name, proxy) => ServerEventView::Status(name@, *proxy),
            ServerEvent::Info(pid, name, bio, avatar) => ServerEventView::Info(
                pid@,
                name@,
                bio@,
                avatar@,
            ),
            ServerEvent::NotFound(name) => ServerEventView::NotFound(name@),
            ServerEvent::RegisterResult(name, ok) => ServerEventView::RegisterResult(name@, *ok),
            ServerEvent::Actived(name, actived) => ServerEventView::Actived(name@, *actived),
            ServerEvent::Deleted(name) => ServerEventView::Deleted(name@),
        }
    }
}

/// A response event addressed to the peer that must receive it.
pub struct Outgoing {
    pub dest: PeerId,
    pub event: ServerEvent,
}

/// The mathematical view of an [`Outgoing`] response.
pub struct OutgoingView {
    pub dest: Seq<u8>,
    pub event: ServerEventView,
}

impl View for Outgoing {
    type V = OutgoingView;

    open spec fn view(&self) -> OutgoingView {
        OutgoingView { dest: self.dest@, event: self.event@ }
    }
}

/// The views of a list of addressed responses, in order.
pub open spec fn outgoing_views(out: Seq<Outgoing>) -> Seq<OutgoingView> {
    out.map_values(|o: Outgoing| o@)
}

} // verus!
