//! The directory protocol handler: a state machine with no persistent state of
//! its own. Each inbound peer event is applied to the record store and yields
//! an ordered sequence of response events, each addressed to a peer.
//!
//! The whole dispatch is captured by [`spec_handle`]; the executable
//! [`Layer::handle`] is proved to implement it.

use crate::events::{
    outgoing_views, Outgoing, OutgoingView, PeerEvent, PeerEventView, ServerEvent, ServerEventView,
};
use crate::models::{PeerId, User, UserView};
use crate::store::{
    has_living, living_index, spec_delete, spec_search, spec_set_actived, spec_update_profile,
    UserStore,
};
use vstd::prelude::*;

verus! {

/// The handler's static configuration: the service's display name, its own
/// network identity, whether it supports proxy requests, and whether an event
/// must carry a verified identity proof before it is dispatched.
pub struct Layer {
    pub name: String,
    pub pid: PeerId,
    pub proxy: bool,
    pub require_proof: bool,
}

/// The mathematical view of a [`Layer`].
pub struct LayerView {
    pub name: Seq<char>,
    pub pid: Seq<u8>,
    pub proxy: bool,
    pub require_proof: bool,
}

impl View for Layer {
    type V = LayerView;

    open spec fn view(&self) -> LayerView {
        LayerView {
            name: self.name@,
            pid: self.pid@,
            proxy: self.proxy,
            require_proof: self.require_proof,
        }
    }
}

/// What one dispatch does: the store after the event, and the addressed
/// responses, in order. `addr` is the claimed origin of the event and `now`
/// the creation time a Register would record.
pub open spec fn spec_handle(
    cfg: LayerView,
    s: Seq<UserView>,
    addr: Seq<u8>,
    event: PeerEventView,
    now: int,
) -> (Seq<UserView>, Seq<OutgoingView>) {
    match event {
        PeerEventView::Check => (
            s,
            seq![
                OutgoingView { dest: addr, event: ServerEventView::Status(cfg.name, cfg.proxy) },
            ],
        ),
        PeerEventView::Search(name) => match spec_search(s, name) {
            Some(u) => (
                s,
                seq![
                    OutgoingView {
                        dest: addr,
                        event: ServerEventView::Info(u.pid, u.name, u.bio, u.avatar),
                    },
                ],
            ),
            None => (
                s,
                seq![OutgoingView { dest: addr, event: ServerEventView::NotFound(name) }],
            ),
        },
        PeerEventView::Register(name, bio, avatar) => if has_living(s, name) {
            (
                s,
                seq![
                    OutgoingView {
                        dest: addr,
                        event: ServerEventView::RegisterResult(name, false),
                    },
                ],
            )
        } else {
            (
                s.push(
                    UserView {
                        id: s.len() as int + 1,
                        name: name,
                        pid: addr,
                        bio: bio,
                        avatar: avatar,
                        is_actived: true,
                        is_deleted: false,
                        datetime: now,
                    },
                ),
                seq![
                    OutgoingView { dest: addr, event: ServerEventView::RegisterResult(name, true) },
                ],
            )
        },
        PeerEventView::Update(name, bio, avatar) => if has_living(s, name) && s[living_index(
            s,
            name,
        )].pid == addr {
            (spec_update_profile(s, s[living_index(s, name)].id, bio, avatar), Seq::empty())
        } else {
            (s, Seq::empty())
        },
        PeerEventView::Suspend(name) => if has_living(s, name) && s[living_index(s, name)].pid
            == addr {
            (
                spec_set_actived(s, s[living_index(s, name)].id, false),
                seq![OutgoingView { dest: addr, event: ServerEventView::Actived(name, false) }],
            )
        } else {
            (s, Seq::empty())
        },
        PeerEventView::Active(name) => if has_living(s, name) && s[living_index(s, name)].pid
            == addr {
            (
                spec_set_actived(s, s[living_index(s, name)].id, true),
                seq![OutgoingView { dest: addr, event: ServerEventView::Actived(name, true) }],
            )
        } else {
            (s, Seq::empty())
        },
        PeerEventView::Delete(name) => (
            if has_living(s, name) && s[living_index(s, name)].pid == addr {
                spec_delete(s, s[living_index(s, name)].id)
            } else {
                s
            },
            seq![OutgoingView { dest: addr, event: ServerEventView::Deleted(name) }],
        ),
        PeerEventView::Request(_, _, _) => (s, Seq::empty()),
    }
}

impl Layer {
    /// A handler with the default proof policy: events must carry a verified
    /// identity proof.
    pub fn new(name: String, pid: PeerId, proxy: bool) -> (r: Layer)
        ensures
            r@ == (LayerView { name: name@, pid: pid@, proxy: proxy, require_proof: true }),
    {
        Layer { name, pid, proxy, require_proof: true }
    }

    /// A handler with an explicit proof policy. Passing `require_proof` false
    /// dispatches unverified events: any sender may then claim any address.
    pub fn with_proof_policy(name: String, pid: PeerId, proxy: bool, require_proof: bool) -> (r:
        Layer)
        ensures
            r@ == (LayerView { name: name@, pid: pid@, proxy: proxy, require_proof: require_proof }),
    {
        Layer { name, pid, proxy, require_proof }
    }

    /// Dispatches one decoded peer event.
    ///
    /// `proof_valid` is the identity subsystem's verdict on the proof attached
    /// to the event; verifying the proof itself is delegated to that outside
    /// collaborator. When the handler is configured to require proofs and the
    /// verdict is negative, the event is dropped whole: no store change, no
    /// response. A handler configured with `require_proof` false dispatches
    /// unverified events — a known gap, acceptable only where the transport
    /// itself authenticates origins.
    ///
    /// Otherwise the result is exactly [`spec_handle`] applied to the store.
    pub fn handle(
        &self,
        store: &mut UserStore,
        addr: &PeerId,
        event: PeerEvent,
        proof_valid: bool,
        now: i64,
    ) -> (out: Vec<Outgoing>)
        requires
            old(store).wf(),
            old(store)@.len() < u64::MAX,
        ensures
            final(store).wf(),
            self.require_proof && !proof_valid ==> final(store)@ == old(store)@ && outgoing_views(
                out@,
            ) == Seq::<OutgoingView>::empty(),
            !(self.require_proof && !proof_valid) ==> ({
                let r = spec_handle(self@, old(store)@, addr@, event@, now as int);
                final(store)@ == r.0 && outgoing_views(out@) == r.1
            }),
    {
        let ghost s0 = store@;
        let mut out: Vec<Outgoing> = Vec::new();
        proof {
            assert(outgoing_views(out@) =~= Seq::<OutgoingView>::empty());
        }
        if self.require_proof && !proof_valid {
            return out;
        }
        match event {
            PeerEvent::Check => {
                let status = ServerEvent::Status(self.name.clone(), self.proxy);
                out.push(Outgoing { dest: addr.duplicate(), event: status });
                proof {
                    assert(outgoing_views(out@) =~= spec_handle(
                        self@,
                        s0,
                        addr@,
                        event@,
                        now as int,
                    ).1);
                }
            },
            PeerEvent::Search(name) => {
                match store.search(&name) {
                    Some(user) => {
                        out.push(Outgoing { dest: addr.duplicate(), event: user.to_info() });
                    },
                    None => {
                        out.push(
                            Outgoing { dest: addr.duplicate(), event: ServerEvent::NotFound(name) },
                        );
                    },
                }
                proof {
                    assert(outgoing_views(out@) =~= spec_handle(
                        self@,
                        s0,
                        addr@,
                        event@,
                        now as int,
                    ).1);
                }
            },
            PeerEvent::Register(name, bio, avatar) => {
                let user = User::new(name.clone(), addr.duplicate(), bio, avatar, now);
                let is_ok = store.insert(user).is_ok();
                proof {
                    if !has_living(s0, name@) {
                        assert(store@ =~= spec_handle(self@, s0, addr@, event@, now as int).0);
                    }
                }
                out.push(
                    Outgoing {
                        dest: addr.duplicate(),
                        event: ServerEvent::RegisterResult(name, is_ok),
                    },
                );
                proof {
                    assert(outgoing_views(out@) =~= spec_handle(
                        self@,
                        s0,
                        addr@,
                        event@,
                        now as int,
                    ).1);
                }
            },
            PeerEvent::Update(name, bio, avatar) => {
                match store.get_by_name(&name) {
                    Some(user) => {
                        if user.pid.equals(addr) {
                            store.update(user.id, &bio, &avatar);
                        }
                    },
                    None => {},
                }
            },
            PeerEvent::Suspend(name) => {
                match store.get_by_name(&name) {
                    Some(user) => {
                        if user.pid.equals(addr) {
                            store.active(user.id, false);
                            out.push(
                                Outgoing {
                                    dest: addr.duplicate(),
                                    event: ServerEvent::Actived(name, false),
                                },
                            );
                            proof {
                                assert(outgoing_views(out@) =~= spec_handle(
                                    self@,
                                    s0,
                                    addr@,
                                    event@,
                                    now as int,
                                ).1);
                            }
                        }
                    },
                    None => {},
                }
            },
            PeerEvent::Active(name) => {
                match store.get_by_name(&name) {
                    Some(user) => {
                        if user.pid.equals(addr) {
                            store.active(user.id, true);
                            out.push(
                                Outgoing {
                                    dest: addr.duplicate(),
                                    event: ServerEvent::Actived(name, true),
                                },
                            );
                            proof {
                                assert(outgoing_views(out@) =~= spec_handle(
                                    self@,
                                    s0,
                                    addr@,
                                    event@,
                                    now as int,
                                ).1);
                            }
                        }
                    },
                    None => {},
                }
            },
            PeerEvent::Delete(name) => {
                match store.get_by_name(&name) {
                    Some(user) => {
                        if user.pid.equals(addr) {
                            store.delete(user.id);
                        }
                    },
                    None => {},
                }
                out.push(Outgoing { dest: addr.duplicate(), event: ServerEvent::Deleted(name) });
                proof {
                    assert(outgoing_views(out@) =~= spec_handle(
                        self@,
                        s0,
                        addr@,
                        event@,
                        now as int,
                    ).1);
                }
            },
            PeerEvent::Request(_, _, _) => {},
        }
        out
    }
}

} // verus!
