//! Laws of the directory protocol, stated and proved once over the handler's
//! specification [`spec_handle`]: uniqueness of registration, ownership
//! protection, search semantics, idempotent deletion, and the avatar round
//! trip.

use crate::events::{OutgoingView, PeerEventView, ServerEventView};
use crate::layer::{spec_handle, LayerView};
use crate::models::UserView;
use crate::store::{
    has_living, has_searchable, living_index, living_named, searchable_index, searchable_named,
    spec_search, store_wf,
};
use vstd::prelude::*;

verus! {

/// A non-deleted record carrying `name` sits at exactly one position of a
/// well-formed store.
pub proof fn lemma_living_unique(s: Seq<UserView>, name: Seq<char>, i: int)
    requires
        store_wf(s),
        living_named(s, name, i),
    ensures
        has_living(s, name),
        living_index(s, name) == i,
{
    assert(has_living(s, name));
    let k = living_index(s, name);
    assert(living_named(s, name, k));
    if k != i {
        assert(s[i].name == s[k].name);
        assert(false);
    }
}

/// A searchable record carrying `name` sits at exactly one position of a
/// well-formed store, and Search returns it.
pub proof fn lemma_searchable_unique(s: Seq<UserView>, name: Seq<char>, i: int)
    requires
        store_wf(s),
        searchable_named(s, name, i),
    ensures
        has_searchable(s, name),
        searchable_index(s, name) == i,
        spec_search(s, name) == Some(s[i]),
{
    assert(has_searchable(s, name));
    let k = searchable_index(s, name);
    assert(searchable_named(s, name, k));
    if k != i {
        assert(s[i].name == s[k].name);
        assert(false);
    }
}

/// Every dispatch keeps the store well formed: ids stay in place, names stay
/// unique among non-deleted records, deleted records stay invisible.
pub proof fn lemma_handle_preserves_wf(
    cfg: LayerView,
    s: Seq<UserView>,
    addr: Seq<u8>,
    event: PeerEventView,
    now: int,
)
    requires
        store_wf(s),
    ensures
        store_wf(spec_handle(cfg, s, addr, event, now).0),
{
    let t = spec_handle(cfg, s, addr, event, now).0;
    match event {
        PeerEventView::Register(name, bio, avatar) => {
            if !has_living(s, name) {
                assert forall|i: int, j: int|
                    #![trigger t[i], t[j]]
                    0 <= i < t.len() && 0 <= j < t.len() && i != j && !t[i].is_deleted
                        && !t[j].is_deleted implies t[i].name != t[j].name by {
                    if i < s.len() && j < s.len() {
                        assert(s[i] == t[i] && s[j] == t[j]);
                    } else if i == s.len() && j < s.len() {
                        assert(!living_named(s, name, j));
                    } else if j == s.len() && i < s.len() {
                        assert(!living_named(s, name, i));
                    }
                }
            }
        },
        PeerEventView::Update(name, bio, avatar) => {
            assert forall|i: int, j: int|
                #![trigger t[i], t[j]]
                0 <= i < t.len() && 0 <= j < t.len() && i != j && !t[i].is_deleted
                    && !t[j].is_deleted implies t[i].name != t[j].name by {
                assert(t[i].name == s[i].name && t[j].name == s[j].name);
                assert(t[i].is_deleted == s[i].is_deleted && t[j].is_deleted == s[j].is_deleted);
            }
        },
        PeerEventView::Suspend(name) => {
            assert forall|i: int, j: int|
                #![trigger t[i], t[j]]
                0 <= i < t.len() && 0 <= j < t.len() && i != j && !t[i].is_deleted
                    && !t[j].is_deleted implies t[i].name != t[j].name by {
                assert(t[i].name == s[i].name && t[j].name == s[j].name);
                assert(t[i].is_deleted == s[i].is_deleted && t[j].is_deleted == s[j].is_deleted);
            }
        },
        PeerEventView::Active(name) => {
            assert forall|i: int, j: int|
                #![trigger t[i], t[j]]
                0 <= i < t.len() && 0 <= j < t.len() && i != j && !t[i].is_deleted
                    && !t[j].is_deleted implies t[i].name != t[j].name by {
                assert(t[i].name == s[i].name && t[j].name == s[j].name);
                assert(t[i].is_deleted == s[i].is_deleted && t[j].is_deleted == s[j].is_deleted);
            }
        },
        PeerEventView::Delete(name) => {
            assert forall|i: int, j: int|
                #![trigger t[i], t[j]]
                0 <= i < t.len() && 0 <= j < t.len() && i != j && !t[i].is_deleted
                    && !t[j].is_deleted implies t[i].name != t[j].name by {
                assert(t[i].name == s[i].name && t[j].name == s[j].name);
                assert(!s[i].is_deleted && !s[j].is_deleted);
            }
        },
        _ => {},
    }
}

/// While a non-deleted record carries `name`, a second Register of `name` —
/// by any peer, the first owner included — is answered
/// `RegisterResult(name, false)` and the store, the original record included,
/// is unchanged.
pub proof fn lemma_register_duplicate(
    cfg: LayerView,
    s: Seq<UserView>,
    addr: Seq<u8>,
    name: Seq<char>,
    bio: Seq<char>,
    avatar: Seq<u8>,
    now: int,
)
    requires
        store_wf(s),
        has_living(s, name),
    ensures
        spec_handle(cfg, s, addr, PeerEventView::Register(name, bio, avatar), now).0 == s,
        spec_handle(cfg, s, addr, PeerEventView::Register(name, bio, avatar), now).1 == seq![
            OutgoingView { dest: addr, event: ServerEventView::RegisterResult(name, false) },
        ],
{
}

/// The name of the mutation an event asks for, if it asks for one.
pub open spec fn mutation_target(event: PeerEventView) -> Option<Seq<char>> {
    match event {
        PeerEventView::Update(name, _, _) => Some(name),
        PeerEventView::Suspend(name) => Some(name),
        PeerEventView::Active(name) => Some(name),
        PeerEventView::Delete(name) => Some(name),
        _ => None,
    }
}

/// Update, Suspend, Active and Delete issued by a peer other than the
/// record's owner leave the store — the record and its avatar included —
/// unchanged; only Delete is acknowledged, the others are dropped silently.
pub proof fn lemma_non_owner_mutation_unchanged(
    cfg: LayerView,
    s: Seq<UserView>,
    addr: Seq<u8>,
    event: PeerEventView,
    now: int,
)
    requires
        store_wf(s),
        mutation_target(event) is Some,
        has_living(s, mutation_target(event).unwrap()),
        s[living_index(s, mutation_target(event).unwrap())].pid != addr,
    ensures
        spec_handle(cfg, s, addr, event, now).0 == s,
        spec_handle(cfg, s, addr, event, now).1 == (match event {
            PeerEventView::Delete(name) => seq![
                OutgoingView { dest: addr, event: ServerEventView::Deleted(name) },
            ],
            _ => Seq::<OutgoingView>::empty(),
        }),
{
}

/// Search on a name with no searchable record answers `NotFound(name)` and
/// reads nothing else.
pub proof fn lemma_search_miss(
    cfg: LayerView,
    s: Seq<UserView>,
    addr: Seq<u8>,
    name: Seq<char>,
    now: int,
)
    requires
        !has_searchable(s, name),
    ensures
        spec_handle(cfg, s, addr, PeerEventView::Search(name), now).0 == s,
        spec_handle(cfg, s, addr, PeerEventView::Search(name), now).1 == seq![
            OutgoingView { dest: addr, event: ServerEventView::NotFound(name) },
        ],
{
}

/// A successful Register is immediately visible: Search of the name — by any
/// peer — answers `Info` carrying the registrant's address and the submitted
/// bio and avatar, unmodified, the empty avatar included.
pub proof fn lemma_register_then_search(
    cfg: LayerView,
    s: Seq<UserView>,
    addr: Seq<u8>,
    name: Seq<char>,
    bio: Seq<char>,
    avatar: Seq<u8>,
    now: int,
    searcher: Seq<u8>,
    later: int,
)
    requires
        store_wf(s),
        !has_living(s, name),
    ensures
        spec_handle(cfg, s, addr, PeerEventView::Register(name, bio, avatar), now).1 == seq![
            OutgoingView { dest: addr, event: ServerEventView::RegisterResult(name, true) },
        ],
        ({
            let s1 = spec_handle(cfg, s, addr, PeerEventView::Register(name, bio, avatar), now).0;
            spec_handle(cfg, s1, searcher, PeerEventView::Search(name), later).1 == seq![
                OutgoingView {
                    dest: searcher,
                    event: ServerEventView::Info(addr, name, bio, avatar),
                },
            ]
        }),
{
    let s1 = spec_handle(cfg, s, addr, PeerEventView::Register(name, bio, avatar), now).0;
    lemma_handle_preserves_wf(cfg, s, addr, PeerEventView::Register(name, bio, avatar), now);
    assert(searchable_named(s1, name, s.len() as int));
    lemma_searchable_unique(s1, name, s.len() as int);
}

/// An owner's Update is immediately visible: Search of the name answers
/// `Info` carrying the new bio and avatar, byte for byte.
pub proof fn lemma_update_then_search(
    cfg: LayerView,
    s: Seq<UserView>,
    addr: Seq<u8>,
    name: Seq<char>,
    bio: Seq<char>,
    avatar: Seq<u8>,
    now: int,
    searcher: Seq<u8>,
    later: int,
)
    requires
        store_wf(s),
        has_living(s, name),
        s[living_index(s, name)].pid == addr,
        s[living_index(s, name)].is_actived,
    ensures
        ({
            let s1 = spec_handle(cfg, s, addr, PeerEventView::Update(name, bio, avatar), now).0;
            spec_handle(cfg, s1, searcher, PeerEventView::Search(name), later).1 == seq![
                OutgoingView {
                    dest: searcher,
                    event: ServerEventView::Info(addr, name, bio, avatar),
                },
            ]
        }),
{
    let i = living_index(s, name);
    assert(living_named(s, name, i));
    let s1 = spec_handle(cfg, s, addr, PeerEventView::Update(name, bio, avatar), now).0;
    lemma_handle_preserves_wf(cfg, s, addr, PeerEventView::Update(name, bio, avatar), now);
    assert(s1[i].name == name && s1[i].bio == bio && s1[i].avatar == avatar);
    assert(searchable_named(s1, name, i));
    lemma_searchable_unique(s1, name, i);
}

/// Delete is idempotent: a Delete of `name` by its owner — or of a name with
/// no record — is acknowledged `Deleted(name)` both times it is issued, and
/// the second Delete changes no record: the flags set by the first stay as
/// they are.
pub proof fn lemma_delete_idempotent(
    cfg: LayerView,
    s: Seq<UserView>,
    addr: Seq<u8>,
    name: Seq<char>,
    now: int,
    later: int,
)
    requires
        store_wf(s),
        has_living(s, name) ==> s[living_index(s, name)].pid == addr,
    ensures
        ({
            let first = spec_handle(cfg, s, addr, PeerEventView::Delete(name), now);
            let second = spec_handle(cfg, first.0, addr, PeerEventView::Delete(name), later);
            &&& first.1 == seq![
                OutgoingView { dest: addr, event: ServerEventView::Deleted(name) },
            ]
            &&& second.1 == first.1
            &&& second.0 == first.0
        }),
{
    let s1 = spec_handle(cfg, s, addr, PeerEventView::Delete(name), now).0;
    if has_living(s, name) {
        let i = living_index(s, name);
        assert(living_named(s, name, i));
        assert(s1[i].is_deleted);
        assert forall|j: int| !living_named(s1, name, j) by {
            if living_named(s1, name, j) {
                assert(j != i);
                assert(living_named(s, name, j));
                lemma_living_unique(s, name, j);
            }
        }
        assert(!has_living(s1, name));
    } else {
        assert(s1 == s);
    }
}

} // verus!
