//! Peer addresses and name records: the data the directory service keeps for
//! each registered name.

use crate::events::{ServerEvent, ServerEventView};
use crate::rpc::{RpcRow, RpcRowView};
use crate::text::{hex_of, hex_string};
use vstd::prelude::*;
use vstd::slice::slice_to_vec;

verus! {

/// The network-level identity of a participant, kept as an opaque byte
/// string. It is the ownership key for directory records.
pub struct PeerId {
    pub bytes: Vec<u8>,
}

impl View for PeerId {
    type V = Seq<u8>;

    open spec fn view(&self) -> Seq<u8> {
        self.bytes@
    }
}

impl PeerId {
    pub fn new(bytes: Vec<u8>) -> (r: PeerId)
        ensures
            r@ == bytes@,
    {
        PeerId { bytes }
    }

    /// An owned copy of this address.
    pub fn duplicate(&self) -> (r: PeerId)
        ensures
            r@ == self@,
    {
        PeerId { bytes: slice_to_vec(self.bytes.as_slice()) }
    }

    /// Whether two addresses are the same identity, byte for byte.
    pub fn equals(&self, other: &PeerId) -> (r: bool)
        ensures
            r == (self@ == other@),
    {
        if self.bytes.len() != other.bytes.len() {
            return false;
        }
        let mut i: usize = 0;
        while i < self.bytes.len()
            invariant
                i <= self.bytes.len(),
                self.bytes.len() == other.bytes.len(),
                forall|j: int| 0 <= j < i ==> self.bytes@[j] == other.bytes@[j],
            decreases self.bytes.len() - i,
        {
            if self.bytes[i] != other.bytes[i] {
                return false;
            }
            i = i + 1;
        }
        proof {
            assert(self@ =~= other@);
        }
        true
    }

    /// This address rendered as lower-case hexadecimal text.
    pub fn to_hex(&self) -> (r: String)
        ensures
            r@ == hex_of(self@),
    {
        hex_string(&self.bytes)
    }
}

/// A name record: the persistent mapping from a unique name to an owning peer
/// address plus profile data.
pub struct User {
    /// Stable identity assigned by the store, never reused.
    pub id: u64,
    /// The lookup key; unique among non-deleted records.
    pub name: String,
    /// The peer permitted to mutate or delete the record.
    pub pid: PeerId,
    /// Free-form profile text.
    pub bio: String,
    /// Binary avatar blob; may be empty.
    pub avatar: Vec<u8>,
    /// Visible to Search when true.
    pub is_actived: bool,
    /// Soft-delete marker; a deleted record is kept but excluded from reads.
    pub is_deleted: bool,
    /// Creation time in seconds, set once.
    pub datetime: i64,
}

/// The mathematical view of a [`User`] record.
pub struct UserView {
    pub id: int,
    pub name: Seq<char>,
    pub pid: Seq<u8>,
    pub bio: Seq<char>,
    pub avatar: Seq<u8>,
    pub is_actived: bool,
    pub is_deleted: bool,
    pub datetime: int,
}

impl View for User {
    type V = UserView;

    open spec fn view(&self) -> UserView {
        UserView {
            id: self.id as int,
            name: self.name@,
            pid: self.pid@,
            bio: self.bio@,
            avatar: self.avatar@,
            is_actived: self.is_actived,
            is_deleted: self.is_deleted,
            datetime: self.datetime as int,
        }
    }
}

impl User {
    /// A fresh record: active, not deleted, id still unassigned (the store
    /// assigns it on insert). The creation time is handed in by the caller,
    /// since reading a clock is an outside effect.
    pub fn new(name: String, pid: PeerId, bio: String, avatar: Vec<u8>, datetime: i64) -> (r: User)
        ensures
            r@ == (UserView {
                id: 0,
                name: name@,
                pid: pid@,
                bio: bio@,
                avatar: avatar@,
                is_actived: true,
                is_deleted: false,
                datetime: datetime as int,
            }),
    {
        User { id: 0, name, pid, bio, avatar, is_actived: true, is_deleted: false, datetime }
    }

    /// An owned copy of this record.
    pub fn duplicate(&self) -> (r: User)
        ensures
            r@ == self@,
    {
        User {
            id: self.id,
            name: self.name.clone(),
            pid: self.pid.duplicate(),
            bio: self.bio.clone(),
            avatar: slice_to_vec(self.avatar.as_slice()),
            is_actived: self.is_actived,
            is_deleted: self.is_deleted,
            datetime: self.datetime,
        }
    }

    /// The Search response carrying this record's owner and profile.
    pub fn to_info(self) -> (r: ServerEvent)
        ensures
            r@ == ServerEventView::Info(self@.pid, self@.name, self@.bio, self@.avatar),
    {
        ServerEvent::Info(self.pid, self.name, self.bio, self.avatar)
    }

    /// The control-surface row for this record: id, name, owner address in
    /// hexadecimal, visibility, creation time.
    pub fn to_rpc(self) -> (r: RpcRow)
        ensures
            r@ == (RpcRowView {
                id: self@.id,
                name: self@.name,
                pid_hex: hex_of(self@.pid),
                is_actived: self@.is_actived,
                datetime: self@.datetime,
            }),
    {
        let pid_hex = self.pid.to_hex();
        RpcRow {
            id: self.id,
            name: self.name,
            pid_hex,
            is_actived: self.is_actived,
            datetime: self.datetime,
        }
    }
}

} // verus!
