//! The read-only local control surface: a status report and a listing of the
//! non-deleted records, for operator inspection. No mutation path exists here;
//! all mutation flows through the protocol handler.

use crate::layer::Layer;
use crate::models::UserView;
use crate::store::{living_records, UserStore};
use crate::text::hex_of;
use vstd::prelude::*;

verus! {

/// One listed record: id, name, owner address in hexadecimal, visibility,
/// creation time.
pub struct RpcRow {
    pub id: u64,
    pub name: String,
    pub pid_hex: String,
    pub is_actived: bool,
    pub datetime: i64,
}

/// The mathematical view of an [`RpcRow`].
pub struct RpcRowView {
    pub id: int,
    pub name: Seq<char>,
    pub pid_hex: Seq<char>,
    pub is_actived: bool,
    pub datetime: int,
}

impl View for RpcRow {
    type V = RpcRowView;

    open spec fn view(&self) -> RpcRowView {
        RpcRowView {
            id: self.id as int,
            name: self.name@,
            pid_hex: self.pid_hex@,
            is_actived: self.is_actived,
            datetime: self.datetime as int,
        }
    }
}

/// The row a record is listed as.
pub open spec fn rpc_row_view(u: UserView) -> RpcRowView {
    RpcRowView {
        id: u.id,
        name: u.name,
        pid_hex: hex_of(u.pid),
        is_actived: u.is_actived,
        datetime: u.datetime,
    }
}

/// The views of a listing, in order.
pub open spec fn rpc_row_views(rows: Seq<RpcRow>) -> Seq<RpcRowView> {
    rows.map_values(|r: RpcRow| r@)
}

/// The listing of a sequence of records, in order.
pub open spec fn rows_of(users: Seq<UserView>) -> Seq<RpcRowView> {
    users.map_values(|u: UserView| rpc_row_view(u))
}

/// The service's status as reported to a local operator: its display name,
/// its own peer address in hexadecimal, and its proxy flag.
pub struct StatusInfo {
    pub name: String,
    pub peer_id_hex: String,
    pub proxy: bool,
}

/// What the `status` query answers.
pub fn status(layer: &Layer) -> (r: StatusInfo)
    ensures
        r.name@ == layer@.name,
        r.peer_id_hex@ == hex_of(layer@.pid),
        r.proxy == layer@.proxy,
{
    StatusInfo {
        name: layer.name.clone(),
        peer_id_hex: layer.pid.to_hex(),
        proxy: layer.proxy,
    }
}

/// What the `list-users` query answers: one row per non-deleted record, in id
/// order.
pub fn list_users(store: &UserStore) -> (r: Vec<RpcRow>)
    requires
        store.wf(),
    ensures
        rpc_row_views(r@) == rows_of(living_records(store@)),
{
    let users = store.list();
    let mut r: Vec<RpcRow> = Vec::new();
    let mut i: usize = 0;
    while i < users.len()
        invariant
            i <= users.len(),
            r@.len() == i,
            crate::store::user_views(users@) == living_records(store@),
            forall|k: int| 0 <= k < i ==> (#[trigger] r@[k])@ == rpc_row_view(users@[k]@),
        decreases users.len() - i,
    {
        r.push(users[i].duplicate().to_rpc());
        i = i + 1;
    }
    proof {
        assert(rpc_row_views(r@) =~= rows_of(living_records(store@)));
    }
    r
}

} // verus!
