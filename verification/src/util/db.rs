use vstd::prelude::*;

use crate::data::common::{
    Broker, Protocol, PublicInput, SignedTy, SubscribeHis, SubscribeInput, TabStatus,
};
use crate::data::common::{db_record_of, his_same};
use crate::data::db::BrokerDB;
use crate::data::hierarchy::AppData;
use crate::util::strings::from_lit;

verus! {

/// The connection options a new broker starts with.
pub const OPTION: &'static str = r#"{
	"keep_alive": 60,
	"clean_session": true,
	"max_incoming_packet_size": 10240,
	"max_outgoing_packet_size": 10240,
	"inflight": 100,
	"conn_timeout": 5
}
        "#;

/// The address a new broker starts with.
pub const DEFAULT_ADDR: &'static str = "broker-cn.emqx.io";

/// The port a new broker starts with.
pub const DEFAULT_PORT: u16 = 1883;

/// How `ArcDb::new_broker` changes the store's bookkeeping (`old` to `new`) and what it
/// gives: an unselected broker with the default settings under the next id, after which the
/// next id is one more; the saved ids stay.
pub open spec fn new_broker_result(old: ArcDb, new: ArcDb, b: Broker) -> bool {
    &&& new.index == old.index + 1
    &&& new.ids == old.ids
    &&& is_default_broker(b, old.index)
    &&& !b.selected
}

/// A new broker's id is fresh: where every id handed out before is below the next id, the
/// new broker's id is none of them, and it and all of them are below the next id after it.
pub proof fn lemma_new_broker_id_is_fresh(old: ArcDb, new: ArcDb, b: Broker, handed_out: Seq<usize>)
    requires
        new_broker_result(old, new, b),
        forall|i: int| 0 <= i < handed_out.len() ==> #[trigger] handed_out[i] < old.index,
    ensures
        !handed_out.contains(b.id),
        forall|i: int|
            0 <= i < handed_out.push(b.id).len() ==> #[trigger] handed_out.push(b.id)[i] < new.index,
{
    assert forall|i: int| 0 <= i < handed_out.push(b.id).len() implies #[trigger] handed_out.push(b.id)[i]
        < new.index by {
        if i < handed_out.len() {
            assert(handed_out.push(b.id)[i] == handed_out[i]);
        }
    }
}

/// Brokers made one after the other get increasing ids, each one more than the one before.
pub proof fn lemma_new_broker_ids_increase(db0: ArcDb, db1: ArcDb, db2: ArcDb, first: Broker, second: Broker)
    requires
        new_broker_result(db0, db1, first),
        new_broker_result(db1, db2, second),
    ensures
        first.id < second.id,
        second.id == first.id + 1,
{
}

/// One write to the store.
#[derive(Debug)]
pub enum DbWrite {
    /// Store the list of saved broker ids.
    Ids(Vec<usize>),
    /// Store a broker's record under its id.
    Broker(BrokerDB),
    /// Remove the record stored under a broker id.
    RemoveBroker(usize),
    /// Store a broker's subscription history.
    SubscribeHises(usize, Vec<SubscribeHis>),
}

/// The bookkeeping of the broker store: the next broker id to hand out and the ids of the
/// brokers saved so far.
#[derive(Debug, Clone)]
pub struct ArcDb {
    pub index: usize,
    pub ids: Vec<usize>,
}

/// A broker with the default settings under the given id, not yet stored nor selected.
pub open spec fn is_default_broker(b: Broker, id: usize) -> bool {
    &&& b.id == id
    &&& b.protocol == Protocol::V4
    &&& b.client_id@.len() == 0
    &&& b.name@.len() == 0
    &&& b.addr@ == DEFAULT_ADDR@
    &&& b.port == Some(DEFAULT_PORT)
    &&& b.params@ == OPTION@
    &&& !b.use_credentials
    &&& b.user_name@.len() == 0
    &&& b.password@.len() == 0
    &&& !b.stored
    &&& !b.tls
    &&& b.signed_ty == SignedTy::Ca
    &&& b.self_signed_ca@.len() == 0
    &&& b.tab_status == (TabStatus { id, try_connect: false, connected: false })
    &&& b.subscribe_hises@.len() == 0
    &&& b.subscribe_topics@.len() == 0
    &&& b.msgs@.len() == 0
    &&& b.unsubscribe_ing@.len() == 0
    &&& b.subscribe_input.broker_id == id
    &&& b.subscribe_input.topic@.len() == 0
    &&& b.public_input.topic@.len() == 0
    &&& b.public_input.msg@.len() == 0
}

/// What the store held under one saved id: the broker's record and its history, or
/// nothing where the record is missing.
pub type StoredBroker = Option<(BrokerDB, Vec<SubscribeHis>)>;

/// The positions of the records that were found, in order.
pub open spec fn found_positions(s: Seq<StoredBroker>) -> Seq<usize>
    decreases s.len(),
{
    if s.len() == 0 {
        Seq::empty()
    } else {
        let p = found_positions(s.drop_last());
        if s.last() is Some {
            p.push((s.len() - 1) as usize)
        } else {
            p
        }
    }
}

/// `r` is a copy of the history `h`, entry by entry.
pub open spec fn hises_copied(r: Seq<SubscribeHis>, h: Seq<SubscribeHis>) -> bool {
    &&& r.len() == h.len()
    &&& forall|j: int| 0 <= j < r.len() ==> his_same(#[trigger] r[j], h[j])
}

/// `b` is the broker loaded from the record `rec` and the history `h` under the id `id`:
/// stored, not selected, not connected, with the history and with empty lists and forms.
pub open spec fn loaded_broker(b: Broker, rec: BrokerDB, h: Seq<SubscribeHis>, id: usize) -> bool {
    &&& db_record_of(BrokerDB { id, ..rec }, b)
    &&& b.stored
    &&& !b.selected
    &&& b.tab_status == (TabStatus { id, try_connect: false, connected: false })
    &&& hises_copied(b.subscribe_hises@, h)
    &&& b.subscribe_topics@.len() == 0
    &&& b.msgs@.len() == 0
    &&& b.unsubscribe_ing@.len() == 0
    &&& b.subscribe_input.broker_id == id
    &&& b.subscribe_input.topic@.len() == 0
    &&& b.public_input.topic@.len() == 0
    &&& b.public_input.msg@.len() == 0
}

/// The found positions increase and lie in the sequence.
pub proof fn lemma_found_positions(s: Seq<StoredBroker>)
    requires
        s.len() <= usize::MAX,
    ensures
        forall|j: int| 0 <= j < found_positions(s).len() ==> #[trigger] found_positions(s)[j] < s.len(),
        forall|j: int| 0 <= j < found_positions(s).len() ==> (#[trigger] s[found_positions(s)[j] as int]) is Some,
        forall|i: int, j: int|
            0 <= i < j < found_positions(s).len() ==> #[trigger] found_positions(s)[i] < #[trigger] found_positions(s)[j],
    decreases s.len(),
{
    if s.len() > 0 {
        lemma_found_positions(s.drop_last());
        let p = found_positions(s.drop_last());
        let f = found_positions(s);
        assert forall|j: int| 0 <= j < p.len() implies s[p[j] as int] == s.drop_last()[p[j] as int] by {}
        if s.last() is Some {
            assert(f == p.push((s.len() - 1) as usize));
            assert forall|j: int| 0 <= j < f.len() implies (#[trigger] s[f[j] as int]) is Some by {
                if j < p.len() {
                    assert(f[j] == p[j]);
                    assert(s.drop_last()[p[j] as int] is Some);
                } else {
                    assert(f[j] == s.len() - 1);
                }
            }
            assert forall|i: int, j: int| 0 <= i < j < f.len() implies #[trigger] f[i] < #[trigger] f[j] by {
                assert(f[i] == p[i]);
                assert(p[i] < s.len() - 1);
                if j < p.len() {
                    assert(f[j] == p[j]);
                    assert(p[i] < p[j]);
                }
            }
        } else {
            assert(f == p);
        }
    }
}

/// A copy of a history.
fn copy_hises(h: &Vec<SubscribeHis>) -> (r: Vec<SubscribeHis>)
    ensures
        hises_copied(r@, h@),
{
    let mut r: Vec<SubscribeHis> = Vec::new();
    for j in 0..h.len()
        invariant
            r@.len() == j,
            forall|k: int| 0 <= k < j ==> his_same(#[trigger] r@[k], h@[k]),
    {
        r.push(h[j].duplicate());
    }
    r
}

impl ArcDb {
    /// Loads the application state from what the store held: `stored` is `None` where no
    /// list of saved ids was found, else what was found under each saved id, in the list's
    /// order. The brokers found are renumbered by their position in the list, which also
    /// becomes the next id to hand out; their ids join the list of saved ids. Each broker keeps
    /// the history entries found for it as they were read. The writes store
    /// everything again under the new ids: the list of ids first, then each history, then
    /// each record.
    pub fn read_app_data(&mut self, stored: Option<Vec<StoredBroker>>) -> (r: (AppData, Vec<DbWrite>))
        requires
            old(self).ids@.len() + (match stored {
                Some(v) => v@.len() as int,
                None => 0int,
            }) <= usize::MAX,
        ensures
            ({
                let (data, w) = r;
                &&& data.broker_tabs@.len() == 0
                &&& data.hint@.len() == 0
                &&& data.self_signed_file is None
                &&& !data.display_history
                &&& !data.display_broker_info
                &&& data.db.index == final(self).index
                &&& data.db.ids@ == final(self).ids@
                &&& data.wf()
                &&& w@.len() > 0
                &&& w@[0] matches DbWrite::Ids(ids) && ids@ == final(self).ids@
                &&& match stored {
                    None => {
                        &&& final(self).index == old(self).index
                        &&& final(self).ids@ == old(self).ids@
                        &&& data.brokers@.len() == 0
                        &&& w@.len() == 1
                    },
                    Some(v) => {
                        let f = found_positions(v@);
                        let n = f.len();
                        &&& final(self).index == v@.len()
                        &&& final(self).ids@ == old(self).ids@ + f
                        &&& data.brokers@.len() == n
                        &&& w@.len() == 1 + 2 * n
                        &&& forall|j: int| 0 <= j < n ==> {
                            let k = f[j];
                            let (rec, h) = v@[k as int]->0;
                            &&& loaded_broker(#[trigger] data.brokers@[j], rec, h@, k)
                            &&& data.brokers@[j].id == k
                            &&& w@[1 + j] matches DbWrite::SubscribeHises(i, hs) && i == k && hises_copied(hs@, h@)
                            &&& w@[1 + n + j] matches DbWrite::Broker(d) && db_record_of(d, data.brokers@[j])
                        }
                    },
                }
            }),
    {
        let mut brokers: Vec<Broker> = Vec::new();
        let mut his_writes: Vec<DbWrite> = Vec::new();
        let mut broker_writes: Vec<DbWrite> = Vec::new();
        if let Some(mut v) = stored {
            let ghost orig = v@;
            let len = v.len();
            self.index = len;
            let ghost ids0 = self.ids@;
            for k in 0..len
                invariant
                    len == orig.len(),
                    v@.len() == len,
                    forall|q: int| k <= q < len ==> #[trigger] v@[q] == orig[q],
                    self.index == len,
                    self.ids@ == ids0 + found_positions(orig.take(k as int)),
                    ids0.len() + len <= usize::MAX,
                    brokers@.len() == found_positions(orig.take(k as int)).len(),
                    his_writes@.len() == brokers@.len(),
                    broker_writes@.len() == brokers@.len(),
                    forall|j: int| 0 <= j < brokers@.len() ==> {
                        let f = found_positions(orig.take(k as int));
                        let (rec, h) = orig[f[j] as int]->0;
                        &&& loaded_broker(#[trigger] brokers@[j], rec, h@, f[j])
                        &&& brokers@[j].id == f[j]
                        &&& his_writes@[j] matches DbWrite::SubscribeHises(i, hs) && i == f[j] && hises_copied(hs@, h@)
                        &&& broker_writes@[j] matches DbWrite::Broker(d) && db_record_of(d, brokers@[j])
                    },
            {
                proof {
                    assert(orig.take(k as int + 1).drop_last() == orig.take(k as int));
                    lemma_found_positions(orig.take(k as int));
                }
                let mut item: StoredBroker = None;
                std::mem::swap(&mut item, &mut v[k]);
                if let Some((rec, hises)) = item {
                    let ghost f0 = found_positions(orig.take(k as int));
                    assert(found_positions(orig.take(k as int + 1)) == f0.push(k));
                    let mut rec = rec;
                    rec.id = k;
                    let mut b = rec.to_broker();
                    his_writes.push(DbWrite::SubscribeHises(k, copy_hises(&hises)));
                    b.subscribe_hises = copy_hises(&hises);
                    broker_writes.push(DbWrite::Broker(b.clone_to_db()));
                    brokers.push(b);
                    self.ids.push(k);
                    proof {
                        assert forall|j: int| 0 <= j < f0.len() implies orig.take(k as int + 1)[f0[j] as int]
                            == orig.take(k as int)[f0[j] as int] by {}
                    }
                } else {
                    assert(found_positions(orig.take(k as int + 1)) == found_positions(orig.take(k as int)));
                }
            }
            proof {
                assert(orig.take(len as int) == orig);
                lemma_found_positions(orig);
                let f = found_positions(orig);
                assert forall|i: int| 0 <= i < brokers@.len() implies #[trigger] brokers@[i].id < len by {
                    assert(f[i] < orig.len());
                }
                assert forall|i: int, j: int| 0 <= i < j < brokers@.len() implies #[trigger] brokers@[i].id
                    != #[trigger] brokers@[j].id by {
                    assert(f[i] < f[j]);
                }
            }
        }
        proof {
            reveal_strlit("");
        }
        let mut writes: Vec<DbWrite> = Vec::new();
        writes.push(DbWrite::Ids(self.ids.clone()));
        writes.append(&mut his_writes);
        writes.append(&mut broker_writes);
        let data = AppData {
            brokers,
            broker_tabs: Vec::new(),
            db: ArcDb { index: self.index, ids: self.ids.clone() },
            hint: from_lit(""),
            self_signed_file: None,
            display_history: false,
            display_broker_info: false,
        };
        (data, writes)
    }

    /// A broker with the default settings under a fresh id; the next id is one more.
    pub fn new_broker(&mut self) -> (b: Broker)
        requires
            old(self).index < usize::MAX,
        ensures
            new_broker_result(*old(self), *final(self), b),
    {
        let id = self.index;
        self.index = self.index + 1;
        proof {
            reveal_strlit("");
        }
        Broker {
            id,
            protocol: Protocol::V4,
            client_id: from_lit(""),
            name: from_lit(""),
            addr: from_lit(DEFAULT_ADDR),
            port: Some(DEFAULT_PORT),
            params: from_lit(OPTION),
            use_credentials: false,
            user_name: from_lit(""),
            password: from_lit(""),
            stored: false,
            selected: false,
            tls: false,
            signed_ty: SignedTy::Ca,
            self_signed_ca: from_lit(""),
            tab_status: TabStatus { id, try_connect: false, connected: false },
            subscribe_hises: Vec::new(),
            subscribe_topics: Vec::new(),
            msgs: Vec::new(),
            subscribe_input: SubscribeInput::init(id),
            public_input: PublicInput::default(),
            unsubscribe_ing: Vec::new(),
        }
    }

    fn contains_id(&self, id: usize) -> (b: bool)
        ensures
            b == self.ids@.contains(id),
    {
        for i in 0..self.ids.len()
            invariant
                forall|j: int| 0 <= j < i ==> self.ids@[j] != id,
        {
            if self.ids[i] == id {
                return true;
            }
        }
        false
    }

    /// Saves a broker's record; a broker saved for the first time joins the list of ids,
    /// which is then stored again.
    pub fn save_broker(&mut self, broker: BrokerDB) -> (w: Vec<DbWrite>)
        ensures
            final(self).index == old(self).index,
            old(self).ids@.contains(broker.id) ==> final(self).ids == old(self).ids
                && w@.len() == 1 && w@[0] == DbWrite::Broker(broker),
            !old(self).ids@.contains(broker.id) ==> final(self).ids@ == old(self).ids@.push(
                broker.id,
            ) && w@.len() == 2 && (w@[0] matches DbWrite::Ids(ids) && ids@ == final(self).ids@)
                && w@[1] == DbWrite::Broker(broker),
    {
        let mut writes: Vec<DbWrite> = Vec::new();
        if !self.contains_id(broker.id) {
            self.ids.push(broker.id);
            writes.push(DbWrite::Ids(self.ids.clone()));
        }
        writes.push(DbWrite::Broker(broker));
        writes
    }

    /// Forgets a saved broker: its id leaves the list, which is stored again, and its
    /// record is removed. Nothing happens for an id that was never saved.
    pub fn delete_broker(&mut self, id: usize) -> (w: Vec<DbWrite>)
        ensures
            final(self).index == old(self).index,
            !old(self).ids@.contains(id) ==> final(self).ids@ == old(self).ids@ && w@.len() == 0,
            old(self).ids@.contains(id) ==> exists|k: int|
                0 <= k < old(self).ids@.len() && old(self).ids@[k] == id && (forall|j: int|
                    0 <= j < k ==> old(self).ids@[j] != id) && final(self).ids@ == old(
                    self,
                ).ids@.remove(k),
            old(self).ids@.contains(id) ==> w@.len() == 2 && (w@[0] matches DbWrite::Ids(ids)
                && ids@ == final(self).ids@) && w@[1] == DbWrite::RemoveBroker(id),
    {
        let mut selected_index: Option<usize> = None;
        let len = self.ids.len();
        for index in 0..len
            invariant
                len == self.ids@.len(),
                selected_index is None ==> forall|j: int| 0 <= j < index ==> self.ids@[j] != id,
                selected_index matches Some(k) ==> k < len && self.ids@[k as int] == id && (
                forall|j: int| 0 <= j < k ==> self.ids@[j] != id),
        {
            if selected_index.is_none() && self.ids[index] == id {
                selected_index = Some(index);
            }
        }
        let mut writes: Vec<DbWrite> = Vec::new();
        if let Some(index) = selected_index {
            self.ids.remove(index);
            writes.push(DbWrite::Ids(self.ids.clone()));
            writes.push(DbWrite::RemoveBroker(id));
        }
        writes
    }

    /// Stores a broker's subscription history.
    pub fn update_subscribe_his(&self, id: usize, hises: Vec<SubscribeHis>) -> (w: DbWrite)
        ensures
            w == DbWrite::SubscribeHises(id, hises),
    {
        DbWrite::SubscribeHises(id, hises)
    }
}

/// Deleting a broker that was just saved for the first time leaves the list of saved ids
/// as it was before the save: saving appends the id, and deleting removes its first
/// occurrence `k`, which is that last position.
pub proof fn lemma_save_then_delete(ids: Seq<usize>, id: usize, k: int)
    requires
        !ids.contains(id),
        0 <= k < ids.push(id).len(),
        ids.push(id)[k] == id,
        forall|j: int| 0 <= j < k ==> ids.push(id)[j] != id,
    ensures
        ids.push(id).remove(k) == ids,
{
    if k < ids.len() {
        assert(ids[k] == id);
    }
    assert(ids.push(id).remove(k) =~= ids);
}

/// Two brokers have the same settings: all that the store keeps of a broker but its id.
pub open spec fn same_settings(a: Broker, b: Broker) -> bool {
    &&& a.protocol == b.protocol
    &&& a.client_id@ == b.client_id@
    &&& a.name@ == b.name@
    &&& a.addr@ == b.addr@
    &&& a.port == b.port
    &&& a.params@ == b.params@
    &&& a.use_credentials == b.use_credentials
    &&& a.user_name@ == b.user_name@
    &&& a.password@ == b.password@
    &&& a.tls == b.tls
    &&& a.signed_ty == b.signed_ty
    &&& a.self_signed_ca@ == b.self_signed_ca@
}

/// What a save writes, a later load reads back: a broker whose record was stored is loaded,
/// under the id it is loaded at, as a stored broker with the same settings.
pub proof fn lemma_saved_broker_loads_back(
    b: Broker,
    record: BrokerDB,
    loaded: Broker,
    hises: Seq<SubscribeHis>,
    id: usize,
)
    requires
        db_record_of(record, b),
        loaded_broker(loaded, record, hises, id),
    ensures
        same_settings(loaded, b),
        loaded.id == id,
        loaded.stored,
{
}

} // verus!
