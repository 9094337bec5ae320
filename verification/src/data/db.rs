use vstd::prelude::*;

use crate::data::common::{
    Broker, PublicInput, Protocol, SignedTy, SubscribeInput, TabStatus, db_record_of,
};
use crate::data::AString;

verus! {

/// The keys under which a broker's records are stored.
#[derive(Debug, Clone, Copy, PartialEq, Eq, Structural)]
pub enum DbKey {
    Broker(usize),
    SubscribeHis(usize),
}

impl DbKey {
    pub fn broker_key(id: usize) -> (k: Self)
        ensures
            k == DbKey::Broker(id),
    {
        Self::Broker(id)
    }

    pub fn subscribe_his_key(id: usize) -> (k: Self)
        ensures
            k == DbKey::SubscribeHis(id),
    {
        Self::SubscribeHis(id)
    }
}

/// The stored settings of a broker.
#[derive(Debug, Clone)]
pub struct BrokerDB {
    pub id: usize,
    pub protocol: Protocol,
    pub client_id: AString,
    pub name: AString,
    pub addr: AString,
    pub port: Option<u16>,
    pub params: AString,
    pub use_credentials: bool,
    pub user_name: AString,
    pub password: AString,
    pub tls: bool,
    pub signed_ty: SignedTy,
    pub self_signed_ca: AString,
}

impl BrokerDB {
    /// The broker a stored record describes: stored, not selected, not connected, with
    /// empty lists and empty input forms.
    pub fn to_broker(self) -> (b: Broker)
        ensures
            db_record_of(self, b),
            b.stored,
            !b.selected,
            b.tab_status == (TabStatus { id: self.id, try_connect: false, connected: false }),
            b.subscribe_hises@.len() == 0,
            b.subscribe_topics@.len() == 0,
            b.msgs@.len() == 0,
            b.unsubscribe_ing@.len() == 0,
            b.subscribe_input.broker_id == self.id,
            b.subscribe_input.topic@.len() == 0,
            b.public_input.topic@.len() == 0,
            b.public_input.msg@.len() == 0,
    {
        let id = self.id;
        Broker {
            id,
            protocol: self.protocol,
            client_id: self.client_id,
            name: self.name,
            addr: self.addr,
            port: self.port,
            params: self.params,
            use_credentials: self.use_credentials,
            user_name: self.user_name,
            password: self.password,
            stored: true,
            selected: false,
            tls: self.tls,
            signed_ty: self.signed_ty,
            self_signed_ca: self.self_signed_ca,
            tab_status: TabStatus { id, try_connect: false, connected: false },
            subscribe_hises: Vec::new(),
            subscribe_topics: Vec::new(),
            msgs: Vec::new(),
            subscribe_input: SubscribeInput::init(id),
            public_input: PublicInput::default(),
            unsubscribe_ing: Vec::new(),
        }
    }
}

} // verus!
