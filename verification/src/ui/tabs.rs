//! The tabs of the open brokers: which tabs there are, what their labels say, and what
//! closing one asks for.
use vstd::prelude::*;

use crate::data::common::TabKind;
use crate::data::hierarchy::AppData;
use crate::data::AppEvent;
use crate::util::strings::{from_lit, push_char};

verus! {

/// The width, in characters, that a tab's label is padded to.
pub const TAB_LABEL_WIDTH: usize = 40;

/// `s` followed by spaces up to `width` characters; longer text is kept whole.
pub open spec fn padded(s: Seq<char>, width: nat) -> Seq<char> {
    if s.len() < width {
        s + Seq::new((width - s.len()) as nat, |i: int| ' ')
    } else {
        s
    }
}

/// The name of the broker with this id, or nothing where there is none.
pub open spec fn tab_name(data: AppData, key: usize) -> Seq<char> {
    match data.index_of_id(key) {
        Some(i) => data.brokers@[i].name@,
        None => Seq::empty(),
    }
}

/// The text left-aligned in `width` characters.
pub fn pad_right(s: &str, width: usize) -> (r: String)
    ensures
        r@ == padded(s@, width as nat),
{
    let mut r = String::new();
    let mut n: usize = 0;
    for c in it: s.chars()
        invariant
            it.seq() == s@,
            r@ == s@.take(it.index() as int),
            n <= width,
            n == width || n == it.index(),
            n <= it.index(),
    {
        proof {
            assert(s@.take(it.index() + 1) =~= s@.take(it.index() as int).push(c));
        }
        push_char(&mut r, c);
        if n < width {
            n = n + 1;
        }
    }
    proof {
        assert(s@.take(s@.len() as int) =~= s@);
    }
    if n >= width {
        return r;
    }
    let ghost text = r@;
    let ghost len = s@.len();
    assert(n == len);
    while n < width
        invariant
            len <= n <= width,
            r@ == text + Seq::new((n - len) as nat, |i: int| ' '),
            text == s@,
            len == s@.len(),
        decreases width - n,
    {
        let ghost before = r@;
        push_char(&mut r, ' ');
        n = n + 1;
        proof {
            assert(r@ =~= text + Seq::new((n - s@.len()) as nat, |i: int| ' '));
        }
    }
    r
}

/// The tabs of the open brokers.
pub struct BrokersTabs;

impl BrokersTabs {
    /// The keys of the tabs: the ids of the open brokers, in their order.
    pub fn tabs(&self, data: &AppData) -> (keys: Vec<usize>)
        ensures
            keys@ == data.broker_tabs@,
    {
        data.broker_tabs.clone()
    }

    /// The text of a tab: the broker's name, padded to `TAB_LABEL_WIDTH` characters.
    pub fn tab_info(&self, key: usize, data: &AppData) -> (text: String)
        ensures
            text@ == padded(tab_name(*data, key), TAB_LABEL_WIDTH as nat),
    {
        proof {
            reveal_strlit("");
        }
        match data.find_broker_by_id(key) {
            Ok(b) => pad_right(b.name.as_str(), TAB_LABEL_WIDTH),
            Err(_) => pad_right("", TAB_LABEL_WIDTH),
        }
    }

    /// The label of a tab: the broker's name.
    pub fn tab_label(&self, key: usize, data: &AppData) -> (text: String)
        ensures
            text@ == tab_name(*data, key),
    {
        match data.find_broker_by_id(key) {
            Ok(b) => b.name.clone(),
            Err(_) => String::new(),
        }
    }

    /// Whether a tab is shown as connected.
    pub fn tab_connected(&self, key: usize, data: &AppData) -> (c: bool)
        ensures
            c == match data.index_of_id(key) {
                Some(i) => data.brokers@[i].tab_status.connected,
                None => false,
            },
    {
        match data.find_broker_by_id(key) {
            Ok(b) => b.tab_status.connected,
            Err(_) => false,
        }
    }

    /// Closing a tab asks for the broker's tab to close.
    pub fn close_tab(&self, key: usize) -> (e: AppEvent)
        ensures
            e == AppEvent::TouchCloseBrokerTab(key),
    {
        AppEvent::TouchCloseBrokerTab(key)
    }
}

/// The tabs of one broker: its connection, while it connects or is connected, then its
/// options.
pub struct BrokerTabPolicy(pub usize);

/// The tabs a broker shows, given its connection state.
pub open spec fn broker_tab_keys(data: AppData, id: usize) -> Seq<TabKind> {
    match data.index_of_id(id) {
        Some(i) => if data.brokers@[i].tab_status.try_connect || data.brokers@[i].tab_status.connected {
            seq![TabKind::Connection, TabKind::Broker]
        } else {
            seq![TabKind::Broker]
        },
        None => seq![TabKind::Broker],
    }
}

impl BrokerTabPolicy {
    /// The tabs change when the broker starts or stops connecting.
    pub fn tabs_changed(&self, old_data: &AppData, data: &AppData) -> (changed: bool)
        ensures
            changed == match (old_data.index_of_id(self.0), data.index_of_id(self.0)) {
                (Some(i), Some(j)) => old_data.brokers@[i].tab_status.try_connect
                    != data.brokers@[j].tab_status.try_connect,
                _ => false,
            },
    {
        match (old_data.find_broker_by_id(self.0), data.find_broker_by_id(self.0)) {
            (Ok(old_broker), Ok(broker)) => old_broker.tab_status.try_connect != broker.tab_status.try_connect,
            _ => false,
        }
    }

    pub fn tabs(&self, data: &AppData) -> (keys: Vec<TabKind>)
        ensures
            keys@ == broker_tab_keys(*data, self.0),
    {
        let mut keys: Vec<TabKind> = Vec::new();
        if let Ok(broker) = data.find_broker_by_id(self.0) {
            if broker.tab_status.try_connect || broker.tab_status.connected {
                keys.push(TabKind::Connection);
            }
        }
        keys.push(TabKind::Broker);
        proof {
            assert(keys@ =~= broker_tab_keys(*data, self.0));
        }
        keys
    }

    /// The title of a tab, and whether it can be closed: only the connection tab can.
    pub fn tab_info(&self, key: TabKind) -> (info: (String, bool))
        ensures
            info.0@ == match key {
                TabKind::Connection => "Connection"@,
                TabKind::Broker => "Options"@,
            },
            info.1 == (key == TabKind::Connection),
    {
        match key {
            TabKind::Connection => (from_lit("Connection"), true),
            TabKind::Broker => (from_lit("Options"), false),
        }
    }
}

} // verus!
