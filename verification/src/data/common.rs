mod impls;

use vstd::prelude::*;
use vstd::utf8::{decode_utf8, encode_utf8, valid_utf8};

use crate::data::db::BrokerDB;
use crate::data::AString;
use crate::ForError;
use crate::util::codec::{
    from_utf8_lossy, hex_delimiter, lower_hex_digit, json_pretty, simple_hex, simple_hex_text, to_pretty_json, utf8_lossy,
};
use crate::util::strings::{from_lit, push_char};

verus! {

/// An identifier handed out to a subscription history entry.
#[derive(Copy, Clone, Debug, Eq, PartialEq, Structural)]
pub struct Id(pub u32);

impl Id {
    /// The identifier with the given number.
    pub fn new(value: u32) -> (id: Id)
        ensures
            id.0 == value,
    {
        Id(value)
    }
}

/// A subscription that was sent to a broker, with its progress.
#[derive(Clone, Debug)]
pub struct SubscribeTopic {
    pub trace_id: u32,
    pub topic: AString,
    pub qos: AString,
    pub status: SubscribeStatus,
    pub payload_ty: PayloadTy,
}

/// A subscription remembered for a broker, offered again later.
#[derive(Debug, Clone, Eq)]
pub struct SubscribeHis {
    pub id: Id,
    pub broker_id: usize,
    pub selected: bool,
    pub topic: AString,
    pub qos: QoS,
    pub payload_ty: PayloadTy,
}

/// A message shown in a broker's message list.
#[derive(Debug, Clone, Eq, PartialEq)]
pub enum Msg {
    Public(PublicMsg),
    Subscribe(SubscribeMsg),
}

/// A message that this client published.
#[derive(Debug, Clone, Eq, PartialEq)]
pub struct PublicMsg {
    pub trace_id: u32,
    pub topic: AString,
    pub msg: AString,
    pub qos: AString,
    pub status: PublicStatus,
    pub payload_ty: AString,
    pub time: AString,
}

/// Whether the broker has acknowledged a publish.
#[derive(Debug, Clone, Copy, Eq, PartialEq, Structural)]
pub enum PublicStatus {
    Ing,
    Success,
}

/// What the user typed in the publish form.
#[derive(Debug, Clone, Eq, PartialEq)]
pub struct PublicInput {
    pub topic: AString,
    pub msg: AString,
    pub qos: QoS,
    pub retain: bool,
    pub payload_ty: PayloadTy,
}

/// A message received on a subscription.
#[derive(Clone, Debug, Eq, PartialEq)]
pub struct SubscribeMsg {
    pub topic: AString,
    pub msg: AString,
    pub qos: AString,
    pub payload_ty: AString,
    pub time: AString,
}

/// What the user typed in the subscribe form.
#[derive(Debug, Clone, Eq, PartialEq)]
pub struct SubscribeInput {
    pub broker_id: usize,
    pub topic: AString,
    pub qos: QoS,
    pub payload_ty: PayloadTy,
}

/// The progress of a subscription.
#[derive(Debug, Clone, Copy, Eq, PartialEq, Structural)]
pub enum SubscribeStatus {
    SubscribeIng,
    SubscribeSuccess,
    SubscribeFail,
    UnSubscribeIng,
}

/// The connection state shown on a broker's tab.
#[derive(Debug, Clone, Copy, Eq, PartialEq, Structural)]
pub struct TabStatus {
    pub id: usize,
    pub try_connect: bool,
    pub connected: bool,
}

/// The two kinds of tabs.
#[derive(Clone, Copy, Eq, PartialEq, Debug, Hash, Structural)]
pub enum TabKind {
    Connection,
    Broker,
}

/// MQTT quality of service.
#[derive(Debug, Clone, Copy, Eq, PartialEq, Structural)]
pub enum QoS {
    AtMostOnce,
    AtLeastOnce,
    ExactlyOnce,
}

/// The format of a payload: plain text, a JSON text, or hexadecimal bytes.
#[derive(Debug, Clone, Copy, Eq, PartialEq, Structural)]
pub enum PayloadTy {
    Text,
    Json,
    Hex,
}

/// Protocol version.
#[derive(Debug, Clone, Copy, PartialEq, Eq, Structural)]
pub enum Protocol {
    V4,
    V5,
}

/// How the broker's TLS certificate is checked.
#[derive(Debug, Clone, Copy, PartialEq, Eq, Structural)]
pub enum SignedTy {
    Ca,
    SelfSigned,
}


/// Two history entries are the same subscription when broker, topic and QoS agree.
impl PartialEq for SubscribeHis {
    fn eq(&self, other: &Self) -> (r: bool) {
        self.broker_id == other.broker_id && self.topic == other.topic && self.qos == other.qos
    }
}

impl vstd::std_specs::cmp::PartialEqSpecImpl for SubscribeHis {
    open spec fn obeys_eq_spec() -> bool {
        true
    }

    open spec fn eq_spec(&self, other: &Self) -> bool {
        self.broker_id == other.broker_id && self.topic@ == other.topic@ && self.qos == other.qos
    }
}

impl Default for PublicInput {
    fn default() -> (i: PublicInput)
        ensures
            i.topic@ == Seq::<char>::empty(),
            i.msg@ == Seq::<char>::empty(),
            i.qos == QoS::AtMostOnce,
            !i.retain,
            i.payload_ty == PayloadTy::Text,
    {
        PublicInput {
            topic: String::new(),
            msg: String::new(),
            qos: QoS::AtMostOnce,
            retain: false,
            payload_ty: PayloadTy::Text,
        }
    }
}


/// A broker the user configured, with the state of its connection tab.
#[derive(Debug)]
pub struct Broker {
    pub id: usize,
    pub protocol: Protocol,
    pub client_id: AString,
    pub name: AString,
    pub addr: AString,
    pub port: Option<u16>,
    pub params: AString,
    pub use_credentials: bool,
    pub user_name: AString,
    pub password: AString,
    /// Saved to the database at least once.
    pub stored: bool,
    pub selected: bool,
    pub tls: bool,
    pub signed_ty: SignedTy,
    pub self_signed_ca: AString,
    pub tab_status: TabStatus,
    pub subscribe_hises: Vec<SubscribeHis>,
    pub subscribe_topics: Vec<SubscribeTopic>,
    pub msgs: Vec<Msg>,
    pub subscribe_input: SubscribeInput,
    pub public_input: PublicInput,
    pub unsubscribe_ing: Vec<UnsubcribeTracing>,
}

/// An unsubscribe request in flight: which subscription it ends, and its own packet id.
#[derive(Debug, Clone, Copy, PartialEq, Eq, Structural)]
pub struct UnsubcribeTracing {
    pub subscribe_pk_id: u32,
    pub unsubscribe_pk_id: u32,
}

/// The stored record holds the broker's settings.
pub open spec fn db_record_of(db: BrokerDB, b: Broker) -> bool {
    &&& db.id == b.id
    &&& db.protocol == b.protocol
    &&& db.client_id@ == b.client_id@
    &&& db.name@ == b.name@
    &&& db.addr@ == b.addr@
    &&& db.port == b.port
    &&& db.params@ == b.params@
    &&& db.use_credentials == b.use_credentials
    &&& db.user_name@ == b.user_name@
    &&& db.password@ == b.password@
    &&& db.tls == b.tls
    &&& db.signed_ty == b.signed_ty
    &&& db.self_signed_ca@ == b.self_signed_ca@
}

impl Broker {
    /// The record under which the broker's settings are stored.
    pub fn clone_to_db(&self) -> (db: BrokerDB)
        ensures
            db_record_of(db, *self),
    {
        BrokerDB {
            id: self.id,
            protocol: self.protocol,
            client_id: self.client_id.clone(),
            name: self.name.clone(),
            addr: self.addr.clone(),
            port: self.port,
            params: self.params.clone(),
            use_credentials: self.use_credentials,
            user_name: self.user_name.clone(),
            password: self.password.clone(),
            tls: self.tls,
            signed_ty: self.signed_ty,
            self_signed_ca: self.self_signed_ca.clone(),
        }
    }

    /// Marks the tab as not connected; with `clear`, the subscriptions of the ended
    /// session are dropped as well.
    pub fn disconnect(&mut self, clear: bool)
        ensures
            *final(self) == (Broker {
                tab_status: TabStatus {
                    try_connect: false,
                    connected: false,
                    ..old(self).tab_status
                },
                subscribe_topics: final(self).subscribe_topics,
                ..*old(self)
            }),
            !clear ==> final(self).subscribe_topics == old(self).subscribe_topics,
            clear ==> final(self).subscribe_topics@.len() == 0,
    {
        self.tab_status.try_connect = false;
        self.tab_status.connected = false;
        if clear {
            self.subscribe_topics.clear();
        }
    }

    /// Starts connecting: refused while the address is empty or the port missing.
    pub fn init_connection(&mut self) -> (r: Result<(), ForError>)
        ensures
            r is Ok <==> (old(self).addr@.len() > 0 && old(self).port is Some),
            old(self).addr@.len() == 0 ==> r == Err::<(), ForError>(ForError::NotEmpty),
            old(self).addr@.len() > 0 && old(self).port is None ==> r == Err::<(), ForError>(
                ForError::InvalidPort,
            ),
            r is Ok ==> *final(self) == (Broker {
                tab_status: TabStatus {
                    try_connect: true,
                    connected: false,
                    ..old(self).tab_status
                },
                ..*old(self)
            }),
            old(self).addr@.len() > 0 && old(self).port is Some ==> r is Ok,
            r is Err ==> *final(self) == *old(self),
    {
        if self.addr.as_str().is_empty() {
            return Err(ForError::NotEmpty);
        }
        if self.port.is_none() {
            return Err(ForError::InvalidPort);
        }
        self.tab_status.try_connect = true;
        self.tab_status.connected = false;
        Ok(())
    }

}

/// Two subscriptions are the same in every field, texts compared by their characters.
pub open spec fn topic_same(a: SubscribeTopic, b: SubscribeTopic) -> bool {
    &&& a.trace_id == b.trace_id
    &&& a.topic@ == b.topic@
    &&& a.qos@ == b.qos@
    &&& a.status == b.status
    &&& a.payload_ty == b.payload_ty
}

/// Two subscriptions ask for the same: same topic filter and same QoS.
pub open spec fn same_subscription(a: SubscribeTopic, b: SubscribeTopic) -> bool {
    a.topic@ == b.topic@ && a.qos@ == b.qos@
}

/// The history entry is the same subscription as `his`.
pub open spec fn same_his(his: SubscribeHis) -> spec_fn(SubscribeHis) -> bool {
    |h: SubscribeHis| h.broker_id == his.broker_id && h.topic@ == his.topic@ && h.qos == his.qos
}

/// Two history entries are the same in every field, texts compared by their characters.
pub open spec fn his_same(a: SubscribeHis, b: SubscribeHis) -> bool {
    &&& a.id == b.id
    &&& a.broker_id == b.broker_id
    &&& a.selected == b.selected
    &&& a.topic@ == b.topic@
    &&& a.qos == b.qos
    &&& a.payload_ty == b.payload_ty
}

/// The number of a QoS level.
pub open spec fn qos_number(q: QoS) -> u8 {
    match q {
        QoS::AtMostOnce => 0,
        QoS::AtLeastOnce => 1,
        QoS::ExactlyOnce => 2,
    }
}

/// The text of a QoS level: its number as one decimal digit.
pub open spec fn qos_text(q: QoS) -> Seq<char> {
    match q {
        QoS::AtMostOnce => seq!['0'],
        QoS::AtLeastOnce => seq!['1'],
        QoS::ExactlyOnce => seq!['2'],
    }
}

/// The name under which a payload format is shown.
pub open spec fn payload_ty_text(p: PayloadTy) -> Seq<char> {
    match p {
        PayloadTy::Text => seq!['T', 'e', 'x', 't'],
        PayloadTy::Json => seq!['J', 's', 'o', 'n'],
        PayloadTy::Hex => seq!['H', 'e', 'x'],
    }
}


/// Why a payload could not be encoded.
#[derive(Debug, Clone, Copy, PartialEq, Eq, Structural)]
pub enum PayloadError {
    /// A hexadecimal payload holds an odd number of hex digits.
    OddHexDigits,
}

/// A hexadecimal digit, in either case.
pub open spec fn is_hex_char(c: char) -> bool {
    ('0' <= c && c <= '9') || ('a' <= c && c <= 'f') || ('A' <= c && c <= 'F')
}

/// The value of a hexadecimal digit.
pub open spec fn hex_value(c: char) -> int {
    if '0' <= c && c <= '9' {
        c as int - '0' as int
    } else if 'a' <= c && c <= 'f' {
        c as int - 'a' as int + 10
    } else {
        c as int - 'A' as int + 10
    }
}

/// The hexadecimal digits of a text, in order; every other character is dropped.
pub open spec fn hex_digits(s: Seq<char>) -> Seq<char>
    decreases s.len(),
{
    if s.len() == 0 {
        seq![]
    } else if is_hex_char(s.last()) {
        hex_digits(s.drop_last()).push(s.last())
    } else {
        hex_digits(s.drop_last())
    }
}

/// Hex digits written back with a space after every second digit.
pub open spec fn spaced_hex(d: Seq<char>) -> Seq<char>
    decreases d.len(),
{
    if d.len() == 0 {
        seq![]
    } else if d.len() % 2 == 0 {
        spaced_hex(d.drop_last()).push(d.last()).push(' ')
    } else {
        spaced_hex(d.drop_last()).push(d.last())
    }
}

/// The bytes that consecutive pairs of hex digits stand for, high digit first.
pub open spec fn hex_bytes(d: Seq<char>) -> Seq<u8> {
    Seq::new(
        (d.len() / 2) as nat,
        |k: int| (hex_value(d[2 * k]) * 16 + hex_value(d[2 * k + 1])) as u8,
    )
}

/// The bytes and the display text that a message encodes to in a given format, or `None`
/// where it cannot be encoded: text and JSON are sent as their UTF-8 bytes and shown as
/// typed; hex keeps the hex digits only and needs an even number of them.
pub open spec fn encode_payload(ty: PayloadTy, msg: Seq<char>) -> Option<(Seq<u8>, Seq<char>)> {
    match ty {
        PayloadTy::Text | PayloadTy::Json => Some((encode_utf8(msg), msg)),
        PayloadTy::Hex => {
            let d = hex_digits(msg);
            if d.len() % 2 != 0 {
                None
            } else {
                Some((hex_bytes(d), spaced_hex(d)))
            }
        },
    }
}


/// What a payload received in a given format is shown as: text is decoded leniently, JSON
/// is pretty-printed (or, where it is no JSON, decoded as text), hex is dumped.
pub open spec fn format_payload(ty: PayloadTy, data: Seq<u8>) -> Seq<char> {
    match ty {
        PayloadTy::Text => utf8_lossy(data),
        PayloadTy::Json => match json_pretty(data) {
            Some(t) => t,
            None => utf8_lossy(data),
        },
        PayloadTy::Hex => simple_hex_text(data),
    }
}

proof fn lemma_hex_digits_concat(a: Seq<char>, c: Seq<char>)
    ensures
        hex_digits(a + c) == hex_digits(a) + hex_digits(c),
    decreases c.len(),
{
    if c.len() == 0 {
        assert(a + c =~= a);
        assert(hex_digits(a) + hex_digits(c) =~= hex_digits(a));
    } else {
        lemma_hex_digits_concat(a, c.drop_last());
        assert((a + c).drop_last() =~= a + c.drop_last());
        assert((a + c).last() == c.last());
        if is_hex_char(c.last()) {
            assert(hex_digits(a) + hex_digits(c) =~= (hex_digits(a) + hex_digits(c.drop_last())).push(
                c.last(),
            ));
        } else {
            assert(hex_digits(a) + hex_digits(c) =~= hex_digits(a) + hex_digits(c.drop_last()));
        }
    }
}

/// The hex digits of a simple hex dump: two per byte, high digit first.
spec fn dump_digits(bytes: Seq<u8>) -> Seq<char> {
    Seq::new(
        2 * bytes.len(),
        |j: int|
            if j % 2 == 0 {
                lower_hex_digit(bytes[j / 2] as int / 16)
            } else {
                lower_hex_digit(bytes[j / 2] as int % 16)
            },
    )
}

proof fn lemma_lower_hex_digit(n: int)
    requires
        0 <= n < 16,
    ensures
        is_hex_char(lower_hex_digit(n)),
        hex_value(lower_hex_digit(n)) == n,
{
}

proof fn lemma_dump_digits(bytes: Seq<u8>)
    ensures
        hex_digits(simple_hex_text(bytes)) == dump_digits(bytes),
    decreases bytes.len(),
{
    if bytes.len() == 0 {
        assert(dump_digits(bytes) =~= seq![]);
    } else {
        let init = bytes.drop_last();
        let b = bytes.last();
        let d1 = lower_hex_digit(b as int / 16);
        let d2 = lower_hex_digit(b as int % 16);
        let delim = hex_delimiter(bytes.len() - 1);
        lemma_dump_digits(init);
        lemma_lower_hex_digit(b as int / 16);
        lemma_lower_hex_digit(b as int % 16);
        lemma_hex_digits_concat(simple_hex_text(init) + delim, seq![d1, d2]);
        lemma_hex_digits_concat(simple_hex_text(init), delim);
        assert(hex_digits(delim) =~= seq![]) by {
            reveal_with_fuel(hex_digits, 3);
        }
        assert(hex_digits(seq![d1, d2]) =~= seq![d1, d2]) by {
            assert(seq![d1, d2].drop_last() =~= seq![d1]);
            assert(seq![d1].drop_last() =~= Seq::<char>::empty());
            reveal_with_fuel(hex_digits, 3);
        }
        assert(dump_digits(bytes) =~= dump_digits(init) + seq![d1, d2]);
    }
}

/// What a hex dump shows reads back as the same bytes: encoding, in the hex format, the text
/// that a payload is shown as in the hex format gives back that payload.
pub proof fn lemma_hex_round_trip(data: Seq<u8>)
    ensures
        encode_payload(PayloadTy::Hex, format_payload(PayloadTy::Hex, data)) matches Some(
            (bytes, _),
        ) && bytes == data,
{
    lemma_dump_digits(data);
    let d = dump_digits(data);
    assert(d.len() % 2 == 0);
    assert forall|k: int| 0 <= k < data.len() implies hex_bytes(d)[k] == data[k] by {
        assert(d[2 * k] == lower_hex_digit(data[k] as int / 16));
        assert(d[2 * k + 1] == lower_hex_digit(data[k] as int % 16));
        lemma_lower_hex_digit(data[k] as int / 16);
        lemma_lower_hex_digit(data[k] as int % 16);
    }
    assert(hex_bytes(d) =~= data);
}

/// The hex digits `d` spell the bytes `v`: two digits per byte, high digit first, in
/// either case.
pub open spec fn spells_bytes(d: Seq<char>, v: Seq<u8>) -> bool {
    &&& d.len() == 2 * v.len()
    &&& forall|k: int|
        0 <= k < v.len() ==> hex_value(#[trigger] d[2 * k]) == v[k] as int / 16 && hex_value(d[2 * k + 1])
            == v[k] as int % 16
}

/// In the hex format a text is read by its hex digits alone: a text whose hex digits spell
/// the bytes `v`, in either case and with any other characters between them, encodes to `v`.
pub proof fn lemma_hex_reads_digits(s: Seq<char>, v: Seq<u8>)
    requires
        spells_bytes(hex_digits(s), v),
    ensures
        encode_payload(PayloadTy::Hex, s) matches Some((bytes, _)) && bytes == v,
{
    let d = hex_digits(s);
    assert forall|k: int| 0 <= k < v.len() implies hex_bytes(d)[k] == v[k] by {
        assert(hex_value(d[2 * k]) == v[k] as int / 16);
        assert(hex_value(d[2 * k + 1]) == v[k] as int % 16);
    }
    assert(hex_bytes(d) =~= v);
}

/// A character that is no hex digit does not count in the hex format: putting it anywhere
/// into a text leaves what the text encodes to, and how it is shown, unchanged.
pub proof fn lemma_hex_ignores_other_chars(before: Seq<char>, c: char, after: Seq<char>)
    requires
        !is_hex_char(c),
    ensures
        encode_payload(PayloadTy::Hex, before + seq![c] + after) == encode_payload(PayloadTy::Hex, before + after),
{
    lemma_hex_digits_concat(before + seq![c], after);
    lemma_hex_digits_concat(before, seq![c]);
    lemma_hex_digits_concat(before, after);
    assert(hex_digits(seq![c]) =~= seq![]) by {
        assert(seq![c].drop_last() =~= Seq::<char>::empty());
        reveal_with_fuel(hex_digits, 2);
    }
    assert(hex_digits(before) + hex_digits(seq![c]) =~= hex_digits(before));
}

/// A text encodes in the hex format exactly when it holds an even number of hex digits, and
/// then to half as many bytes.
pub proof fn lemma_hex_length(s: Seq<char>)
    ensures
        (encode_payload(PayloadTy::Hex, s) is Some) == (hex_digits(s).len() % 2 == 0),
        encode_payload(PayloadTy::Hex, s) matches Some((bytes, _)) ==> bytes.len() * 2 == hex_digits(
            s,
        ).len(),
{
}

/// Every character the hex digits of a text keep is a hex digit.
proof fn lemma_hex_digits_are_hex(s: Seq<char>)
    ensures
        forall|i: int| 0 <= i < hex_digits(s).len() ==> is_hex_char(#[trigger] hex_digits(s)[i]),
    decreases s.len(),
{
    if s.len() > 0 {
        lemma_hex_digits_are_hex(s.drop_last());
        let p = hex_digits(s.drop_last());
        assert forall|i: int| 0 <= i < hex_digits(s).len() implies is_hex_char(#[trigger] hex_digits(s)[i]) by {
            if i < p.len() {
                assert(hex_digits(s)[i] == p[i]);
            }
        }
    }
}

/// Spacing hex digits out and keeping the hex digits again gives the digits back.
proof fn lemma_hex_digits_spaced(d: Seq<char>)
    requires
        forall|i: int| 0 <= i < d.len() ==> is_hex_char(#[trigger] d[i]),
    ensures
        hex_digits(spaced_hex(d)) == d,
    decreases d.len(),
{
    if d.len() > 0 {
        let p = d.drop_last();
        assert forall|i: int| 0 <= i < p.len() implies is_hex_char(#[trigger] p[i]) by {
            assert(p[i] == d[i]);
        }
        lemma_hex_digits_spaced(p);
        let c = d.last();
        assert(is_hex_char(c));
        if d.len() % 2 == 0 {
            lemma_hex_digits_concat(spaced_hex(p), seq![c, ' ']);
            assert(spaced_hex(p).push(c).push(' ') =~= spaced_hex(p) + seq![c, ' ']);
            assert(seq![c, ' '].drop_last() =~= seq![c]);
            assert(seq![c].drop_last() =~= Seq::<char>::empty());
            assert(hex_digits(seq![c, ' ']) =~= seq![c]) by {
                reveal_with_fuel(hex_digits, 3);
            }
        } else {
            lemma_hex_digits_concat(spaced_hex(p), seq![c]);
            assert(spaced_hex(p).push(c) =~= spaced_hex(p) + seq![c]);
            assert(seq![c].drop_last() =~= Seq::<char>::empty());
            assert(hex_digits(seq![c]) =~= seq![c]) by {
                reveal_with_fuel(hex_digits, 2);
            }
        }
        assert(p.push(c) =~= d);
    }
}

/// Encoding again the text a message was shown as, in the same format, gives the same bytes
/// and the same text.
pub proof fn lemma_encode_shown_again(ty: PayloadTy, msg: Seq<char>)
    ensures
        encode_payload(ty, msg) matches Some((bytes, text)) ==> encode_payload(ty, text) == Some((bytes, text)),
{
    if ty == PayloadTy::Hex {
        let d = hex_digits(msg);
        lemma_hex_digits_are_hex(msg);
        lemma_hex_digits_spaced(d);
    }
}

/// Text that is valid UTF-8 reads back as the same bytes: encoding, in the text format,
/// the text that such a payload is decoded to gives back that payload.
pub proof fn lemma_text_round_trip(data: Seq<u8>)
    requires
        valid_utf8(data),
    ensures
        encode_payload(PayloadTy::Text, decode_utf8(data)) matches Some((bytes, _)) && bytes == data,
{
    vstd::utf8::decode_utf8_encode_utf8(data);
}

/// A QoS level shown as text reads back as the same level.
pub proof fn lemma_qos_round_trip(q: QoS)
    ensures
        crate::ui::formatter::qos_of(qos_text(q)) == Ok::<QoS, ForError>(q),
{
    let t = qos_text(q);
    assert(t[0] != '0' ==> t != seq!['0']);
    assert(t[0] != '1' ==> t != seq!['1']);
}

fn is_ascii_hexdigit(c: char) -> (b: bool)
    ensures
        b == is_hex_char(c),
{
    ('0' <= c && c <= '9') || ('a' <= c && c <= 'f') || ('A' <= c && c <= 'F')
}

fn hex_digit_value(c: char) -> (v: u8)
    requires
        is_hex_char(c),
    ensures
        v == hex_value(c),
        v < 16,
{
    if '0' <= c && c <= '9' {
        ((c as u32) - ('0' as u32)) as u8
    } else if 'a' <= c && c <= 'f' {
        ((c as u32) - ('a' as u32) + 10) as u8
    } else {
        ((c as u32) - ('A' as u32) + 10) as u8
    }
}

fn hex_pair(hi: u8, lo: u8) -> (b: u8)
    requires
        hi < 16,
        lo < 16,
    ensures
        b == hi * 16 + lo,
{
    assert(((hi << 4u8) | lo) == hi * 16 + lo) by (bit_vector)
        requires
            hi < 16,
            lo < 16,
    ;
    (hi << 4u8) | lo
}

impl Msg {
    pub fn is_public(&self) -> (b: bool)
        ensures
            b == (self is Public),
    {
        if let Msg::Public(_) = self {
            return true;
        }
        false
    }

    /// A publish succeeds once acknowledged; a received message always counts as success.
    pub fn is_sucess(&self) -> (b: bool)
        ensures
            b == match self {
                Msg::Public(m) => m.status == PublicStatus::Success,
                Msg::Subscribe(_) => true,
            },
    {
        if let Msg::Public(msg) = self {
            if msg.status == PublicStatus::Success {
                true
            } else {
                false
            }
        } else {
            true
        }
    }

    pub fn msg(&self) -> (r: &AString)
        ensures
            r == match self {
                Msg::Subscribe(m) => &m.msg,
                Msg::Public(m) => &m.msg,
            },
    {
        match self {
            Msg::Subscribe(msg) => &msg.msg,
            Msg::Public(msg) => &msg.msg,
        }
    }

    pub fn topic(&self) -> (r: &AString)
        ensures
            r == match self {
                Msg::Subscribe(m) => &m.topic,
                Msg::Public(m) => &m.topic,
            },
    {
        match self {
            Msg::Subscribe(msg) => &msg.topic,
            Msg::Public(msg) => &msg.topic,
        }
    }

    /// Wraps a published message.
    pub fn from_public(val: PublicMsg) -> (m: Msg)
        ensures
            m == Msg::Public(val),
    {
        Msg::Public(val)
    }

    /// Wraps a received message.
    pub fn from_subscribe(val: SubscribeMsg) -> (m: Msg)
        ensures
            m == Msg::Subscribe(val),
    {
        Msg::Subscribe(val)
    }
}

impl QoS {
    pub fn to_u8(&self) -> (n: u8)
        ensures
            n == qos_number(*self),
    {
        match self {
            QoS::AtMostOnce => 0,
            QoS::AtLeastOnce => 1,
            QoS::ExactlyOnce => 2,
        }
    }

    pub fn to_string(&self) -> (s: String)
        ensures
            s@ == qos_text(*self),
    {
        match self {
            QoS::AtMostOnce => {
                proof {
                    reveal_strlit("0");
                }
                from_lit("0")
            },
            QoS::AtLeastOnce => {
                proof {
                    reveal_strlit("1");
                }
                from_lit("1")
            },
            QoS::ExactlyOnce => {
                proof {
                    reveal_strlit("2");
                }
                from_lit("2")
            },
        }
    }
}

impl Default for QoS {
    fn default() -> (q: QoS)
        ensures
            q == QoS::AtMostOnce,
    {
        QoS::AtMostOnce
    }
}

impl Default for PayloadTy {
    fn default() -> (p: PayloadTy)
        ensures
            p == PayloadTy::Text,
    {
        PayloadTy::Text
    }
}

impl PayloadTy {
    /// The text a received payload is shown as.
    pub fn format(&self, data: &[u8]) -> (s: String)
        ensures
            s@ == format_payload(*self, data@),
            *self == PayloadTy::Text && valid_utf8(data@) ==> s@ == decode_utf8(data@),
    {
        match self {
            PayloadTy::Text => from_utf8_lossy(data),
            PayloadTy::Json => match to_pretty_json(data) {
                Some(json_str) => json_str,
                None => from_utf8_lossy(data),
            },
            PayloadTy::Hex => simple_hex(data),
        }
    }

    /// Encodes a message typed by the user in this format, giving the bytes to send and the
    /// text to show.
    pub fn to_bytes(&self, msg: &String) -> (r: Result<(Vec<u8>, String), PayloadError>)
        ensures
            match (r, encode_payload(*self, msg@)) {
                (Ok((b, s)), Some((eb, es))) => b@ == eb && s@ == es,
                (Err(e), None) => e == PayloadError::OddHexDigits,
                _ => false,
            },
    {
        match self {
            PayloadTy::Text | PayloadTy::Json => {
                let bytes = vstd::slice::slice_to_vec(msg.as_str().as_bytes());
                Ok((bytes, msg.clone()))
            },
            PayloadTy::Hex => {
                let mut hex_datas: Vec<u8> = Vec::new();
                let mut data_str = String::new();
                let ghost mut digits: Seq<char> = seq![];
                let s = msg.as_str();
                for c in it: s.chars()
                    invariant
                        it.seq() == msg@,
                        digits == hex_digits(msg@.take(it.index() as int)),
                        hex_datas@.len() == digits.len(),
                        forall|k: int|
                            0 <= k < digits.len() ==> is_hex_char(#[trigger] digits[k])
                                && hex_datas@[k] == hex_value(digits[k]) && hex_datas@[k] < 16,
                        data_str@ == spaced_hex(digits),
                {
                    proof {
                        assert(msg@.take(it.index() + 1).drop_last() =~= msg@.take(
                            it.index() as int,
                        ));
                    }
                    if is_ascii_hexdigit(c) {
                        let digit = hex_digit_value(c);
                        hex_datas.push(digit);
                        push_char(&mut data_str, c);
                        proof {
                            digits = digits.push(c);
                        }
                        if hex_datas.len() % 2 == 0 {
                            push_char(&mut data_str, ' ');
                        }
                        proof {
                            assert(digits.drop_last() =~= hex_digits(msg@.take(it.index() as int)));
                        }
                    }
                }
                proof {
                    assert(msg@.take(msg@.len() as int) =~= msg@);
                }
                let len = hex_datas.len();
                if len % 2 != 0 {
                    return Err(PayloadError::OddHexDigits);
                }
                let mut i: usize = 0;
                let mut datas: Vec<u8> = Vec::new();
                while i < len
                    invariant
                        len == hex_datas@.len(),
                        len % 2 == 0,
                        i % 2 == 0,
                        i <= len,
                        digits.len() == len,
                        forall|k: int|
                            0 <= k < digits.len() ==> is_hex_char(#[trigger] digits[k])
                                && hex_datas@[k] == hex_value(digits[k]) && hex_datas@[k] < 16,
                        datas@ =~= hex_bytes(digits.take(i as int)),
                    decreases len - i,
                {
                    proof {
                        assert(is_hex_char(digits[i as int]));
                        assert(is_hex_char(digits[i + 1]));
                    }
                    let b = hex_pair(hex_datas[i], hex_datas[i + 1]);
                    datas.push(b);
                    proof {
                        let t = digits.take(i as int);
                        let t2 = digits.take(i + 2);
                        assert(hex_datas@[i as int] == hex_value(digits[i as int]));
                        assert(hex_datas@[i + 1] == hex_value(digits[i + 1]));
                        assert(hex_bytes(t2) =~= hex_bytes(t).push(b));
                    }
                    i = i + 2;
                }
                proof {
                    assert(digits.take(len as int) =~= digits);
                }
                Ok((datas, data_str))
            },
        }
    }

    pub fn to_arc_string(&self) -> (s: AString)
        ensures
            s@ == payload_ty_text(*self),
    {
        match self {
            PayloadTy::Text => {
                proof {
                    reveal_strlit("Text");
                }
                from_lit("Text")
            },
            PayloadTy::Json => {
                proof {
                    reveal_strlit("Json");
                }
                from_lit("Json")
            },
            PayloadTy::Hex => {
                proof {
                    reveal_strlit("Hex");
                }
                from_lit("Hex")
            },
        }
    }
}

} // verus!
