use for_mqtt::config::theme::{ThemeBaseConfig, UIConfig};
use for_mqtt::data::common::{Id, Msg, TabKind, PayloadTy, PublicMsg, PublicStatus, QoS, SubscribeHis, SubscribeMsg, SubscribeTopic, SubscribeStatus};
use for_mqtt::data::hierarchy::AppData;
use for_mqtt::data::lens::{
    BrokerId, BrokerIndexLensVecMsg, BrokerSelectedOrZero, BrokerStoredList, LensQoSAString,
    LensSubscribeHisQoS, MsgMsgLens, MsgQosLens, MsgTimeLens, MsgTopicLens, PortLens,
    SubscribeHisPayloadLens, SubscribeTopicPayloadLens,
};
use for_mqtt::data::AppEvent;
use for_mqtt::logic::{ClickKind, ClickTracker, HisClick};
use for_mqtt::mqtt::data::{SomeMqttOption, SubscribeAck, SubscribeReasonCode};
use for_mqtt::mqtt::options::{connect_options, notice_to_event, ConnectError, MqttNotice, TlsChoice};
use for_mqtt::ui::controllers::{
    AutoScrollController, ControlAction, ErrorCommand, ErrorController, FieldCheck,
    RightClickToCopy, ScrollEvent, TextBoxErrorDelegate, TextBoxNotice,
};
use for_mqtt::ui::tabs::{BrokerTabPolicy, BrokersTabs};
use for_mqtt::data::common::Protocol;
use for_mqtt::ui::broker_info::{settings_button_event, settings_buttons, SettingsButton};
use for_mqtt::ui::broker_list::{addr_label, broker_row_click, his_remove_icon_click, his_subscribe_icon_click, version_label};
use for_mqtt::ui::connection::{publish_click, publish_enabled, subscribe_click, subscribe_enabled, FieldCommand, InputField};
use for_mqtt::ForError;
use for_mqtt::util::db::ArcDb;

fn app_with_brokers(n: usize) -> AppData {
    let mut db = ArcDb { index: 0, ids: Vec::new() };
    let (mut data, _) = db.read_app_data(None);
    for _ in 0..n {
        data.touch_add_broker();
        data.touch_save_broker().unwrap();
    }
    data
}

fn his(topic: &str, qos: QoS) -> SubscribeHis {
    SubscribeHis { id: Id(1), broker_id: 0, selected: false, topic: topic.to_string(), qos, payload_ty: PayloadTy::Text }
}

#[test]
fn second_click_is_double() {
    let mut t = ClickTracker::new();
    assert_eq!(t.click_broker(3), ClickKind::Single);
    assert_eq!(t.click_broker(4), ClickKind::Single);
    assert_eq!(t.click_broker(3), ClickKind::Double);
    assert_eq!(t.clicks, vec![4]);
    assert_eq!(t.click_broker(3), ClickKind::Single);
}

#[test]
fn expired_click_is_single_again() {
    let mut t = ClickTracker::new();
    assert_eq!(t.click_broker(1), ClickKind::Single);
    t.db_click_check(1);
    assert!(t.clicks.is_empty());
    assert_eq!(t.click_broker(1), ClickKind::Single);
    t.db_click_check(2);
    assert_eq!(t.clicks, vec![1]);
}

#[test]
fn history_double_click() {
    let mut t = ClickTracker::new();
    assert!(matches!(t.click_subscribe_his(his("a", QoS::AtMostOnce)), HisClick::Single));
    assert!(matches!(t.click_subscribe_his(his("b", QoS::AtMostOnce)), HisClick::Single));
    match t.click_subscribe_his(his("b", QoS::AtMostOnce)) {
        HisClick::Double(h) => assert_eq!(h.topic, "b"),
        HisClick::Single => panic!("expected a double click"),
    }
    assert!(t.click_his.is_none());
    assert!(matches!(t.click_subscribe_his(his("c", QoS::AtMostOnce)), HisClick::Single));
    t.db_click_check_subscribe_his(&his("c", QoS::ExactlyOnce));
    assert!(t.click_his.is_some());
    t.db_click_check_subscribe_his(&his("c", QoS::AtMostOnce));
    assert!(t.click_his.is_none());
}

#[test]
fn lenses_pick_parts() {
    let mut data = app_with_brokers(2);
    let first = data.brokers[1].id;
    assert_eq!(BrokerSelectedOrZero.get(&data).id, data.brokers[0].id);
    assert_eq!(BrokerId(first).get(&data).id, first);
    BrokerId(first).get_mut(&mut data).name = "renamed".to_string();
    assert_eq!(data.find_broker_by_id(first).unwrap().name, "renamed");
    assert!(BrokerIndexLensVecMsg(first).get(&data).is_empty());
    *PortLens.get_mut(BrokerId(first).get_mut(&mut data)) = Some(8883);
    assert_eq!(*PortLens.get(BrokerId(first).get(&data)), Some(8883));
    data.touch_add_broker();
    let stored = BrokerStoredList.get(&data);
    assert_eq!(stored.len(), 2);
    assert!(stored.iter().all(|b| b.stored));
}

#[test]
fn message_lenses() {
    let mut m = Msg::Public(PublicMsg {
        trace_id: 1,
        topic: "t".to_string(),
        msg: "hello".to_string(),
        qos: "1".to_string(),
        status: PublicStatus::Ing,
        payload_ty: "Text".to_string(),
        time: "now".to_string(),
    });
    assert_eq!(MsgMsgLens.get(&m), "hello");
    assert_eq!(MsgTopicLens.get(&m), "t");
    assert_eq!(MsgQosLens.get(&m), "1");
    assert_eq!(MsgTimeLens.get(&m), "now");
    *MsgMsgLens.get_mut(&mut m) = "bye".to_string();
    assert_eq!(m.msg(), "bye");
    let s = Msg::Subscribe(SubscribeMsg {
        topic: "x".to_string(),
        msg: "m".to_string(),
        qos: "0".to_string(),
        payload_ty: "Hex".to_string(),
        time: "t".to_string(),
    });
    assert_eq!(MsgTopicLens.get(&s), "x");
    assert!(!s.is_public());
    assert!(s.is_sucess());
}

#[test]
fn text_lenses() {
    let h = SubscribeHis { payload_ty: PayloadTy::Hex, ..his("t", QoS::ExactlyOnce) };
    assert_eq!(LensSubscribeHisQoS.get(&h), "2");
    assert_eq!(SubscribeHisPayloadLens.get(&h), "Hex");
    assert_eq!(LensQoSAString.get(&QoS::AtLeastOnce), "1");
    let t = SubscribeTopic {
        trace_id: 1,
        topic: "t".to_string(),
        qos: "0".to_string(),
        status: SubscribeStatus::SubscribeIng,
        payload_ty: PayloadTy::Json,
    };
    assert_eq!(SubscribeTopicPayloadLens.get(&t), "Json");
}

#[test]
fn controllers_decide() {
    assert_eq!(AutoScrollController.event(ScrollEvent::AutoScroll), ControlAction::ScrollToEnd);
    assert_eq!(AutoScrollController.event(ScrollEvent::OtherCommand), ControlAction::Drop);
    assert_eq!(AutoScrollController.event(ScrollEvent::Other), ControlAction::Forward);
    assert_eq!(RightClickToCopy.event(true, 2, "abc"), ControlAction::Copy("abc".to_string()));
    assert_eq!(RightClickToCopy.event(true, 1, "abc"), ControlAction::Forward);
    assert_eq!(RightClickToCopy.event(true, 3, "abc"), ControlAction::Forward);
    assert_eq!(RightClickToCopy.event(true, 2, ""), ControlAction::Forward);
    assert_eq!(RightClickToCopy.event(false, 2, "abc"), ControlAction::Forward);
}

#[test]
fn text_box_errors() {
    let d = TextBoxErrorDelegate::new(FieldCheck::Port).sends_partial_errors(true);
    assert_eq!(d.event(TextBoxNotice::Began, ""), vec![ErrorCommand::ClearError, ErrorCommand::EditBegan]);
    assert_eq!(d.event(TextBoxNotice::Changed, "1"), vec![ErrorCommand::ClearError]);
    assert_eq!(
        d.event(TextBoxNotice::PartiallyInvalid("bad".to_string()), "x"),
        vec![ErrorCommand::ShowError("bad".to_string())]
    );
    assert_eq!(d.event(TextBoxNotice::Complete, "1883"), vec![ErrorCommand::ClearError]);
    assert!(d.event(TextBoxNotice::Complete, "70000").is_empty());
    let quiet = TextBoxErrorDelegate::new(FieldCheck::NoEmpty);
    assert!(quiet.event(TextBoxNotice::Changed, "1").is_empty());
    assert!(quiet.event(TextBoxNotice::PartiallyInvalid("e".to_string()), "").is_empty());
    assert_eq!(quiet.event(TextBoxNotice::Invalid("e".to_string()), ""), vec![ErrorCommand::ShowError("e".to_string())]);
    assert!(quiet.event(TextBoxNotice::Cancel, "").is_empty());
    assert!(quiet.event(TextBoxNotice::Other, "").is_empty());
    let mut c = ErrorController::new();
    c.event(ErrorCommand::ShowError("e".to_string()));
    assert_eq!(c.error, Some("e".to_string()));
    c.event(ErrorCommand::EditBegan);
    assert_eq!(c.error, Some("e".to_string()));
    c.event(ErrorCommand::ClearError);
    assert_eq!(c.error, None);
}

#[test]
fn broker_tabs() {
    let mut data = app_with_brokers(1);
    let id = data.brokers[0].id;
    data.brokers[0].name = "emq".to_string();
    data.broker_tabs = vec![id];
    let tabs = BrokersTabs;
    assert_eq!(tabs.tabs(&data), vec![id]);
    assert_eq!(tabs.tab_label(id, &data), "emq");
    let info = tabs.tab_info(id, &data);
    assert_eq!(info.chars().count(), 40);
    assert!(info.starts_with("emq "));
    assert_eq!(tabs.tab_info(99, &data), " ".repeat(40));
    assert!(!tabs.tab_connected(id, &data));
    assert!(matches!(tabs.close_tab(id), AppEvent::TouchCloseBrokerTab(x) if x == id));
}

#[test]
fn connection_options() {
    let mut db = ArcDb { index: 0, ids: Vec::new() };
    let mut rec = db.new_broker().clone_to_db();
    rec.client_id = "client-1".to_string();
    rec.use_credentials = true;
    rec.user_name = "u".to_string();
    rec.password = "p".to_string();
    let some = SomeMqttOption { keep_alive: 30, ..SomeMqttOption::default() };
    let o = connect_options(&rec, some).unwrap();
    assert_eq!(o.client_id, "client-1");
    assert_eq!(o.port, 1883);
    assert_eq!(o.keep_alive, 30);
    assert_eq!(o.credentials, Some(("u".to_string(), "p".to_string())));
    assert!(o.tls.is_none());
    rec.tls = true;
    rec.signed_ty = for_mqtt::data::common::SignedTy::SelfSigned;
    rec.self_signed_ca = "ca.pem".to_string();
    let o = connect_options(&rec, some).unwrap();
    assert!(matches!(o.tls, Some(TlsChoice::SelfSigned(f)) if f == "ca.pem"));
    rec.client_id = String::new();
    assert!(matches!(connect_options(&rec, some), Err(ConnectError::InvalidClientId)));
    rec.client_id = " x".to_string();
    assert!(matches!(connect_options(&rec, some), Err(ConnectError::InvalidClientId)));
    rec.port = None;
    assert!(matches!(connect_options(&rec, some), Err(ConnectError::MissingPort)));
}

#[test]
fn connection_reports_become_events() {
    assert!(matches!(notice_to_event(2, MqttNotice::ConnectSuccess(false)), Some(AppEvent::ConnectAckSuccess(2))));
    assert!(matches!(notice_to_event(2, MqttNotice::PublishSuccess(5)), Some(AppEvent::PubAck(2, 5))));
    assert!(matches!(notice_to_event(2, MqttNotice::UnsubscribeAck(5)), Some(AppEvent::UnSubAck(2, 5))));
    assert!(notice_to_event(2, MqttNotice::Disconnected).is_none());
    assert!(matches!(
        notice_to_event(2, MqttNotice::SubscribeAck(SubscribeAck { id: 4, acks: vec![SubscribeReasonCode::QoS0] })),
        Some(AppEvent::SubAck(2, a)) if a.id == 4
    ));
    assert!(matches!(
        notice_to_event(1, MqttNotice::Publish("t".to_string(), vec![1, 2], QoS::ExactlyOnce)),
        Some(AppEvent::ReceivePublic(1, t, p, QoS::ExactlyOnce)) if t == "t" && p == vec![1, 2]
    ));
    assert!(notice_to_event(1, MqttNotice::PublishFail("x".to_string())).is_none());
    assert!(notice_to_event(1, MqttNotice::ConnectedErr("x".to_string())).is_none());
}

#[test]
fn test_option() {
    let option = SomeMqttOption::default();
    let option_str = r#"{
	"keep_alive": 60,
	"clean_session": true,
	"max_incoming_packet_size": 10240,
	"max_outgoing_packet_size": 10240,
	"inflight": 100,
	"conn_timeout": 5
}
        "#;
    let parsed: serde_json::Value = serde_json::from_str(option_str).unwrap();
    assert_eq!(parsed["keep_alive"], option.keep_alive as u64);
    assert_eq!(parsed["clean_session"], option.clean_session);
    assert_eq!(parsed["max_incoming_packet_size"], option.max_incoming_packet_size as u64);
    assert_eq!(parsed["max_outgoing_packet_size"], option.max_outgoing_packet_size as u64);
    assert_eq!(parsed["inflight"], option.inflight as u64);
    assert_eq!(parsed["conn_timeout"], option.conn_timeout);
}

#[test]
fn ui_sizes() {
    let ui = UIConfig { font_size: 2, header_height: 4, status_height: 40, hover_font_size: 0, ..UIConfig::default() };
    assert_eq!(ui.font_size(), 6);
    assert_eq!(ui.header_height(), 6);
    assert_eq!(ui.status_height(), 40);
    assert_eq!(ui.hover_font_size(), 6);
    let big = UIConfig { font_size: 50, hover_font_size: 9, ..UIConfig::default() };
    assert_eq!(big.font_size(), 32);
    assert_eq!(big.hover_font_size(), 9);
    let base = ThemeBaseConfig { red: "#ff0000".to_string(), ..ThemeBaseConfig::default() };
    assert_eq!(base.get("red"), Some(&"#ff0000".to_string()));
    assert_eq!(base.get("pink"), None);
}

#[test]
fn broker_tab_kinds() {
    let mut data = app_with_brokers(1);
    let id = data.brokers[0].id;
    let policy = BrokerTabPolicy(id);
    assert_eq!(policy.tabs(&data), vec![TabKind::Broker]);
    let before = app_with_brokers(1);
    data.brokers[0].tab_status.try_connect = true;
    assert!(policy.tabs_changed(&before, &data));
    assert_eq!(policy.tabs(&data), vec![TabKind::Connection, TabKind::Broker]);
    assert!(!BrokerTabPolicy(99).tabs_changed(&before, &data));
    assert_eq!(BrokerTabPolicy(99).tabs(&data), vec![TabKind::Broker]);
    assert_eq!(policy.tab_info(TabKind::Connection), ("Connection".to_string(), true));
    assert_eq!(policy.tab_info(TabKind::Broker), ("Options".to_string(), false));
}

fn one_broker() -> for_mqtt::data::common::Broker {
    let mut db = ArcDb { index: 7, ids: Vec::new() };
    db.new_broker()
}

#[test]
fn broker_row_labels() {
    let mut b = one_broker();
    b.protocol = Protocol::V4;
    assert_eq!(version_label(&b), "v3");
    b.protocol = Protocol::V5;
    assert_eq!(version_label(&b), "v5");
    b.addr = "broker.emqx.io".to_string();
    b.port = Some(1883);
    assert_eq!(addr_label(&b), "broker.emqx.io:1883");
    b.port = Some(0);
    assert_eq!(addr_label(&b), "broker.emqx.io:0");
    b.port = Some(65535);
    assert_eq!(addr_label(&b), "broker.emqx.io:65535");
    b.port = None;
    assert_eq!(addr_label(&b), "broker.emqx.io");
}

#[test]
fn subscribe_button_needs_a_topic() {
    let mut b = one_broker();
    b.subscribe_input.topic = String::new();
    let c = subscribe_click(&b);
    assert_eq!(c.commands, vec![FieldCommand::ShowError(InputField::SubscribeTopic, ForError::NotEmpty)]);
    assert!(c.event.is_none());
    b.subscribe_input.topic = "a/b".to_string();
    let c = subscribe_click(&b);
    assert_eq!(c.commands, vec![FieldCommand::ClearError(InputField::SubscribeTopic)]);
    assert!(matches!(c.event, Some(AppEvent::TouchSubscribeByInput(7))));
}

#[test]
fn publish_button_needs_topic_and_message() {
    let mut b = one_broker();
    b.public_input.topic = String::new();
    b.public_input.msg = "hi".to_string();
    let c = publish_click(&b);
    assert_eq!(
        c.commands,
        vec![
            FieldCommand::ShowError(InputField::PublishTopic, ForError::NotEmpty),
            FieldCommand::ClearError(InputField::PublishMsg)
        ]
    );
    assert!(c.event.is_none());
    b.public_input.topic = "a".to_string();
    b.public_input.msg = String::new();
    let c = publish_click(&b);
    assert_eq!(
        c.commands,
        vec![
            FieldCommand::ClearError(InputField::PublishTopic),
            FieldCommand::ShowError(InputField::PublishMsg, ForError::NotEmpty)
        ]
    );
    assert!(c.event.is_none());
    b.public_input.topic = String::new();
    let c = publish_click(&b);
    assert_eq!(
        c.commands,
        vec![
            FieldCommand::ShowError(InputField::PublishTopic, ForError::NotEmpty),
            FieldCommand::ShowError(InputField::PublishMsg, ForError::NotEmpty)
        ]
    );
    assert!(c.event.is_none());
    b.public_input.topic = "a".to_string();
    b.public_input.msg = "hi".to_string();
    let c = publish_click(&b);
    assert_eq!(
        c.commands,
        vec![FieldCommand::ClearError(InputField::PublishTopic), FieldCommand::ClearError(InputField::PublishMsg)]
    );
    assert!(matches!(c.event, Some(AppEvent::TouchPublic(7))));
}

#[test]
fn buttons_work_only_while_connected() {
    let mut b = one_broker();
    b.tab_status.connected = false;
    assert!(!subscribe_enabled(&b));
    assert!(!publish_enabled(&b));
    b.tab_status.connected = true;
    assert!(subscribe_enabled(&b));
    assert!(publish_enabled(&b));
}

#[test]
fn broker_list_and_history_clicks() {
    let mut b = one_broker();
    assert!(matches!(broker_row_click(&b), AppEvent::TouchClickBroker(7)));
    assert!(matches!(his_remove_icon_click(&b), AppEvent::TouchRemoveSubscribeHis(7)));
    assert!(his_subscribe_icon_click(&b).is_none());
    b.subscribe_hises = vec![his("a", QoS::AtMostOnce), his("b", QoS::AtLeastOnce), his("c", QoS::ExactlyOnce)];
    assert!(his_subscribe_icon_click(&b).is_none());
    b.subscribe_hises[1].selected = true;
    b.subscribe_hises[2].selected = true;
    assert!(matches!(
        his_subscribe_icon_click(&b),
        Some(AppEvent::TouchSubscribeFromHis(h)) if h.topic == "b" && h.qos == QoS::AtLeastOnce && h.selected
    ));
}

#[test]
fn settings_buttons_follow_the_connection() {
    let mut b = one_broker();
    b.tab_status.connected = false;
    assert_eq!(settings_buttons(&b), vec![SettingsButton::Save, SettingsButton::Connect]);
    b.tab_status.connected = true;
    assert_eq!(settings_buttons(&b), vec![SettingsButton::Save, SettingsButton::Reconnect, SettingsButton::Disconnect]);
    assert!(matches!(settings_button_event(SettingsButton::Save), AppEvent::TouchSaveBroker));
    assert!(matches!(settings_button_event(SettingsButton::Reconnect), AppEvent::TouchReConnect));
    assert!(matches!(settings_button_event(SettingsButton::Disconnect), AppEvent::TouchDisconnect));
    assert!(matches!(settings_button_event(SettingsButton::Connect), AppEvent::TouchConnectBrokerSelected));
}
