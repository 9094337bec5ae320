use for_mqtt::data::common::{Id, PayloadTy, QoS, SubscribeHis};
use for_mqtt::data::hierarchy::{AppData, AppError};
use for_mqtt::data::{AppEvent, Effect};
use for_mqtt::logic::{deal_event, ClickTracker, Fresh};
use for_mqtt::util::db::{ArcDb, DbWrite};

fn fresh(trace_id: u32) -> Fresh {
    Fresh { trace_id, his_id: Id(trace_id), time: "12:00:00".to_string() }
}

fn start() -> (AppData, ClickTracker) {
    let mut db = ArcDb { index: 0, ids: Vec::new() };
    let (data, _) = db.read_app_data(None);
    (data, ClickTracker::new())
}

fn run(data: &mut AppData, clicks: &mut ClickTracker, event: AppEvent) -> Result<Vec<Effect>, AppError> {
    deal_event(data, clicks, event, fresh(1))
}

#[test]
fn touches_change_the_state() {
    let (mut data, mut clicks) = start();
    assert!(run(&mut data, &mut clicks, AppEvent::TouchAddBroker).unwrap().is_empty());
    assert_eq!(data.brokers.len(), 1);
    let effects = run(&mut data, &mut clicks, AppEvent::TouchSaveBroker).unwrap();
    assert!(effects.iter().any(|e| matches!(e, Effect::Store(DbWrite::Broker(_)))));
    let effects = run(&mut data, &mut clicks, AppEvent::TouchConnectBrokerSelected).unwrap();
    assert!(effects.iter().any(|e| matches!(e, Effect::Send(AppEvent::ToConnect(_)))));
    assert_eq!(data.broker_tabs.len(), 1);
}

#[test]
fn requests_are_handed_back() {
    let (mut data, mut clicks) = start();
    let effects = run(&mut data, &mut clicks, AppEvent::ToDisconnect(3)).unwrap();
    assert!(matches!(&effects[..], [Effect::Perform(AppEvent::ToDisconnect(3))]));
    let effects = run(&mut data, &mut clicks, AppEvent::UpdateScrollMsgWin).unwrap();
    assert!(matches!(&effects[..], [Effect::Perform(AppEvent::UpdateScrollMsgWin)]));
    assert!(data.brokers.is_empty());
}

#[test]
fn double_click_on_a_broker_reconnects() {
    let (mut data, mut clicks) = start();
    run(&mut data, &mut clicks, AppEvent::TouchAddBroker).unwrap();
    let id = data.brokers[0].id;
    let first = run(&mut data, &mut clicks, AppEvent::TouchClickBroker(id)).unwrap();
    assert!(matches!(first.last(), Some(Effect::Later(AppEvent::DbClickCheck(x))) if *x == id));
    let second = run(&mut data, &mut clicks, AppEvent::TouchClickBroker(id)).unwrap();
    assert!(matches!(&second[0], Effect::Send(AppEvent::ToDisconnect(x)) if *x == id));
    assert!(second.iter().any(|e| matches!(e, Effect::Send(AppEvent::ToConnect(_)))));
    // A click whose time ran out is a single click again.
    run(&mut data, &mut clicks, AppEvent::TouchClickBroker(id)).unwrap();
    run(&mut data, &mut clicks, AppEvent::DbClickCheck(id)).unwrap();
    let again = run(&mut data, &mut clicks, AppEvent::TouchClickBroker(id)).unwrap();
    assert!(matches!(again.last(), Some(Effect::Later(AppEvent::DbClickCheck(_)))));
}

#[test]
fn double_click_on_history_subscribes() {
    let (mut data, mut clicks) = start();
    run(&mut data, &mut clicks, AppEvent::TouchAddBroker).unwrap();
    let id = data.brokers[0].id;
    let his = SubscribeHis { id: Id(1), broker_id: id, selected: false, topic: "t/#".to_string(), qos: QoS::AtLeastOnce, payload_ty: PayloadTy::Text };
    let first = run(&mut data, &mut clicks, AppEvent::TouchClickSubscribeHis(his.duplicate())).unwrap();
    assert!(matches!(&first[..], [Effect::Later(AppEvent::DbClickCheckSubscribeHis(h))] if h.topic == "t/#"));
    let second = run(&mut data, &mut clicks, AppEvent::TouchClickSubscribeHis(his.duplicate())).unwrap();
    assert!(second.iter().any(|e| matches!(e, Effect::Send(AppEvent::ToSubscribe(b, t)) if *b == id && t.topic == "t/#")));
    assert_eq!(data.brokers[0].subscribe_topics.len(), 1);
}

#[test]
fn answers_update_the_state() {
    let (mut data, mut clicks) = start();
    run(&mut data, &mut clicks, AppEvent::TouchAddBroker).unwrap();
    let id = data.brokers[0].id;
    run(&mut data, &mut clicks, AppEvent::ConnectAckSuccess(id)).unwrap();
    assert!(data.brokers[0].tab_status.connected);
    run(&mut data, &mut clicks, AppEvent::ReceivePublic(id, "a".to_string(), b"x".to_vec(), QoS::AtMostOnce)).unwrap();
    assert_eq!(data.brokers[0].msgs.len(), 1);
    assert!(matches!(run(&mut data, &mut clicks, AppEvent::PubAck(id, 9)), Err(AppError::PublishNotFound(9))));
    run(&mut data, &mut clicks, AppEvent::ClientDisconnect(id)).unwrap();
    assert!(!data.brokers[0].tab_status.connected);
    let hint_before = data.hint.clone();
    let brokers_before = data.brokers.len();
    let effects = run(&mut data, &mut clicks, AppEvent::ConnectAckFail(id, "refused".to_string())).unwrap();
    assert!(effects.is_empty());
    assert_eq!(data.hint, hint_before);
    assert_eq!(data.brokers.len(), brokers_before);
    run(&mut data, &mut clicks, AppEvent::UpdateStatusBar("ready".to_string())).unwrap();
    assert_eq!(data.hint, "ready");
}
