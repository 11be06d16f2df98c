use videocall_client::{split_users, AppMsg, AppStore, DeviceState, EncoderState};

#[test]
fn device_state_toggles() {
    let mut d = DeviceState::new();
    assert!(d.is_enabled());
    assert!(!d.set_enabled(true));
    assert!(d.set_enabled(false));
    assert!(!d.is_enabled());
}

#[test]
fn device_select_switches_only_on_change() {
    let mut d = DeviceState::new();
    assert!(d.select("cam1".to_string()));
    assert!(d.is_switching());
    assert!(!d.select("cam1".to_string()));
    let mut e = DeviceState::new();
    e.set_enabled(false);
    assert!(!e.select("cam2".to_string()));
    assert!(!e.is_switching());
    let copy = d.clone();
    assert!(copy == d);
    assert!(d != e);
}

#[test]
fn encoder_select_and_stop() {
    let mut e = EncoderState::new();
    assert!(e.select("mic".to_string()));
    assert!(e.select("mic".to_string()));
    assert!(e.is_switching());
    assert!(!e.is_destroyed());
    e.stop();
    assert!(e.is_destroyed());
    let mut off = EncoderState::new();
    assert!(off.set_enabled(false));
    assert!(!off.select("mic".to_string()));
    assert!(EncoderState::new() == EncoderState::new());
}

#[test]
fn app_store_updates() {
    let s = AppStore::default();
    assert_eq!(s.name, "");
    let s = AppMsg::SetName("ann".to_string()).apply(s);
    let s = AppMsg::SetId("room-1".to_string()).apply(s);
    assert_eq!(s.name, "ann");
    assert_eq!(s.id, "room-1");
}

#[test]
fn split_users_trims_and_drops_empty() {
    assert_eq!(split_users(Some(" ann , bob,,\tcy \n,")), vec!["ann", "bob", "cy"]);
    assert_eq!(split_users(Some("solo")), vec!["solo"]);
    assert_eq!(split_users(Some("")), Vec::<String>::new());
    assert_eq!(split_users(Some(" , \u{3000}")), Vec::<String>::new());
    assert_eq!(split_users(Some("a b,\u{a0}c\u{2003}")), vec!["a b", "c"]);
    assert_eq!(split_users(None), Vec::<String>::new());
}
