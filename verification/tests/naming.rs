use dioxus_makepad::naming::{name_of_widget, widget_live_id};
use makepad_live_id::LiveId;

#[test]
fn widgets_are_named_by_handle() {
    assert_eq!(name_of_widget(0), "widget0");
    assert_eq!(name_of_widget(7), "widget7");
    assert_eq!(name_of_widget(10), "widget10");
    assert_eq!(name_of_widget(109), "widget109");
    assert_eq!(name_of_widget(1234567890), "widget1234567890");
    assert_eq!(name_of_widget(usize::MAX), format!("widget{}", usize::MAX));
}

#[test]
fn live_id_is_the_one_makepad_derives_from_the_name() {
    assert_eq!(widget_live_id(1), LiveId::from_str("widget1").0);
    assert_eq!(widget_live_id(42), LiveId::from_str("widget42").0);
    assert_eq!(LiveId(widget_live_id(0)), LiveId::from_str("widget0"));
    assert_ne!(widget_live_id(1), 1);
    assert_ne!(widget_live_id(1), widget_live_id(2));
    assert_ne!(widget_live_id(1), widget_live_id(10));
}

#[test]
fn live_id_of_a_widget_is_a_hashed_id() {
    for handle in 0..50 {
        assert!(LiveId(widget_live_id(handle)).is_ident());
    }
}
