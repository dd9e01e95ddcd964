use shuttle_runtime::channels::{slot, ChannelRole, ChannelTable};

#[test]
fn standard_slots() {
    assert_eq!(slot(ChannelRole::Logs), 20);
    assert_eq!(slot(ChannelRole::Parts), 3);
    assert_eq!(slot(ChannelRole::BodyWrite), 4);
    assert_eq!(slot(ChannelRole::BodyRead), 5);
}

#[test]
fn standard_table_arguments() {
    let t = ChannelTable::standard();
    assert_eq!(t.invoke_args(), (20, 3, 4, 5));
    assert_eq!(t.handle(ChannelRole::Parts), 3);
}

#[test]
fn entry_point_names() {
    assert_eq!(shuttle_runtime::channels::ENTRY_MODULE, "axum");
    assert_eq!(shuttle_runtime::channels::ENTRY_POINT, "__SHUTTLE_Axum_call");
}
