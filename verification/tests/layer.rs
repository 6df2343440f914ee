#[test]
fn it_success_update_window_position() {}
