use speed_test::client::{ClientAction, ClientSettings, SettingsEvent};
use speed_test::Protocol;

#[test]
fn initial_form() {
    let c = ClientSettings::new();
    assert_eq!(c.ip_address(), "127.0.0.1");
    assert_eq!(c.port(), "8080");
    assert!(c.is_tcp());
    assert_eq!(c.protocol(), Protocol::TCP);
    assert_eq!(c.address(), "127.0.0.1:8080");
    assert_eq!(c.selection_label(), "Selected: 127.0.0.1:8080 (TCP)");
    assert_eq!(c.connecting_message(), "Connecting to 127.0.0.1:8080 using TCP");
}

#[test]
fn editing_the_form() {
    let mut c = ClientSettings::new();
    assert!(matches!(
        c.update(SettingsEvent::IpAddressChanged("10.0.0.2".to_string()), false),
        ClientAction::Nothing
    ));
    assert!(matches!(
        c.update(SettingsEvent::PortChanged("7070".to_string()), false),
        ClientAction::Nothing
    ));
    assert!(matches!(c.update(SettingsEvent::ProtocolToggled(false), false), ClientAction::Nothing));
    assert_eq!(c.ip_address(), "10.0.0.2");
    assert_eq!(c.port(), "7070");
    assert!(!c.is_tcp());
    assert_eq!(c.selection_label(), "Selected: 10.0.0.2:7070 (UDP)");
}

#[test]
fn last_edit_wins() {
    let mut c = ClientSettings::new();
    c.update(SettingsEvent::PortChanged("1".to_string()), true);
    c.update(SettingsEvent::PortChanged("2".to_string()), true);
    assert_eq!(c.port(), "2");
    assert_eq!(c.ip_address(), "127.0.0.1");
}

#[test]
fn connect_starts_a_test() {
    let mut c = ClientSettings::new();
    match c.update(SettingsEvent::Connect, false) {
        ClientAction::StartTest { protocol, address } => {
            assert_eq!(protocol, Protocol::TCP);
            assert_eq!(address, "127.0.0.1:8080");
        }
        _ => panic!("expected a test to start"),
    }
    c.update(SettingsEvent::ProtocolToggled(false), false);
    match c.update(SettingsEvent::Connect, false) {
        ClientAction::StartTest { protocol, address } => {
            assert_eq!(protocol, Protocol::UDP);
            assert_eq!(address, "127.0.0.1:8080");
        }
        _ => panic!("expected a test to start"),
    }
}

#[test]
fn connect_while_running_starts_nothing() {
    let mut c = ClientSettings::new();
    assert!(matches!(c.update(SettingsEvent::Connect, true), ClientAction::AlreadyRunning));
    assert_eq!(c.address(), "127.0.0.1:8080");
}
