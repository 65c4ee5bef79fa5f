use wifi_commissioning::authorize::AuthorizeService;
use wifi_commissioning::connect::ConnectRequest;
use wifi_commissioning::connect::ConnectService;
use wifi_commissioning::connect::ConnectionState;
use wifi_commissioning::error::ReqError;

fn authorized() -> AuthorizeService {
    let mut guard = AuthorizeService::with_digest([1; 32]);
    guard.write_key(0, &[1; 32]).unwrap();
    guard
}

fn unauthorized() -> AuthorizeService {
    AuthorizeService::with_digest([1; 32])
}

fn service() -> ConnectService<u32> {
    ConnectService::new("wlan0".to_string())
}

fn failed() -> Result<(), String> {
    Err("no answer".to_string())
}

#[test]
fn a_new_service_is_idle_with_zeroed_values() {
    let svc = service();
    let auth = authorized();
    assert_eq!(svc.interface(), "wlan0");
    assert_eq!(svc.state(), ConnectionState::Idle);
    assert_eq!(svc.read_state(&auth), Ok(vec![0]));
    assert_eq!(svc.read_ssid(&auth, 0, 512), Ok(vec![0; 32]));
    assert_eq!(svc.psk(), &vec![0u8; 32]);
    assert!(!svc.is_connecting());
}

#[test]
fn state_bytes() {
    assert_eq!(ConnectionState::Idle.as_u8(), 0);
    assert_eq!(ConnectionState::Connect.as_u8(), 1);
    assert_eq!(ConnectionState::Connected.as_u8(), 2);
    assert_eq!(ConnectionState::Failed.as_u8(), 3);
    assert_eq!(ConnectionState::try_from(0), Ok(ConnectionState::Idle));
    assert_eq!(ConnectionState::try_from(1), Ok(ConnectionState::Connect));
    assert_eq!(ConnectionState::try_from(2), Ok(ConnectionState::Connected));
    assert_eq!(ConnectionState::try_from(3), Ok(ConnectionState::Failed));
    assert_eq!(ConnectionState::try_from(4), Err(ReqError::InvalidValue));
    assert_eq!(ConnectionState::try_from(255), Err(ReqError::InvalidValue));
}

#[test]
fn every_gated_operation_needs_an_authorization() {
    let mut svc = service();
    let auth = unauthorized();
    assert_eq!(svc.read_state(&auth), Err(ReqError::NotAuthorized));
    assert_eq!(svc.write_state(&auth, &[1]), Err(ReqError::NotAuthorized));
    assert_eq!(svc.write_state(&auth, &[9, 9]), Err(ReqError::NotAuthorized));
    assert_eq!(svc.read_ssid(&auth, 0, 10), Err(ReqError::NotAuthorized));
    assert_eq!(svc.read_ssid(&auth, 99, 10), Err(ReqError::NotAuthorized));
    assert_eq!(svc.write_ssid(&auth, 0, b"net"), Err(ReqError::NotAuthorized));
    assert_eq!(svc.write_ssid(&auth, 0, &[0; 40]), Err(ReqError::NotAuthorized));
    assert_eq!(svc.write_psk(&auth, 0, &[1; 32]), Err(ReqError::NotAuthorized));
    assert_eq!(svc.state(), ConnectionState::Idle);
    assert_eq!(svc.ssid(), &vec![0u8; 32]);
    assert_eq!(svc.psk(), &vec![0u8; 32]);
}

#[test]
fn a_failing_connect_leads_to_failed_and_fails_the_write() {
    let mut svc = service();
    let auth = authorized();
    assert_eq!(svc.write_state(&auth, &[1]), Ok(ConnectRequest::Connect));
    assert_eq!(svc.state(), ConnectionState::Connect);
    assert_eq!(svc.complete_write_state(failed()), Err(ReqError::ExternalOperationFailed));
    assert_eq!(svc.state(), ConnectionState::Failed);
    assert_eq!(svc.read_state(&auth), Ok(vec![3]));
}

#[test]
fn a_successful_connect_stays_connecting_until_the_link_is_up() {
    let mut svc = service();
    let auth = authorized();
    assert_eq!(svc.write_state(&auth, &[1]), Ok(ConnectRequest::Connect));
    assert_eq!(svc.complete_write_state(Ok(())), Ok(vec![1]));
    assert!(svc.is_connecting());
    assert_eq!(svc.tick(Ok((0, "<unknown>".to_string()))), None);
    assert_eq!(svc.tick(Ok((1, "<unknown>".to_string()))), None);
    assert_eq!(svc.tick(Ok((0, "10.0.0.2".to_string()))), None);
    assert_eq!(svc.tick(Ok((2, "10.0.0.2".to_string()))), None);
    assert_eq!(svc.state(), ConnectionState::Connect);
    assert_eq!(svc.tick(Ok((1, "10.0.0.2".to_string()))), Some(vec![2]));
    assert_eq!(svc.state(), ConnectionState::Connected);
    assert!(!svc.is_connecting());
}

#[test]
fn a_failing_poll_leads_to_failed() {
    let mut svc = service();
    let auth = authorized();
    svc.write_state(&auth, &[1]).unwrap();
    svc.complete_write_state(Ok(())).unwrap();
    assert_eq!(svc.tick(Err("gone".to_string())), Some(vec![3]));
    assert_eq!(svc.state(), ConnectionState::Failed);
}

#[test]
fn a_poll_outside_of_connecting_changes_nothing() {
    let mut svc = service();
    let auth = authorized();
    assert_eq!(svc.tick(Err("gone".to_string())), None);
    assert_eq!(svc.tick(Ok((1, "10.0.0.2".to_string()))), None);
    assert_eq!(svc.state(), ConnectionState::Idle);
    svc.write_state(&auth, &[1]).unwrap();
    svc.complete_write_state(Ok(())).unwrap();
    svc.tick(Ok((1, "10.0.0.2".to_string())));
    assert_eq!(svc.tick(Err("gone".to_string())), None);
    assert_eq!(svc.state(), ConnectionState::Connected);
}

#[test]
fn connect_is_accepted_from_connected() {
    let mut svc = service();
    let auth = authorized();
    svc.write_state(&auth, &[1]).unwrap();
    svc.complete_write_state(Ok(())).unwrap();
    svc.tick(Ok((1, "10.0.0.2".to_string())));
    assert_eq!(svc.state(), ConnectionState::Connected);
    assert_eq!(svc.write_state(&auth, &[1]), Ok(ConnectRequest::Connect));
    assert_eq!(svc.state(), ConnectionState::Connect);
}

#[test]
fn a_second_connect_is_refused() {
    let mut svc = service();
    let auth = authorized();
    svc.write_state(&auth, &[1]).unwrap();
    svc.complete_write_state(Ok(())).unwrap();
    assert_eq!(svc.write_state(&auth, &[1]), Err(ReqError::InvalidTransition));
    assert_eq!(svc.state(), ConnectionState::Connect);
}

#[test]
fn connect_is_refused_from_failed_and_the_state_stands() {
    let mut svc = service();
    let auth = authorized();
    svc.write_state(&auth, &[1]).unwrap();
    svc.complete_write_state(failed()).unwrap_err();
    assert_eq!(svc.write_state(&auth, &[1]), Err(ReqError::InvalidTransition));
    assert_eq!(svc.state(), ConnectionState::Failed);
    assert_eq!(svc.write_state(&auth, &[0]), Ok(ConnectRequest::Disconnect));
    assert_eq!(svc.complete_write_state(Ok(())), Ok(vec![0]));
    assert_eq!(svc.write_state(&auth, &[1]), Ok(ConnectRequest::Connect));
}

#[test]
fn idle_is_accepted_from_every_state() {
    let auth = authorized();
    let mut svc = service();
    assert_eq!(svc.write_state(&auth, &[0]), Ok(ConnectRequest::Disconnect));
    assert_eq!(svc.complete_write_state(Ok(())), Ok(vec![0]));
    svc.write_state(&auth, &[1]).unwrap();
    svc.complete_write_state(Ok(())).unwrap();
    assert_eq!(svc.write_state(&auth, &[0]), Ok(ConnectRequest::Disconnect));
    assert_eq!(svc.state(), ConnectionState::Idle);
    svc.write_state(&auth, &[1]).unwrap();
    svc.complete_write_state(Ok(())).unwrap();
    svc.tick(Ok((1, "10.0.0.2".to_string())));
    assert_eq!(svc.write_state(&auth, &[0]), Ok(ConnectRequest::Disconnect));
}

#[test]
fn a_failing_disconnect_leads_to_failed() {
    let mut svc = service();
    let auth = authorized();
    assert_eq!(svc.write_state(&auth, &[0]), Ok(ConnectRequest::Disconnect));
    assert_eq!(svc.complete_write_state(failed()), Err(ReqError::ExternalOperationFailed));
    assert_eq!(svc.state(), ConnectionState::Failed);
}

#[test]
fn only_zero_and_one_can_be_written() {
    let mut svc = service();
    let auth = authorized();
    assert_eq!(svc.write_state(&auth, &[2]), Err(ReqError::InvalidValue));
    assert_eq!(svc.write_state(&auth, &[3]), Err(ReqError::InvalidValue));
    assert_eq!(svc.write_state(&auth, &[4]), Err(ReqError::InvalidValue));
    assert_eq!(svc.write_state(&auth, &[255]), Err(ReqError::InvalidValue));
    assert_eq!(svc.write_state(&auth, &[]), Err(ReqError::InvalidLength));
    assert_eq!(svc.write_state(&auth, &[1, 0]), Err(ReqError::InvalidLength));
    assert_eq!(svc.write_state(&auth, &[7, 7]), Err(ReqError::InvalidLength));
    assert_eq!(svc.state(), ConnectionState::Idle);
}

#[test]
fn an_ssid_written_at_zero_replaces_a_longer_one() {
    let mut svc = service();
    let auth = authorized();
    assert_eq!(svc.write_ssid(&auth, 0, b"a-rather-long-network-name"), Ok(()));
    assert_eq!(svc.write_ssid(&auth, 0, b"home"), Ok(()));
    assert_eq!(svc.read_ssid(&auth, 0, 512), Ok(b"home".to_vec()));
    assert_eq!(svc.ssid(), &b"home".to_vec());
}

#[test]
fn an_ssid_written_in_pieces() {
    let mut svc = service();
    let auth = authorized();
    assert_eq!(svc.write_ssid(&auth, 0, b"0123456789abcdef0123"), Ok(()));
    assert_eq!(svc.write_ssid(&auth, 20, b"456789abcdef"), Ok(()));
    assert_eq!(svc.read_ssid(&auth, 0, 20), Ok(b"0123456789abcdef0123".to_vec()));
    assert_eq!(svc.read_ssid(&auth, 20, 20), Ok(b"456789abcdef".to_vec()));
    assert_eq!(svc.read_ssid(&auth, 32, 20), Ok(vec![]));
    assert_eq!(svc.read_ssid(&auth, 33, 20), Err(ReqError::InvalidOffset));
}

#[test]
fn ssid_writes_that_are_refused_change_nothing() {
    let mut svc = service();
    let auth = authorized();
    assert_eq!(svc.write_ssid(&auth, 0, b"home"), Ok(()));
    assert_eq!(svc.write_ssid(&auth, 0, &[b'x'; 33]), Err(ReqError::InvalidLength));
    assert_eq!(svc.write_ssid(&auth, 30, b"xyz"), Err(ReqError::InvalidLength));
    assert_eq!(svc.write_ssid(&auth, 5, b"x"), Err(ReqError::InvalidOffset));
    assert_eq!(svc.ssid(), &b"home".to_vec());
    assert_eq!(svc.write_ssid(&auth, 4, b"-net"), Ok(()));
    assert_eq!(svc.ssid(), &b"home-net".to_vec());
}

#[test]
fn the_key_keeps_its_length() {
    let mut svc = service();
    let auth = authorized();
    assert_eq!(svc.write_psk(&auth, 0, &[0xaa; 16]), Ok(()));
    assert_eq!(svc.write_psk(&auth, 16, &[0xbb; 16]), Ok(()));
    let mut expected = vec![0xaau8; 16];
    expected.extend_from_slice(&[0xbb; 16]);
    assert_eq!(svc.psk(), &expected);
    assert_eq!(svc.write_psk(&auth, 0, &[1]), Ok(()));
    expected[0] = 1;
    assert_eq!(svc.psk(), &expected);
    assert_eq!(svc.write_psk(&auth, 31, &[1, 2]), Err(ReqError::InvalidLength));
    assert_eq!(svc.write_psk(&auth, 0, &[0; 33]), Err(ReqError::InvalidLength));
    assert_eq!(svc.psk(), &expected);
}

#[test]
fn the_subscriber_is_dropped_after_a_failed_delivery() {
    let mut svc = service();
    assert!(svc.notify_receiver().is_none());
    svc.start_notify_state(1);
    svc.start_notify_state(2);
    assert_eq!(svc.notify_receiver(), Some(&mut 2));
    svc.notify_settle(true);
    assert_eq!(svc.notify_receiver(), Some(&mut 2));
    svc.notify_settle(false);
    assert!(svc.notify_receiver().is_none());
    svc.notify_settle(false);
    assert!(svc.notify_receiver().is_none());
}
