use wifi_commissioning::authorize::AuthorizeService;
use wifi_commissioning::error::ReqError;
use wifi_commissioning::scan::ScanRequest;
use wifi_commissioning::scan::ScanService;
use wifi_commissioning::scan::ScanState;
use wifi_commissioning::scan::RECORDS_LIMIT;
use wifi_commissioning::scan::RESULT_FIELD_LENGTH;

fn authorized() -> AuthorizeService {
    let mut guard = AuthorizeService::with_digest([1; 32]);
    guard.write_key(0, &[1; 32]).unwrap();
    guard
}

fn unauthorized() -> AuthorizeService {
    AuthorizeService::with_digest([1; 32])
}

fn service() -> ScanService<u32> {
    ScanService::new("wlan0".to_string())
}

fn numbered(len: usize) -> Vec<u8> {
    (0..len).map(|i| (i % 251) as u8).collect()
}

fn scanned(len: usize) -> ScanService<u32> {
    let mut svc = service();
    let auth = authorized();
    assert_eq!(svc.write_status(&auth, &[1]), Ok(ScanRequest::Scan));
    svc.complete_scan(Ok(numbered(len)));
    svc
}

#[test]
fn a_new_service_is_idle_and_shows_a_blank_page() {
    let svc = service();
    let auth = authorized();
    assert_eq!(RESULT_FIELD_LENGTH, 100);
    assert_eq!(RECORDS_LIMIT, 255);
    assert_eq!(svc.interface(), "wlan0");
    assert_eq!(svc.state(), ScanState::Idle);
    assert_eq!(svc.read_status(&auth), Ok(vec![0]));
    assert_eq!(svc.read_select(&auth), Ok(vec![0]));
    assert_eq!(svc.read_result(&auth, 0, 512), Ok(vec![0; 100]));
}

#[test]
fn scan_state_bytes() {
    assert_eq!(ScanState::Idle.as_u8(), 0);
    assert_eq!(ScanState::Scan.as_u8(), 1);
    assert_eq!(ScanState::Finished.as_u8(), 2);
    assert_eq!(ScanState::Error.as_u8(), 3);
    assert_eq!(ScanState::try_from(0), Ok(ScanState::Idle));
    assert_eq!(ScanState::try_from(1), Ok(ScanState::Scan));
    assert_eq!(ScanState::try_from(2), Ok(ScanState::Finished));
    assert_eq!(ScanState::try_from(3), Ok(ScanState::Error));
    assert_eq!(ScanState::try_from(4), Err(ReqError::InvalidValue));
}

#[test]
fn every_scan_operation_needs_an_authorization() {
    let mut svc = scanned(250);
    let auth = unauthorized();
    assert_eq!(svc.read_status(&auth), Err(ReqError::NotAuthorized));
    assert_eq!(svc.write_status(&auth, &[0]), Err(ReqError::NotAuthorized));
    assert_eq!(svc.write_status(&auth, &[]), Err(ReqError::NotAuthorized));
    assert_eq!(svc.read_select(&auth), Err(ReqError::NotAuthorized));
    assert_eq!(svc.write_select(&auth, &[0]), Err(ReqError::NotAuthorized));
    assert_eq!(svc.write_select(&auth, &[200]), Err(ReqError::NotAuthorized));
    assert_eq!(svc.read_result(&auth, 0, 10), Err(ReqError::NotAuthorized));
    assert_eq!(svc.read_result(&auth, 500, 10), Err(ReqError::NotAuthorized));
    svc.start_notify_status(&auth, 5);
    assert!(svc.notify_receiver().is_none());
    assert_eq!(svc.state(), ScanState::Finished);
    assert_eq!(svc.read_select(&authorized()), Ok(vec![3]));
}

#[test]
fn two_hundred_and_fifty_bytes_make_three_pages() {
    let mut svc = scanned(250);
    let auth = authorized();
    let all = numbered(250);
    assert_eq!(svc.state(), ScanState::Finished);
    assert_eq!(svc.read_status(&auth), Ok(vec![2]));
    assert_eq!(svc.read_select(&auth), Ok(vec![3]));
    assert_eq!(svc.write_select(&auth, &[0]), Ok(()));
    assert_eq!(svc.read_result(&auth, 0, 512), Ok(all[0..100].to_vec()));
    assert_eq!(svc.write_select(&auth, &[1]), Ok(()));
    assert_eq!(svc.read_result(&auth, 0, 512), Ok(all[100..200].to_vec()));
    assert_eq!(svc.write_select(&auth, &[2]), Ok(()));
    assert_eq!(svc.read_result(&auth, 0, 512), Ok(all[200..250].to_vec()));
    assert_eq!(svc.read_select(&auth), Ok(vec![2]));
    assert_eq!(svc.write_select(&auth, &[3]), Err(ReqError::InvalidTransition));
    assert_eq!(svc.write_select(&auth, &[255]), Err(ReqError::InvalidTransition));
    assert_eq!(svc.read_select(&auth), Ok(vec![2]));
    assert_eq!(svc.read_result(&auth, 0, 512), Ok(all[200..250].to_vec()));
}

#[test]
fn page_counts_at_the_edges() {
    let auth = authorized();
    assert_eq!(scanned(0).read_select(&auth), Ok(vec![0]));
    assert_eq!(scanned(1).read_select(&auth), Ok(vec![1]));
    assert_eq!(scanned(99).read_select(&auth), Ok(vec![1]));
    assert_eq!(scanned(100).read_select(&auth), Ok(vec![1]));
    assert_eq!(scanned(101).read_select(&auth), Ok(vec![2]));
    assert_eq!(scanned(200).read_select(&auth), Ok(vec![2]));
    let mut svc = scanned(200);
    assert_eq!(svc.write_select(&auth, &[1]), Ok(()));
    assert_eq!(svc.read_result(&auth, 0, 512).map(|p| p.len()), Ok(100));
    assert_eq!(svc.write_select(&auth, &[2]), Err(ReqError::InvalidTransition));
}

#[test]
fn an_empty_result_has_no_page_to_select() {
    let mut svc = scanned(0);
    let auth = authorized();
    assert_eq!(svc.state(), ScanState::Finished);
    assert_eq!(svc.write_select(&auth, &[0]), Err(ReqError::InvalidTransition));
    assert_eq!(svc.read_result(&auth, 0, 512), Ok(vec![0; 100]));
}

#[test]
fn a_result_of_254_pages_is_taken_and_one_of_255_is_not() {
    let auth = authorized();
    let mut svc = scanned(25400);
    assert_eq!(svc.state(), ScanState::Finished);
    assert_eq!(svc.read_select(&auth), Ok(vec![254]));
    assert_eq!(svc.write_select(&auth, &[253]), Ok(()));
    assert_eq!(svc.read_result(&auth, 0, 512), Ok(numbered(25400)[25300..].to_vec()));
    assert_eq!(svc.write_select(&auth, &[254]), Err(ReqError::InvalidTransition));

    let mut svc = service();
    svc.write_status(&auth, &[1]).unwrap();
    let (value, answer) = svc.complete_scan(Ok(numbered(25401)));
    assert_eq!(value, vec![3]);
    assert_eq!(answer, Ok(()));
    assert_eq!(svc.state(), ScanState::Error);
    assert_eq!(svc.read_select(&auth), Ok(vec![0]));
    assert_eq!(svc.write_select(&auth, &[0]), Err(ReqError::InvalidTransition));
}

#[test]
fn a_finished_scan_reports_its_state() {
    let mut svc = service();
    let auth = authorized();
    assert_eq!(svc.write_status(&auth, &[1]), Ok(ScanRequest::Scan));
    assert_eq!(svc.state(), ScanState::Scan);
    assert_eq!(svc.read_status(&auth), Ok(vec![1]));
    assert_eq!(svc.complete_scan(Ok(b"[]".to_vec())), (vec![2], Ok(())));
}

#[test]
fn a_failed_scan_leads_to_error_and_fails_the_write() {
    let mut svc = service();
    let auth = authorized();
    svc.write_status(&auth, &[1]).unwrap();
    assert_eq!(
        svc.complete_scan(Err("SCAN failed.".to_string())),
        (vec![3], Err(ReqError::ExternalOperationFailed))
    );
    assert_eq!(svc.state(), ScanState::Error);
    assert_eq!(svc.read_select(&auth), Ok(vec![0]));
}

#[test]
fn a_scan_starts_from_idle_only() {
    let auth = authorized();
    let mut svc = service();
    svc.write_status(&auth, &[1]).unwrap();
    assert_eq!(svc.write_status(&auth, &[1]), Err(ReqError::InvalidTransition));
    assert_eq!(svc.state(), ScanState::Scan);
    let mut svc = scanned(250);
    assert_eq!(svc.write_status(&auth, &[1]), Err(ReqError::InvalidTransition));
    assert_eq!(svc.state(), ScanState::Finished);
    assert_eq!(svc.read_select(&auth), Ok(vec![3]));
    let mut svc = service();
    svc.write_status(&auth, &[1]).unwrap();
    svc.complete_scan(Err("gone".to_string()));
    assert_eq!(svc.write_status(&auth, &[1]), Err(ReqError::InvalidTransition));
    assert_eq!(svc.state(), ScanState::Error);
    assert_eq!(svc.write_status(&auth, &[0]), Ok(ScanRequest::Nothing));
    assert_eq!(svc.write_status(&auth, &[1]), Ok(ScanRequest::Scan));
}

#[test]
fn only_zero_and_one_can_be_written_to_the_status() {
    let mut svc = service();
    let auth = authorized();
    assert_eq!(svc.write_status(&auth, &[2]), Err(ReqError::InvalidValue));
    assert_eq!(svc.write_status(&auth, &[3]), Err(ReqError::InvalidValue));
    assert_eq!(svc.write_status(&auth, &[77]), Err(ReqError::InvalidValue));
    assert_eq!(svc.write_status(&auth, &[]), Err(ReqError::InvalidLength));
    assert_eq!(svc.write_status(&auth, &[1, 1]), Err(ReqError::InvalidLength));
    assert_eq!(svc.state(), ScanState::Idle);
}

#[test]
fn going_idle_discards_the_result() {
    let mut svc = scanned(250);
    let auth = authorized();
    svc.write_select(&auth, &[1]).unwrap();
    assert_eq!(svc.write_status(&auth, &[0]), Ok(ScanRequest::Nothing));
    assert_eq!(svc.state(), ScanState::Idle);
    assert_eq!(svc.read_select(&auth), Ok(vec![0]));
    assert_eq!(svc.write_select(&auth, &[0]), Err(ReqError::InvalidTransition));
    // The page that was selected last is still shown.
    assert_eq!(svc.read_result(&auth, 0, 512), Ok(numbered(250)[100..200].to_vec()));
}

#[test]
fn select_takes_one_byte() {
    let mut svc = scanned(250);
    let auth = authorized();
    assert_eq!(svc.write_select(&auth, &[]), Err(ReqError::InvalidLength));
    assert_eq!(svc.write_select(&auth, &[0, 1]), Err(ReqError::InvalidLength));
    assert_eq!(svc.read_select(&auth), Ok(vec![3]));
}

#[test]
fn the_result_is_read_in_pieces() {
    let mut svc = scanned(250);
    let auth = authorized();
    svc.write_select(&auth, &[2]).unwrap();
    let all = numbered(250);
    assert_eq!(svc.read_result(&auth, 0, 20), Ok(all[200..220].to_vec()));
    assert_eq!(svc.read_result(&auth, 20, 20), Ok(all[220..240].to_vec()));
    assert_eq!(svc.read_result(&auth, 40, 20), Ok(all[240..250].to_vec()));
    assert_eq!(svc.read_result(&auth, 50, 20), Ok(vec![]));
    assert_eq!(svc.read_result(&auth, 51, 20), Err(ReqError::InvalidOffset));
}

#[test]
fn a_subscriber_is_taken_with_an_authorization() {
    let mut svc = service();
    svc.start_notify_status(&authorized(), 5);
    assert_eq!(svc.notify_receiver(), Some(&mut 5));
    svc.start_notify_status(&unauthorized(), 6);
    assert_eq!(svc.notify_receiver(), Some(&mut 5));
    svc.notify_settle(true);
    assert_eq!(svc.notify_receiver(), Some(&mut 5));
    svc.notify_settle(false);
    assert!(svc.notify_receiver().is_none());
}
