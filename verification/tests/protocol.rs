use unicorn_hat_mini::command::{frame, MAX_BRIGHTNESS};
use unicorn_hat_mini::{
    Cmd, Event, Exchange, Matrix, Request, Side, Status, UnicornError, UnicornHATMini,
};

fn write(side: Side, bytes: &[u8]) -> Request {
    Request::Write { side, bytes: bytes.to_vec() }
}

fn open(side: Side, chip_select: u8, clock_hz: u32) -> Request {
    Request::Open { side, bus: 0, chip_select, clock_hz, mode: 0 }
}

fn blank_display() -> Vec<u8> {
    let mut bytes = vec![0x80, 0x00];
    bytes.extend_from_slice(&[0u8; 224]);
    bytes
}

fn init_requests(side: Side) -> Vec<Request> {
    vec![
        write(side, &[0xCC]),
        write(side, &[0x37, 0x01]),
        write(side, &[0x20, 0x00]),
        write(side, &[0x35, 0x00]),
        write(side, &blank_display()),
        write(side, &[0x41, 0xFF]),
        write(side, &[0x42, 0xFF, 0xFF, 0xFF, 0xFF]),
        write(side, &[0x35, 0x03]),
    ]
}

fn shutdown_requests(side: Side) -> Vec<Request> {
    vec![
        write(side, &[0x41, 0x00]),
        write(side, &[0x42, 0x00, 0x00, 0x00, 0x00]),
        write(side, &[0x35, 0x00]),
    ]
}

fn startup_requests(clock_hz: u32) -> Vec<Request> {
    let mut requests = vec![open(Side::Left, 0, clock_hz)];
    requests.extend(init_requests(Side::Left));
    requests.push(open(Side::Right, 1, clock_hz));
    requests.extend(init_requests(Side::Right));
    requests
}

/// Carries an exchange out on a bus that fails the requests whose position,
/// counted over all that it is handed, is in `failing`.
fn run_failing(exchange: &mut Exchange, failing: &[usize]) -> Vec<Request> {
    let mut seen = Vec::new();
    while let Some(request) = exchange.request() {
        let position = seen.len();
        seen.push(request.clone());
        exchange.report(if failing.contains(&position) { Event::Failed } else { Event::Done });
    }
    seen
}

#[test]
fn command_bytes() {
    assert_eq!(u8::from(Cmd::SoftReset), 0xCC);
    assert_eq!(u8::from(Cmd::GlobalBrightness), 0x37);
    assert_eq!(u8::from(Cmd::ComPinCtrl), 0x41);
    assert_eq!(u8::from(Cmd::RowPinCtrl), 0x42);
    assert_eq!(u8::from(Cmd::WriteDisplay), 0x80);
    assert_eq!(u8::from(Cmd::SystemCtrl), 0x35);
    assert_eq!(u8::from(Cmd::ScrollCtrl), 0x20);
    let byte: u8 = Cmd::SystemCtrl.into();
    assert_eq!(byte, 0x35);
}

#[test]
fn frame_is_command_then_payload() {
    assert_eq!(frame(Cmd::SoftReset, &[]), vec![0xCC]);
    assert_eq!(frame(Cmd::RowPinCtrl, &[1, 2, 3, 4]), vec![0x42, 1, 2, 3, 4]);
    assert_eq!(frame(Cmd::GlobalBrightness, &[MAX_BRIGHTNESS]), vec![0x37, 63]);
}

#[test]
fn chip_select_lines() {
    assert_eq!(Side::Left.chip_select(), 0);
    assert_eq!(Side::Right.chip_select(), 1);
}

#[test]
fn init_sequence_in_order() {
    assert_eq!(Matrix::init_sequence(Side::Left), init_requests(Side::Left));
    assert_eq!(Matrix::init_sequence(Side::Right), init_requests(Side::Right));
    match &Matrix::init_sequence(Side::Left)[4] {
        Request::Write { bytes, .. } => assert_eq!(bytes.len(), 226),
        other => panic!("unexpected request {:?}", other),
    }
}

#[test]
fn write_display_takes_the_drivers_half() {
    let mut buf = [0u8; 448];
    for (i, byte) in buf.iter_mut().enumerate() {
        *byte = (i % 251) as u8;
    }
    let left = Matrix::new(Side::Left, 0);
    let right = Matrix::new(Side::Right, 224);
    let mut expected_left = vec![0x80, 0x00];
    expected_left.extend_from_slice(&buf[..224]);
    let mut expected_right = vec![0x80, 0x00];
    expected_right.extend_from_slice(&buf[224..]);
    assert_eq!(left.write_display(&buf), Ok(write(Side::Left, &expected_left)));
    assert_eq!(right.write_display(&buf), Ok(write(Side::Right, &expected_right)));
    let middle = Matrix::new(Side::Left, 100);
    let mut expected_middle = vec![0x80, 0x00];
    expected_middle.extend_from_slice(&buf[100..324]);
    assert_eq!(middle.write_display(&buf), Ok(write(Side::Left, &expected_middle)));
}

#[test]
fn matrix_brightness_fits_the_register() {
    let matrix = Matrix::new(Side::Right, 224);
    assert_eq!(matrix.set_brightness(0), Ok(write(Side::Right, &[0x37, 0])));
    assert_eq!(matrix.set_brightness(1), Ok(write(Side::Right, &[0x37, 1])));
    assert_eq!(matrix.set_brightness(63), Ok(write(Side::Right, &[0x37, 63])));
    assert_eq!(matrix.set_brightness(64), Ok(write(Side::Right, &[0x37, 63])));
    assert_eq!(matrix.set_brightness(255), Ok(write(Side::Right, &[0x37, 63])));
}

#[test]
fn matrix_shuts_down_once() {
    let mut matrix = Matrix::new(Side::Left, 0);
    assert!(matrix.is_ready());
    assert_eq!(matrix.shutdown(), shutdown_requests(Side::Left));
    assert!(!matrix.is_ready());
    assert_eq!(matrix.shutdown(), Vec::<Request>::new());
    assert!(!matrix.is_ready());
    assert_eq!(matrix.write_display(&[0u8; 448]), Err(UnicornError::NotReady));
    assert_eq!(matrix.set_brightness(5), Err(UnicornError::NotReady));
}

#[test]
fn startup_opens_and_starts_left_then_right() {
    let mut startup = UnicornHATMini::startup(600_000);
    assert_eq!(startup.startup_clock(), Some(600_000));
    assert_eq!(startup.status(), Status::Pending);
    let seen = run_failing(&mut startup, &[]);
    assert_eq!(seen, startup_requests(600_000));
    assert_eq!(seen.len(), 18);
    assert_eq!(startup.status(), Status::Completed);
    assert!(UnicornHATMini::new(startup).unwrap().is_ready());
}

#[test]
fn startup_carries_the_clock() {
    let mut startup = UnicornHATMini::startup(1_000_000);
    assert_eq!(startup.request(), Some(&open(Side::Left, 0, 1_000_000)));
    let seen = run_failing(&mut startup, &[]);
    assert_eq!(seen[9], open(Side::Right, 1, 1_000_000));
}

#[test]
fn startup_failure_before_the_right_chip_ends_at_once() {
    for failing in 0..9 {
        let mut startup = UnicornHATMini::startup(600_000);
        let seen = run_failing(&mut startup, &[failing]);
        assert_eq!(seen, startup_requests(600_000)[..=failing].to_vec());
        assert_eq!(startup.status(), Status::Failed);
        assert_eq!(UnicornHATMini::new(startup).unwrap_err(), UnicornError::SPIError);
    }
}

#[test]
fn startup_failure_with_the_left_chip_up_shuts_it_down() {
    for failing in 9..18 {
        let mut startup = UnicornHATMini::startup(600_000);
        let seen = run_failing(&mut startup, &[failing]);
        let mut expected = startup_requests(600_000)[..=failing].to_vec();
        expected.extend(shutdown_requests(Side::Left));
        assert_eq!(seen, expected);
        assert_eq!(startup.status(), Status::Failed);
        assert_eq!(UnicornHATMini::new(startup).unwrap_err(), UnicornError::SPIError);
    }
}

#[test]
fn failed_recovery_is_given_up() {
    let mut startup = UnicornHATMini::startup(600_000);
    let seen = run_failing(&mut startup, &[12, 14]);
    let mut expected = startup_requests(600_000)[..=12].to_vec();
    expected.extend(shutdown_requests(Side::Left)[..2].to_vec());
    assert_eq!(seen, expected);
    assert_eq!(startup.status(), Status::Failed);
}

#[test]
fn no_panel_before_the_startup_is_over() {
    let startup = UnicornHATMini::startup(600_000);
    assert_eq!(UnicornHATMini::new(startup).unwrap_err(), UnicornError::NotReady);
    let mut startup = UnicornHATMini::startup(600_000);
    for _ in 0..17 {
        startup.report(Event::Done);
    }
    assert_eq!(startup.status(), Status::Pending);
    assert_eq!(UnicornHATMini::new(startup).unwrap_err(), UnicornError::NotReady);
}

#[test]
fn no_panel_for_another_exchange() {
    let empty = Exchange::new(Vec::new());
    assert_eq!(empty.status(), Status::Completed);
    assert_eq!(empty.startup_clock(), None);
    assert_eq!(UnicornHATMini::new(empty).unwrap_err(), UnicornError::NotReady);
    let mut copy = Exchange::new(startup_requests(600_000));
    run_failing(&mut copy, &[]);
    assert_eq!(copy.status(), Status::Completed);
    assert_eq!(UnicornHATMini::new(copy).unwrap_err(), UnicornError::NotReady);
    let mut failed = Exchange::new(vec![write(Side::Left, &[0xCC])]);
    failed.report(Event::Failed);
    assert_eq!(UnicornHATMini::new(failed).unwrap_err(), UnicornError::NotReady);
}

#[test]
fn exchange_stops_at_the_first_failure() {
    let requests = vec![
        write(Side::Left, &[1]),
        write(Side::Right, &[2]),
        write(Side::Left, &[3]),
    ];
    let mut exchange = Exchange::new(requests.clone());
    assert_eq!(exchange.status(), Status::Pending);
    assert_eq!(exchange.request(), Some(&requests[0]));
    exchange.report(Event::Done);
    assert_eq!(exchange.request(), Some(&requests[1]));
    exchange.report(Event::Failed);
    assert_eq!(exchange.request(), None);
    assert_eq!(exchange.status(), Status::Failed);
    exchange.report(Event::Done);
    assert_eq!(exchange.request(), None);
    assert_eq!(exchange.status(), Status::Failed);
}

#[test]
fn exchange_completes_with_its_last_request() {
    let requests = vec![write(Side::Left, &[1]), write(Side::Right, &[2])];
    let mut exchange = Exchange::new(requests.clone());
    assert_eq!(run_failing(&mut exchange, &[]), requests);
    assert_eq!(exchange.status(), Status::Completed);
    exchange.report(Event::Failed);
    assert_eq!(exchange.status(), Status::Completed);
    assert_eq!(exchange.request(), None);
}

#[test]
fn exchange_without_requests_is_complete() {
    let mut exchange = Exchange::new(Vec::new());
    assert_eq!(exchange.status(), Status::Completed);
    assert_eq!(exchange.request(), None);
    exchange.report(Event::Done);
    assert_eq!(exchange.status(), Status::Completed);
}

#[test]
fn failed_flush_sends_nothing_to_the_right_chip() {
    let mut startup = UnicornHATMini::startup(600_000);
    run_failing(&mut startup, &[]);
    let mut uni = UnicornHATMini::new(startup).unwrap();
    let mut flush = uni.show().unwrap();
    let seen = run_failing(&mut flush, &[0]);
    assert_eq!(seen.len(), 1);
    assert_eq!(flush.status(), Status::Failed);
    assert!(uni.is_ready());
    let mut again = uni.show().unwrap();
    assert_eq!(run_failing(&mut again, &[]).len(), 2);
    assert_eq!(again.status(), Status::Completed);
}
