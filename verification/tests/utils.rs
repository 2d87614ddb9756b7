use svlopp::cvt;
use svlopp::signalfd::read_signalfd_batch;
use svlopp::signalfd::SignalfdSiginfo;
use svlopp::text::push_decimal;
use svlopp::text::push_hex_byte;
use svlopp::text::push_signed;
use svlopp::timerfd::read_timerfd;
use svlopp::utils::is_crash_signal;
use svlopp::utils::ReadOutcome;
use svlopp::utils::RetCode;
use svlopp::utils::EIO;
use svlopp::IsRetCode;
use svlopp::SupervisorState;

fn flag<T: IsRetCode>(ret: T) -> bool {
    ret.is_error()
}

#[test]
fn minus_one_is_the_error_marker() {
    assert!((-1i32).is_error());
    assert!(!0i32.is_error());
    assert!(!1i32.is_error());
    assert!(!(-2i32).is_error());
    assert!(!i32::MIN.is_error());
    assert!((-1isize).is_error());
    assert!(!0isize.is_error());
    assert!(!isize::MAX.is_error());
}

#[test]
fn both_trait_names_mean_the_same() {
    assert!(flag(-1i32));
    assert!(!flag(3isize));
}

#[test]
fn cvt_keeps_a_good_return_code() {
    assert_eq!(cvt(0i32, 22), Ok(0));
    assert_eq!(cvt(7i32, 22), Ok(7));
    assert_eq!(cvt(-2i32, 22), Ok(-2));
    assert_eq!(cvt(128isize, 0), Ok(128));
}

#[test]
fn cvt_reports_the_error_number_for_minus_one() {
    assert_eq!(cvt(-1i32, 22), Err(22));
    assert_eq!(cvt(-1isize, 4), Err(4));
}

#[test]
fn crash_signals_are_the_five_faults() {
    for sig in [4, 6, 7, 8, 11] {
        assert!(is_crash_signal(sig));
    }
    for sig in [-1, 0, 1, 2, 3, 5, 9, 10, 12, 13, 14, 15, 17, 64] {
        assert!(!is_crash_signal(sig));
    }
}

#[test]
fn supervisor_starts_running() {
    assert_eq!(SupervisorState::default(), SupervisorState::Running);
    assert!(SupervisorState::Running < SupervisorState::ShutdownRequested);
}

#[test]
fn decimal_text_of_numbers() {
    for n in [0u64, 7, 9, 10, 11, 99, 100, 65_534, 1_000_000_007, u64::MAX] {
        let mut out = String::from("n=");
        push_decimal(&mut out, n);
        assert_eq!(out, format!("n={}", n));
    }
}

#[test]
fn signed_text_of_numbers() {
    for n in [0i32, 1, -1, 9, -9, 10, -10, 127, -128, i32::MAX, i32::MIN] {
        let mut out = String::new();
        push_signed(&mut out, n);
        assert_eq!(out, format!("{}", n));
    }
}

#[test]
fn hex_text_of_bytes() {
    for b in [0u8, 1, 9, 10, 15, 16, 0x41, 0x7f, 0x80, 0xfe, 0xff] {
        let mut out = String::from("0x");
        push_hex_byte(&mut out, b);
        assert_eq!(out, format!("0x{:02x}", b));
    }
}

#[test]
fn signal_records_are_counted_by_their_size() {
    assert_eq!(read_signalfd_batch(&ReadOutcome::Data(Vec::new())), Ok(0));
    assert_eq!(read_signalfd_batch(&ReadOutcome::Data(vec![0; 128])), Ok(1));
    assert_eq!(read_signalfd_batch(&ReadOutcome::Data(vec![0; 384])), Ok(3));
}

#[test]
fn a_torn_signal_record_is_an_input_error() {
    assert_eq!(read_signalfd_batch(&ReadOutcome::Data(vec![0; 127])), Err(EIO));
    assert_eq!(read_signalfd_batch(&ReadOutcome::Data(vec![0; 129])), Err(5));
}

#[test]
fn signal_read_that_would_block_holds_nothing() {
    assert_eq!(read_signalfd_batch(&ReadOutcome::WouldBlock), Ok(0));
}

#[test]
fn signal_read_that_failed_keeps_its_error() {
    assert_eq!(read_signalfd_batch(&ReadOutcome::Failed(9)), Err(9));
}

#[test]
fn signal_record_hands_out_its_fields() {
    let info = SignalfdSiginfo::new(17, 1, 4242, 1000);
    assert_eq!(info.signal(), 17);
    assert_eq!(info.code(), 1);
    assert_eq!(info.pid(), 4242);
    assert_eq!(info.uid(), 1000);
    let zero = SignalfdSiginfo::empty();
    assert_eq!(zero.signal(), 0);
    assert_eq!(zero.code(), 0);
    assert_eq!(zero.pid(), 0);
    assert_eq!(zero.uid(), 0);
}

#[test]
fn timer_read_gives_the_expirations() {
    let read = ReadOutcome::Data(3u64.to_ne_bytes().to_vec());
    assert_eq!(read_timerfd(&read), Ok(3));
    let read = ReadOutcome::Data(0x0102_0304_0506_0708u64.to_ne_bytes().to_vec());
    assert_eq!(read_timerfd(&read), Ok(0x0102_0304_0506_0708));
}

#[test]
fn timer_read_of_another_length_is_an_input_error() {
    assert_eq!(read_timerfd(&ReadOutcome::Data(vec![1; 7])), Err(EIO));
    assert_eq!(read_timerfd(&ReadOutcome::Data(vec![1; 9])), Err(EIO));
    assert_eq!(read_timerfd(&ReadOutcome::Data(Vec::new())), Err(EIO));
}

#[test]
fn timer_read_that_would_block_has_no_expirations() {
    assert_eq!(read_timerfd(&ReadOutcome::WouldBlock), Ok(0));
}

#[test]
fn timer_read_that_failed_keeps_its_error() {
    assert_eq!(read_timerfd(&ReadOutcome::Failed(9)), Err(9));
}
