use bounded_line_reader::line::all_ascii_digits;
use bounded_line_reader::line::digits_value_at_most;
use bounded_line_reader::line::trim_bytes;
use bounded_line_reader::reader::line_into_buffer;
use bounded_line_reader::reader::status_of;
use bounded_line_reader::reader::LineError;
use bounded_line_reader::reader::MAX_TENFOLD_SAFE;

fn fresh_buf(len: usize, fill: u8) -> Vec<u8> {
    vec![fill; len]
}

#[test]
fn line_42_into_buf_of_8() {
    let line = b"42\n".to_vec();
    let mut buf = fresh_buf(8, 0xAA);
    let r = line_into_buffer(&line, &mut buf);
    assert_eq!(r, Ok(()));
    assert_eq!(buf.len(), 8);
    assert_eq!(buf[0], b'4');
    assert_eq!(buf[1], b'2');
    assert_eq!(buf[2], 0);
}

#[test]
fn long_line_truncated_to_buf_of_2() {
    let line = b"12345\n".to_vec();
    let mut buf = fresh_buf(2, 0xAA);
    let r = line_into_buffer(&line, &mut buf);
    assert_eq!(r, Ok(()));
    assert_eq!(buf, vec![b'1', 0]);
}

#[test]
fn zero_capacity_buffer_rejected() {
    let line = b"42\n".to_vec();
    let mut buf: Vec<u8> = Vec::new();
    let r = line_into_buffer(&line, &mut buf);
    assert_eq!(r, Err(LineError::InvalidBuffer));
    assert!(buf.is_empty());
}

#[test]
fn empty_input_rejected() {
    for line in [b"".to_vec(), b"\n".to_vec(), b"   \n".to_vec(), b"\t\r\n".to_vec()] {
        let mut buf = fresh_buf(8, 7);
        let r = line_into_buffer(&line, &mut buf);
        assert_eq!(r, Err(LineError::EmptyInput));
        assert_eq!(buf, fresh_buf(8, 7));
    }
}

#[test]
fn non_digit_input_rejected() {
    for line in [&b"12a\n"[..], b"-5\n", b"3.14\n", b"1 2\n", b"+7\n"] {
        let mut buf = fresh_buf(8, 7);
        let r = line_into_buffer(&line.to_vec(), &mut buf);
        assert_eq!(r, Err(LineError::NonDigitInput));
        assert_eq!(buf, fresh_buf(8, 7), "buffer must be untouched on failure");
    }
}

#[test]
fn overlarge_values_rejected() {
    for line in [
        &b"300000000\n"[..],
        b"214748365\n",
        b"2147483648\n",
        b"99999999999999999999\n",
    ] {
        let mut buf = fresh_buf(16, 7);
        let r = line_into_buffer(&line.to_vec(), &mut buf);
        assert_eq!(r, Err(LineError::NumericOverflow));
        assert_eq!(buf, fresh_buf(16, 7));
    }
}

#[test]
fn largest_accepted_value() {
    assert_eq!(MAX_TENFOLD_SAFE, i32::MAX / 10);
    let line = b"214748364\n".to_vec();
    let mut buf = fresh_buf(16, 0xAA);
    let r = line_into_buffer(&line, &mut buf);
    assert_eq!(r, Ok(()));
    assert_eq!(&buf[..10], b"214748364\0");
}

#[test]
fn digits_written_verbatim_with_untouched_tail() {
    let line = b"007\n".to_vec();
    let mut buf = fresh_buf(8, 0xAA);
    let r = line_into_buffer(&line, &mut buf);
    assert_eq!(r, Ok(()));
    assert_eq!(&buf[..4], b"007\0");
    assert_eq!(&buf[4..], &[0xAA, 0xAA, 0xAA, 0xAA]);
}

#[test]
fn surrounding_whitespace_is_trimmed() {
    let line = b" \t42 \r\n".to_vec();
    let mut buf = fresh_buf(8, 0xAA);
    let r = line_into_buffer(&line, &mut buf);
    assert_eq!(r, Ok(()));
    assert_eq!(&buf[..3], b"42\0");
}

#[test]
fn repeated_calls_agree() {
    let line = b"9081\n".to_vec();
    let mut first = fresh_buf(8, 0x11);
    let mut second = fresh_buf(8, 0xEE);
    let r1 = line_into_buffer(&line, &mut first);
    let r2 = line_into_buffer(&line, &mut second);
    assert_eq!(r1, r2);
    assert_eq!(&first[..5], &second[..5], "defined bytes agree across calls");
}

#[test]
fn status_codes_are_binary() {
    assert_eq!(status_of(&Ok(())), 0);
    assert_eq!(status_of(&Err(LineError::InvalidBuffer)), 1);
    assert_eq!(status_of(&Err(LineError::IoFailure)), 1);
    assert_eq!(status_of(&Err(LineError::EmptyInput)), 1);
    assert_eq!(status_of(&Err(LineError::NonDigitInput)), 1);
    assert_eq!(status_of(&Err(LineError::NumericOverflow)), 1);
}

#[test]
fn default_prompt_text() {
    assert_eq!(bounded_line_reader::reader::default_prompt(), "Enter a number: ");
}

#[test]
fn diagnostic_messages() {
    assert_eq!(LineError::InvalidBuffer.message(), "Wrong buffer provided");
    assert_eq!(LineError::IoFailure.message(), "Error in I/O");
    assert_eq!(LineError::EmptyInput.message(), "Empty input");
    assert_eq!(LineError::NonDigitInput.message(), "Enter a valid number");
    assert_eq!(LineError::NumericOverflow.message(), "Number too large");
}

#[test]
fn trim_bytes_drops_only_edges() {
    assert_eq!(trim_bytes(&b"  1 2\t\n".to_vec()), b"1 2".to_vec());
    assert_eq!(trim_bytes(&b"\r\n".to_vec()), Vec::<u8>::new());
    assert_eq!(trim_bytes(&b"\x0b77\x0c\n".to_vec()), b"77".to_vec());
    assert_eq!(trim_bytes(&b"abc".to_vec()), b"abc".to_vec());
}

#[test]
fn digit_classification() {
    assert!(all_ascii_digits(&b"0123456789".to_vec()));
    assert!(!all_ascii_digits(&b"12a".to_vec()));
    assert!(all_ascii_digits(&Vec::new()));
}

#[test]
fn bounded_value_check() {
    assert!(digits_value_at_most(&b"42".to_vec(), 42));
    assert!(!digits_value_at_most(&b"43".to_vec(), 42));
    assert!(digits_value_at_most(&b"0000000001".to_vec(), 1));
}
