use pman_server::logs::{
    format_time, liftoff_message, response_message, shutdown_message, FairingLogger,
    LocalTime, Logger, ResponseSummary,
};
use std::sync::{Arc, Mutex};

fn summary(status: u16) -> ResponseSummary {
    ResponseSummary {
        method: String::from("GET"),
        user_name: Some(String::from("alice")),
        ip: Some(String::from("10.0.0.1")),
        uri: String::from("/passwords"),
        status,
        api_key: Some(String::from("k1")),
        response_time: Some(String::from("1.5 ms")),
    }
}

#[test]
fn logger_keeps_file_and_level() {
    let logger = Logger::new("a.log", 4);
    assert_eq!(logger.file(), "a.log");
    assert_eq!(logger.log_level(), 4);
}

#[test]
fn fairing_shares_the_logger() {
    let shared = Arc::new(Mutex::new(Logger::new("b.log", 1)));
    let fairing = FairingLogger::new(Arc::clone(&shared));
    let handle = fairing.logger();
    assert!(Arc::ptr_eq(&handle, &shared));
    assert_eq!(handle.lock().unwrap().file(), "b.log");
}

fn at(year: i32, month: u32, day: u32, hour: u32, minute: u32, second: u32) -> LocalTime {
    LocalTime { year, month, day, hour, minute, second }
}

#[test]
fn time_stamps_are_zero_padded() {
    assert_eq!(format_time(&at(2024, 1, 2, 3, 4, 5)), "2024/01/02 03:04:05");
    assert_eq!(format_time(&at(1999, 12, 31, 23, 59, 60)), "1999/12/31 23:59:60");
}

#[test]
fn years_outside_four_digits_carry_a_sign() {
    assert_eq!(format_time(&at(5, 6, 7, 0, 0, 0)), "0005/06/07 00:00:00");
    assert_eq!(format_time(&at(0, 1, 1, 0, 0, 0)), "0000/01/01 00:00:00");
    assert_eq!(format_time(&at(-5, 1, 1, 0, 0, 0)), "-0005/01/01 00:00:00");
    assert_eq!(format_time(&at(12345, 1, 1, 0, 0, 0)), "+12345/01/01 00:00:00");
    assert_eq!(format_time(&at(-262144, 1, 1, 0, 0, 0)), "-262144/01/01 00:00:00");
}

#[test]
fn liftoff_and_shutdown_lines() {
    let t = at(2024, 1, 2, 3, 4, 5);
    assert_eq!(
        liftoff_message(&t),
        "2024/01/02 03:04:05 - Server started successfully\n"
    );
    assert_eq!(shutdown_message(&t), "2024/01/02 03:04:05 - Server shutting down\n");
}

#[test]
fn response_line_for_a_valid_key() {
    assert_eq!(
        response_message(&at(2024, 1, 2, 3, 4, 5), &summary(200)),
        "2024/01/02 03:04:05 - GET Request received from user alice ip: 10.0.0.1 to uri \"/passwords\" - Valid API key - Status 200 - Response time : 1.5 ms\n"
    );
}

#[test]
fn response_line_for_an_invalid_key() {
    assert_eq!(
        response_message(&at(2024, 1, 2, 3, 4, 5), &summary(401)),
        "2024/01/02 03:04:05 - GET Request received from user alice ip: 10.0.0.1 to uri \"/passwords\" - Invalid API key : k1 - Status 401 - Response time : 1.5 ms\n"
    );
}

#[test]
fn response_line_defaults() {
    let r = ResponseSummary {
        method: String::from("POST"),
        user_name: None,
        ip: None,
        uri: String::from("/"),
        status: 401,
        api_key: None,
        response_time: None,
    };
    assert_eq!(
        response_message(&at(2024, 10, 20, 13, 14, 15), &r),
        "2024/10/20 13:14:15 - POST Request received from user No user name ip: Unknown IP to uri \"/\" - Invalid API key : No API key provided - Status 401 - Response time : Unknown\n"
    );
}
