use fontfor::server::{CheckRequestResult, RequestStatus, SingleThread};

#[test]
fn status_line_is_exact() {
    assert_eq!(SingleThread::response_status_line(200, "OK"), "HTTP/1.1 200 OK\r\n");
}

#[test]
fn response_200_lists_type_encoding_and_length() {
    let content = "<html>hi</html>";
    assert_eq!(
        SingleThread::response_200(content),
        "HTTP/1.1 200 OK\r\nContent-Type: text/html\r\nContent-Encoding: utf-8\r\n\
         Content-Length: 15\r\nConnection: close\r\n\r\n"
    );
}

#[test]
fn error_responses_are_exact() {
    assert_eq!(
        SingleThread::response_400(),
        "HTTP/1.1 400 Bad Request\r\nConnection: close\r\n\r\n"
    );
    assert_eq!(
        SingleThread::response_404(),
        "HTTP/1.1 404 Not Found\r\nConnection: close\r\n\r\n"
    );
    assert_eq!(
        SingleThread::response_405(),
        "HTTP/1.1 405 Method Not Allowed\r\nConnection: close\r\n\r\n"
    );
}

#[test]
fn check_req_accepts_a_complete_get() {
    let verdict = SingleThread::check_req(b"GET / HTTP/1.1\r\n\r\n", CheckRequestResult::Unknown);
    assert_eq!(verdict, CheckRequestResult::Complete);
}

#[test]
fn check_req_rejects_other_methods() {
    let verdict = SingleThread::check_req(
        b"POST / HTTP/1.1\r\n\r\n",
        CheckRequestResult::Unknown,
    );
    assert_eq!(verdict, CheckRequestResult::Part(RequestStatus::WrongMethod));
}

#[test]
fn check_req_rejects_other_paths() {
    let verdict = SingleThread::check_req(
        b"GET /other HTTP/1.1\r\n\r\n",
        CheckRequestResult::Unknown,
    );
    assert_eq!(verdict, CheckRequestResult::Part(RequestStatus::WrongPath));
}

#[test]
fn check_req_rejects_non_http() {
    let verdict = SingleThread::check_req(b"\0\0garbage\0", CheckRequestResult::Unknown);
    assert_eq!(verdict, CheckRequestResult::Part(RequestStatus::NotHttp));
}

#[test]
fn check_req_waits_on_a_short_prefix() {
    let verdict = SingleThread::check_req(b"GE", CheckRequestResult::Unknown);
    assert_eq!(verdict, CheckRequestResult::Unknown);
}

#[test]
fn check_req_tracks_a_good_partial_request() {
    let verdict = SingleThread::check_req(b"GET / HTTP/1.1\r\n", CheckRequestResult::Unknown);
    assert_eq!(verdict, CheckRequestResult::Part(RequestStatus::Good));
    let more = SingleThread::check_req(
        b"GET / HTTP/1.1\r\nHost: localhost\r\n\r\n",
        verdict,
    );
    assert_eq!(more, CheckRequestResult::Complete);
}

#[test]
fn check_req_keeps_a_complete_verdict() {
    let verdict = SingleThread::check_req(b"anything", CheckRequestResult::Complete);
    assert_eq!(verdict, CheckRequestResult::Complete);
}

#[test]
fn server_keeps_its_page() {
    let s = SingleThread::new("<html></html>".to_string());
    assert_eq!(s.html(), "<html></html>");
}
