use taiga::net::status::{ClientError, Code, Error, HttpError, Informational, Redirection, ServerError, Success};

#[test]
fn every_code_comes_back_from_its_number() {
    let mut known = 0;
    for value in 0..=u16::MAX {
        if let Ok(code) = Code::try_from(value) {
            known += 1;
            assert_eq!(code.code(), value);
            assert_eq!(code.is_success(), (200..300).contains(&value));
            assert_eq!(code.is_error(), (400..600).contains(&value));
            assert_eq!(code.as_error().is_some(), code.is_error());
            if let Some(error) = code.as_error() {
                assert_eq!(error.code(), value);
                assert_eq!(error.reason_phrase(), code.reason_phrase());
            }
            assert!(!code.reason_phrase().is_empty());
        }
    }
    assert_eq!(known, 4 + 10 + 8 + 30 + 12);
}

#[test]
fn numbers_without_a_status_are_refused() {
    for value in [0, 99, 104, 199, 209, 225, 227, 299, 306, 309, 399, 419, 420, 427, 430, 450, 452, 498, 509, 512, 598, 600] {
        assert_eq!(Code::try_from(value), Err(()), "{}", value);
    }
}

#[test]
fn some_codes_and_their_words() {
    assert_eq!(Code::try_from(100), Ok(Code::Informational(Informational::Continue)));
    assert_eq!(Code::try_from(200), Ok(Code::Success(Success::Okay)));
    assert_eq!(Code::try_from(308), Ok(Code::Redirection(Redirection::PermanentRedirect)));
    assert_eq!(Code::try_from(404), Ok(Code::ClientError(ClientError::NotFound)));
    assert_eq!(Code::try_from(599), Ok(Code::ServerError(ServerError::NetworkConnectionTimeoutError)));
    assert_eq!(Code::Informational(Informational::EarlyHints).reason_phrase(), "Early Hints");
    assert_eq!(Code::Success(Success::Okay).reason_phrase(), "OK");
    assert_eq!(Code::Success(Success::ImUsed).reason_phrase(), "IM Used");
    assert_eq!(Code::Redirection(Redirection::SeeOther).reason_phrase(), "See Other");
    assert_eq!(Code::ClientError(ClientError::Unauthorised).reason_phrase(), "Unauthorized");
    assert_eq!(Code::ClientError(ClientError::ExceptionFailed).reason_phrase(), "Expectation Failed");
    assert_eq!(Code::ClientError(ClientError::ImATeapot).reason_phrase(), "I'm a teapot");
    assert_eq!(Error::Client(ClientError::UriTooLong).reason_phrase(), "URI Too Long");
    assert_eq!(Error::Server(ServerError::BadGateway).reason_phrase(), "Bad Gateway");
    assert_eq!(Error::Server(ServerError::BadGateway).code(), 502);
}

#[test]
fn an_error_is_told_with_its_message() {
    let bare = HttpError { status: Error::Client(ClientError::NotFound), message: None };
    assert_eq!(bare.text(), "HTTP 404: Not Found");
    let told = HttpError {
        status: Error::Server(ServerError::InternalServerError),
        message: Some(String::from("disk full")),
    };
    assert_eq!(told.text(), "HTTP 500: Internal Server Error (disk full)");
    let odd = HttpError { status: Error::Client(ClientError::ClientClosedRequest), message: Some(String::new()) };
    assert_eq!(odd.text(), "HTTP 499: Client Closed Request ()");
}

#[test]
fn every_status_has_its_own_phrase() {
    let mut phrases = Vec::new();
    for number in 0..=u16::MAX {
        if let Ok(code) = Code::try_from(number) {
            assert_eq!(code.code(), number);
            assert!(!phrases.contains(&code.reason_phrase()), "{}", number);
            phrases.push(code.reason_phrase());
        }
    }
    assert_eq!(phrases.len(), 64);
}
