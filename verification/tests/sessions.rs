//! Sessions: sending, waiting for an offer, saving, receiving.

use magic_wormhole::transfer::TransferError;
use magic_wormhole::WormholeError;

use wormhole_core::error::{IoErrorKind, IoFailure};
use wormhole_core::mailbox::{open_to_receive, open_to_send};
use wormhole_core::{
    receive_file, request_receive, send_file, AcceptAction, AcceptEvent, Error, IncomingFile,
    MailboxRequest, OpenOutcome, PendingReceive, ReceiveAction, ReceiveEvent, RequestAction,
    RequestEvent, SendAction, SendEvent, SendSession, TransferListener, DEFAULT_CODE_LENGTH,
};

fn refused() -> AcceptEvent {
    AcceptEvent::CreateFile(OpenOutcome::Failed {
        kind: IoErrorKind::AlreadyExists,
        error: std::io::Error::new(std::io::ErrorKind::AlreadyExists, "there"),
    })
}

fn opened() -> AcceptEvent {
    AcceptEvent::CreateFile(OpenOutcome::Opened)
}

fn mailbox_of_code(raw: &str) -> Option<(String, bool)> {
    match open_to_send(Some(raw)) {
        Ok(MailboxRequest::Connect { code, allocate }) => Some((code, allocate)),
        Ok(other) => panic!("{other:?}"),
        Err(Error::InvalidCode(text)) => {
            assert_eq!(text, raw);
            None
        },
        Err(other) => panic!("{other:?}"),
    }
}

#[test]
fn codes_are_recognised() {
    for good in ["15-foo-bar", "7-guitarist-revenge", "1-abcd", "-abcd", "007-word", "4-\u{fc}\u{fc}"] {
        assert_eq!(mailbox_of_code(good), Some((good.to_string(), true)), "{good:?}");
    }
    for good in ["340282366920938463463374607431768211456-word", "91234-integration-test", "1-----"] {
        assert_eq!(mailbox_of_code(good), Some((good.to_string(), true)), "{good:?}");
    }
    for bad in ["", "nodash", "12", "x-word", "1x-word", "0-word", "000-word", "1-abc", "1-", "+1-word", " 1-word"] {
        assert_eq!(mailbox_of_code(bad), None, "{bad:?}");
    }
}

#[test]
fn receivers_do_not_claim_the_nameplate() {
    match open_to_receive("15-foo-bar").unwrap() {
        MailboxRequest::Connect { code, allocate } => {
            assert_eq!(code, "15-foo-bar");
            assert!(!allocate);
        },
        other => panic!("{other:?}"),
    }
    assert!(matches!(open_to_receive("foo"), Err(Error::InvalidCode(c)) if c == "foo"));
}

fn sending(code: Option<&str>) -> SendSession {
    let (session, action) = send_file("/home/me/photo.jpg", code);
    match (code, action) {
        (None, SendAction::OpenMailbox(MailboxRequest::Create { code_length })) => {
            assert_eq!(code_length, DEFAULT_CODE_LENGTH);
            assert_eq!(code_length, 2);
        },
        (Some(raw), SendAction::OpenMailbox(MailboxRequest::Connect { code, allocate })) => {
            assert_eq!(code, raw);
            assert!(allocate);
        },
        (_, other) => panic!("{other:?}"),
    }
    session
}

#[test]
fn a_file_is_sent() {
    for code in [None, Some("15-foo-bar")] {
        let session = sending(code);
        let (session, action) = session.after(SendEvent::MailboxOpened { code: "9-x-y".into() });
        assert!(matches!(action, Some(SendAction::ReportCode { code }) if code == "9-x-y"));
        let (session, action) = session.after(SendEvent::CodeReported);
        assert!(matches!(action, Some(SendAction::Connect)));
        let (session, action) = session.after(SendEvent::WormholeConnected);
        assert!(matches!(action, Some(SendAction::SendFile { file_name }) if file_name == "photo.jpg"));
        let (session, action) = session.after(SendEvent::FileSent);
        assert!(matches!(action, Some(SendAction::Finish(Ok(())))));
        let (_, action) = session.after(SendEvent::Cancelled);
        assert!(action.is_none());
    }
}

#[test]
fn a_path_has_to_name_a_file() {
    for path in ["", "/", "..", "a/.."] {
        let (_, action) = send_file(path, None);
        match action {
            SendAction::Finish(Err(e)) => {
                assert_eq!(e.message(), "path has no file name");
                assert!(matches!(
                    e,
                    Error::Io(IoFailure::Raised { kind: IoErrorKind::InvalidInput, .. })
                ));
            },
            other => panic!("{other:?}"),
        }
    }
    // the path comes first, the code second
    let (_, action) = send_file("..", Some("nocode"));
    assert!(matches!(action, SendAction::Finish(Err(Error::Io(_)))));
    let (_, action) = send_file("a", Some("nocode"));
    match action {
        SendAction::Finish(Err(e)) => assert_eq!(e.message(), "invalid wormhole code: nocode"),
        other => panic!("{other:?}"),
    }
}

#[test]
fn sending_is_cancelled_in_every_phase() {
    let opening = sending(None);
    let reporting = || sending(None).after(SendEvent::MailboxOpened { code: "9-x-y".into() }).0;
    let connecting = || reporting().after(SendEvent::CodeReported).0;
    let sending_now = connecting().after(SendEvent::WormholeConnected).0;
    for session in [opening, reporting(), connecting(), sending_now] {
        let (_, action) = session.after(SendEvent::Cancelled);
        match action {
            Some(SendAction::Finish(Err(e))) => {
                assert_eq!(e.message(), "the transfer was cancelled");
                assert!(matches!(e, Error::Cancelled));
            },
            other => panic!("{other:?}"),
        }
    }
}

#[test]
fn errors_of_sending_are_passed_on() {
    let (_, action) = sending(None).after(SendEvent::WormholeFailed(WormholeError::PakeFailed));
    match action {
        Some(SendAction::Finish(Err(e))) => {
            assert_eq!(e.message(), WormholeError::PakeFailed.to_string());
            assert!(matches!(e, Error::Wormhole(WormholeError::PakeFailed)));
        },
        other => panic!("{other:?}"),
    }
    let session = sending(None).after(SendEvent::MailboxOpened { code: "9-x-y".into() }).0;
    let session = session.after(SendEvent::CodeReported).0;
    let session = session.after(SendEvent::WormholeConnected).0;
    let (_, action) = session.after(SendEvent::TransferFailed(TransferError::Checksum));
    match action {
        Some(SendAction::Finish(Err(e))) => {
            assert_eq!(e.message(), "Receive checksum error");
            assert!(matches!(e, Error::Transfer(TransferError::Checksum)));
        },
        other => panic!("{other:?}"),
    }
}

#[test]
fn events_that_answer_nothing_are_ignored() {
    let (session, action) = sending(None).after(SendEvent::FileSent);
    assert!(action.is_none());
    let (session, action) = session.after(SendEvent::WormholeConnected);
    assert!(action.is_none());
    let (session, action) = session.after(SendEvent::TransferFailed(TransferError::Checksum));
    assert!(action.is_none());
    let (session, action) = session.after(SendEvent::MailboxOpened { code: "1-a-b".into() });
    assert!(action.is_some());
    // the code is not reported again
    let (_, action) = session.after(SendEvent::MailboxOpened { code: "1-a-b".into() });
    assert!(action.is_none());
}

#[test]
fn a_run_keeps_its_order_where_it_fails() {
    // without a mailbox there is no code to report
    let (session, action) = sending(None).after(SendEvent::WormholeFailed(WormholeError::Crypto));
    assert!(matches!(action, Some(SendAction::Finish(Err(_)))));
    let (_, action) = session.after(SendEvent::MailboxOpened { code: "9-x-y".into() });
    assert!(action.is_none());
    // without a receiver nothing is sent
    let (session, action) = sending(None).after(SendEvent::MailboxOpened { code: "9-x-y".into() });
    assert!(matches!(action, Some(SendAction::ReportCode { code }) if code == "9-x-y"));
    // the receiver is not waited for before the code is reported
    let (session, action) = session.after(SendEvent::WormholeConnected);
    assert!(action.is_none());
    let (session, action) = session.after(SendEvent::CodeReported);
    assert!(matches!(action, Some(SendAction::Connect)));
    let (session, action) = session.after(SendEvent::Cancelled);
    assert!(matches!(action, Some(SendAction::Finish(Err(Error::Cancelled)))));
    let (_, action) = session.after(SendEvent::WormholeConnected);
    assert!(action.is_none());
}

/// Waits for an offer of `name`, whose handle is a number.
fn offered(name: &str) -> PendingReceive<u32> {
    let (session, action) = request_receive::<u32>("15-foo-bar");
    assert!(matches!(
        action,
        RequestAction::OpenMailbox(MailboxRequest::Connect { code, allocate: false })
            if code == "15-foo-bar"
    ));
    let (session, action) = session.after(RequestEvent::<u32>::MailboxOpened);
    assert!(matches!(action, Some(RequestAction::Connect)));
    let (session, action) = session.after(RequestEvent::<u32>::WormholeConnected);
    assert!(matches!(action, Some(RequestAction::RequestFile)));
    let offer = RequestEvent::Offered { file_name: name.to_string(), file_size: 12, request: 77 };
    let (_, action) = session.after(offer);
    match action {
        Some(RequestAction::Finish(Ok(pending))) => pending,
        other => panic!("{other:?}"),
    }
}

#[test]
fn offers_are_sanitized() {
    let pending = offered("../../etc/passwd");
    assert_eq!(pending.file_name, "passwd");
    assert_eq!(pending.file_size, 12);
    assert_eq!(pending.reject(), 77);
    assert_eq!(offered("..").file_name, "received.bin");
}

#[test]
fn waiting_ends_with_each_error() {
    let (_, action) = request_receive::<u32>("nocode");
    assert!(matches!(action, RequestAction::Finish(Err(Error::InvalidCode(c))) if c == "nocode"));

    let (session, _) = request_receive::<u32>("15-foo-bar");
    let (_, action) = session.after(RequestEvent::<u32>::WormholeFailed(WormholeError::Crypto));
    assert!(matches!(
        action,
        Some(RequestAction::Finish(Err(Error::Wormhole(WormholeError::Crypto))))
    ));

    let waiting = || {
        let (session, _) = request_receive::<u32>("15-foo-bar");
        let session = session.after(RequestEvent::<u32>::MailboxOpened).0;
        session.after(RequestEvent::<u32>::WormholeConnected).0
    };
    let (_, action) = waiting().after(RequestEvent::<u32>::NothingOffered);
    assert!(matches!(action, Some(RequestAction::Finish(Err(Error::Cancelled)))));
    let (_, action) = waiting().after(RequestEvent::<u32>::Cancelled);
    assert!(matches!(action, Some(RequestAction::Finish(Err(Error::Cancelled)))));
    let failed = RequestEvent::<u32>::TransferFailed(TransferError::UnsupportedOffer);
    let (session, action) = waiting().after(failed);
    assert!(matches!(
        action,
        Some(RequestAction::Finish(Err(Error::Transfer(TransferError::UnsupportedOffer))))
    ));
    let (_, action) = session.after(RequestEvent::<u32>::WormholeConnected);
    assert!(action.is_none());
}

#[test]
fn an_offer_is_saved_under_the_first_free_name() {
    let (request, session, action) = offered("dir/a.txt").accept();
    assert_eq!(request, 77);
    assert!(matches!(action, AcceptAction::CreateFile { name } if name == "a.txt"));
    let (session, action) = session.after(refused());
    assert!(matches!(action, Some(AcceptAction::CreateFile { name }) if name == "a (1).txt"));
    let (session, action) = session.after(opened());
    assert!(matches!(action, Some(AcceptAction::Transfer)));
    let (session, action) = session.after(opened());
    assert!(action.is_none());
    let (session, action) = session.after(AcceptEvent::Transferred);
    assert!(matches!(action, Some(AcceptAction::Finish(Ok(name))) if name == "a (1).txt"));
    let (_, action) = session.after(AcceptEvent::Transferred);
    assert!(action.is_none());
}

#[test]
fn saving_fails_with_each_error() {
    let (_, session, _) = offered("a").accept();
    let (session, _) = session.after(opened());
    let (_, action) = session.after(AcceptEvent::TransferFailed(TransferError::AckError));
    assert!(matches!(
        action,
        Some(AcceptAction::Finish(Err(Error::Transfer(TransferError::AckError))))
    ));

    let (_, mut session, _) = offered("a").accept();
    let mut attempts = 1;
    let e = loop {
        let (next, action) = session.after(refused());
        session = next;
        match action {
            Some(AcceptAction::CreateFile { .. }) => attempts += 1,
            Some(AcceptAction::Finish(Err(e))) => break e,
            other => panic!("{other:?}"),
        }
    };
    assert_eq!(attempts, 1000);
    assert_eq!(e.message(), "could not find a free file name");
}

#[test]
fn an_offer_is_answered_once() {
    let mut file = IncomingFile::new(offered("x/photo.jpg"));
    assert_eq!(file.file_name(), "photo.jpg");
    assert_eq!(file.file_size(), 12);
    let (request, _, action) = file.accept().unwrap();
    assert_eq!(request, 77);
    assert!(matches!(action, AcceptAction::CreateFile { name } if name == "photo.jpg"));
    let e = file.accept().unwrap_err();
    assert_eq!(e.message(), "this transfer was already accepted or rejected");
    assert!(matches!(e, Error::AlreadyConsumed));
    assert!(matches!(file.reject(), Err(Error::AlreadyConsumed)));
    assert_eq!(file.file_name(), "photo.jpg");

    let mut file = IncomingFile::new(offered("photo.jpg"));
    assert_eq!(file.reject().unwrap(), 77);
    assert!(matches!(file.accept(), Err(Error::AlreadyConsumed)));
}

#[test]
fn a_file_is_received() {
    let (session, action) = receive_file::<u32>("15-foo-bar");
    assert!(matches!(
        action,
        ReceiveAction::OpenMailbox(MailboxRequest::Connect { code, allocate: false })
            if code == "15-foo-bar"
    ));
    // waiting for the offer cannot be called off
    let (session, action) = session.after(ReceiveEvent::Request(RequestEvent::<u32>::Cancelled));
    assert!(action.is_none());
    let (session, action) = session.after(ReceiveEvent::Request(RequestEvent::<u32>::MailboxOpened));
    assert!(matches!(action, Some(ReceiveAction::Connect)));
    let event = RequestEvent::<u32>::WormholeConnected;
    let (session, action) = session.after(ReceiveEvent::Request(event));
    assert!(matches!(action, Some(ReceiveAction::RequestFile)));
    let offer = RequestEvent::Offered { file_name: "/tmp/b".into(), file_size: 1, request: 5u32 };
    let (session, action) = session.after(ReceiveEvent::Request(offer));
    assert!(matches!(action, Some(ReceiveAction::TakeOffer { request: 5, name }) if name == "b"));
    let (session, action) = session.after(ReceiveEvent::<u32>::Accept(refused()));
    assert!(matches!(action, Some(ReceiveAction::CreateFile { name }) if name == "b (1)"));
    let (session, action) = session.after(ReceiveEvent::<u32>::Accept(opened()));
    assert!(matches!(action, Some(ReceiveAction::Transfer)));
    let (_, action) = session.after(ReceiveEvent::<u32>::Accept(AcceptEvent::Transferred));
    assert!(matches!(action, Some(ReceiveAction::Finish(Ok(name))) if name == "b (1)"));
}

#[test]
fn receiving_skips_the_names_that_are_taken() {
    let mut dir: Vec<String> = vec!["c.txt".into(), "c (1).txt".into(), "c (3).txt".into()];
    for expected in ["c (2).txt", "c (4).txt"] {
        let (session, _) = receive_file::<u32>("15-foo-bar");
        let session = session.after(ReceiveEvent::Request(RequestEvent::<u32>::MailboxOpened)).0;
        let event = RequestEvent::<u32>::WormholeConnected;
        let session = session.after(ReceiveEvent::Request(event)).0;
        let offer =
            RequestEvent::Offered { file_name: "../x/c.txt".into(), file_size: 1, request: 5u32 };
        let (mut session, mut action) = session.after(ReceiveEvent::Request(offer));
        let saved = loop {
            let event = match action.unwrap() {
                ReceiveAction::TakeOffer { name, .. } | ReceiveAction::CreateFile { name } => {
                    if dir.contains(&name) {
                        refused()
                    } else {
                        dir.push(name);
                        opened()
                    }
                },
                ReceiveAction::Transfer => AcceptEvent::Transferred,
                ReceiveAction::Finish(result) => break result.unwrap(),
                other => panic!("{other:?}"),
            };
            (session, action) = session.after(ReceiveEvent::<u32>::Accept(event));
        };
        assert_eq!(saved, expected);
    }
}

#[test]
fn receiving_fails_before_and_after_the_offer() {
    let (_, action) = receive_file::<u32>("");
    assert!(matches!(action, ReceiveAction::Finish(Err(Error::InvalidCode(c))) if c.is_empty()));
    let (session, _) = receive_file::<u32>("15-foo-bar");
    let failed = RequestEvent::<u32>::WormholeFailed(WormholeError::PakeFailed);
    let (session, action) = session.after(ReceiveEvent::Request(failed));
    assert!(matches!(action, Some(ReceiveAction::Finish(Err(Error::Wormhole(_))))));
    let (_, action) = session.after(ReceiveEvent::Request(RequestEvent::<u32>::MailboxOpened));
    assert!(action.is_none());
}

#[test]
fn outside_errors_are_wrapped() {
    assert!(matches!(Error::from(WormholeError::Crypto), Error::Wormhole(WormholeError::Crypto)));
    assert!(matches!(Error::from(TransferError::Checksum), Error::Transfer(TransferError::Checksum)));
    let e = Error::from(std::io::Error::new(std::io::ErrorKind::Other, "disk full"));
    assert_eq!(e.message(), "disk full");
}

struct Silent;

impl TransferListener for Silent {
    fn on_code(&self, _code: String) {}
    fn on_transit(&self, _info: String) {}
    fn on_progress(&self, _done: u64, _total: u64) {}
}

#[test]
fn listeners_can_be_shared() {
    let listener: std::sync::Arc<dyn TransferListener> = std::sync::Arc::new(Silent);
    listener.on_code("1-a-b".to_string());
    listener.clone().on_transit("Direct".to_string());
    listener.on_progress(1, 2);
}
