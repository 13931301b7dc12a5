use futures::channel::oneshot;
use mrpc::error::{CallError, Reply, ServiceError};
use mrpc::message::{respond, unsent, Request};
use mrpc::transport::connect::{Connector, Delivery, Failed, Received};
use mrpc::transport::message::{Incoming, TranportMesssage};
use mrpc::transport::native::channel;
use mrpc::transport::waiter::{complete, fail, issue, Completion, Waiter};

fn waiter<Response>() -> (Waiter<Response>, oneshot::Receiver<Result<Response, CallError>>) {
    oneshot::channel()
}

#[test]
fn request_carries_what_it_was_given() {
    let (call, _answer) = Request::<&str, u32>::new("add");
    assert_eq!(call.request, "add");
}

#[test]
fn answer_reaches_the_caller() {
    let (call, mut answer) = Request::<&str, u32>::new("add");
    assert!(matches!(answer.try_recv(), Ok(None)));
    assert!(respond(call.response_sender, Ok(3)).is_none());
    assert!(matches!(answer.try_recv(), Ok(Some(Ok(3)))));
}

#[test]
fn failure_of_the_service_reaches_the_caller() {
    let (call, mut answer) = Request::<&str, u32>::new("divide");
    let failure = ServiceError::new("division by zero".to_string(), None);
    assert!(respond(call.response_sender, Err(failure)).is_none());
    match answer.try_recv() {
        Ok(Some(Err(error))) => assert_eq!(error.description(), "division by zero"),
        _ => panic!("the caller receives the failure"),
    }
}

#[test]
fn answer_to_a_caller_that_left_comes_back() {
    let (call, answer) = Request::<&str, u32>::new("add");
    drop(answer);
    assert!(matches!(respond(call.response_sender, Ok(3)), Some(Ok(3))));
}

#[test]
fn caller_learns_that_the_service_dropped_the_call() {
    let (call, mut answer) = Request::<&str, u32>::new("add");
    drop(call);
    assert!(answer.try_recv().is_err());
}

#[test]
fn channel_carries_calls_in_order() {
    let (mut tx, mut rx) = channel::<&str, u32>(4);
    let (first, _a) = Request::new("first");
    let (second, _b) = Request::new("second");
    assert!(tx.try_send(first).is_ok());
    assert!(tx.try_send(second).is_ok());
    assert_eq!(rx.try_next().unwrap().unwrap().request, "first");
    assert_eq!(rx.try_next().unwrap().unwrap().request, "second");
    assert!(rx.try_next().is_err());
}

#[test]
fn channel_without_buffer_has_room_for_each_sender() {
    let (mut tx, mut rx) = channel::<u8, u8>(0);
    let (first, _a) = Request::new(1);
    let (second, _b) = Request::new(2);
    assert!(tx.try_send(first).is_ok());
    assert!(tx.try_send(second).is_err());
    assert_eq!(rx.try_next().unwrap().unwrap().request, 1);
}

#[test]
fn channel_ends_when_the_senders_are_gone() {
    let (tx, mut rx) = channel::<u8, u8>(1);
    drop(tx);
    assert!(matches!(rx.try_next(), Ok(None)));
}

#[test]
fn call_through_the_channel_is_answered() {
    let (mut tx, mut rx) = channel::<(i32, i32), i32>(1);
    let (call, mut answer) = Request::new((2, 3));
    tx.try_send(call).unwrap();
    let call = rx.try_next().unwrap().unwrap();
    let (a, b) = call.request;
    assert!(respond(call.response_sender, Ok(a + b)).is_none());
    assert!(matches!(answer.try_recv(), Ok(Some(Ok(5)))));
}

#[test]
fn delivery_completes_the_caller() {
    let mut connector: Connector<Waiter<u32>> = Connector::new();
    let (tx, mut rx) = waiter();
    let envelope = connector.send_request("add", tx).unwrap();
    let reply: TranportMesssage<Reply<u32>> = TranportMesssage { id: envelope.id, message: Ok(3) };
    assert!(matches!(complete(connector.on_response(reply)), Completion::Delivered));
    assert!(matches!(rx.try_recv(), Ok(Some(Ok(3)))));
    assert_eq!(connector.outstanding(), 0);
}

#[test]
fn delivery_of_a_failure_completes_the_caller_with_it() {
    let mut connector: Connector<Waiter<u32>> = Connector::new();
    let (tx, mut rx) = waiter();
    let envelope = connector.send_request("divide", tx).unwrap();
    let failure = ServiceError::new("division by zero".to_string(), None);
    let reply: TranportMesssage<Reply<u32>> =
        TranportMesssage { id: envelope.id, message: Err(failure) };
    assert!(matches!(complete(connector.on_response(reply)), Completion::Delivered));
    match rx.try_recv() {
        Ok(Some(Err(CallError::Service(error)))) => {
            assert_eq!(error.description(), "division by zero")
        }
        _ => panic!("the caller receives the failure of the service"),
    }
}

#[test]
fn two_callers_get_their_own_responses() {
    let mut connector: Connector<Waiter<&'static str>> = Connector::new();
    let (tx_a, mut rx_a) = waiter();
    let (tx_b, mut rx_b) = waiter();
    let a = connector.send_request("for a", tx_a).unwrap().id;
    let b = connector.send_request("for b", tx_b).unwrap().id;
    let reply_b = TranportMesssage { id: b, message: Ok("answer b") };
    assert!(matches!(complete(connector.on_response(reply_b)), Completion::Delivered));
    assert!(matches!(rx_b.try_recv(), Ok(Some(Ok("answer b")))));
    assert!(matches!(rx_a.try_recv(), Ok(None)));
    let reply_a = TranportMesssage { id: a, message: Ok("answer a") };
    assert!(matches!(complete(connector.on_response(reply_a)), Completion::Delivered));
    assert!(matches!(rx_a.try_recv(), Ok(Some(Ok("answer a")))));
}

#[test]
fn caller_that_dropped_its_receiver_is_no_error() {
    let mut connector: Connector<Waiter<u32>> = Connector::new();
    let baseline = connector.outstanding();
    let (tx, rx) = waiter();
    let envelope = connector.send_request("add", tx).unwrap();
    drop(rx);
    let reply: TranportMesssage<Reply<u32>> = TranportMesssage { id: envelope.id, message: Ok(3) };
    assert!(matches!(
        complete(connector.on_response(reply)),
        Completion::Abandoned(Ok(3))
    ));
    assert_eq!(connector.outstanding(), baseline);
}

#[test]
fn stray_response_is_discarded() {
    let stray: Delivery<Waiter<u32>, Reply<u32>> = Delivery::Stray { id: 9, response: Ok(1) };
    assert!(matches!(complete(stray), Completion::Discarded { id: 9, response: Ok(1) }));
}

#[test]
fn outstanding_call_fails_when_the_source_closes() {
    let mut connector: Connector<Waiter<u32>> = Connector::new();
    let (tx, mut rx) = waiter();
    connector.send_request("add", tx).unwrap();
    assert!(matches!(rx.try_recv(), Ok(None)));
    let failed = match connector.on_source::<Reply<u32>>(Incoming::Ended) {
        Received::Closed(failed) => failed,
        Received::Routed(_) => panic!("nothing was read"),
    };
    assert_eq!(failed.len(), 1);
    for call in failed {
        assert!(fail(call).is_none());
    }
    assert!(matches!(rx.try_recv(), Ok(Some(Err(CallError::ConnectionClosed)))));
    assert_eq!(connector.outstanding(), 0);
}

#[test]
fn every_outstanding_call_fails_when_the_transport_closes() {
    let mut connector: Connector<Waiter<u32>> = Connector::new();
    let mut receivers = Vec::new();
    for _ in 0..5 {
        let (tx, rx) = waiter();
        connector.send_request("add", tx).unwrap();
        receivers.push(rx);
    }
    for call in connector.close() {
        assert!(fail(call).is_none());
    }
    for rx in receivers.iter_mut() {
        assert!(matches!(rx.try_recv(), Ok(Some(Err(CallError::ConnectionClosed)))));
    }
}

#[test]
fn failed_write_fails_the_caller_with_a_transport_error() {
    let mut connector: Connector<Waiter<u32>> = Connector::new();
    let (tx, mut rx) = waiter();
    let envelope = connector.send_request("add", tx).unwrap();
    let failed = connector.write_failed(envelope.id).expect("the call was outstanding");
    assert!(fail(failed).is_none());
    assert!(matches!(rx.try_recv(), Ok(Some(Err(CallError::Transport)))));
    assert_eq!(connector.outstanding(), 0);
}

#[test]
fn failing_a_caller_that_left_gives_the_error_back() {
    let (tx, rx) = waiter::<u32>();
    drop(rx);
    let failed = Failed { id: 1, waiter: tx, error: CallError::ConnectionClosed };
    assert!(matches!(fail(failed), Some(Err(CallError::ConnectionClosed))));
}

#[test]
fn issued_call_waits_on_its_own_channel() {
    let mut connector: Connector<Waiter<&'static str>> = Connector::new();
    let (first, mut waiting_first) = issue(&mut connector, "first").unwrap();
    let (second, mut waiting_second) = issue(&mut connector, "second").unwrap();
    assert_eq!((first.id, first.message), (1, "first"));
    assert_eq!((second.id, second.message), (2, "second"));
    assert_eq!(connector.outstanding(), 2);
    let reply = TranportMesssage { id: second.id, message: Ok("to second") };
    assert!(matches!(complete(connector.on_response(reply)), Completion::Delivered));
    assert!(matches!(waiting_second.try_recv(), Ok(Some(Ok("to second")))));
    assert!(matches!(waiting_first.try_recv(), Ok(None)));
    let reply = TranportMesssage { id: first.id, message: Ok("to first") };
    assert!(matches!(complete(connector.on_response(reply)), Completion::Delivered));
    assert!(matches!(waiting_first.try_recv(), Ok(Some(Ok("to first")))));
}

#[test]
fn closed_connector_issues_no_call() {
    let mut connector: Connector<Waiter<u8>> = Connector::new();
    connector.close();
    assert!(matches!(issue(&mut connector, "late"), Err("late")));
    assert_eq!(connector.outstanding(), 0);
}

#[test]
fn send_that_went_through_leaves_nothing() {
    assert_eq!(unsent::<u8>(Ok(())), None);
}

#[test]
fn send_that_did_not_go_through_leaves_the_value() {
    assert_eq!(unsent(Err(7u8)), Some(7));
    assert_eq!(unsent(Err("answer")), Some("answer"));
}
