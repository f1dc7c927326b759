use houdini::frame::Frame;
use houdini::mux::{io_decide, plan_inbound, IdAllocator, InboundPlan, InboxMsg, IoAction, IoErrorKind, IoEvent, MuxError, Role, StreamTable};

#[test]
fn initiator_allocates_odd_ids() {
    let mut a = IdAllocator::new(Role::Initiator);
    assert_eq!(a.allocate(), Ok(1));
    assert_eq!(a.allocate(), Ok(3));
    assert_eq!(a.allocate(), Ok(5));
}

#[test]
fn acceptor_allocates_even_ids() {
    let mut a = IdAllocator::new(Role::Acceptor);
    assert_eq!(a.allocate(), Ok(2));
    assert_eq!(a.allocate(), Ok(4));
}

#[test]
fn table_tracks_open_streams() {
    let mut t: StreamTable<&'static str> = StreamTable::new();
    assert_eq!(t.inbox(1), None);
    t.register(1, "a");
    t.register(3, "b");
    assert_eq!(t.inbox(1), Some(&"a"));
    assert_eq!(t.inbox(3), Some(&"b"));
    assert_eq!(t.inbox(5), None);
    t.register(1, "c");
    assert_eq!(t.inbox(1), Some(&"c"));
    assert_eq!(t.unregister(1), Some("c"));
    assert_eq!(t.unregister(1), None);
    assert_eq!(t.inbox(1), None);
    t.clear();
    assert_eq!(t.inbox(3), None);
}

#[test]
fn ping_is_answered_with_same_token() {
    match plan_inbound(Frame::Ping { token: 42 }) {
        InboundPlan::Reply(Frame::Pong { token }) => assert_eq!(token, 42),
        other => panic!("unexpected {other:?}"),
    }
    assert!(matches!(plan_inbound(Frame::Pong { token: 9 }), InboundPlan::Ignore));
}

#[test]
fn inbound_frames_are_routed() {
    assert!(matches!(plan_inbound(Frame::Open { stream_id: 7 }), InboundPlan::Accept { stream_id: 7 }));
    match plan_inbound(Frame::Data { stream_id: 7, payload: vec![1, 2, 3] }) {
        InboundPlan::Deliver { stream_id, msg: InboxMsg::Data(b), forget_if_gone } => {
            assert_eq!(stream_id, 7);
            assert_eq!(b, vec![1, 2, 3]);
            assert!(forget_if_gone);
        }
        other => panic!("unexpected {other:?}"),
    }
    match plan_inbound(Frame::Fin { stream_id: 9 }) {
        InboundPlan::Deliver { stream_id, msg: InboxMsg::Fin, forget_if_gone } => {
            assert_eq!(stream_id, 9);
            assert!(!forget_if_gone);
        }
        other => panic!("unexpected {other:?}"),
    }
    assert!(matches!(plan_inbound(Frame::Reset { stream_id: 11 }), InboundPlan::Teardown { stream_id: 11 }));
}

#[test]
fn io_loop_decisions() {
    assert!(matches!(io_decide(IoEvent::Outbound(Some(Frame::Fin { stream_id: 1 }))), IoAction::Transmit(Frame::Fin { stream_id: 1 })));
    assert!(matches!(io_decide(IoEvent::Outbound(None)), IoAction::Shutdown));
    assert!(matches!(io_decide(IoEvent::SendFailed), IoAction::Shutdown));
    assert!(matches!(io_decide(IoEvent::RecvFailed), IoAction::Shutdown));
    assert!(matches!(io_decide(IoEvent::TransportEnded), IoAction::Shutdown));
    assert!(matches!(io_decide(IoEvent::Malformed), IoAction::Skip));
    assert!(matches!(io_decide(IoEvent::Stopped), IoAction::Shutdown));
    assert!(matches!(
        io_decide(IoEvent::Received(Frame::Ping { token: 5 })),
        IoAction::Dispatch(InboundPlan::Reply(Frame::Pong { token: 5 }))
    ));
}

#[test]
fn mux_error_texts() {
    assert_eq!(MuxError::IdSpaceExhausted.message(), "stream id space exhausted");
    assert_eq!(MuxError::TransportClosed.message(), "mux transport closed");
    assert_eq!(MuxError::WriteClosed.message(), "mux stream write half closed");
    assert_eq!(MuxError::StreamReset.message(), "mux stream reset");
    assert_eq!(MuxError::WriteClosed.io_kind(), IoErrorKind::BrokenPipe);
    assert_eq!(MuxError::StreamReset.io_kind(), IoErrorKind::ConnectionReset);
    assert_eq!(MuxError::TransportClosed.io_kind(), IoErrorKind::Other);
    assert_eq!(MuxError::IdSpaceExhausted.io_kind(), IoErrorKind::Other);
}
