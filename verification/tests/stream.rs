use houdini::frame::Frame;
use houdini::mux::{InboxMsg, MuxError};
use houdini::stream::{InboxStep, ReadStep, StreamState, WriteStep, MAX_DATA_CHUNK};

fn ready(step: ReadStep) -> Vec<u8> {
    match step {
        ReadStep::Ready(b) => b,
        ReadStep::NeedInbox => panic!("expected bytes"),
    }
}

#[test]
fn fresh_stream_waits_for_inbox() {
    let mut s = StreamState::new(5);
    assert_eq!(s.id(), 5);
    assert!(matches!(s.poll_buffered(16), ReadStep::NeedInbox));
}

#[test]
fn data_is_read_in_pieces_then_end_after_fin() {
    let mut s = StreamState::new(1);
    assert!(matches!(s.on_inbox(Some(InboxMsg::Data(b"hello world".to_vec()))), InboxStep::Retry));
    assert_eq!(ready(s.poll_buffered(5)), b"hello");
    assert_eq!(ready(s.poll_buffered(100)), b" world");
    assert!(matches!(s.poll_buffered(8), ReadStep::NeedInbox));
    assert!(matches!(s.on_inbox(Some(InboxMsg::Fin)), InboxStep::Retry));
    assert_eq!(ready(s.poll_buffered(8)), b"");
    assert_eq!(ready(s.poll_buffered(8)), b"");
}

#[test]
fn buffered_bytes_come_before_end() {
    let mut s = StreamState::new(1);
    s.on_inbox(Some(InboxMsg::Data(vec![1, 2, 3])));
    // A closed inbox ends the read in progress without error; bytes still
    // buffered are handed out before the end.
    assert!(matches!(s.on_inbox(None), InboxStep::Finished(Ok(()))));
    assert_eq!(ready(s.poll_buffered(2)), vec![1, 2]);
    assert_eq!(ready(s.poll_buffered(2)), vec![3]);
    assert_eq!(ready(s.poll_buffered(2)), Vec::<u8>::new());
}

#[test]
fn zero_capacity_read_hands_out_nothing() {
    let mut s = StreamState::new(1);
    s.on_inbox(Some(InboxMsg::Data(vec![9])));
    assert_eq!(ready(s.poll_buffered(0)), Vec::<u8>::new());
    assert_eq!(ready(s.poll_buffered(1)), vec![9]);
}

#[test]
fn reset_fails_once_then_reads_end() {
    let mut s = StreamState::new(3);
    assert!(matches!(s.begin_write(4), WriteStep::NeedCapacity));
    assert!(matches!(s.on_inbox(Some(InboxMsg::Reset)), InboxStep::Finished(Err(MuxError::StreamReset))));
    assert_eq!(ready(s.poll_buffered(4)), b"");
    assert!(matches!(s.begin_write(4), WriteStep::Refused(MuxError::StreamReset)));
    assert!(matches!(s.begin_write(0), WriteStep::Refused(MuxError::StreamReset)));
}

#[test]
fn reset_seen_by_writer_refuses_writes() {
    let mut s = StreamState::new(3);
    s.mark_reset();
    assert!(matches!(s.begin_write(10), WriteStep::Refused(MuxError::StreamReset)));
    // The reader still learns of the reset from its inbox.
    assert!(matches!(s.poll_buffered(4), ReadStep::NeedInbox));
}

#[test]
fn reads_hand_out_payloads_in_order_then_end() {
    let payloads: Vec<Vec<u8>> = vec![b"ab".to_vec(), Vec::new(), b"cdefg".to_vec(), b"h".to_vec()];
    let mut inbox: Vec<InboxMsg> = payloads.iter().cloned().map(InboxMsg::Data).collect();
    inbox.push(InboxMsg::Fin);
    let mut inbox = inbox.into_iter();
    let mut s = StreamState::new(1);
    let mut out = Vec::new();
    let mut calls = 0;
    // One read call: buffered bytes first, else take messages from the inbox.
    let mut read = |s: &mut StreamState, cap: usize| -> Vec<u8> {
        loop {
            match s.poll_buffered(cap) {
                ReadStep::Ready(b) => return b,
                ReadStep::NeedInbox => match s.on_inbox(inbox.next()) {
                    InboxStep::Retry => {}
                    InboxStep::Finished(r) => {
                        r.unwrap();
                        return Vec::new();
                    }
                },
            }
        }
    };
    loop {
        let b = read(&mut s, 3);
        calls += 1;
        if b.is_empty() {
            break;
        }
        out.extend_from_slice(&b);
    }
    assert_eq!(out, b"abcdefgh".to_vec());
    assert_eq!(calls, 5);
    assert_eq!(read(&mut s, 3), Vec::<u8>::new());
    assert_eq!(read(&mut s, 1), Vec::<u8>::new());
}

#[test]
fn writes_are_split_into_chunks() {
    let s = StreamState::new(7);
    assert!(matches!(s.begin_write(0), WriteStep::Done(0)));
    assert!(matches!(s.begin_write(3), WriteStep::NeedCapacity));
    let small = vec![1u8, 2, 3];
    match s.data_frame(&small) {
        (Frame::Data { stream_id, payload }, n) => {
            assert_eq!(stream_id, 7);
            assert_eq!(payload, small);
            assert_eq!(n, 3);
        }
        other => panic!("unexpected {other:?}"),
    }
    let big: Vec<u8> = (0..(MAX_DATA_CHUNK * 2 + 10)).map(|i| (i % 251) as u8).collect();
    let mut rest: &[u8] = &big;
    let mut joined = Vec::new();
    let mut frames = 0;
    while !rest.is_empty() {
        let (frame, n) = s.data_frame(rest);
        assert!(n > 0 && n <= MAX_DATA_CHUNK);
        match frame {
            Frame::Data { payload, .. } => joined.extend_from_slice(&payload),
            other => panic!("unexpected {other:?}"),
        }
        rest = &rest[n..];
        frames += 1;
    }
    assert_eq!(frames, 3);
    assert_eq!(joined, big);
    assert_eq!(MAX_DATA_CHUNK, 64 * 1024);
}

#[test]
fn clean_shutdown_sends_fin_and_no_reset() {
    let mut s = StreamState::new(9);
    assert!(s.shutdown_pending());
    match s.farewell() {
        Some(Frame::Reset { stream_id }) => assert_eq!(stream_id, 9),
        other => panic!("unexpected {other:?}"),
    }
    match s.finish_shutdown(true) {
        Some(Frame::Fin { stream_id }) => assert_eq!(stream_id, 9),
        other => panic!("unexpected {other:?}"),
    }
    assert!(!s.shutdown_pending());
    assert!(s.farewell().is_none());
    assert!(matches!(s.begin_write(4), WriteStep::Refused(MuxError::WriteClosed)));
}

#[test]
fn shut_down_then_reset_stream_refuses_writes_as_broken_pipe() {
    let mut s = StreamState::new(4);
    s.finish_shutdown(true);
    assert!(matches!(s.on_inbox(Some(InboxMsg::Reset)), InboxStep::Finished(Err(MuxError::StreamReset))));
    assert!(matches!(s.begin_write(4), WriteStep::Refused(MuxError::WriteClosed)));
    s.mark_reset();
    assert!(matches!(s.begin_write(4), WriteStep::Refused(MuxError::WriteClosed)));
}

#[test]
fn shutdown_with_closed_channel_sends_nothing() {
    let mut s = StreamState::new(2);
    assert!(s.finish_shutdown(false).is_none());
    assert!(s.farewell().is_none());
    assert!(!s.shutdown_pending());
}
