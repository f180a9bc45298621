//! Dispatch, wheel accumulation, edge handling, and the state machines.

use linkmouse::dispatch::{ButtonKind, DeviceCommand, DeviceState};
use linkmouse::envelope::Tag;
use linkmouse::ids::random_id;
use linkmouse::pump::{ClosePolicy, CLOSE_GRACE_NANOS};
use linkmouse::queue::PendingCandidateQueue;
use linkmouse::session::{
    ConnectionSession, ConnectionState, FrontEndEvent, SessionAction, SessionEvent, SessionOutcome,
};
use linkmouse::supervisor::{Supervisor, SupervisorAction};
use linkmouse::wheel::WheelAccumulator;

const T0: u128 = 1_000_000_000;

#[test]
fn wheel_sub_pixel_accumulation_four_of_ten() {
    // ten scrolls of four tenths of a pixel: exactly four whole pixels come
    // out, one at a time, and the remainder ends at exactly zero
    let mut w = WheelAccumulator::new();
    let mut emitted: Vec<i64> = Vec::new();
    for _ in 0..10 {
        let (sx, sy) = w.feed(0, 0, 400_000);
        assert_eq!(sx, 0);
        if sy != 0 {
            emitted.push(sy);
        }
    }
    assert_eq!(emitted, vec![1, 1, 1, 1]);
    assert_eq!(w.rem_x, 0);
    assert_eq!(w.rem_y, 0);
}

#[test]
fn wheel_line_mode_counts_pixels_per_line() {
    let mut w = WheelAccumulator::new();
    let (sx, sy) = w.feed(1, 2_000_000, -1_000_000);
    assert_eq!(sx, 34);
    assert_eq!(sy, -17);
    assert_eq!(w.rem_x, 0);
    assert_eq!(w.rem_y, 0);
}

#[test]
fn wheel_negative_fractions_round_toward_zero() {
    let mut w = WheelAccumulator::new();
    let (_, sy) = w.feed(0, 0, -700_000);
    assert_eq!(sy, 0);
    let (_, sy2) = w.feed(0, 0, -700_000);
    assert_eq!(sy2, -1);
    assert_eq!(w.rem_y, -400_000);
}

#[test]
fn device_routes_motion_and_wheel() {
    let mut d = DeviceState::new();
    let out = d.on_wire_message(b"mousemove,100,50", T0);
    assert_eq!(
        out.commands,
        vec![DeviceCommand::MoveRelative {
            dx: 100,
            dy: 50,
            report_position: false
        }]
    );
    assert_eq!((out.forecast_dx, out.forecast_dy), (50, 25));
    assert!(out.sleep_nanos.is_some());
    assert!(!out.clipboard_reply);

    let out2 = d.on_wire_message(b"wheel,0,0,0.4", T0 + 1);
    assert!(out2.commands.is_empty());
    let out3 = d.on_wire_message(b"wheel,0,0,0.7", T0 + 2);
    assert_eq!(
        out3.commands,
        vec![DeviceCommand::Scroll {
            dx_pixels: 0,
            dy_pixels: 1
        }]
    );
}

#[test]
fn device_routes_buttons_keys_and_clipboard() {
    let mut d = DeviceState::new();
    let out = d.on_wire_message(b"mousedown,1", T0);
    assert_eq!(
        out.commands,
        vec![DeviceCommand::ButtonDown {
            button: ButtonKind::Middle
        }]
    );
    // an unknown button code commands nothing
    let out = d.on_wire_message(b"mousedown,9", T0);
    assert!(out.commands.is_empty());

    let out = d.on_wire_message(b"keydown,KeyA,a", T0);
    assert_eq!(
        out.commands,
        vec![DeviceCommand::KeyDown {
            code: b"KeyA".to_vec()
        }]
    );
    // the right Alt first releases the stray left Control
    let out = d.on_wire_message(b"keydown,AltRight,AltGraph", T0);
    assert_eq!(
        out.commands,
        vec![
            DeviceCommand::KeyUp {
                code: b"ControlLeft".to_vec()
            },
            DeviceCommand::KeyDown {
                code: b"AltRight".to_vec()
            },
        ]
    );

    let out = d.on_wire_message(b"copy", T0);
    assert!(out.commands.is_empty());
    assert_eq!(out.sleep_nanos, Some(50_000_000));
    assert!(out.clipboard_reply);

    let out = d.on_wire_message(b"paste,hi there", T0);
    assert_eq!(
        out.commands,
        vec![
            DeviceCommand::WriteClipboard {
                data: b"hi there".to_vec()
            },
            DeviceCommand::KeyDown {
                code: b"ControlLeft".to_vec()
            },
            DeviceCommand::Pause { millis: 20 },
            DeviceCommand::KeyDown {
                code: b"KeyV".to_vec()
            },
            DeviceCommand::Pause { millis: 20 },
        ]
    );
}

#[test]
fn device_drops_garbage() {
    let mut d = DeviceState::new();
    let out = d.on_wire_message(b"garbage,1,2", T0);
    assert!(out.commands.is_empty());
    assert_eq!(out.sleep_nanos, None);
    assert!(!out.clipboard_reply);
    assert!(!out.notice_toofast);
}

#[test]
fn leftjump_probes_geometry_then_warps() {
    let mut d = DeviceState::new();
    let out = d.on_wire_message(b"leftjump,0.5", T0);
    assert_eq!(
        out.commands,
        vec![DeviceCommand::ProbeGeometry {
            height_micro: 500_000
        }]
    );
    d.update_window_size(1920, 1080);
    let target = d.leftjump_warp(500_000);
    assert_eq!(target, (1915, 540));

    // with geometry known, the next jump warps directly
    let out = d.on_wire_message(b"leftjump,1.0", T0 + 1);
    assert_eq!(
        out.commands,
        vec![DeviceCommand::MoveAbsolute { x: 1915, y: 1080 }]
    );
    // a fraction beyond the unit range is clamped
    let out = d.on_wire_message(b"leftjump,2.0", T0 + 2);
    assert_eq!(
        out.commands,
        vec![DeviceCommand::MoveAbsolute { x: 1915, y: 1080 }]
    );
}

#[test]
fn edge_hysteresis_gates_right_edge_reports() {
    let mut d = DeviceState::new();
    d.update_window_size(1920, 1080);
    d.on_wire_message(b"leftjump,0.5", T0);

    // at the right edge right after the jump: the left edge is not cleared
    assert_eq!(d.report_position(1919, 540), None);
    // moving near the left edge does not clear it either
    assert_eq!(d.report_position(10, 540), None);
    assert_eq!(d.report_position(1919, 540), None);
    // far enough from the left edge clears the hysteresis
    assert_eq!(d.report_position(960, 540), None);
    // now the right-edge crossing reports the vertical fraction
    let reply = d.report_position(1919, 540);
    assert_eq!(reply, Some(b"mouseright,0.500000".to_vec()));

    // mousehide disarms edge checking and parks the cursor near the bottom
    let out = d.on_wire_message(b"mousehide", T0 + 1);
    assert_eq!(
        out.commands,
        vec![DeviceCommand::MoveAbsolute { x: 1920, y: 1047 }]
    );
    assert_eq!(d.report_position(1919, 540), None);
}

#[test]
fn motion_reports_position_while_edge_checking() {
    let mut d = DeviceState::new();
    d.update_window_size(1920, 1080);
    d.on_wire_message(b"leftjump,0.5", T0);
    let out = d.on_wire_message(b"mousemove,10,10", T0 + 1);
    assert_eq!(
        out.commands,
        vec![DeviceCommand::MoveRelative {
            dx: 10,
            dy: 10,
            report_position: true
        }]
    );
}

#[test]
fn pending_candidates_flush_once_in_order() {
    let mut q = PendingCandidateQueue::new();
    assert_eq!(q.offer(b"c1".to_vec()), None);
    assert_eq!(q.offer(b"c2".to_vec()), None);
    let drained = q.flush();
    assert_eq!(drained, vec![b"c1".to_vec(), b"c2".to_vec()]);
    // a second flush finds nothing: candidates are never signaled twice
    assert_eq!(q.flush(), Vec::<Vec<u8>>::new());
    // after the flush, candidates pass through instead of buffering
    assert_eq!(q.offer(b"c3".to_vec()), Some(b"c3".to_vec()));
}

#[test]
fn session_negotiation_flushes_buffers_in_order() {
    let mut s = ConnectionSession::new(b"{}".to_vec());
    assert_eq!(s.current_state(), ConnectionState::WaitingForPeer);

    // candidates before the remote description buffer silently
    assert!(s
        .handle(SessionEvent::RemoteCandidate {
            candidate: b"rc1".to_vec()
        })
        .is_empty());
    assert!(s
        .handle(SessionEvent::RemoteCandidate {
            candidate: b"rc2".to_vec()
        })
        .is_empty());
    assert!(s
        .handle(SessionEvent::LocalCandidate {
            candidate: b"lc1".to_vec()
        })
        .is_empty());

    let actions = s.handle(SessionEvent::RemoteOffer {
        sdp: b"offer".to_vec(),
    });
    assert_eq!(
        actions,
        vec![
            SessionAction::NotifyFrontEnd {
                event: FrontEndEvent::UserConnecting
            },
            SessionAction::ApplyRemoteOffer {
                sdp: b"offer".to_vec()
            },
            SessionAction::ApplyRemoteCandidate {
                candidate: b"rc1".to_vec()
            },
            SessionAction::ApplyRemoteCandidate {
                candidate: b"rc2".to_vec()
            },
            SessionAction::ProduceAnswer,
        ]
    );
    assert_eq!(s.current_state(), ConnectionState::Negotiating);

    // once the remote description is known, remote candidates apply at once
    let actions = s.handle(SessionEvent::RemoteCandidate {
        candidate: b"rc3".to_vec(),
    });
    assert_eq!(
        actions,
        vec![SessionAction::ApplyRemoteCandidate {
            candidate: b"rc3".to_vec()
        }]
    );
    // and local candidates signal at once
    let actions = s.handle(SessionEvent::LocalCandidate {
        candidate: b"lc2".to_vec(),
    });
    assert_eq!(
        actions,
        vec![SessionAction::SignalEnvelope {
            tag: Tag::IceCandidate,
            payload: b"lc2".to_vec()
        }]
    );

    let actions = s.handle(SessionEvent::AnswerReady {
        sdp: b"answer".to_vec(),
    });
    assert_eq!(
        actions,
        vec![
            SessionAction::SignalEnvelope {
                tag: Tag::SessionDescription,
                payload: b"answer".to_vec()
            },
            SessionAction::ApplyLocalAnswer {
                sdp: b"answer".to_vec()
            },
            SessionAction::SignalEnvelope {
                tag: Tag::IceCandidate,
                payload: b"lc1".to_vec()
            },
        ]
    );

    let actions = s.handle(SessionEvent::TransportConnected);
    assert_eq!(
        actions,
        vec![SessionAction::RequestGracefulSignalingClose]
    );
    assert_eq!(s.current_state(), ConnectionState::Connected);

    let actions = s.handle(SessionEvent::DataChannelOpen);
    assert_eq!(
        actions,
        vec![
            SessionAction::NotifyFrontEnd {
                event: FrontEndEvent::UserConnected
            },
            SessionAction::SendData {
                message: b"desktopinfo,{}".to_vec()
            },
        ]
    );

    let actions = s.handle(SessionEvent::DataChannelClosed);
    assert_eq!(
        actions,
        vec![
            SessionAction::NotifyFrontEnd {
                event: FrontEndEvent::UserDisconnected
            },
            SessionAction::RequestImmediateSignalingClose,
            SessionAction::CloseTransport,
        ]
    );
    assert_eq!(s.current_state(), ConnectionState::Disconnected);
    assert_eq!(s.current_outcome(), Some(SessionOutcome::Disconnect));
}

#[test]
fn session_stop_wins_over_disconnect() {
    let mut s = ConnectionSession::new(b"{}".to_vec());
    let actions = s.handle(SessionEvent::TransportDisconnected);
    assert_eq!(
        actions,
        vec![
            SessionAction::RequestImmediateSignalingClose,
            SessionAction::CloseTransport,
        ]
    );
    assert_eq!(s.current_outcome(), Some(SessionOutcome::Disconnect));
    let actions = s.handle(SessionEvent::StopRequested);
    assert_eq!(
        actions,
        vec![
            SessionAction::RequestImmediateSignalingClose,
            SessionAction::CloseTransport,
        ]
    );
    assert_eq!(s.current_state(), ConnectionState::Closed);
    assert_eq!(s.current_outcome(), Some(SessionOutcome::Stop));
}

#[test]
fn close_immediate_overrides_pending_graceful_close() {
    let mut p = ClosePolicy::new();
    assert!(!p.should_close(T0));
    p.request_graceful(T0);
    // inside the grace window a graceful close still waits
    assert!(!p.should_close(T0 + 1));
    assert!(!p.should_close(T0 + CLOSE_GRACE_NANOS - 1));
    // an immediate close inside the window closes at once
    p.request_immediate();
    assert!(p.should_close(T0 + 2));
}

#[test]
fn graceful_close_waits_out_the_grace_period() {
    let mut p = ClosePolicy::new();
    p.request_graceful(T0);
    assert!(!p.should_close(T0 + CLOSE_GRACE_NANOS - 1));
    assert!(p.should_close(T0 + CLOSE_GRACE_NANOS));
}

#[test]
fn reconnect_backoff_schedule() {
    let mut s = Supervisor::new();
    // three failed attempts: no sleep, half a second, a whole second
    assert_eq!(
        s.next_attempt(),
        SupervisorAction::SleepThenConnect { millis: 0 }
    );
    assert_eq!(
        s.next_attempt(),
        SupervisorAction::SleepThenConnect { millis: 500 }
    );
    assert_eq!(
        s.next_attempt(),
        SupervisorAction::SleepThenConnect { millis: 1000 }
    );
    // the fourth attempt would sleep a second and a half
    assert_eq!(
        s.next_attempt(),
        SupervisorAction::SleepThenConnect { millis: 1500 }
    );
    // the backoff never exceeds its ceiling
    for _ in 0..20 {
        s.next_attempt();
    }
    assert_eq!(
        s.next_attempt(),
        SupervisorAction::SleepThenConnect { millis: 5000 }
    );
    // a successful relay connection resets the schedule
    s.on_relay_connected();
    assert_eq!(
        s.next_attempt(),
        SupervisorAction::SleepThenConnect { millis: 0 }
    );
    // a stop outcome ends the loop
    s.on_session_ended(true);
    assert_eq!(s.next_attempt(), SupervisorAction::Exit);
}

#[test]
fn random_ids_are_short_and_unambiguous() {
    for _ in 0..50 {
        let id = random_id();
        assert_eq!(id.len(), 6);
        for c in id.chars() {
            assert!("abcdefghijkmnpqrstuvwxyz23456789".contains(c));
        }
    }
    // identities are actually random: fifty draws are not all the same
    let a = random_id();
    let mut differs = false;
    for _ in 0..50 {
        if random_id() != a {
            differs = true;
        }
    }
    assert!(differs);
}
