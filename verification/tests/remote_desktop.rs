//! The remote desktop: pairing, frames and the panel.

use bacak_compositor::remote_desktop::{
    confirm_pairing, frame_from, latest_frame, latest_status, norm_in_rect,
    pair_config_path, pair_fault_text, pair_step, receive, remote_desktop_pointer_motion,
    remote_desktop_pointer_release, remote_desktop_press, remote_desktop_status_text,
    remote_desktop_tick, Codec,
    DecodedFrame, FrameInfo, FrameReassembler, PairFault, PairReply, PairStep, RemoteDesktopPanel,
    RemoteInput, RemoteOverlay, SessionStatus, VideoMessage,
};
use bacak_compositor::wm::{Rect, PX};

fn opened(output: u64, bounds: Option<Rect>) -> RemoteDesktopPanel {
    let mut overlay = RemoteOverlay { panel: None, control_center: true };
    overlay.open_remote_desktop_panel(output, bounds);
    overlay.panel.unwrap()
}

#[test]
fn the_panel_takes_the_place_of_the_control_center() {
    let mut overlay = RemoteOverlay { panel: None, control_center: true };
    overlay.open_remote_desktop_panel(3, None);
    assert!(!overlay.control_center);
    assert_eq!(overlay.panel.unwrap().output, 3);
    overlay.control_center = true;
    overlay.close_remote_desktop_panel();
    assert_eq!(overlay, RemoteOverlay { panel: None, control_center: true });
}

#[test]
fn small_motions_add_up_to_a_full_sweep() {
    let mut p = opened(0, Some(Rect::px(0, 0, 1080, 1136)));
    p.frame = Some((333, 500));
    let mut p = remote_desktop_press(Some(p), 40 * PX, 40 * PX).panel.unwrap();
    let mut sum = (0, 0);
    for i in 1..1000 {
        let out = remote_desktop_pointer_motion(p, (40 + i) * PX, 40 * PX);
        if let Some(RemoteInput::Motion { dx, dy }) = out.send {
            sum = (sum.0 + dx, sum.1 + dy);
        }
        p = out.panel.unwrap();
    }
    // One step of the video is left, which is a third of a remote pixel.
    assert_eq!(sum, (333 * PX * 999 / 1000, 0));
    let back = remote_desktop_pointer_motion(p, 40 * PX, 40 * PX);
    assert_eq!(back.send, Some(RemoteInput::Motion { dx: -sum.0, dy: 0 }));
    // A motion too small for the remote screen is not sent, and not lost either.
    let mut coarse = back.panel.unwrap();
    coarse.frame = Some((1, 1));
    let out = remote_desktop_pointer_motion(coarse, 40 * PX + 100, 40 * PX);
    assert_eq!((out.send, out.handled), (None, true));
    let out = remote_desktop_pointer_motion(out.panel.unwrap(), 540 * PX, 40 * PX);
    assert_eq!(out.send, Some(RemoteInput::Motion { dx: PX / 2, dy: 0 }));
}

#[test]
fn pairing_is_confirmed_or_refused() {
    assert_eq!(pair_config_path(Some("/home/u")).split('/').last(), Some("pair.json"));
    assert_eq!(pair_step(PairReply::Accepted), PairStep::Confirm);
    assert_eq!(pair_step(PairReply::Other), PairStep::Retry);
    assert_eq!(
        pair_step(PairReply::Rejected),
        PairStep::Fail { message: "sunucu PIN'i reddetti".into() }
    );
    assert_eq!(confirm_pairing(true), Ok(()));
    assert!(confirm_pairing(false).unwrap_err().starts_with("eşleşme doğrulaması başarısız"));
    assert_eq!(pair_fault_text(&PairFault::Missing { path: "/p".into() }), "/p bulunamadı");
    assert_eq!(
        pair_fault_text(&PairFault::Invalid { reason: "x".into() }),
        "geçersiz pair.json: x"
    );
}

fn info(id: u32, chunks: u16) -> FrameInfo {
    FrameInfo { frame_id: id, width: 2, height: 1, chunk_count: chunks, codec: Codec::RawZstd }
}

fn packed() -> Vec<u8> {
    zstd::stream::encode_all(&[1u8, 2, 3, 4, 5, 6, 7, 8][..], 0).unwrap()
}

#[test]
fn frames_are_put_together_from_chunks_in_any_order() {
    let data = packed();
    let (a, b) = data.split_at(data.len() / 2);
    let expected = Some(DecodedFrame { width: 2, height: 1, bgra: vec![1, 2, 3, 4, 5, 6, 7, 8] });
    for swap in [false, true] {
        let mut f = FrameReassembler::default();
        f.start_frame(info(7, 2));
        let (first, second) = if swap { ((1, b), (0, a)) } else { ((0, a), (1, b)) };
        assert_eq!(f.add_chunk(7, first.0, first.1.to_vec()), None);
        // A repeated and a stale chunk change nothing.
        assert_eq!(f.add_chunk(7, first.0, first.1.to_vec()), None);
        assert_eq!(f.add_chunk(6, second.0, second.1.to_vec()), None);
        assert_eq!(f.add_chunk(7, second.0, second.1.to_vec()), expected);
    }
}

#[test]
fn what_does_not_decompress_is_no_frame() {
    let mut f = FrameReassembler::default();
    f.start_frame(info(1, 1));
    assert_eq!(f.add_chunk(1, 0, vec![1, 2, 3]), None);
    assert_eq!(f.add_chunk(1, 9, packed()), None);
    assert_eq!(frame_from(info(1, 1), None), None);
    let mut f = FrameReassembler::default();
    assert_eq!(receive(&mut f, VideoMessage::Other), None);
    assert_eq!(receive(&mut f, VideoMessage::Info(info(3, 1))), None);
    let frame = receive(
        &mut f,
        VideoMessage::Chunk { frame_id: 3, chunk_index: 0, data: packed() },
    );
    assert_eq!(frame.unwrap().bgra.len(), 8);
}

#[test]
fn the_panel_shows_the_latest() {
    let failed = SessionStatus::Failed("x".into());
    assert_eq!(remote_desktop_status_text(&SessionStatus::Connecting), "Bağlanıyor…");
    assert_eq!(remote_desktop_status_text(&failed), "Bağlantı hatası: x");
    assert_eq!(
        remote_desktop_status_text(&SessionStatus::Connected { width: 1920, height: 1080 }),
        "Bağlandı — 1920x1080"
    );
    assert_eq!(latest_status(SessionStatus::Connecting, vec![]), SessionStatus::Connecting);
    assert_eq!(
        latest_status(SessionStatus::Connecting, vec![SessionStatus::Connecting, failed.clone()]),
        failed
    );
    assert_eq!(latest_frame(vec![]), None);
}

#[test]
fn pointer_events_reach_the_remote_scaled() {
    let mut p = opened(0, Some(Rect::px(0, 0, 1080, 1136)));
    assert_eq!(p.video_rect, Rect::px(40, 40, 1000, 1000));
    assert_eq!(norm_in_rect(p.video_rect, 0, 2000 * PX), (0, 1000 * PX));
    p.frame = Some((2000, 500));
    let out = remote_desktop_press(Some(p), 140 * PX, 140 * PX);
    assert!(out.handled);
    assert_eq!(out.send, Some(RemoteInput::Button { pressed: true }));
    let p = out.panel.unwrap();
    // A hundred pixels on the video are 200 across and 50 down.
    let out = remote_desktop_pointer_motion(p, 240 * PX, 240 * PX);
    assert_eq!(out.send, Some(RemoteInput::Motion { dx: 200 * PX, dy: 50 * PX }));
    let p = out.panel.unwrap();
    assert_eq!(
        remote_desktop_pointer_release(Some(p), 0, 0),
        Some(RemoteInput::Button { pressed: false })
    );
    // Off the video the last position is forgotten.
    let out = remote_desktop_pointer_motion(p, 0, 0);
    assert_eq!((out.send, out.handled), (None, false));
    assert_eq!(remote_desktop_pointer_release(out.panel, 0, 0), None);
}

#[test]
fn a_press_off_the_video_closes_the_panel() {
    let p = opened(0, None);
    let close = p.close_rect;
    let out = remote_desktop_press(Some(p), close.x + 1, close.y + 1);
    assert!(out.handled && out.panel.is_none());
    let out = remote_desktop_press(Some(p), 0, 0);
    assert!(out.handled && out.panel.is_none() && out.send.is_none());
    assert!(!remote_desktop_press(None, 0, 0).handled);
}

#[test]
fn a_poll_shows_the_newest_frame_and_status() {
    let mut p = opened(0, None);
    let tick = remote_desktop_tick(&mut p, SessionStatus::Connecting, vec![], vec![]);
    assert_eq!((tick.frame, tick.status_text.as_str()), (None, "Bağlanıyor…"));
    assert_eq!(p.frame, None);
    let frame = |n: u32| DecodedFrame { width: n, height: 1, bgra: vec![0; 4 * n as usize] };
    let tick = remote_desktop_tick(
        &mut p,
        tick.status,
        vec![SessionStatus::Connected { width: 2, height: 1 }],
        vec![frame(1), frame(2)],
    );
    assert_eq!(tick.frame, Some(frame(2)));
    assert_eq!(tick.status_text, "Bağlandı — 2x1");
    assert_eq!(p.frame, Some((2, 1)));
}
