use hcnetsdk_rust_demo::public::module::{Module, ModuleGroup};
use hcnetsdk_rust_demo::realplay::{active_real_handle, PreviewOutcome, RealPlay, RealPlaySession};

#[test]
fn session_needs_a_logged_in_user() {
    let e = RealPlaySession::new(0, 1, PreviewOutcome::Playing(3)).unwrap_err();
    assert_eq!(e, "not logged in");
    let e = RealPlaySession::new(5, 1, PreviewOutcome::NoWindow).unwrap_err();
    assert_eq!(e, "failed to create X11 preview window");
    let e = RealPlaySession::new(5, 1, PreviewOutcome::Failed(17)).unwrap_err();
    assert_eq!(e, "NET_DVR_RealPlay_V40 failed: err 17");
    let s = RealPlaySession::new(5, 1, PreviewOutcome::Playing(3)).unwrap();
    assert_eq!((s.user_id, s.channel, s.real_handle), (5, 1, 3));
    assert!(s.preview_active && s.has_window);
}

#[test]
fn session_stop_releases_once() {
    let mut s = RealPlaySession::new(5, 1, PreviewOutcome::Playing(3)).unwrap();
    assert_eq!(s.stop(), Some(3));
    assert_eq!(s.real_handle, -1);
    assert!(!s.preview_active && !s.has_window);
    assert_eq!(s.stop(), None);
}

#[test]
fn session_poll_stops_on_closed_window() {
    let mut s = RealPlaySession::new(5, 1, PreviewOutcome::Playing(8)).unwrap();
    assert_eq!(s.poll_window_events(true), (true, None));
    assert_eq!(s.poll_window_events(false), (false, Some(8)));
    assert_eq!(s.poll_window_events(false), (true, None));
}

fn started(rp: &mut RealPlay, user: i32, ch: i32, handle: i32) -> Result<(), String> {
    let open = rp.start(user, ch);
    let outcome = if open { PreviewOutcome::Playing(handle) } else { PreviewOutcome::NotTried };
    rp.finish_start(user, ch, outcome)
}

#[test]
fn preview_sessions_are_independent() {
    let mut rp = RealPlay::new();
    assert_eq!(active_real_handle(&rp), -1);
    assert!(!rp.preview_active());
    started(&mut rp, 7, 1, 100).unwrap();
    started(&mut rp, 7, 2, 101).unwrap();
    assert_eq!(rp.active_count(), 2);
    assert!(rp.is_channel_active(7, 1));
    assert!(rp.is_channel_active(7, 2));
    assert!(!rp.is_channel_active(7, 3));
    assert_eq!(active_real_handle(&rp), 101);
    // Closing the first window leaves the second playing.
    rp.poll_window_events(&[false, true]);
    assert_eq!(rp.active_count(), 1);
    assert_eq!(rp.sessions()[0].channel, 2);
    assert_eq!(rp.take_released(), vec![100]);
    assert!(rp.take_released().is_empty());
    assert_eq!(active_real_handle(&rp), 101);
    rp.stop_channel(7, 2);
    assert_eq!(rp.active_count(), 0);
    assert_eq!(active_real_handle(&rp), -1);
    assert_eq!(rp.take_released(), vec![101]);
}

#[test]
fn restarting_a_channel_stops_the_old_session() {
    let mut rp = RealPlay::new();
    started(&mut rp, 7, 1, 100).unwrap();
    started(&mut rp, 7, 1, 200).unwrap();
    assert_eq!(rp.take_released(), vec![100]);
    assert_eq!(rp.sessions().len(), 2);
    assert_eq!(rp.active_count(), 1);
    assert!(!rp.sessions()[0].preview_active);
    assert_eq!(rp.sessions()[0].real_handle, -1);
    assert!(rp.is_channel_active(7, 1));
    rp.stop_all();
    assert_eq!(rp.take_released(), vec![200]);
    assert!(!rp.preview_active());
    assert!(!rp.is_channel_active(7, 1));
    assert_eq!(active_real_handle(&rp), -1);
}

#[test]
fn refused_start_changes_nothing() {
    let mut rp = RealPlay::new();
    assert_eq!(started(&mut rp, -1, 1, 100), Err("not logged in".to_string()));
    let open = rp.start(4, 1);
    assert!(open);
    assert_eq!(
        rp.finish_start(4, 1, PreviewOutcome::Failed(23)),
        Err("NET_DVR_RealPlay_V40 failed: err 23".to_string())
    );
    assert_eq!(rp.active_count(), 0);
    assert_eq!(active_real_handle(&rp), -1);
}

#[test]
fn realplay_module_identity() {
    let rp = RealPlay::default();
    assert_eq!(rp.id(), "realplay");
    assert_eq!(rp.label(), "Preview");
    assert_eq!(rp.group(), ModuleGroup::RealPlay);
}

#[test]
fn restarting_one_channel_leaves_the_others_playing() {
    let mut rp = RealPlay::new();
    started(&mut rp, 7, 1, 100).unwrap();
    started(&mut rp, 7, 2, 101).unwrap();
    started(&mut rp, 8, 1, 102).unwrap();
    started(&mut rp, 7, 1, 103).unwrap();
    assert_eq!(rp.take_released(), vec![100]);
    assert_eq!(rp.sessions().len(), 4);
    assert_eq!(rp.active_count(), 3);
    assert_eq!(rp.sessions()[1].real_handle, 101);
    assert!(rp.sessions()[1].preview_active);
    assert_eq!(rp.sessions()[2].real_handle, 102);
    assert!(rp.is_channel_active(8, 1));
}

#[test]
fn stopping_a_restarted_channel_stops_every_session_of_it() {
    let mut rp = RealPlay::new();
    started(&mut rp, 1, 1, 100).unwrap();
    started(&mut rp, 1, 2, 150).unwrap();
    started(&mut rp, 1, 1, 200).unwrap();
    assert!(rp.is_channel_active(1, 1));
    rp.stop_channel(1, 1);
    assert!(!rp.is_channel_active(1, 1));
    assert_eq!(rp.sessions().len(), 1);
    assert_eq!(rp.sessions()[0].channel, 2);
    assert_eq!(rp.take_released(), vec![100, 200]);
    assert_eq!(active_real_handle(&rp), 200);
    rp.stop_channel(1, 2);
    assert!(rp.sessions().is_empty());
    assert_eq!(active_real_handle(&rp), -1);
}

#[test]
fn a_stopped_session_is_not_an_active_preview() {
    let mut rp = RealPlay::new();
    started(&mut rp, 3, 1, 100).unwrap();
    assert!(rp.preview_active());
    assert_eq!(rp.active_count(), 1);
    // Restarting stops the old session; the new stream fails to start.
    assert!(rp.start(3, 1));
    assert!(rp.finish_start(3, 1, PreviewOutcome::NoWindow).is_err());
    assert_eq!(rp.sessions().len(), 1);
    assert!(!rp.preview_active());
    assert_eq!(rp.active_count(), 0);
}
