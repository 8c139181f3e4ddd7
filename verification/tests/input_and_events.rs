use voxelcore::callback::GlfwCallbackProxy;
use voxelcore::callback::Proxy;
use voxelcore::keyboard::KeyState;
use voxelcore::keyboard::Keyboard;

const KEY_W: u32 = 87;
const KEY_A: u32 = 65;

#[test]
fn key_states_progress_over_frames() {
    let mut kb = Keyboard::new();
    assert_eq!(kb.get_key_state(KEY_W), None);
    kb.press_key(KEY_W);
    assert!(kb.is_key_pressed(KEY_W));
    assert!(!kb.is_key_held(KEY_W));
    kb.update_keys();
    assert!(!kb.is_key_pressed(KEY_W));
    assert!(kb.is_key_held(KEY_W));
    kb.release_key(KEY_W);
    assert_eq!(kb.get_key_state(KEY_W), Some(KeyState::Released));
    kb.update_keys();
    assert_eq!(kb.get_key_state(KEY_W), Some(KeyState::Up));
}

#[test]
fn set_key_state_overwrites() {
    let mut kb = Keyboard::new();
    kb.set_key_state(KEY_A, KeyState::Held);
    assert_eq!(kb.get_key_state(KEY_A), Some(KeyState::Held));
    kb.set_key_state(KEY_A, KeyState::Up);
    assert_eq!(kb.get_key_state(KEY_A), Some(KeyState::Up));
    kb.update_keys();
    assert_eq!(kb.get_key_state(KEY_A), Some(KeyState::Up));
}

#[test]
fn proxy_delivers_to_every_target() {
    let mut proxy: Proxy<u32> = Proxy::new();
    let first = proxy.add_target(Some("camera".to_string()));
    let second = proxy.add_target(None);
    assert_ne!(first, second);
    proxy.invoke(5);
    proxy.invoke(6);
    assert_eq!(proxy.take_pending(first), vec![5, 6]);
    assert_eq!(proxy.take_pending(second), vec![5, 6]);
    // Drained mailboxes stay empty until the next invocation.
    assert_eq!(proxy.take_pending(first), Vec::<u32>::new());
}

#[test]
fn proxy_suspend_drops_invocations() {
    let mut proxy: Proxy<u32> = Proxy::new();
    let target = proxy.add_target(None);
    proxy.suspend();
    proxy.invoke(1);
    assert_eq!(proxy.take_pending(target), Vec::<u32>::new());
    proxy.unsuspend();
    proxy.invoke(2);
    assert_eq!(proxy.take_pending(target), vec![2]);
}

#[test]
fn proxy_dropped_target_stops_listening() {
    let mut proxy: Proxy<u32> = Proxy::new();
    let gone = proxy.add_target(Some("old listener".to_string()));
    let kept = proxy.add_target(Some("listener".to_string()));
    proxy.invoke(7);
    proxy.drop_target(gone);
    proxy.invoke(8);
    assert_eq!(proxy.take_pending(kept), vec![7, 8]);
}

#[test]
fn window_proxy_delivers_in_order() {
    let mut proxy: GlfwCallbackProxy<(f64, f64)> = GlfwCallbackProxy::new();
    let cursor = proxy.add_target(Some("cursor".to_string()));
    proxy.invoke((1.0, 2.0));
    proxy.invoke((3.0, 4.0));
    assert_eq!(proxy.take_pending(cursor), vec![(1.0, 2.0), (3.0, 4.0)]);
    let late = proxy.add_target(None);
    proxy.invoke((5.0, 6.0));
    assert_eq!(proxy.take_pending(cursor), vec![(5.0, 6.0)]);
    assert_eq!(proxy.take_pending(late), vec![(5.0, 6.0)]);
}
