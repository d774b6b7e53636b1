use minau::transport::Transport;

fn gain(sample: i32, volume: u8) -> i32 {
    sample * volume as i32
}

#[test]
fn pump_moves_samples_until_headroom_is_reached() {
    let mut t: Transport<i32> = Transport::new(10, 2, 4);
    assert!(t.starved());
    assert!(t.has_room());
    t.load(vec![1, 2, 3, 4, 5, 6, 7, 8]);
    assert!(!t.starved());
    // ten free slots, four are headroom: six samples move
    assert_eq!(t.pump(), 6);
    assert_eq!(t.queued_len(), 6);
    assert!(!t.has_room());
    assert!(!t.starved());
    // nothing moves while the free space is down to the headroom
    assert_eq!(t.pump(), 0);
    assert_eq!(t.queued_len(), 6);
}

#[test]
fn pump_goes_on_where_it_left_off() {
    let mut t: Transport<i32> = Transport::new(100, 3, 97);
    t.load(vec![1, 2, 3, 4, 5, 6, 7]);
    assert_eq!(t.pump(), 3);
    let mut out = [0; 2];
    assert_eq!(t.render(&mut out, false, 1, 0, &gain), 2);
    assert_eq!(out, [1, 2]);
    assert_eq!(t.pump(), 2);
    let mut out = [0; 3];
    assert_eq!(t.render(&mut out, false, 1, 0, &gain), 3);
    assert_eq!(out, [3, 4, 5]);
    assert_eq!(t.pump(), 2);
    assert!(t.starved());
    let mut out = [0; 3];
    assert_eq!(t.render(&mut out, false, 1, 0, &gain), 2);
    assert_eq!(out, [6, 7, 0]);
}

#[test]
fn render_applies_gain_and_fills_with_silence_on_underrun() {
    let mut t: Transport<i32> = Transport::new(16, 1, 0);
    t.load(vec![1, 2, 3]);
    assert_eq!(t.pump(), 3);
    let mut out = [9; 5];
    let taken = t.render(&mut out, false, 10, 0, &gain);
    assert_eq!(taken, 3);
    assert_eq!(out, [10, 20, 30, 0, 0]);
    assert_eq!(t.queued_len(), 0);
}

#[test]
fn render_gives_plain_silence_while_paused_and_keeps_the_ring() {
    let mut t: Transport<i32> = Transport::new(16, 1, 0);
    t.load(vec![1, 2, 3]);
    t.pump();
    let mut out = [9; 4];
    let taken = t.render(&mut out, true, 10, -1, &gain);
    assert_eq!(taken, 0);
    assert_eq!(out, [-1, -1, -1, -1]);
    assert_eq!(t.queued_len(), 3);
    let mut out = [9; 2];
    assert_eq!(t.render(&mut out, false, 1, 0, &gain), 2);
    assert_eq!(out, [1, 2]);
}

#[test]
fn render_into_an_empty_buffer_takes_nothing() {
    let mut t: Transport<i32> = Transport::new(4, 1, 0);
    t.load(vec![5]);
    t.pump();
    let mut out: [i32; 0] = [];
    assert_eq!(t.render(&mut out, false, 1, 0, &gain), 0);
    assert_eq!(t.queued_len(), 1);
}

#[test]
fn load_replaces_and_discard_forgets_the_packet() {
    let mut t: Transport<i32> = Transport::new(2, 1, 0);
    t.load(vec![1, 2, 3, 4]);
    assert_eq!(t.pump(), 2);
    assert!(!t.starved());
    t.discard();
    assert!(t.starved());
    assert_eq!(t.queued_len(), 2);
    t.load(vec![7]);
    let mut out = [0; 2];
    t.render(&mut out, false, 1, 0, &gain);
    assert_eq!(out, [1, 2]);
    assert_eq!(t.pump(), 1);
    let mut out = [0; 1];
    t.render(&mut out, false, 1, 0, &gain);
    assert_eq!(out, [7]);
    assert_eq!(t.channels(), 1);
}
