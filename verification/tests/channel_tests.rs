use console_io::channel::Channel;

#[test]
fn new_channel_is_free_and_empty() {
    let channel = Channel::new();
    assert!(!channel.is_held());
    assert!(channel.observed().is_empty());
}

#[test]
fn emit_appends_in_order() {
    let mut channel = Channel::new();
    channel.emit(b"ab");
    channel.emit(b"");
    channel.emit(b"cd");
    assert_eq!(channel.observed(), b"abcd");
    assert!(!channel.is_held());
}

#[test]
fn emit_proceeds_when_the_lock_is_held() {
    let mut channel = Channel::new();
    assert!(channel.try_lock());
    assert!(channel.is_held());
    channel.emit(b"from interrupt");
    assert_eq!(channel.observed(), b"from interrupt");
    assert!(!channel.is_held());
}

#[test]
fn try_lock_takes_a_free_lock_once() {
    let mut channel = Channel::new();
    assert!(channel.try_lock());
    assert!(!channel.try_lock());
    assert!(channel.is_held());
    channel.unlock();
    assert!(!channel.is_held());
    assert!(channel.try_lock());
}

#[test]
fn force_unlock_frees_the_lock() {
    let mut channel = Channel::new();
    assert!(channel.try_lock());
    channel.force_unlock();
    assert!(!channel.is_held());
    channel.force_unlock();
    assert!(!channel.is_held());
    assert!(channel.observed().is_empty());
}

#[test]
fn write_bytes_under_the_lock() {
    let mut channel = Channel::new();
    assert!(channel.try_lock());
    channel.write_bytes(b"x");
    channel.write_bytes(b"yz");
    assert!(channel.is_held());
    channel.unlock();
    assert_eq!(channel.observed(), b"xyz");
}

#[test]
fn drain_hands_out_and_starts_over() {
    let mut channel = Channel::new();
    channel.emit(b"abc");
    assert!(channel.try_lock());
    assert_eq!(channel.drain(), b"abc".to_vec());
    assert!(channel.observed().is_empty());
    assert!(channel.is_held());
    channel.emit(b"d");
    assert_eq!(channel.drain(), b"d".to_vec());
}
