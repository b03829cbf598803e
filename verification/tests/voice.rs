//! Users and their voice.
use mumble_web_proxy::messages::{ControlPacket, Frame, RtpPacket, TalkingState};
use mumble_web_proxy::user::User;

fn talking(session: u32, target: u32) -> Frame {
    Frame::Client(ControlPacket::TalkingState(TalkingState {
        session: Some(session),
        target: Some(target),
        raw: None,
    }))
}

fn stopped(session: u32) -> Frame {
    Frame::Client(ControlPacket::TalkingState(TalkingState {
        session: Some(session),
        target: None,
        raw: None,
    }))
}

fn rtp(ssrc: u32, marker: bool, seq_num: u16, timestamp: u32, payload: Vec<u8>) -> Frame {
    Frame::Rtp(RtpPacket {
        marker,
        payload_type: 97,
        seq_num,
        timestamp,
        ssrc,
        payload,
    })
}

/// A user with session 3 and source 4 who talks to 7 and has sent packets 1000 and 1003.
fn talker() -> User {
    let mut user = User::new(3, 4);
    user.handle_voice(7, 1000, vec![1], false, 50);
    user.handle_voice(7, 1003, vec![2], false, 60);
    user
}

#[test]
fn new_user_is_silent() {
    assert_eq!(
        User::new(3, 4),
        User {
            session: 3,
            ssrc: 4,
            active: false,
            timeout: None,
            start_voice_seq_num: 0,
            highest_voice_seq_num: 0,
            rtp_seq_num_offset: 0,
        }
    );
}

#[test]
fn first_packet_starts_transmission() {
    let mut user = User::new(3, 4);
    let frames = user.handle_voice(7, 1000, vec![1, 2], false, 50);
    assert_eq!(frames, vec![talking(3, 7), rtp(4, true, 0, 0, vec![1, 2])]);
    assert!(user.active);
    assert_eq!(user.timeout, Some(450));
    assert_eq!(user.start_voice_seq_num, 1000);
    assert_eq!(user.highest_voice_seq_num, 1000);
}

#[test]
fn next_packet_continues_transmission() {
    let mut user = User::new(3, 4);
    user.handle_voice(7, 1000, vec![1], false, 50);
    let frames = user.handle_voice(7, 1003, vec![2], false, 60);
    assert_eq!(frames, vec![rtp(4, false, 3, 1440, vec![2])]);
    assert_eq!(user.timeout, Some(460));
    assert_eq!(user.highest_voice_seq_num, 1003);
}

#[test]
fn late_packet_keeps_its_place() {
    let mut user = talker();
    let frames = user.handle_voice(7, 1002, vec![9], false, 70);
    assert_eq!(frames, vec![rtp(4, false, 2, 960, vec![9])]);
    assert_eq!(user.highest_voice_seq_num, 1003);
    assert_eq!(user.timeout, Some(470));
}

#[test]
fn packet_before_the_first_wraps_around() {
    let mut user = talker();
    let frames = user.handle_voice(7, 999, vec![9], false, 70);
    assert_eq!(frames, vec![rtp(4, false, 65535, 4294966816, vec![9])]);
}

#[test]
fn retransmission_is_dropped() {
    let mut user = talker();
    let before = user;
    assert_eq!(user.handle_voice(7, 1003, vec![2], false, 70), vec![]);
    assert_eq!(user, before);
}

#[test]
fn retransmission_of_the_first_packet_passes() {
    let mut user = User::new(3, 4);
    user.handle_voice(7, 1000, vec![1], false, 50);
    let frames = user.handle_voice(7, 1000, vec![1], false, 55);
    assert_eq!(frames, vec![rtp(4, false, 0, 0, vec![1])]);
    assert_eq!(user.timeout, Some(455));
}

#[test]
fn last_packet_ends_transmission() {
    let mut user = talker();
    let frames = user.handle_voice(7, 1004, vec![3], true, 70);
    assert_eq!(frames, vec![stopped(3), rtp(4, false, 4, 1920, vec![3])]);
    assert_eq!(
        user,
        User {
            rtp_seq_num_offset: 4,
            ..User::new(3, 4)
        }
    );
}

#[test]
fn delayed_last_packet_is_dropped() {
    let mut user = talker();
    let before = user;
    assert_eq!(user.handle_voice(7, 1003, vec![3], true, 70), vec![]);
    assert_eq!(user.handle_voice(7, 5, vec![3], true, 70), vec![]);
    assert_eq!(user, before);
}

#[test]
fn transmission_of_one_packet_is_dropped() {
    let mut user = User::new(3, 4);
    assert_eq!(user.handle_voice(7, 1000, vec![1], true, 50), vec![]);
    assert!(!user.active);
    assert_eq!(user.timeout, None);
    assert_eq!(user.start_voice_seq_num, 1000);
    assert_eq!(user.highest_voice_seq_num, 1000);
}

#[test]
fn next_transmission_follows_the_highest_number() {
    let mut user = talker();
    user.handle_voice(7, 1001, vec![3], false, 65);
    assert_eq!(user.set_inactive(), Some(stopped(3)));
    let frames = user.handle_voice(1, 20, vec![5], false, 900);
    assert_eq!(
        frames,
        vec![talking(3, 1), rtp(4, true, 4, 1920, vec![5])]
    );
    let frames = user.handle_voice(1, 22, vec![6], false, 920);
    assert_eq!(frames, vec![rtp(4, false, 6, 2880, vec![6])]);
}

#[test]
fn far_packet_starts_new_transmission() {
    let mut user = talker();
    let frames = user.handle_voice(8, 1103, vec![5], false, 70);
    assert_eq!(
        frames,
        vec![stopped(3), talking(3, 8), rtp(4, true, 4, 1920, vec![5])]
    );
    assert_eq!(user.start_voice_seq_num, 1103);
    assert_eq!(user.highest_voice_seq_num, 1103);
    assert_eq!(user.rtp_seq_num_offset, 4);
    assert_eq!(user.timeout, Some(470));
}

#[test]
fn jitter_is_bounded_on_both_sides() {
    let mut user = talker();
    let frames = user.handle_voice(7, 1102, vec![5], false, 70);
    assert_eq!(frames, vec![rtp(4, false, 102, 48960, vec![5])]);
    let mut user = talker();
    let frames = user.handle_voice(7, 904, vec![5], false, 70);
    assert_eq!(frames.len(), 1);
    let mut user = talker();
    let frames = user.handle_voice(7, 903, vec![5], false, 70);
    assert_eq!(
        frames,
        vec![stopped(3), talking(3, 7), rtp(4, true, 4, 1920, vec![5])]
    );
}

#[test]
fn numbers_and_timestamps_wrap_around() {
    let mut user = User {
        rtp_seq_num_offset: 65536,
        ..User::new(3, 4)
    };
    let frames = user.handle_voice(7, 10, vec![], false, 0);
    assert_eq!(frames[1], rtp(4, true, 0, 31457280, vec![]));
    let mut user = User {
        rtp_seq_num_offset: u32::MAX,
        ..User::new(3, 4)
    };
    let frames = user.handle_voice(7, 10, vec![], false, 0);
    assert_eq!(frames[1], rtp(4, true, 65535, 4294966816, vec![]));
    let frames = user.handle_voice(7, 11, vec![], false, 0);
    assert_eq!(frames, vec![rtp(4, false, 0, 0, vec![])]);
    user.set_inactive();
    assert_eq!(user.rtp_seq_num_offset, 1);
}

#[test]
fn jitter_reaches_up_to_the_highest_packet_number() {
    let mut user = User::new(3, 4);
    let frames = user.handle_voice(7, u64::MAX - 1, vec![], false, 0);
    assert_eq!(frames, vec![talking(3, 7), rtp(4, true, 0, 0, vec![])]);
    let frames = user.handle_voice(7, u64::MAX, vec![], false, 0);
    assert_eq!(frames, vec![rtp(4, false, 1, 480, vec![])]);
    let frames = user.handle_voice(7, u64::MAX - 99, vec![], false, 0);
    assert_eq!(frames.len(), 1);
    let frames = user.handle_voice(7, u64::MAX - 100, vec![], false, 0);
    assert_eq!(
        frames,
        vec![stopped(3), talking(3, 7), rtp(4, true, 2, 960, vec![])]
    );
}

#[test]
fn silent_user_stays_silent() {
    let mut user = User::new(3, 4);
    assert_eq!(user.set_inactive(), None);
    assert_eq!(user, User::new(3, 4));
}

#[test]
fn activity_is_told_once() {
    let mut user = User::new(3, 4);
    assert_eq!(user.set_active(31, 5), Some(talking(3, 31)));
    assert_eq!(user.timeout, Some(405));
    assert_eq!(user.set_active(31, 6), None);
    assert_eq!(user.timeout, Some(406));
    assert_eq!(user.set_inactive(), Some(stopped(3)));
    assert_eq!(user.timeout, None);
    assert_eq!(user.set_inactive(), None);
}

#[test]
fn deadline_stays_within_the_clock() {
    let mut user = User::new(3, 4);
    user.set_active(0, u64::MAX - 5);
    assert_eq!(user.timeout, Some(u64::MAX));
}
