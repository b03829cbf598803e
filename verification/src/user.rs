//! The users on the server and their voice.
//!
//! Mumble numbers voice packets by the audio in them, ten milliseconds each, and starts anew
//! with each transmission. RTP wants one numbering for as long as the source lives. A user
//! therefore carries over, from one transmission to the next, how far the RTP numbers have got.
//! RTP numbers are counted modulo 2^32, of which the packet shows the lower half; they also give
//! the timestamp.
use crate::messages::{
    ControlPacket, ControlPacketView, Frame, FrameView, RtpPacket, RtpPacketView, TalkingState,
    TalkingStateView,
};
use vstd::prelude::*;

verus! {

/// After how many milliseconds of silence a transmission is taken to be over.
pub const SILENCE_MILLIS: u64 = 400;

/// How far a packet may be from the newest one and still belong to the same transmission.
pub const MAX_JITTER: u64 = 100;

/// How many samples, at 48 kHz, there are in ten milliseconds.
pub const SAMPLES_PER_NUMBER: u32 = 480;

/// The RTP payload type of the voice that the client gets.
pub const OPUS_PAYLOAD_TYPE: u8 = 97;

/// The RTP number that lies `distance` behind `number`.
pub open spec fn rtp_number(number: u32, distance: int) -> u32 {
    ((number + distance) % 0x1_0000_0000) as u32
}

/// The timestamp that belongs to an RTP number.
pub open spec fn rtp_timestamp(number: u32) -> u32 {
    ((number * 480) % 0x1_0000_0000) as u32
}

/// A user on the server.
#[derive(Debug, Clone, Copy, PartialEq, Eq)]
pub struct User {
    /// The user's session.
    pub session: u32,
    /// The RTP source under which the user's voice reaches the client.
    pub ssrc: u32,
    /// Whether the user is currently transmitting.
    pub active: bool,
    /// When to assume that the transmission is over, if nothing is heard until then.
    pub timeout: Option<u64>,
    /// The number of the packet that started the transmission.
    pub start_voice_seq_num: u64,
    /// The highest packet number of the transmission.
    pub highest_voice_seq_num: u64,
    /// The RTP number of the packet that started the transmission.
    pub rtp_seq_num_offset: u32,
}

/// The frame that tells the client that a user has stopped talking.
pub open spec fn stopped_frame(session: u32) -> FrameView {
    FrameView::Client(
        ControlPacketView::TalkingState(
            TalkingStateView { session: Some(session), target: None, raw: None },
        ),
    )
}

/// The frame that tells the client that a user talks to `target`.
pub open spec fn talking_frame(session: u32, target: u8) -> FrameView {
    FrameView::Client(
        ControlPacketView::TalkingState(
            TalkingStateView { session: Some(session), target: Some(target as u32), raw: None },
        ),
    )
}

/// What a voice packet means for the transmission of its user.
pub enum VoiceStep {
    /// The packet is dropped.
    Drop,
    /// It is the last packet of the transmission.
    Last,
    /// It continues the transmission, or starts one.
    Continue,
    /// It belongs to the transmission but comes late.
    Late,
    /// It belongs to a new transmission, and the end of the last one was missed.
    Restart,
}

/// What comes of a voice packet: the user afterwards, and the frames to be sent.
pub struct VoiceOutcome {
    pub user: User,
    pub frames: Seq<FrameView>,
}

impl User {
    /// Whether the numbers of the transmission are in order, and a user has a timeout exactly
    /// while transmitting.
    pub open spec fn valid(self) -> bool {
        &&& self.start_voice_seq_num <= self.highest_voice_seq_num
        &&& !self.active ==> self.start_voice_seq_num == self.highest_voice_seq_num
        &&& self.active <==> self.timeout is Some
    }

    /// The user after the end of a transmission. The next one starts with the RTP number behind
    /// the highest of this one.
    pub open spec fn inactive(self) -> User {
        if self.active {
            User {
                active: false,
                timeout: None,
                rtp_seq_num_offset: rtp_number(
                    self.rtp_seq_num_offset,
                    self.highest_voice_seq_num - self.start_voice_seq_num + 1,
                ),
                start_voice_seq_num: 0,
                highest_voice_seq_num: 0,
                ..self
            }
        } else {
            User { timeout: None, ..self }
        }
    }

    /// The frames that tell the client of the end of a transmission.
    pub open spec fn inactive_frames(self) -> Seq<FrameView> {
        if self.active {
            seq![stopped_frame(self.session)]
        } else {
            Seq::empty()
        }
    }

    /// When silence from `now` on ends the transmission.
    pub open spec fn deadline(now: u64) -> u64 {
        if now + SILENCE_MILLIS > u64::MAX {
            u64::MAX
        } else {
            (now + SILENCE_MILLIS) as u64
        }
    }

    /// The user after a packet was heard at `now`.
    pub open spec fn active_at(self, now: u64) -> User {
        User { active: true, timeout: Some(User::deadline(now)), ..self }
    }

    /// The frames that tell the client of the start of a transmission.
    pub open spec fn active_frames(self, target: u8) -> Seq<FrameView> {
        if self.active {
            Seq::empty()
        } else {
            seq![talking_frame(self.session, target)]
        }
    }

    /// The user as a packet finds it: one who is not transmitting would start with it.
    pub open spec fn found_by(self, seq_num: u64) -> User {
        if self.active {
            self
        } else {
            User { start_voice_seq_num: seq_num, highest_voice_seq_num: seq_num, ..self }
        }
    }

    /// What a packet means that finds this user.
    pub open spec fn step(self, seq_num: u64, last: bool) -> VoiceStep {
        let highest = self.highest_voice_seq_num;
        if last {
            if seq_num <= highest {
                VoiceStep::Drop
            } else {
                VoiceStep::Last
            }
        } else if seq_num == highest && seq_num != self.start_voice_seq_num {
            VoiceStep::Drop
        } else if highest <= seq_num < highest + MAX_JITTER {
            VoiceStep::Continue
        } else if seq_num < highest < seq_num + MAX_JITTER {
            VoiceStep::Late
        } else {
            VoiceStep::Restart
        }
    }

    /// The RTP number of a packet of this transmission.
    pub open spec fn rtp_number_of(self, seq_num: u64) -> u32 {
        rtp_number(self.rtp_seq_num_offset, seq_num - self.start_voice_seq_num)
    }

    /// The user with a new transmission that starts with the packet `seq_num`.
    pub open spec fn restarted(self, seq_num: u64) -> User {
        User {
            start_voice_seq_num: seq_num,
            highest_voice_seq_num: seq_num,
            ..self.inactive()
        }
    }

    /// The frame with the voice of this user under an RTP number.
    pub open spec fn rtp_frame(self, marker: bool, number: u32, data: Seq<u8>) -> FrameView {
        FrameView::Rtp(
            RtpPacketView {
                marker,
                payload_type: OPUS_PAYLOAD_TYPE,
                seq_num: (number % 0x1_0000) as u16,
                timestamp: rtp_timestamp(number),
                ssrc: self.ssrc,
                payload: data,
            },
        )
    }

    /// What comes of a voice packet that is heard at `now`.
    pub open spec fn voice(
        self,
        target: u8,
        seq_num: u64,
        data: Seq<u8>,
        last: bool,
        now: u64,
    ) -> VoiceOutcome {
        let found = self.found_by(seq_num);
        let number = found.rtp_number_of(seq_num);
        match found.step(seq_num, last) {
            VoiceStep::Drop => VoiceOutcome { user: found, frames: Seq::empty() },
            VoiceStep::Last => VoiceOutcome {
                user: found.inactive(),
                frames: found.inactive_frames().push(found.rtp_frame(!self.active, number, data)),
            },
            VoiceStep::Continue => VoiceOutcome {
                user: (User { highest_voice_seq_num: seq_num, ..found }).active_at(now),
                frames: found.active_frames(target).push(
                    found.rtp_frame(!self.active, number, data),
                ),
            },
            VoiceStep::Late => VoiceOutcome {
                user: found.active_at(now),
                frames: found.active_frames(target).push(
                    found.rtp_frame(!self.active, number, data),
                ),
            },
            VoiceStep::Restart => VoiceOutcome {
                user: found.restarted(seq_num).active_at(now),
                frames: (found.inactive_frames() + found.inactive().active_frames(target)).push(
                    found.rtp_frame(true, found.inactive().rtp_seq_num_offset, data),
                ),
            },
        }
    }

    /// A user who has not been heard yet.
    pub open spec fn fresh(session: u32, ssrc: u32) -> User {
        User {
            session,
            ssrc,
            active: false,
            timeout: None,
            start_voice_seq_num: 0,
            highest_voice_seq_num: 0,
            rtp_seq_num_offset: 0,
        }
    }

    /// Makes a user who has not been heard yet.
    pub fn new(session: u32, ssrc: u32) -> (user: User)
        ensures
            user == User::fresh(session, ssrc),
            user.valid(),
    {
        User {
            session,
            ssrc,
            active: false,
            timeout: None,
            start_voice_seq_num: 0,
            highest_voice_seq_num: 0,
            rtp_seq_num_offset: 0,
        }
    }

    /// Ends the transmission, and returns what the client is told.
    pub fn set_inactive(&mut self) -> (frame: Option<Frame>)
        ensures
            *final(self) == old(self).inactive(),
            frames_of(frame) == old(self).inactive_frames(),
    {
        self.timeout = None;
        if self.active {
            self.active = false;
            let distance: u64 = self.highest_voice_seq_num.wrapping_sub(self.start_voice_seq_num);
            proof {
                lemma_low_half(self.highest_voice_seq_num, self.start_voice_seq_num);
            }
            let numbers: u32 = (#[verifier::truncate] (distance as u32)).wrapping_add(1);
            self.rtp_seq_num_offset = self.rtp_seq_num_offset.wrapping_add(numbers);
            self.start_voice_seq_num = 0;
            self.highest_voice_seq_num = 0;
            let message = TalkingState { session: Some(self.session), target: None, raw: None };
            Some(Frame::Client(ControlPacket::TalkingState(message)))
        } else {
            None
        }
    }

    /// Notes that the user was heard at `now`, and returns what the client is told.
    pub fn set_active(&mut self, target: u8, now: u64) -> (frame: Option<Frame>)
        ensures
            *final(self) == old(self).active_at(now),
            frames_of(frame) == old(self).active_frames(target),
    {
        self.timeout = Some(now.saturating_add(SILENCE_MILLIS));
        if self.active {
            None
        } else {
            self.active = true;
            let message = TalkingState {
                session: Some(self.session),
                target: Some(target as u32),
                raw: None,
            };
            Some(Frame::Client(ControlPacket::TalkingState(message)))
        }
    }

    /// The RTP number of a packet of this transmission.
    fn number_packet(&self, seq_num: u64) -> (number: u32)
        ensures
            number == self.rtp_number_of(seq_num),
    {
        proof {
            lemma_low_half(seq_num, self.start_voice_seq_num);
        }
        let offset: u64 = seq_num.wrapping_sub(self.start_voice_seq_num);
        self.rtp_seq_num_offset.wrapping_add(#[verifier::truncate] (offset as u32))
    }

    /// Makes the RTP packet for a packet of this user's voice.
    fn make_rtp(&self, marker: bool, number: u32, data: Vec<u8>) -> (frame: Frame)
        ensures
            frame@ == self.rtp_frame(marker, number, data@),
    {
        assert(number as u16 == number % 0x1_0000) by (bit_vector);
        Frame::Rtp(
            RtpPacket {
                marker,
                payload_type: OPUS_PAYLOAD_TYPE,
                seq_num: #[verifier::truncate] (number as u16),
                timestamp: number.wrapping_mul(SAMPLES_PER_NUMBER),
                ssrc: self.ssrc,
                payload: data,
            },
        )
    }

    /// Takes a packet of this user's voice, heard at `now`, and returns the frames to be sent.
    ///
    /// The RTP numbers skip as the packet numbers do, by the audio in each packet, and late
    /// packets keep their place.
    pub fn handle_voice(
        &mut self,
        target: u8,
        seq_num: u64,
        data: Vec<u8>,
        last: bool,
        now: u64,
    ) -> (frames: Vec<Frame>)
        ensures
            *final(self) == old(self).voice(target, seq_num, data@, last, now).user,
            frames_view(frames@) == old(self).voice(target, seq_num, data@, last, now).frames,
    {
        let mut first_in_transmission: bool = if self.active {
            false
        } else {
            self.start_voice_seq_num = seq_num;
            self.highest_voice_seq_num = seq_num;
            true
        };
        let ghost found = *self;
        assert(found == old(self).found_by(seq_num));
        let mut number: u32 = self.number_packet(seq_num);
        let mut frames: Vec<Frame> = Vec::new();
        if last {
            if seq_num <= self.highest_voice_seq_num {
                // A long delayed end of an earlier transmission, or a transmission of a single
                // packet, which would be inaudible anyway.
                assert(frames_view(frames@) =~= Seq::empty());
                return frames;
            }
            // The numbers start anew after this packet, so that later packets of this
            // transmission are lost. The protocol leaves no way around that.

            let frame = self.set_inactive();
            push_frame(&mut frames, frame);
        } else if seq_num == self.highest_voice_seq_num && seq_num != self.start_voice_seq_num {
            // A retransmission.
            assert(frames_view(frames@) =~= Seq::empty());
            return frames;
        } else if seq_num >= self.highest_voice_seq_num && seq_num - self.highest_voice_seq_num
            < MAX_JITTER {
            self.highest_voice_seq_num = seq_num;
            let frame = self.set_active(target, now);
            push_frame(&mut frames, frame);
        } else if seq_num < self.highest_voice_seq_num && self.highest_voice_seq_num - seq_num
            < MAX_JITTER {
            let frame = self.set_active(target, now);
            push_frame(&mut frames, frame);
        } else {
            // Either jitter that no decoder would survive, or the end of the last transmission
            // was missed. The latter is assumed.
            let frame = self.set_inactive();
            push_frame(&mut frames, frame);
            first_in_transmission = true;
            self.start_voice_seq_num = seq_num;
            self.highest_voice_seq_num = seq_num;
            number = self.rtp_seq_num_offset;
            let frame = self.set_active(target, now);
            push_frame(&mut frames, frame);
        }
        let frame = self.make_rtp(first_in_transmission, number, data);
        push_frame(&mut frames, Some(frame));
        assert(frames_view(frames@) =~= old(self).voice(target, seq_num, data@, last, now).frames);
        frames
    }
}

/// The views of some frames.
pub open spec fn frames_view(frames: Seq<Frame>) -> Seq<FrameView> {
    frames.map_values(|frame: Frame| frame@)
}

/// Adds an optional frame to some frames.
fn push_frame(frames: &mut Vec<Frame>, frame: Option<Frame>)
    ensures
        frames_view(final(frames)@) == frames_view(old(frames)@) + frames_of(frame),
{
    if let Some(f) = frame {
        frames.push(f);
    }
    assert(frames_view(frames@) =~= frames_view(old(frames)@) + frames_of(frame));
}

/// The frames in an optional frame.
pub open spec fn frames_of(frame: Option<Frame>) -> Seq<FrameView> {
    match frame {
        Some(f) => seq![f@],
        None => Seq::empty(),
    }
}

/// The lower half of a difference that wraps around is the difference modulo 2^32.
proof fn lemma_low_half(a: u64, b: u64)
    ensures
        a.wrapping_sub(b) as u32 == (a - b) % 0x1_0000_0000,
{
    let d = a.wrapping_sub(b);
    assert(d as u32 == d % 0x1_0000_0000) by (bit_vector);
}

/// Going on from a number in two strides is going on in one.
pub proof fn lemma_rtp_number_strides(number: u32, first: int, second: int)
    ensures
        rtp_number(rtp_number(number, first), second) == rtp_number(number, first + second),
{
    vstd::arithmetic::div_mod::lemma_add_mod_noop(number + first, second, 0x1_0000_0000);
    vstd::arithmetic::div_mod::lemma_mod_twice(number + first, 0x1_0000_0000);
    vstd::arithmetic::div_mod::lemma_add_mod_noop(
        (number + first) % 0x1_0000_0000,
        second,
        0x1_0000_0000,
    );
}

/// A user stays in order, and keeps its session and its source, whatever is heard of it and
/// whenever it falls silent.
pub proof fn law_user_stays_valid(
    user: User,
    target: u8,
    seq_num: u64,
    data: Seq<u8>,
    last: bool,
    now: u64,
)
    requires
        user.valid(),
    ensures
        user.voice(target, seq_num, data, last, now).user.valid(),
        user.voice(target, seq_num, data, last, now).user.session == user.session,
        user.voice(target, seq_num, data, last, now).user.ssrc == user.ssrc,
        user.inactive().valid(),
        user.inactive().session == user.session,
        user.inactive().ssrc == user.ssrc,
{
}

/// Within a transmission RTP numbers are as far apart as the packet numbers, so that packets
/// which come late or out of order find their place.
pub proof fn law_numbers_keep_distance(user: User, a: u64, b: u64)
    ensures
        user.rtp_number_of(b) == rtp_number(user.rtp_number_of(a), b - a),
{
    lemma_rtp_number_strides(
        user.rtp_seq_num_offset,
        a - user.start_voice_seq_num,
        b - a,
    );
    assert((a - user.start_voice_seq_num) + (b - a) == b - user.start_voice_seq_num);
}

/// A packet that belongs to the transmission leaves its numbering as it was.
pub proof fn law_transmission_keeps_numbering(
    user: User,
    target: u8,
    seq_num: u64,
    data: Seq<u8>,
    now: u64,
    other: u64,
)
    requires
        user.active,
        user.step(seq_num, false) is Continue || user.step(seq_num, false) is Late,
    ensures
        user.voice(target, seq_num, data, false, now).user.active,
        user.voice(target, seq_num, data, false, now).user.rtp_number_of(other)
            == user.rtp_number_of(other),
{
}

/// The first packet of the next transmission, whatever its number, gets the RTP number right
/// behind the one of the highest packet of this transmission. None of the packets up to that
/// one has this RTP number, unless the transmission has gone through all of them.
pub proof fn law_next_transmission_follows(user: User, first: u64, heard: u64)
    requires
        user.valid(),
        user.active,
    ensures
        user.inactive().found_by(first).rtp_number_of(first) == rtp_number(
            user.rtp_number_of(user.highest_voice_seq_num),
            1,
        ),
        user.restarted(first).rtp_number_of(first) == rtp_number(
            user.rtp_number_of(user.highest_voice_seq_num),
            1,
        ),
        user.start_voice_seq_num <= heard <= user.highest_voice_seq_num
            && user.highest_voice_seq_num - user.start_voice_seq_num < u32::MAX
            ==> user.inactive().rtp_seq_num_offset != user.rtp_number_of(heard),
{
    lemma_rtp_number_strides(
        user.rtp_seq_num_offset,
        user.highest_voice_seq_num - user.start_voice_seq_num,
        1,
    );
    assert(rtp_number(user.inactive().rtp_seq_num_offset, 0)
        == user.inactive().rtp_seq_num_offset);
    if user.start_voice_seq_num <= heard <= user.highest_voice_seq_num
        && user.highest_voice_seq_num - user.start_voice_seq_num < u32::MAX {
        let gap = user.highest_voice_seq_num - heard + 1;
        let number = user.rtp_number_of(heard);
        lemma_rtp_number_strides(
            user.rtp_seq_num_offset,
            heard - user.start_voice_seq_num,
            gap,
        );
        assert(user.inactive().rtp_seq_num_offset == rtp_number(number, gap));
        assert(1 <= gap <= u32::MAX);
        assert(rtp_number(number, gap) != number);
    }
}

/// A packet of voice is either dropped, and then the client hears nothing of it, or the last
/// frame that it gives is the voice: from the user's source, with the data as it came, marked
/// exactly if a transmission starts with it.
pub proof fn law_voice_is_passed_on(
    user: User,
    target: u8,
    seq_num: u64,
    data: Seq<u8>,
    last: bool,
    now: u64,
)
    ensures
        ({
            let step = user.found_by(seq_num).step(seq_num, last);
            let frames = user.voice(target, seq_num, data, last, now).frames;
            if step is Drop {
                frames.len() == 0
            } else {
                &&& frames.len() > 0
                &&& frames.last() is Rtp
                &&& frames.last()->Rtp_0.ssrc == user.ssrc
                &&& frames.last()->Rtp_0.payload == data
                &&& frames.last()->Rtp_0.payload_type == OPUS_PAYLOAD_TYPE
                &&& frames.last()->Rtp_0.marker == (!user.active || step is Restart)
                &&& forall|i: int|
                    0 <= i < frames.len() - 1 ==> #[trigger] frames[i] is Client
            }
        }),
{
}

/// The number and the timestamp in a frame agree: as far as the number shows, the timestamp is
/// 480 times the number.
pub proof fn law_timestamp_matches_number(user: User, marker: bool, number: u32, data: Seq<u8>)
    ensures
        ({
            let rtp = user.rtp_frame(marker, number, data)->Rtp_0;
            rtp.timestamp as int % 0x1_0000 == (rtp.seq_num * 480) % 0x1_0000
        }),
{
    let t = (number * 480) as int;
    let low = number as int % 0x1_0000;
    vstd::arithmetic::div_mod::lemma_mod_mod(t, 0x1_0000, 0x1_0000);
    vstd::arithmetic::div_mod::lemma_mul_mod_noop_left(number as int, 480, 0x1_0000);
}

/// Whether the client takes the user of `session` to be talking after it got some frames, if
/// it did so before or not.
pub open spec fn told(session: u32, talking: bool, frames: Seq<FrameView>) -> bool
    decreases frames.len(),
{
    if frames.len() == 0 {
        talking
    } else {
        let before = told(session, talking, frames.drop_last());
        match frames.last() {
            FrameView::Client(ControlPacketView::TalkingState(message)) => {
                if message.session == Some(session) {
                    message.target is Some
                } else {
                    before
                }
            },
            _ => before,
        }
    }
}

/// The client always knows whether a user is talking: if it did before a packet of voice or the
/// end of a transmission, it does afterwards. It is told nothing of other users.
pub proof fn law_client_knows_who_talks(
    user: User,
    target: u8,
    seq_num: u64,
    data: Seq<u8>,
    last: bool,
    now: u64,
    other: u32,
    talking: bool,
)
    ensures
        ({
            let outcome = user.voice(target, seq_num, data, last, now);
            &&& told(user.session, user.active, outcome.frames) == outcome.user.active
            &&& other != user.session ==> told(other, talking, outcome.frames) == talking
        }),
        told(user.session, user.active, user.inactive_frames()) == user.inactive().active,
        other != user.session ==> told(other, talking, user.inactive_frames()) == talking,
{
    reveal_with_fuel(told, 4);
    let found = user.found_by(seq_num);
    let outcome = user.voice(target, seq_num, data, last, now);
    let none = Seq::<FrameView>::empty();
    let stopped = seq![stopped_frame(user.session)];
    let talks = seq![talking_frame(user.session, target)];
    assert(stopped.drop_last() =~= none);
    assert(talks.drop_last() =~= none);
    assert(none + none =~= none);
    assert(stopped + talks =~= stopped.push(talks[0]));
    assert(stopped.push(talks[0]).drop_last() =~= stopped);
    assert(none + talks =~= talks);
    if outcome.frames.len() > 0 {
        let before = outcome.frames.drop_last();
        match found.step(seq_num, last) {
            VoiceStep::Last => {
                assert(before =~= found.inactive_frames());
            },
            VoiceStep::Restart => {
                assert(before =~= found.inactive_frames() + found.inactive().active_frames(target));
            },
            _ => {
                assert(before =~= found.active_frames(target));
            },
        }
    }
}

/// A packet that is heard puts the end of the transmission off until `SILENCE_MILLIS` after it;
/// the last packet of a transmission ends it, and a packet that is dropped leaves it as it is.
pub proof fn law_silence_is_counted_from_last_packet(
    user: User,
    target: u8,
    seq_num: u64,
    data: Seq<u8>,
    last: bool,
    now: u64,
)
    ensures
        ({
            let outcome = user.voice(target, seq_num, data, last, now);
            match user.found_by(seq_num).step(seq_num, last) {
                VoiceStep::Drop => outcome.user.timeout == user.timeout,
                VoiceStep::Last => outcome.user.timeout is None,
                _ => outcome.user.timeout == Some(User::deadline(now)),
            }
        }),
{
}

/// The RTP packet with voice under the number `number`, counted without end: the packet shows
/// the number modulo 2^16, and counts 480 samples for each number modulo 2^32.
pub open spec fn voice_frame(ssrc: u32, marker: bool, number: int, data: Seq<u8>) -> FrameView {
    FrameView::Rtp(
        RtpPacketView {
            marker,
            payload_type: 97,
            seq_num: (number % 0x1_0000) as u16,
            timestamp: ((480 * number) % 0x1_0000_0000) as u32,
            ssrc,
            payload: data,
        },
    )
}

/// The message that a user is talking to a target, or has stopped talking.
pub open spec fn told_frame(session: u32, target: Option<u8>) -> FrameView {
    FrameView::Client(
        ControlPacketView::TalkingState(
            TalkingStateView {
                session: Some(session),
                target: match target {
                    Some(t) => Some(t as u32),
                    None => None,
                },
                raw: None,
            },
        ),
    )
}

/// The time 400 milliseconds after `now`, as far as the clock goes.
pub open spec fn silence_from(now: u64) -> int {
    if now + 400 <= u64::MAX {
        now + 400
    } else {
        u64::MAX as int
    }
}

/// Counting RTP numbers modulo 2^32 makes no difference to what a packet shows.
proof fn lemma_voice_frame(user: User, marker: bool, start: u32, distance: int, data: Seq<u8>)
    ensures
        user.rtp_frame(marker, rtp_number(start, distance), data) == voice_frame(
            user.ssrc,
            marker,
            start + distance,
            data,
        ),
{
    let n = start + distance;
    let m = rtp_number(start, distance) as int;
    assert(m == n % 0x1_0000_0000);
    vstd::arithmetic::div_mod::lemma_mod_mod(n, 0x1_0000, 0x1_0000);
    assert(m % 0x1_0000 == n % 0x1_0000);
    vstd::arithmetic::div_mod::lemma_mul_mod_noop_left(n, 480, 0x1_0000_0000);
    assert((m * 480) % 0x1_0000_0000 == (n * 480) % 0x1_0000_0000);
}

/// The first packet of a user who was silent, whatever its number and target, makes the client
/// hear of the user's target and then the voice, with a marker, under the next RTP number. The
/// user is then transmitting from this packet on, until 400 milliseconds of silence.
pub proof fn law_first_packet_is_heard(
    user: User,
    target: u8,
    seq_num: u64,
    data: Seq<u8>,
    now: u64,
)
    requires
        !user.active,
    ensures
        ({
            let outcome = user.voice(target, seq_num, data, false, now);
            &&& outcome.frames == seq![
                told_frame(user.session, Some(target)),
                voice_frame(user.ssrc, true, user.rtp_seq_num_offset as int, data),
            ]
            &&& outcome.user.active
            &&& outcome.user.timeout is Some
            &&& outcome.user.timeout->0 == silence_from(now)
            &&& outcome.user.start_voice_seq_num == seq_num
            &&& outcome.user.highest_voice_seq_num == seq_num
            &&& outcome.user.rtp_seq_num_offset == user.rtp_seq_num_offset
            &&& outcome.user.session == user.session
            &&& outcome.user.ssrc == user.ssrc
        }),
{
    let outcome = user.voice(target, seq_num, data, false, now);
    lemma_voice_frame(user, true, user.rtp_seq_num_offset, 0, data);
    assert(outcome.frames =~= seq![
        told_frame(user.session, Some(target)),
        voice_frame(user.ssrc, true, user.rtp_seq_num_offset as int, data),
    ]);
}

/// A lone end of a transmission gives nothing: the user stays silent.
pub proof fn law_lone_end_is_dropped(
    user: User,
    target: u8,
    seq_num: u64,
    data: Seq<u8>,
    now: u64,
)
    requires
        !user.active,
    ensures
        ({
            let outcome = user.voice(target, seq_num, data, true, now);
            &&& outcome.frames.len() == 0
            &&& !outcome.user.active
            &&& outcome.user.timeout == user.timeout
            &&& outcome.user.rtp_seq_num_offset == user.rtp_seq_num_offset
            &&& outcome.user.session == user.session
            &&& outcome.user.ssrc == user.ssrc
        }),
{
}

/// A packet less than 100 numbers away from the highest one of the transmission gives its voice
/// and nothing else. Its RTP number is as far behind the first one's as the packet is behind the
/// first packet. The highest number follows, and the silence is counted anew. Only the highest
/// packet itself is not heard again, unless it is the first.
pub proof fn law_packet_of_transmission_is_heard(
    user: User,
    target: u8,
    seq_num: u64,
    data: Seq<u8>,
    now: u64,
)
    requires
        user.active,
        seq_num < user.highest_voice_seq_num + 100,
        user.highest_voice_seq_num < seq_num + 100,
        seq_num != user.highest_voice_seq_num || seq_num == user.start_voice_seq_num,
    ensures
        ({
            let outcome = user.voice(target, seq_num, data, false, now);
            &&& outcome.frames == seq![
                voice_frame(
                    user.ssrc,
                    false,
                    user.rtp_seq_num_offset + seq_num - user.start_voice_seq_num,
                    data,
                ),
            ]
            &&& outcome.user.active
            &&& outcome.user.timeout is Some
            &&& outcome.user.timeout->0 == silence_from(now)
            &&& outcome.user.start_voice_seq_num == user.start_voice_seq_num
            &&& outcome.user.highest_voice_seq_num == if seq_num > user.highest_voice_seq_num {
                seq_num
            } else {
                user.highest_voice_seq_num
            }
            &&& outcome.user.rtp_seq_num_offset == user.rtp_seq_num_offset
            &&& outcome.user.session == user.session
            &&& outcome.user.ssrc == user.ssrc
        }),
{
    let outcome = user.voice(target, seq_num, data, false, now);
    lemma_voice_frame(
        user,
        false,
        user.rtp_seq_num_offset,
        seq_num - user.start_voice_seq_num,
        data,
    );
    assert(outcome.frames =~= seq![
        voice_frame(
            user.ssrc,
            false,
            user.rtp_seq_num_offset + seq_num - user.start_voice_seq_num,
            data,
        ),
    ]);
}

/// The highest packet of the transmission is not heard again, unless it is the first, and an end
/// that is not beyond it is not heeded: nothing is sent and nothing changes.
pub proof fn law_old_packets_are_dropped(
    user: User,
    target: u8,
    seq_num: u64,
    data: Seq<u8>,
    last: bool,
    now: u64,
)
    requires
        user.active,
        if last {
            seq_num <= user.highest_voice_seq_num
        } else {
            seq_num == user.highest_voice_seq_num && seq_num != user.start_voice_seq_num
        },
    ensures
        user.voice(target, seq_num, data, last, now).frames.len() == 0,
        user.voice(target, seq_num, data, last, now).user == user,
{
}

/// A packet 100 numbers or more away from the highest one starts a new transmission: the client
/// hears that the user has stopped and talks to the target, and then the voice, with a marker,
/// under the RTP number behind the highest one so far.
pub proof fn law_far_packet_starts_anew(
    user: User,
    target: u8,
    seq_num: u64,
    data: Seq<u8>,
    now: u64,
)
    requires
        user.active,
        user.start_voice_seq_num <= user.highest_voice_seq_num,
        seq_num >= user.highest_voice_seq_num + 100 || user.highest_voice_seq_num >= seq_num + 100,
    ensures
        ({
            let outcome = user.voice(target, seq_num, data, false, now);
            let next = user.rtp_seq_num_offset + user.highest_voice_seq_num
                - user.start_voice_seq_num + 1;
            &&& outcome.frames == seq![
                told_frame(user.session, None),
                told_frame(user.session, Some(target)),
                voice_frame(user.ssrc, true, next, data),
            ]
            &&& outcome.user.active
            &&& outcome.user.timeout is Some
            &&& outcome.user.timeout->0 == silence_from(now)
            &&& outcome.user.start_voice_seq_num == seq_num
            &&& outcome.user.highest_voice_seq_num == seq_num
            &&& outcome.user.rtp_seq_num_offset == next % 0x1_0000_0000
            &&& outcome.user.session == user.session
            &&& outcome.user.ssrc == user.ssrc
        }),
{
    let outcome = user.voice(target, seq_num, data, false, now);
    let distance = user.highest_voice_seq_num - user.start_voice_seq_num + 1;
    let next = user.rtp_seq_num_offset + distance;
    lemma_voice_frame(user, true, user.rtp_seq_num_offset, distance, data);
    assert(outcome.frames =~= seq![
        told_frame(user.session, None),
        told_frame(user.session, Some(target)),
        voice_frame(user.ssrc, true, next, data),
    ]);
}

/// The last packet of a transmission is heard, after the client was told that the user has
/// stopped, and the user is silent then.
pub proof fn law_end_is_heard(
    user: User,
    target: u8,
    seq_num: u64,
    data: Seq<u8>,
    now: u64,
)
    requires
        user.active,
        seq_num > user.highest_voice_seq_num,
    ensures
        ({
            let outcome = user.voice(target, seq_num, data, true, now);
            &&& outcome.frames == seq![
                told_frame(user.session, None),
                voice_frame(
                    user.ssrc,
                    false,
                    user.rtp_seq_num_offset + seq_num - user.start_voice_seq_num,
                    data,
                ),
            ]
            &&& silenced(user, outcome.user)
        }),
{
    let outcome = user.voice(target, seq_num, data, true, now);
    lemma_voice_frame(
        user,
        false,
        user.rtp_seq_num_offset,
        seq_num - user.start_voice_seq_num,
        data,
    );
    assert(outcome.frames =~= seq![
        told_frame(user.session, None),
        voice_frame(
            user.ssrc,
            false,
            user.rtp_seq_num_offset + seq_num - user.start_voice_seq_num,
            data,
        ),
    ]);
}

/// Whether `after` is a transmitting user fallen silent: the next RTP number is the one behind
/// the highest so far.
pub open spec fn silenced(before: User, after: User) -> bool {
    &&& !after.active
    &&& after.timeout is None
    &&& after.start_voice_seq_num == 0
    &&& after.highest_voice_seq_num == 0
    &&& after.rtp_seq_num_offset == (before.rtp_seq_num_offset + before.highest_voice_seq_num
        - before.start_voice_seq_num + 1) % 0x1_0000_0000
    &&& after.session == before.session
    &&& after.ssrc == before.ssrc
}

/// A user who is transmitting and is made silent is silent then, and the client is told so by a
/// message without a target. For one who is silent already nothing is told, and only its timeout
/// goes.
pub proof fn law_silence_is_told(user: User)
    ensures
        user.active ==> silenced(user, user.inactive()) && user.inactive_frames() == seq![
            told_frame(user.session, None),
        ],
        !user.active ==> user.inactive_frames().len() == 0 && user.inactive() == (User {
            timeout: None,
            ..user
        }),
{
}

/// A user who is heard is transmitting then, until 400 milliseconds of silence, and nothing else
/// of it changes. The client is told the target of a user who was silent before, whatever the
/// target is, and nothing of one who was not.
pub proof fn law_activity_is_told(user: User, target: u8, now: u64)
    ensures
        user.active_at(now) == (User {
            active: true,
            timeout: Some(silence_from(now) as u64),
            ..user
        }),
        user.active_frames(target) == if user.active {
            Seq::empty()
        } else {
            seq![told_frame(user.session, Some(target))]
        },
{
}

/// A new user is silent, and its first RTP number is zero.
pub proof fn law_new_user_is_silent(session: u32, ssrc: u32)
    ensures
        ({
            let user = User::fresh(session, ssrc);
            &&& user.session == session
            &&& user.ssrc == ssrc
            &&& !user.active
            &&& user.timeout is None
            &&& user.start_voice_seq_num == 0
            &&& user.highest_voice_seq_num == 0
            &&& user.rtp_seq_num_offset == 0
        }),
{
}

/// The contracts speak of frames one for one.
pub proof fn law_frames_are_seen_whole(frames: Seq<Frame>, frame: Option<Frame>, i: int)
    requires
        0 <= i < frames.len(),
    ensures
        frames_view(frames).len() == frames.len(),
        frames_view(frames)[i] == frames[i]@,
        frame is Some ==> frames_of(frame) == seq![frame->0@],
        frame is None ==> frames_of(frame).len() == 0,
{
}

} // verus!
