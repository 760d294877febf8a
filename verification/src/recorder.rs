use vstd::prelude::*;

use crate::input::Buttons;

verus! {

/// A change of the held buttons: from frame `frame_number` on, `buttons` are
/// held.
#[derive(Debug, Clone, Copy, PartialEq, Eq, Structural)]
pub struct RecordedFrame {
    pub frame_number: u64,
    pub buttons: Buttons,
}

// ---------------------------------------------------------------------------
// The byte format of a recording: one postcard message per recorded frame.
// ---------------------------------------------------------------------------

/// The varint bytes with which postcard writes the integer `v` (LEB128):
/// seven bits per byte, least significant first, the high bit set on every
/// byte but the last.
pub open spec fn varint_bytes(v: nat) -> Seq<u8>
    decreases v,
{
    if v < 128 {
        seq![v as u8]
    } else {
        seq![(v % 128 + 128) as u8] + varint_bytes(v / 128)
    }
}

/// What postcard reads as a varint from the front of `bytes`, where a varint
/// has at most `max_len` bytes and its byte at position `max_len - 1` may be at
/// most `last_max`: the value and the number of bytes read, or `None` where
/// the bytes run out or break those limits.
pub open spec fn varint_take(bytes: Seq<u8>, max_len: nat, last_max: u8) -> Option<(nat, nat)>
    decreases max_len,
{
    if max_len == 0 || bytes.len() == 0 {
        None
    } else if bytes[0] < 128 {
        if max_len == 1 && bytes[0] > last_max {
            None
        } else {
            Some((bytes[0] as nat, 1nat))
        }
    } else {
        match varint_take(bytes.drop_first(), (max_len - 1) as nat, last_max) {
            Some((v, n)) => Some((((bytes[0] - 128) + 128 * v) as nat, n + 1)),
            None => None,
        }
    }
}

/// The bytes that postcard writes for the pair `(frame_number, bits)`: the
/// varint of the frame number, then that of the bits.
pub open spec fn postcard_frame_bytes(frame_number: u64, bits: u32) -> Seq<u8> {
    varint_bytes(frame_number as nat) + varint_bytes(bits as nat)
}

/// What postcard reads from the front of `bytes` as a pair `(u64, u32)`: a
/// varint of at most 10 bytes (the last at most 1), then one of at most 5
/// bytes (the last at most 15); the pair and the number of bytes after it
/// that it left unread, or `None` where the bytes do not start with such a
/// pair.
pub open spec fn postcard_take_frame(bytes: Seq<u8>) -> Option<(u64, u32, usize)> {
    match varint_take(bytes, 10, 1) {
        None => None,
        Some((frame_number, used)) => match varint_take(bytes.skip(used as int), 5, 15) {
            None => None,
            Some((bits, used_too)) => Some(
                (frame_number as u64, bits as u32, (bytes.len() - used - used_too) as usize),
            ),
        },
    }
}

/// Whether `bytes` are a message that records the pair `(frame_number, bits)`:
/// at least two bytes long, and read back by postcard as that pair from the
/// front of `bytes` followed by anything, the rest left unread.
pub open spec fn is_frame_message(bytes: Seq<u8>, frame_number: u64, bits: u32) -> bool {
    &&& bytes.len() >= 2
    &&& forall|rest: Seq<u8>|
        bytes.len() + rest.len() <= usize::MAX ==> #[trigger] postcard_take_frame(bytes + rest)
            == Some((frame_number, bits, rest.len() as usize))
}

/// `128` to the power `k`.
pub open spec fn pow128(k: nat) -> nat
    decreases k,
{
    if k == 0 {
        1
    } else {
        128 * pow128((k - 1) as nat)
    }
}

/// A varint reads back as the value it was written from, whatever follows it,
/// where the value fits the limits it is read with.
proof fn lemma_varint_round_trip(v: nat, rest: Seq<u8>, max_len: nat, last_max: u8)
    requires
        max_len >= 1,
        last_max < 128,
        v < pow128((max_len - 1) as nat) * (last_max + 1),
    ensures
        varint_bytes(v).len() >= 1,
        varint_take(varint_bytes(v) + rest, max_len, last_max) == Some(
            (v, varint_bytes(v).len()),
        ),
    decreases max_len,
{
    let bytes = varint_bytes(v) + rest;
    assert(pow128(0) == 1);
    if max_len == 1 {
        let p = pow128((max_len - 1) as nat);
        assert(p == 1);
        assert(p * (last_max + 1) == last_max + 1) by (nonlinear_arith)
            requires
                p == 1,
        ;
    }
    if v < 128 {
        assert(varint_bytes(v) == seq![v as u8]);
        assert(bytes[0] == v as u8);
        assert(bytes[0] as nat == v);
        if max_len == 1 {
            assert(v <= last_max);
        }
    } else {
        if max_len == 1 {
            assert(v < last_max + 1);
            assert(false);
        }
        let k = (max_len - 2) as nat;
        assert(pow128((max_len - 1) as nat) == 128 * pow128(k));
        assert(v / 128 < pow128(k) * (last_max + 1)) by (nonlinear_arith)
            requires
                v < 128 * pow128(k) * (last_max + 1),
        ;
        lemma_varint_round_trip(v / 128, rest, (max_len - 1) as nat, last_max);
        assert(bytes.drop_first() =~= varint_bytes(v / 128) + rest);
        assert(varint_bytes(v) == seq![(v % 128 + 128) as u8] + varint_bytes(v / 128));
        assert(bytes[0] == (v % 128 + 128) as u8);
        assert(bytes[0] >= 128);
        assert(v % 128 + 128 * (v / 128) == v);
        assert(varint_bytes(v).len() == 1 + varint_bytes(v / 128).len());
    }
}

/// A varint that is read is at least one byte long and within the bytes.
proof fn lemma_varint_take_length(bytes: Seq<u8>, max_len: nat, last_max: u8)
    ensures
        varint_take(bytes, max_len, last_max) matches Some((_, n)) ==> 1 <= n <= bytes.len(),
    decreases max_len,
{
    if max_len > 0 && bytes.len() > 0 && bytes[0] >= 128 {
        lemma_varint_take_length(bytes.drop_first(), (max_len - 1) as nat, last_max);
    }
}

/// Reading a pair uses at least two bytes.
proof fn lemma_take_frame_progress(bytes: Seq<u8>)
    requires
        bytes.len() <= usize::MAX,
    ensures
        postcard_take_frame(bytes) matches Some((_, _, rest_len)) ==> rest_len + 2 <= bytes.len(),
{
    lemma_varint_take_length(bytes, 10, 1);
    if let Some((_, used)) = varint_take(bytes, 10, 1) {
        lemma_varint_take_length(bytes.skip(used as int), 5, 15);
    }
}

/// The bytes postcard writes for a pair are a message that reads back as that
/// pair.
proof fn lemma_frame_message(frame_number: u64, bits: u32)
    ensures
        is_frame_message(postcard_frame_bytes(frame_number, bits), frame_number, bits),
{
    reveal_with_fuel(pow128, 10);
    assert(pow128(4) == 0x1000_0000);
    assert(pow128(9) == 0x8000_0000_0000_0000);
    let first = varint_bytes(frame_number as nat);
    let second = varint_bytes(bits as nat);
    let bytes = postcard_frame_bytes(frame_number, bits);
    lemma_varint_round_trip(frame_number as nat, Seq::empty(), 10, 1);
    lemma_varint_round_trip(bits as nat, Seq::empty(), 5, 15);
    assert forall|rest: Seq<u8>| bytes.len() + rest.len() <= usize::MAX implies #[trigger] postcard_take_frame(
        bytes + rest,
    ) == Some((frame_number, bits, rest.len() as usize)) by {
        let all = bytes + rest;
        assert(all =~= first + (second + rest));
        lemma_varint_round_trip(frame_number as nat, second + rest, 10, 1);
        assert(all.skip(first.len() as int) =~= second + rest);
        lemma_varint_round_trip(bits as nat, rest, 5, 15);
    }
}

/// Calls `postcard::to_slice` on the pair `(frame_number, bits)` with a
/// 1024-byte buffer. Claimed: it succeeds (the pair takes at most 10 + 5
/// varint bytes, and a full buffer is the only way `to_slice` fails for it),
/// and the bytes it wrote are `postcard_frame_bytes(frame_number, bits)`: the
/// varint of each integer in turn, as `varint_u64` and `varint_u32` write
/// them.
#[verifier::external_body]
fn postcard_encode_frame(frame_number: u64, bits: u32) -> (result: Option<Vec<u8>>)
    ensures
        result is Some,
        result matches Some(bytes) ==> bytes@ == postcard_frame_bytes(frame_number, bits),
{
    let mut buf = [0u8;1024];
    match postcard::to_slice(&(frame_number, bits), &mut buf) {
        Ok(written) => Some(written.to_vec()),
        Err(_) => None,
    }
}

/// Calls `postcard::take_from_bytes::<(u64, u32)>` on `bytes` and returns the
/// pair with the length of the unread rest, which postcard hands back as the
/// trailing part of `bytes`. Claimed: the result is
/// `postcard_take_frame(bytes@)`, which reads the two varints as
/// `try_take_varint_u64` and `try_take_varint_u32` do (the bits of each byte
/// never overlap there, so combining them with `|` adds them up).
#[verifier::external_body]
fn postcard_decode_frame(bytes: &[u8]) -> (result: Option<(u64, u32, usize)>)
    ensures
        result == postcard_take_frame(bytes@),
{
    match postcard::take_from_bytes::<(u64, u32)>(bytes) {
        Ok(((frame_number, bits), rest)) => Some((frame_number, bits, rest.len())),
        Err(_) => None,
    }
}

/// The bytes that record `frame` in a recording: one postcard message, which
/// postcard always manages to write.
pub fn encode_recorded_frame(frame: &RecordedFrame) -> (result: Option<Vec<u8>>)
    ensures
        result is Some,
        result matches Some(bytes) ==> bytes@ == postcard_frame_bytes(
            frame.frame_number,
            frame.buttons@,
        ) && is_frame_message(bytes@, frame.frame_number, frame.buttons@),
{
    proof {
        lemma_frame_message(frame.frame_number, frame.buttons@);
    }
    postcard_encode_frame(frame.frame_number, frame.buttons.bits())
}

/// The frames that the recording `bytes` holds, message after message, or
/// `None` where some part of it is no message. `fuel` bounds the number of
/// messages read; a recording of `n` bytes holds fewer than `n` of them.
pub open spec fn decode_frames(bytes: Seq<u8>, fuel: nat) -> Option<Seq<RecordedFrame>>
    decreases fuel,
{
    if bytes.len() == 0 {
        Some(Seq::empty())
    } else if fuel == 0 {
        None
    } else {
        match postcard_take_frame(bytes) {
            None => None,
            Some((frame_number, bits, rest_len)) => {
                if rest_len < bytes.len() {
                    match decode_frames(bytes.skip(bytes.len() - rest_len), (fuel - 1) as nat) {
                        Some(frames) => Some(
                            seq![RecordedFrame { frame_number, buttons: Buttons::spec_from_bits(bits) }]
                                + frames,
                        ),
                        None => None,
                    }
                } else {
                    None
                }
            },
        }
    }
}

proof fn lemma_decode_messages(frames: Seq<RecordedFrame>, messages: Seq<Seq<u8>>, fuel: nat)
    requires
        messages.len() == frames.len(),
        forall|i: int|
            0 <= i < messages.len() ==> is_frame_message(
                #[trigger] messages[i],
                frames[i].frame_number,
                frames[i].buttons@,
            ),
        messages.flatten().len() <= usize::MAX,
        fuel >= messages.len(),
    ensures
        decode_frames(messages.flatten(), fuel) == Some(frames),
    decreases messages.len(),
{
    if messages.len() == 0 {
        assert(frames =~= Seq::<RecordedFrame>::empty());
    } else {
        let bytes = messages.flatten();
        let first = messages[0];
        let rest = messages.drop_first().flatten();
        assert(bytes == first + rest);
        assert(is_frame_message(first, frames[0].frame_number, frames[0].buttons@));
        assert(postcard_take_frame(first + rest) == Some(
            (frames[0].frame_number, frames[0].buttons@, rest.len() as usize),
        ));
        assert(bytes.skip(bytes.len() - rest.len()) =~= rest);
        assert forall|i: int| 0 <= i < messages.drop_first().len() implies is_frame_message(
            #[trigger] messages.drop_first()[i],
            frames.drop_first()[i].frame_number,
            frames.drop_first()[i].buttons@,
        ) by {
            assert(messages.drop_first()[i] == messages[i + 1]);
        }
        lemma_decode_messages(frames.drop_first(), messages.drop_first(), (fuel - 1) as nat);
        Buttons::lemma_from_own_bits(frames[0].buttons);
        assert(seq![
            RecordedFrame {
                frame_number: frames[0].frame_number,
                buttons: Buttons::spec_from_bits(frames[0].buttons@),
            },
        ] + frames.drop_first() =~= frames);
    }
}

proof fn lemma_flatten_len_at_least(messages: Seq<Seq<u8>>)
    requires
        forall|i: int| 0 <= i < messages.len() ==> (#[trigger] messages[i]).len() >= 2,
    ensures
        messages.flatten().len() >= 2 * messages.len(),
    decreases messages.len(),
{
    if messages.len() > 0 {
        assert forall|i: int| 0 <= i < messages.drop_first().len() implies (
        #[trigger] messages.drop_first()[i]).len() >= 2 by {
            assert(messages.drop_first()[i] == messages[i + 1]);
        }
        lemma_flatten_len_at_least(messages.drop_first());
        assert(messages[0].len() >= 2);
    }
}

/// A recording reads back as the frames that were written to it: where each
/// of `messages` is what `encode_recorded_frame` gives for the frame at the
/// same position of `frames`, the recording made of those messages, one after
/// the other, holds exactly `frames`.
pub proof fn recording_reads_back(frames: Seq<RecordedFrame>, messages: Seq<Seq<u8>>)
    requires
        messages.len() == frames.len(),
        forall|i: int|
            0 <= i < messages.len() ==> #[trigger] messages[i] == postcard_frame_bytes(
                frames[i].frame_number,
                frames[i].buttons@,
            ),
        messages.flatten().len() <= usize::MAX,
    ensures
        decode_recording_spec(messages.flatten()) == Some(frames),
{
    assert forall|i: int| 0 <= i < messages.len() implies is_frame_message(
        #[trigger] messages[i],
        frames[i].frame_number,
        frames[i].buttons@,
    ) by {
        lemma_frame_message(frames[i].frame_number, frames[i].buttons@);
    }
    assert forall|i: int| 0 <= i < messages.len() implies (#[trigger] messages[i]).len() >= 2 by {
        assert(is_frame_message(messages[i], frames[i].frame_number, frames[i].buttons@));
    }
    lemma_flatten_len_at_least(messages);
    lemma_decode_messages(frames, messages, messages.flatten().len());
}

/// The frames of a whole recording, or `None` where it is not one.
pub open spec fn decode_recording_spec(bytes: Seq<u8>) -> Option<Seq<RecordedFrame>> {
    decode_frames(bytes, bytes.len())
}

/// Reading a varint looks only at the bytes it uses.
proof fn lemma_varint_take_prefix(bytes: Seq<u8>, max_len: nat, last_max: u8, k: int)
    requires
        varint_take(bytes, max_len, last_max) matches Some((_, n)) && n <= k <= bytes.len(),
    ensures
        varint_take(bytes.take(k), max_len, last_max) == varint_take(bytes, max_len, last_max),
    decreases max_len,
{
    let short = bytes.take(k);
    if bytes[0] >= 128 {
        assert(short.drop_first() =~= bytes.drop_first().take(k - 1));
        lemma_varint_take_prefix(bytes.drop_first(), (max_len - 1) as nat, last_max, k - 1);
    }
}

/// The bytes that postcard reads as a pair from the front of `bytes` are, on
/// their own, a message that it reads as that pair with nothing left over.
proof fn lemma_message_prefix(bytes: Seq<u8>)
    requires
        bytes.len() <= usize::MAX,
        postcard_take_frame(bytes) is Some,
    ensures
        ({
            let (frame_number, bits, rest_len) = postcard_take_frame(bytes).unwrap();
            &&& rest_len <= bytes.len()
            &&& postcard_take_frame(bytes.take(bytes.len() - rest_len)) == Some(
                (frame_number, bits, 0usize),
            )
        }),
{
    let (frame_number, used) = varint_take(bytes, 10, 1).unwrap();
    lemma_varint_take_length(bytes, 10, 1);
    let after = bytes.skip(used as int);
    let (bits, used_too) = varint_take(after, 5, 15).unwrap();
    lemma_varint_take_length(after, 5, 15);
    let whole = (used + used_too) as int;
    let message = bytes.take(whole);
    lemma_varint_take_prefix(bytes, 10, 1, whole);
    assert(message.skip(used as int) =~= after.take(used_too as int));
    lemma_varint_take_prefix(after, 5, 15, used_too as int);
}

proof fn lemma_decoded_messages(bytes: Seq<u8>, fuel: nat) -> (messages: Seq<Seq<u8>>)
    requires
        bytes.len() <= usize::MAX,
        decode_frames(bytes, fuel) is Some,
    ensures
        messages.flatten() == bytes,
        messages.len() == decode_frames(bytes, fuel).unwrap().len(),
        forall|i: int|
            0 <= i < messages.len() ==> postcard_take_frame(#[trigger] messages[i]) == Some(
                (
                    decode_frames(bytes, fuel).unwrap()[i].frame_number,
                    decode_frames(bytes, fuel).unwrap()[i].buttons@,
                    0usize,
                ),
            ),
    decreases fuel,
{
    if bytes.len() == 0 {
        Seq::empty()
    } else {
        let (frame_number, bits, rest_len) = postcard_take_frame(bytes).unwrap();
        let used = bytes.len() - rest_len;
        let tail = bytes.skip(used);
        let first = bytes.take(used);
        lemma_message_prefix(bytes);
        let rest = lemma_decoded_messages(tail, (fuel - 1) as nat);
        let frames = decode_frames(bytes, fuel).unwrap();
        let rest_frames = decode_frames(tail, (fuel - 1) as nat).unwrap();
        assert(frames == seq![
            RecordedFrame { frame_number, buttons: Buttons::spec_from_bits(bits) },
        ] + rest_frames);
        Buttons::lemma_spec_from_bits(bits);
        let messages = seq![first] + rest;
        assert(messages.first() == first);
        assert(messages.drop_first() =~= rest);
        assert(first + tail =~= bytes);
        assert forall|i: int| 0 <= i < messages.len() implies postcard_take_frame(
            #[trigger] messages[i],
        ) == Some((frames[i].frame_number, frames[i].buttons@, 0usize)) by {
            if i > 0 {
                assert(messages[i] == rest[i - 1]);
                assert(frames[i] == rest_frames[i - 1]);
            }
        }
        messages
    }
}

/// A recording is accepted only if all of its bytes are read as whole
/// messages: it is then, exactly, the messages for its frames one after the
/// other, each of which postcard reads as its frame with nothing left over.
/// So a recording whose last message is cut short is refused.
pub proof fn accepted_recording_is_whole_messages(bytes: Seq<u8>) -> (messages: Seq<Seq<u8>>)
    requires
        bytes.len() <= usize::MAX,
        decode_recording_spec(bytes) is Some,
    ensures
        messages.flatten() == bytes,
        messages.len() == decode_recording_spec(bytes).unwrap().len(),
        forall|i: int|
            0 <= i < messages.len() ==> postcard_take_frame(#[trigger] messages[i]) == Some(
                (
                    decode_recording_spec(bytes).unwrap()[i].frame_number,
                    decode_recording_spec(bytes).unwrap()[i].buttons@,
                    0usize,
                ),
            ),
{
    lemma_decoded_messages(bytes, bytes.len())
}

/// Reads every frame of a recording.
pub fn decode_recording(input: &[u8]) -> (result: Option<Vec<RecordedFrame>>)
    ensures
        match result {
            Some(frames) => decode_recording_spec(input@) == Some(frames@),
            None => decode_recording_spec(input@) is None,
        },
{
    let mut frames: Vec<RecordedFrame> = Vec::new();
    let mut pos: usize = 0;
    let ghost mut fuel: nat = input@.len();
    assert(input@.skip(0) =~= input@);
    assert(frames@ + decode_frames(input@, fuel).unwrap_or(Seq::empty()) =~= decode_frames(input@, fuel).unwrap_or(Seq::empty()));
    while pos < input.len()
        invariant
            pos <= input@.len(),
            input@.len() - pos <= fuel,
            decode_recording_spec(input@) == match decode_frames(input@.skip(pos as int), fuel) {
                Some(rest) => Some(frames@ + rest),
                None => None::<Seq<RecordedFrame>>,
            },
        decreases input@.len() - pos,
    {
        let remaining = &input[pos..input.len()];
        assert(remaining@ =~= input@.skip(pos as int));
        proof {
            lemma_take_frame_progress(remaining@);
        }
        match postcard_decode_frame(remaining) {
            None => {
                return None;
            },
            Some((frame_number, bits, rest_len)) => {
                let frame = RecordedFrame { frame_number, buttons: Buttons::from_bits_retain(bits) };
                let ghost old_frames = frames@;
                frames.push(frame);
                let ghost next_pos: int = input@.len() - rest_len;
                assert(remaining@.skip(remaining@.len() - rest_len) =~= input@.skip(next_pos));
                pos = input.len() - rest_len;
                proof {
                    fuel = (fuel - 1) as nat;
                    match decode_frames(input@.skip(pos as int), fuel) {
                        Some(rest) => {
                            assert(old_frames + (seq![frame] + rest) =~= frames@ + rest);
                        },
                        None => {},
                    }
                }
            },
        }
    }
    assert(input@.skip(pos as int) =~= Seq::<u8>::empty());
    assert(frames@ + Seq::<RecordedFrame>::empty() =~= frames@);
    Some(frames)
}


// ---------------------------------------------------------------------------
// Recording.
// ---------------------------------------------------------------------------

/// What a recorder that last saw `prev` and has counted `frame_number` frames
/// does with the next item `next` of its input: its new last-seen buttons, its
/// new count, and the frame it writes, if any. A frame is written exactly when
/// the buttons differ from the last ones seen (or none were seen yet).
pub open spec fn recorder_step(prev: Option<Buttons>, frame_number: int, next: Option<Buttons>) -> (
    Option<Buttons>,
    int,
    Option<RecordedFrame>,
) {
    match next {
        None => (prev, frame_number, None),
        Some(buttons) => {
            if prev == Some(buttons) {
                (prev, frame_number + 1, None)
            } else {
                (
                    Some(buttons),
                    frame_number + 1,
                    Some(RecordedFrame { frame_number: frame_number as u64, buttons }),
                )
            }
        },
    }
}

/// Records an input stream: passes every item through, and writes a frame
/// whenever the held buttons change.
pub struct InputRecorder {
    prev_buttons: Option<Buttons>,
    frame_number: u64,
}

impl InputRecorder {
    /// The buttons that the recorder saw last, if any.
    pub closed spec fn prev_buttons(&self) -> Option<Buttons> {
        self.prev_buttons
    }

    /// The number of input items the recorder has seen.
    pub closed spec fn frame_number_spec(&self) -> u64 {
        self.frame_number
    }

    /// A recorder that has seen nothing yet.
    pub fn new() -> (result: InputRecorder)
        ensures
            result.prev_buttons() is None,
            result.frame_number_spec() == 0,
    {
        InputRecorder { prev_buttons: None, frame_number: 0 }
    }

    /// The number of input items the recorder has seen.
    pub fn frame_number(&self) -> (result: u64)
        ensures
            result == self.frame_number_spec(),
    {
        self.frame_number
    }

    /// Takes the next item of the input stream; returns the frame to write to
    /// the recording, if the buttons changed.
    pub fn next(&mut self, next: Option<Buttons>) -> (result: Option<RecordedFrame>)
        requires
            next is Some ==> old(self).frame_number_spec() < u64::MAX,
        ensures
            ({
                let (prev, frame_number, frame) = recorder_step(
                    old(self).prev_buttons(),
                    old(self).frame_number_spec() as int,
                    next,
                );
                &&& final(self).prev_buttons() == prev
                &&& final(self).frame_number_spec() == frame_number
                &&& result == frame
            }),
    {
        match next {
            None => None,
            Some(buttons) => {
                let did_buttons_change = match self.prev_buttons {
                    Some(prev_buttons) => buttons != prev_buttons,
                    None => true,
                };
                let mut result = None;
                if did_buttons_change {
                    self.prev_buttons = Some(buttons);
                    result = Some(RecordedFrame { frame_number: self.frame_number, buttons });
                }
                self.frame_number = self.frame_number + 1;
                result
            },
        }
    }
}

// ---------------------------------------------------------------------------
// Playback.
// ---------------------------------------------------------------------------

/// The state of a player: the frames of its recording, how many of them it
/// has used, how many items it has yielded, and the buttons it yields now.
pub ghost struct PlayerModel {
    pub frames: Seq<RecordedFrame>,
    pub index: int,
    pub frame_number: int,
    pub latest: Buttons,
}

/// One step of a player: its new state and what it yields. It yields nothing
/// once every frame is used; otherwise it switches to the next frame's buttons
/// when that frame's number comes up, and yields the current buttons.
pub open spec fn player_step(m: PlayerModel) -> (PlayerModel, Option<Buttons>) {
    if m.index >= m.frames.len() {
        (m, None)
    } else {
        let frame = m.frames[m.index];
        if frame.frame_number == m.frame_number {
            (
                PlayerModel {
                    index: m.index + 1,
                    frame_number: m.frame_number + 1,
                    latest: frame.buttons,
                    ..m
                },
                Some(frame.buttons),
            )
        } else {
            (PlayerModel { frame_number: m.frame_number + 1, ..m }, Some(m.latest))
        }
    }
}

/// The state of a player after `k` steps from `m`.
pub open spec fn player_after(m: PlayerModel, k: nat) -> PlayerModel
    decreases k,
{
    if k == 0 {
        m
    } else {
        player_step(player_after(m, (k - 1) as nat)).0
    }
}

/// What a player started in `m` yields at its step number `k` (from 0).
pub open spec fn player_output(m: PlayerModel, k: nat) -> Option<Buttons> {
    player_step(player_after(m, k)).1
}

/// Plays a recording back as an input stream.
pub struct InputPlayer {
    frames: Vec<RecordedFrame>,
    frames_index: usize,
    frame_number: u64,
    latest_buttons: Buttons,
}

impl InputPlayer {
    #[verifier::type_invariant]
    spec fn inv(self) -> bool {
        self.frames_index <= self.frames@.len()
    }

    /// The player's state.
    pub closed spec fn view(&self) -> PlayerModel {
        PlayerModel {
            frames: self.frames@,
            index: self.frames_index as int,
            frame_number: self.frame_number as int,
            latest: self.latest_buttons,
        }
    }

    /// A player of the recording `input`, which must be a whole recording.
    pub fn new(input: Vec<u8>) -> (result: InputPlayer)
        requires
            decode_recording_spec(input@) is Some,
        ensures
            result@.frames == decode_recording_spec(input@).unwrap(),
            result@.index == 0,
            result@.frame_number == 0,
            result@.latest@ == 0,
    {
        match decode_recording(input.as_slice()) {
            Some(frames) => InputPlayer {
                frames,
                frames_index: 0,
                frame_number: 0,
                latest_buttons: Buttons::empty(),
            },
            None => {
                proof {
                    assert(false);
                }
                InputPlayer {
                    frames: Vec::new(),
                    frames_index: 0,
                    frame_number: 0,
                    latest_buttons: Buttons::empty(),
                }
            },
        }
    }

    /// A player of the recording `input`, or `None` where `input` is not a
    /// whole recording.
    pub fn try_new(input: Vec<u8>) -> (result: Option<InputPlayer>)
        ensures
            decode_recording_spec(input@) is None ==> result is None,
            decode_recording_spec(input@) is Some ==> {
                &&& result matches Some(player)
                &&& player@.frames == decode_recording_spec(input@).unwrap()
                &&& player@.index == 0
                &&& player@.frame_number == 0
                &&& player@.latest@ == 0
            },
    {
        if decode_recording(input.as_slice()).is_some() {
            Some(InputPlayer::new(input))
        } else {
            None
        }
    }

    /// The number of items the player has yielded.
    pub fn frame_number(&self) -> (result: u64)
        ensures
            result == self@.frame_number,
    {
        self.frame_number
    }

    /// The number of frames in the recording.
    pub fn frame_count(&self) -> (result: usize)
        ensures
            result == self@.frames.len(),
    {
        self.frames.len()
    }

    /// The number of frames of the recording played so far.
    pub fn frames_played(&self) -> (result: usize)
        ensures
            result == self@.index,
    {
        self.frames_index
    }

    /// Yields the buttons held in the next frame of the recording, or `None`
    /// once the recording has ended.
    pub fn next(&mut self) -> (result: Option<Buttons>)
        requires
            old(self)@.frame_number < u64::MAX,
        ensures
            (final(self)@, result) == player_step(old(self)@),
    {
        proof {
            use_type_invariant(&*self);
        }
        if self.frames_index == self.frames.len() {
            None
        } else {
            let frame = self.frames[self.frames_index];
            if frame.frame_number == self.frame_number {
                self.latest_buttons = frame.buttons;
                self.frames_index = self.frames_index + 1;
            }
            self.frame_number = self.frame_number + 1;
            Some(self.latest_buttons)
        }
    }
}

} // verus!

verus! {

// ---------------------------------------------------------------------------
// What a recording holds, and what playing it back gives.
// ---------------------------------------------------------------------------

/// Whether the buttons at position `i` of the stream `s` differ from those
/// before them (the first position always counts as a change).
pub open spec fn changes_at(s: Seq<Buttons>, i: int) -> bool {
    i == 0 || s[i] != s[i - 1]
}

/// The frames that record the stream `s`: one for each position at which the
/// buttons change, numbered by that position, in order.
pub open spec fn recorded_frames(s: Seq<Buttons>) -> Seq<RecordedFrame>
    decreases s.len(),
{
    if s.len() == 0 {
        Seq::empty()
    } else {
        let i = s.len() - 1;
        let before = recorded_frames(s.drop_last());
        if changes_at(s, i) {
            before.push(RecordedFrame { frame_number: i as u64, buttons: s[i] })
        } else {
            before
        }
    }
}

/// A recorder started fresh after it has been fed the items of `s`: the
/// buttons it saw last, its count, and the frames it wrote.
pub open spec fn recorder_run(s: Seq<Buttons>) -> (Option<Buttons>, int, Seq<RecordedFrame>)
    decreases s.len(),
{
    if s.len() == 0 {
        (None, 0, Seq::empty())
    } else {
        let (prev, count, written) = recorder_run(s.drop_last());
        let (prev2, count2, frame) = recorder_step(prev, count, Some(s.last()));
        (
            prev2,
            count2,
            match frame {
                Some(f) => written.push(f),
                None => written,
            },
        )
    }
}

/// A fresh recorder fed the stream `s` writes exactly the frames
/// `recorded_frames(s)`: one per change of the held buttons, numbered by its
/// position in the stream.
pub proof fn recorder_writes_each_change(s: Seq<Buttons>)
    requires
        s.len() <= u64::MAX,
    ensures
        recorder_run(s).2 == recorded_frames(s),
        recorder_run(s).1 == s.len(),
        recorder_run(s).0 == (if s.len() == 0 {
            None
        } else {
            Some(s.last())
        }),
    decreases s.len(),
{
    if s.len() > 0 {
        recorder_writes_each_change(s.drop_last());
    }
}

proof fn lemma_recorded_frames_step(s: Seq<Buttons>)
    requires
        s.len() > 0,
    ensures
        recorded_frames(s) == (if changes_at(s, s.len() - 1) {
            recorded_frames(s.drop_last()).push(
                RecordedFrame { frame_number: (s.len() - 1) as u64, buttons: s[s.len() - 1] },
            )
        } else {
            recorded_frames(s.drop_last())
        }),
{
}

/// Every frame of `recorded_frames(s)` names a position of `s` and the buttons
/// there, and the first one names position 0.
proof fn lemma_recorded_frames_positions(s: Seq<Buttons>)
    requires
        0 < s.len() <= u64::MAX,
    ensures
        recorded_frames(s).len() >= 1,
        recorded_frames(s)[0].frame_number == 0,
        forall|j: int|
            0 <= j < recorded_frames(s).len() ==> (#[trigger] recorded_frames(s)[j]).frame_number
                < s.len(),
        forall|j: int|
            0 <= j < recorded_frames(s).len() ==> (#[trigger] recorded_frames(s)[j]).buttons
                == s[recorded_frames(s)[j].frame_number as int],
    decreases s.len(),
{
    let t = s.drop_last();
    lemma_recorded_frames_step(s);
    if s.len() == 1 {
        assert(recorded_frames(t) =~= Seq::<RecordedFrame>::empty());
    } else {
        lemma_recorded_frames_positions(t);
        let g = recorded_frames(t);
        let f = recorded_frames(s);
        assert forall|j: int| 0 <= j < f.len() implies (#[trigger] f[j]).frame_number < s.len()
            && f[j].buttons == s[f[j].frame_number as int] by {
            if j < g.len() {
                assert(f[j] == g[j]);
                assert(t[g[j].frame_number as int] == s[g[j].frame_number as int]);
            }
        }
    }
}

/// The frames of `recorded_frames(s)` come in increasing order of position.
proof fn lemma_recorded_frames_increasing(s: Seq<Buttons>)
    requires
        s.len() <= u64::MAX,
    ensures
        forall|j1: int, j2: int|
            0 <= j1 < j2 < recorded_frames(s).len() ==> (#[trigger] recorded_frames(s)[j1]).frame_number
                < (#[trigger] recorded_frames(s)[j2]).frame_number,
    decreases s.len(),
{
    if s.len() > 0 {
        let t = s.drop_last();
        lemma_recorded_frames_step(s);
        lemma_recorded_frames_increasing(t);
        let g = recorded_frames(t);
        let f = recorded_frames(s);
        if t.len() > 0 {
            lemma_recorded_frames_positions(t);
        } else {
            assert(g =~= Seq::<RecordedFrame>::empty());
        }
        assert forall|j1: int, j2: int| 0 <= j1 < j2 < f.len() implies (#[trigger] f[j1]).frame_number
            < (#[trigger] f[j2]).frame_number by {
            assert(f[j1] == g[j1]);
            if j2 < g.len() {
                assert(f[j2] == g[j2]);
            } else {
                assert(g[j1].frame_number < t.len());
            }
        }
    }
}

/// Between one frame of `recorded_frames(s)` and the next (or the end of `s`),
/// `s` holds that frame's buttons.
proof fn lemma_recorded_frames_cover(s: Seq<Buttons>, j: int, x: int)
    requires
        0 < s.len() <= u64::MAX,
        0 <= j < recorded_frames(s).len(),
        recorded_frames(s)[j].frame_number <= x < s.len(),
        j + 1 == recorded_frames(s).len() || x < recorded_frames(s)[j + 1].frame_number,
    ensures
        s[x] == recorded_frames(s)[j].buttons,
    decreases s.len(),
{
    let t = s.drop_last();
    let n = s.len();
    let i = n - 1;
    lemma_recorded_frames_step(s);
    lemma_recorded_frames_positions(s);
    let f = recorded_frames(s);
    if n == 1 {
        assert(recorded_frames(t) =~= Seq::<RecordedFrame>::empty());
    } else {
        lemma_recorded_frames_positions(t);
        let g = recorded_frames(t);
        if changes_at(s, i) {
            if j < g.len() {
                assert(f[j] == g[j]);
                if j + 1 < g.len() {
                    assert(f[j + 1] == g[j + 1]);
                    assert(g[j + 1].frame_number < t.len());
                }
                lemma_recorded_frames_cover(t, j, x);
            }
        } else {
            let last = g.len() - 1;
            assert(g[last].frame_number < t.len());
            if x < i {
                lemma_recorded_frames_cover(t, j, x);
            } else {
                if j + 1 < f.len() {
                    assert(g[j + 1].frame_number < t.len());
                }
                assert(j == last);
                lemma_recorded_frames_cover(t, last, i - 1);
            }
        }
    }
}

/// A player in state `m` has yielded the first `k` items of the stream `s`
/// whose recording is `f`: it has used exactly the frames numbered below `k`,
/// and holds the buttons of position `k - 1`.
spec fn player_tracks(s: Seq<Buttons>, f: Seq<RecordedFrame>, m: PlayerModel, k: int) -> bool {
    &&& m.frames == f
    &&& m.frame_number == k
    &&& 0 <= m.index <= f.len()
    &&& forall|j: int| 0 <= j < m.index ==> (#[trigger] f[j]).frame_number < k
    &&& forall|j: int| m.index <= j < f.len() ==> (#[trigger] f[j]).frame_number >= k
    &&& k > 0 ==> m.latest == s[k - 1]
}

proof fn lemma_player_step_tracks(s: Seq<Buttons>, m: PlayerModel, k: int)
    requires
        0 < s.len() <= u64::MAX,
        player_tracks(s, recorded_frames(s), m, k),
        0 <= k <= recorded_frames(s).last().frame_number,
    ensures
        player_tracks(s, recorded_frames(s), player_step(m).0, k + 1),
        player_step(m).1 == Some(s[k]),
{
    let f = recorded_frames(s);
    lemma_recorded_frames_positions(s);
    lemma_recorded_frames_increasing(s);
    let last = f.len() - 1;
    if m.index == f.len() {
        assert(f[last].frame_number < k);
    }
    let idx = m.index;
    let frame = f[idx];
    assert(frame.frame_number >= k);
    if frame.frame_number == k {
        let m2 = player_step(m).0;
        assert forall|j: int| m2.index <= j < f.len() implies (#[trigger] f[j]).frame_number >= k + 1 by {
            assert(f[idx].frame_number < f[j].frame_number);
        }
    } else {
        if k == 0 {
            assert(f[0].frame_number == 0);
            assert(false);
        }
        assert(f[0].frame_number < k);
        assert(idx > 0);
        let j = idx - 1;
        assert(f[j].frame_number < k);
        lemma_recorded_frames_cover(s, j, k);
        lemma_recorded_frames_cover(s, j, k - 1);
        let m2 = player_step(m).0;
        assert forall|j2: int| m2.index <= j2 < f.len() implies (#[trigger] f[j2]).frame_number >= k + 1 by {
            if j2 > idx {
                assert(f[idx].frame_number < f[j2].frame_number);
            }
        }
    }
}

proof fn lemma_player_after_tracks(s: Seq<Buttons>, latest: Buttons, k: nat)
    requires
        0 < s.len() <= u64::MAX,
        k <= recorded_frames(s).last().frame_number + 1,
    ensures
        player_tracks(
            s,
            recorded_frames(s),
            player_after(
                PlayerModel { frames: recorded_frames(s), index: 0, frame_number: 0, latest },
                k,
            ),
            k as int,
        ),
    decreases k,
{
    let start = PlayerModel { frames: recorded_frames(s), index: 0, frame_number: 0, latest };
    if k == 0 {
        lemma_recorded_frames_positions(s);
    } else {
        lemma_player_after_tracks(s, latest, (k - 1) as nat);
        lemma_player_step_tracks(s, player_after(start, (k - 1) as nat), k - 1);
    }
}

proof fn lemma_player_after_end(s: Seq<Buttons>, latest: Buttons, k: nat)
    requires
        0 < s.len() <= u64::MAX,
        k >= recorded_frames(s).last().frame_number + 1,
    ensures
        ({
            let start = PlayerModel { frames: recorded_frames(s), index: 0, frame_number: 0, latest };
            let end = (recorded_frames(s).last().frame_number + 1) as nat;
            &&& player_after(start, k) == player_after(start, end)
            &&& player_after(start, k).index == recorded_frames(s).len()
        }),
    decreases k,
{
    let f = recorded_frames(s);
    let start = PlayerModel { frames: f, index: 0, frame_number: 0, latest };
    lemma_recorded_frames_positions(s);
    let end = (f.last().frame_number + 1) as nat;
    if k == end {
        lemma_player_after_tracks(s, latest, end);
        lemma_recorded_frames_increasing(s);
        let m = player_after(start, end);
        if m.index < f.len() {
            let last = f.len() - 1;
            if m.index < last {
                assert(f[m.index].frame_number < f[last].frame_number);
            }
            assert(f[m.index].frame_number >= end);
        }
    } else {
        lemma_player_after_end(s, latest, (k - 1) as nat);
        lemma_player_after_tracks(s, latest, end);
        assert(player_after(start, k) == player_step(player_after(start, (k - 1) as nat)).0);
    }
}

/// Playing back the recording of a stream gives the stream back: a player of
/// `recorded_frames(s)` yields `s[0]`, `s[1]`, ... up to the position of the
/// last change of buttons in `s`, and nothing after that (whatever buttons it
/// started with).
pub proof fn playback_reproduces_recording(s: Seq<Buttons>, latest: Buttons, k: nat)
    requires
        0 < s.len() <= u64::MAX,
    ensures
        ({
            let f = recorded_frames(s);
            let start = PlayerModel { frames: f, index: 0, frame_number: 0, latest };
            player_output(start, k) == if k <= f.last().frame_number {
                Some(s[k as int])
            } else {
                None
            }
        }),
{
    let f = recorded_frames(s);
    let start = PlayerModel { frames: f, index: 0, frame_number: 0, latest };
    lemma_recorded_frames_positions(s);
    if k <= f.last().frame_number {
        lemma_player_after_tracks(s, latest, k);
        lemma_player_step_tracks(s, player_after(start, k), k as int);
    } else {
        lemma_player_after_end(s, latest, k);
        lemma_player_after_tracks(s, latest, (f.last().frame_number + 1) as nat);
    }
}

/// Recording a stream and playing the recording back gives the stream back:
/// where `messages` are what `encode_recorded_frame` gives for the frames that
/// a recorder writes for the stream `s`, a player of the recording made of
/// those messages yields `s[0]`, `s[1]`, ... up to the last change of buttons
/// in `s`, and nothing after that.
pub proof fn recorded_stream_plays_back(s: Seq<Buttons>, messages: Seq<Seq<u8>>, latest: Buttons, k: nat)
    requires
        0 < s.len() <= u64::MAX,
        messages.len() == recorded_frames(s).len(),
        forall|i: int|
            0 <= i < messages.len() ==> #[trigger] messages[i] == postcard_frame_bytes(
                recorded_frames(s)[i].frame_number,
                recorded_frames(s)[i].buttons@,
            ),
        messages.flatten().len() <= usize::MAX,
    ensures
        ({
            let f = recorded_frames(s);
            &&& decode_recording_spec(messages.flatten()) == Some(f)
            &&& player_output(PlayerModel { frames: f, index: 0, frame_number: 0, latest }, k)
                == if k <= f.last().frame_number {
                Some(s[k as int])
            } else {
                None
            }
        }),
{
    recording_reads_back(recorded_frames(s), messages);
    playback_reproduces_recording(s, latest, k);
}

} // verus!
