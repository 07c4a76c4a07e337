//! One screen session as a state machine: the announcement of the screen
//! size, then one wave of tile frames for each captured frame.

use vstd::prelude::*;
use crate::desktop::{
    accepts_tiles, clamp_quality, compress_fails, due_tiles, screen_extent, tiles_encode,
    DesktopConfig, EncoderView, TileData, TileEncoder, ENCODING_JPEG, MAX_SCREEN_EXTENT,
};
use crate::protocol::{
    desktop_frame_from, desktop_resize, frame_of, size_payload, tile_payload, Frame, Message,
    DESKTOP_CLOSE, DESKTOP_FRAME, DESKTOP_RESIZE,
};
use crate::reassembly::frames_of;

verus! {

/// Raw screen frame data from a capture.
#[derive(Debug)]
pub struct ScreenFrame {
    /// Width in pixels
    pub width: u32,
    /// Height in pixels
    pub height: u32,
    /// Raw BGRA pixel data
    pub data: Vec<u8>,
    /// Stride (bytes per row)
    pub stride: u32,
}

/// How long the capture waits for a frame, in milliseconds.
pub const FRAME_ACQUIRE_TIMEOUT_MS: u64 = 100;

#[derive(Debug, Clone, Copy, PartialEq, Eq, Structural)]
pub enum ScreenState {
    Initializing,
    Streaming,
    Ending,
}

/// The time between two captures at `fps` frames per second, in
/// milliseconds; a rate of zero counts as one.
pub open spec fn interval_ms(fps: u16) -> int {
    if fps == 0 {
        1000
    } else {
        1000int / (fps as int)
    }
}

pub fn frame_interval_ms(fps: u16) -> (ms: u64)
    ensures
        ms == interval_ms(fps),
        ms <= 1000,
{
    let rate: u64 = if fps == 0 {
        1
    } else {
        fps as u64
    };
    1000 / rate
}

/// The frame that carries one tile on `channel`.
pub open spec fn tile_frame(channel: u16, tile: TileData) -> Frame {
    frame_of(
        DESKTOP_FRAME,
        channel,
        0,
        tile_payload(tile.x, tile.y, tile.w, tile.h, ENCODING_JPEG, tile.flags, tile.data@),
    )
}

/// The frames that carry `tiles` on `channel`, in order.
pub open spec fn tile_frames(channel: u16, tiles: Seq<TileData>) -> Seq<Frame> {
    tiles.map_values(|t: TileData| tile_frame(channel, t))
}

/// The `DESKTOP_FRAME` messages for a wave of tiles, one for each, in order.
pub fn frame_messages(channel: u16, tiles: &Vec<TileData>) -> (out: Vec<Message>)
    ensures
        frames_of(out@) == tile_frames(channel, tiles@),
{
    let mut out: Vec<Message> = Vec::new();
    let mut i: usize = 0;
    while i < tiles.len()
        invariant
            i <= tiles@.len(),
            frames_of(out@) == tile_frames(channel, tiles@.take(i as int)),
        decreases tiles@.len() - i,
    {
        let tile = &tiles[i];
        let msg = desktop_frame_from(
            channel,
            tile.x,
            tile.y,
            tile.w,
            tile.h,
            ENCODING_JPEG,
            tile.flags,
            tile.data.as_slice(),
        );
        let ghost before = frames_of(out@);
        out.push(msg);
        proof {
            assert(tiles@.take(i + 1) =~= tiles@.take(i as int).push(tiles@[i as int]));
            assert(frames_of(out@) =~= before.push(msg@));
            assert(tile_frames(channel, tiles@.take(i + 1)) =~= tile_frames(
                channel,
                tiles@.take(i as int),
            ).push(tile_frame(channel, tiles@[i as int])));
        }
        i += 1;
    }
    proof {
        assert(tiles@.take(tiles@.len() as int) =~= tiles@);
    }
    out
}

/// The session's state as a mathematical value.
pub struct ScreenView {
    pub channel: u16,
    pub state: ScreenState,
    pub fps: u16,
    pub quality: u8,
    /// The encoder, once the capture has told the screen's size.
    pub encoder: Option<EncoderView>,
    /// The frames that the session has produced so far, in order.
    pub sent: Seq<Frame>,
}

/// The frames of a session are all on its channel; the size announcement
/// stands first or nowhere, and no tile frame comes before it.
pub open spec fn ordered_frames(channel: u16, sent: Seq<Frame>) -> bool {
    &&& forall|i: int| 0 <= i < sent.len() ==> (#[trigger] sent[i]).header.channel == channel
    &&& forall|i: int|
        0 <= i < sent.len() && (#[trigger] sent[i]).header.msg_type == DESKTOP_RESIZE ==> i == 0
    &&& forall|i: int|
        0 <= i < sent.len() && (#[trigger] sent[i]).header.msg_type == DESKTOP_FRAME ==> i > 0
            && sent[0].header.msg_type == DESKTOP_RESIZE
}

impl ScreenView {
    pub open spec fn wf(self) -> bool {
        &&& ordered_frames(self.channel, self.sent)
        &&& self.state is Initializing ==> self.sent.len() == 0 && self.encoder is None
        &&& self.state is Streaming ==> self.encoder is Some && self.sent.len() > 0
            && self.sent[0].header.msg_type == DESKTOP_RESIZE
    }
}

/// What a captured frame led to: the tile frames `out` of the due tiles as
/// `compress` encoded them, and the frame kept for the next comparison; or no
/// frames at all where `compress` failed, and the earlier frame kept.
pub open spec fn frame_outcome<E, F: Fn(Vec<u8>, u32, u32, u8) -> Result<Vec<u8>, E>>(
    compress: F,
    channel: u16,
    before: EncoderView,
    data: Seq<u8>,
    stride: int,
    out: Seq<Frame>,
    after: EncoderView,
) -> bool {
    ||| (exists|tiles: Seq<TileData>| #[trigger]
        tiles_encode(compress, tiles, due_tiles(before, data, stride), before.quality) && out
            == tile_frames(channel, tiles)) && after == (EncoderView {
        prev_frame: data,
        force_keyframe: false,
        ..before
    })
    ||| (exists|err: E| #[trigger]
        compress_fails(compress, due_tiles(before, data, stride), before.quality, err))
        && out.len() == 0 && after == (EncoderView { force_keyframe: false, ..before })
}

/// One screen session on its channel.
pub struct DesktopSession {
    channel: u16,
    fps: u16,
    quality: u8,
    encoder: Option<TileEncoder>,
    state: ScreenState,
    sent: Ghost<Seq<Frame>>,
}

impl View for DesktopSession {
    type V = ScreenView;

    closed spec fn view(&self) -> ScreenView {
        ScreenView {
            channel: self.channel,
            state: self.state,
            fps: self.fps,
            quality: self.quality,
            encoder: match self.encoder {
                Some(e) => Some(e@),
                None => None,
            },
            sent: self.sent@,
        }
    }
}

proof fn lemma_tile_frames_kind(channel: u16, tiles: Seq<TileData>)
    ensures
        tile_frames(channel, tiles).len() == tiles.len(),
        forall|i: int|
            0 <= i < tiles.len() ==> (#[trigger] tile_frames(channel, tiles)[i]).header.channel
                == channel && tile_frames(channel, tiles)[i].header.msg_type == DESKTOP_FRAME,
{
}

proof fn lemma_frames_extend(channel: u16, sent: Seq<Frame>, more: Seq<Frame>)
    requires
        ordered_frames(channel, sent),
        sent.len() > 0,
        sent[0].header.msg_type == DESKTOP_RESIZE,
        forall|i: int|
            0 <= i < more.len() ==> (#[trigger] more[i]).header.channel == channel
                && more[i].header.msg_type != DESKTOP_RESIZE,
    ensures
        ordered_frames(channel, sent + more),
        (sent + more)[0].header.msg_type == DESKTOP_RESIZE,
{
    let all = sent + more;
    assert forall|i: int| 0 <= i < all.len() implies (#[trigger] all[i]).header.channel
        == channel by {
        if i >= sent.len() {
            assert(all[i] == more[i - sent.len()]);
        }
    }
    assert forall|i: int|
        0 <= i < all.len() && (#[trigger] all[i]).header.msg_type == DESKTOP_RESIZE implies i
        == 0 by {
        if i >= sent.len() {
            assert(all[i] == more[i - sent.len()]);
        }
    }
}

impl DesktopSession {
    /// The invariant of the session.
    pub closed spec fn wf(&self) -> bool {
        &&& self@.wf()
        &&& self.encoder matches Some(e) ==> e.wf()
    }

    /// A session whose capture is being set up.
    pub fn new(channel: u16, config: &DesktopConfig) -> (s: Self)
        ensures
            s.wf(),
            s@ == (ScreenView {
                channel,
                state: ScreenState::Initializing,
                fps: config.fps,
                quality: config.quality,
                encoder: None,
                sent: Seq::empty(),
            }),
    {
        DesktopSession {
            channel,
            fps: config.fps,
            quality: config.quality,
            encoder: None,
            state: ScreenState::Initializing,
            sent: Ghost(Seq::empty()),
        }
    }

    pub fn channel(&self) -> (c: u16)
        ensures
            c == self@.channel,
    {
        self.channel
    }

    pub fn state(&self) -> (s: ScreenState)
        ensures
            s == self@.state,
    {
        self.state
    }

    /// The time between two captures, in milliseconds.
    pub fn frame_interval(&self) -> (ms: u64)
        ensures
            ms == interval_ms(self@.fps),
    {
        frame_interval_ms(self.fps)
    }

    /// The capture is set up and has told the screen's size: the session
    /// streams from now on, and its first frame, the `DESKTOP_RESIZE` with
    /// the size of the screen that the encoder works on, comes back. `None`,
    /// and no change, unless the session was being set up.
    pub fn on_initialized(&mut self, width: u32, height: u32) -> (r: Option<Message>)
        requires
            old(self).wf(),
        ensures
            final(self).wf(),
            old(self)@.state is Initializing ==> (r matches Some(m) && m@ == frame_of(
                DESKTOP_RESIZE,
                old(self)@.channel,
                0,
                size_payload(screen_extent(width) as u16, screen_extent(height) as u16),
            ) && final(self)@ == (ScreenView {
                state: ScreenState::Streaming,
                encoder: Some(
                    EncoderView {
                        width: screen_extent(width),
                        height: screen_extent(height),
                        quality: clamp_quality(old(self)@.quality),
                        prev_frame: Seq::empty(),
                        force_keyframe: true,
                    },
                ),
                sent: seq![m@],
                ..old(self)@
            })),
            !(old(self)@.state is Initializing) ==> r is None && final(self)@ == old(self)@,
    {
        match self.state {
            ScreenState::Initializing => {},
            _ => {
                return None;
            },
        }
        let encoder = TileEncoder::new(width, height, self.quality);
        let shown_width: u16 = if width > MAX_SCREEN_EXTENT {
            65535
        } else {
            (width % 65536) as u16
        };
        let shown_height: u16 = if height > MAX_SCREEN_EXTENT {
            65535
        } else {
            (height % 65536) as u16
        };
        let msg = desktop_resize(self.channel, shown_width, shown_height);
        self.encoder = Some(encoder);
        self.state = ScreenState::Streaming;
        self.sent = Ghost(Seq::empty().push(msg@));
        proof {
            assert(self.sent@ =~= seq![msg@]);
        }
        Some(msg)
    }

    /// The capture could not be set up: the session ends.
    pub fn on_init_failed(&mut self)
        requires
            old(self).wf(),
        ensures
            final(self).wf(),
            final(self)@ == (ScreenView {
                state: if old(self)@.state is Initializing {
                    ScreenState::Ending
                } else {
                    old(self)@.state
                },
                ..old(self)@
            }),
    {
        match self.state {
            ScreenState::Initializing => {
                self.state = ScreenState::Ending;
            },
            _ => {},
        }
    }

    /// A frame has been captured. While the session streams, the due tiles
    /// are encoded and come back as `DESKTOP_FRAME` messages on the session's
    /// channel; where the encoding fails nothing comes back. A session that
    /// does not stream produces nothing.
    pub fn on_frame<E, F: Fn(Vec<u8>, u32, u32, u8) -> Result<Vec<u8>, E>>(
        &mut self,
        data: &[u8],
        stride: u32,
        compress: F,
    ) -> (out: Vec<Message>)
        requires
            old(self).wf(),
            accepts_tiles(compress),
        ensures
            final(self).wf(),
            !(old(self)@.state is Streaming) ==> out@.len() == 0 && final(self)@ == old(self)@,
            old(self)@.state is Streaming ==> final(self)@.encoder is Some && frame_outcome(
                compress,
                old(self)@.channel,
                old(self)@.encoder->0,
                data@,
                stride as int,
                frames_of(out@),
                final(self)@.encoder->0,
            ) && final(self)@ == (ScreenView {
                encoder: final(self)@.encoder,
                sent: old(self)@.sent + frames_of(out@),
                ..old(self)@
            }),
    {
        match self.state {
            ScreenState::Streaming => {},
            _ => {
                return Vec::new();
            },
        }
        let mut encoder = self.encoder.take().unwrap();
        let ghost before = encoder@;
        let result = encoder.encode_frame(data, stride, compress);
        let ghost after = encoder@;
        self.encoder = Some(encoder);
        match result {
            Ok(tiles) => {
                let out = frame_messages(self.channel, &tiles);
                proof {
                    lemma_tile_frames_kind(self.channel, tiles@);
                    lemma_frames_extend(self.channel, self.sent@, frames_of(out@));
                    assert(tiles_encode(
                        compress,
                        tiles@,
                        due_tiles(before, data@, stride as int),
                        before.quality,
                    ));
                }
                self.sent = Ghost(self.sent@ + frames_of(out@));
                out
            },
            Err(err) => {
                let out: Vec<Message> = Vec::new();
                proof {
                    assert(compress_fails(
                        compress,
                        due_tiles(before, data@, stride as int),
                        before.quality,
                        err,
                    ));
                    assert(self.sent@ + frames_of(out@) =~= self.sent@);
                }
                out
            },
        }
    }

    /// The server asked for another quality: the encoder takes it, clamped,
    /// and the next frame is a keyframe.
    pub fn set_quality(&mut self, quality: u8)
        requires
            old(self).wf(),
        ensures
            final(self).wf(),
            old(self)@.encoder matches Some(e) ==> final(self)@ == (ScreenView {
                quality,
                encoder: Some(
                    EncoderView { quality: clamp_quality(quality), force_keyframe: true, ..e },
                ),
                ..old(self)@
            }),
            old(self)@.encoder is None ==> final(self)@ == (ScreenView { quality, ..old(self)@ }),
    {
        self.quality = quality;
        match self.encoder.take() {
            Some(mut encoder) => {
                encoder.set_quality(quality);
                encoder.request_keyframe();
                self.encoder = Some(encoder);
            },
            None => {},
        }
    }

    /// The session is to end: a frame could not be sent, or the server closed
    /// the session.
    pub fn close(&mut self)
        requires
            old(self).wf(),
        ensures
            final(self).wf(),
            final(self)@ == (ScreenView {
                state: ScreenState::Ending,
                encoder: None,
                ..old(self)@
            }),
    {
        self.state = ScreenState::Ending;
        self.encoder = None;
    }

    /// The `DESKTOP_CLOSE` that tells the server that the session is over:
    /// owed once the session has ended, and not before.
    pub fn closing_frame(&self) -> (m: Option<Message>)
        ensures
            self@.state is Ending ==> (m matches Some(close) && close@ == frame_of(
                DESKTOP_CLOSE,
                self@.channel,
                0,
                Seq::empty(),
            )),
            !(self@.state is Ending) ==> m is None,
    {
        match self.state {
            ScreenState::Ending => Some(
                Message::session(DESKTOP_CLOSE, self.channel, 0, Vec::new()),
            ),
            _ => None,
        }
    }
}

/// In every state that a screen session can reach, all frames it produced are
/// on its channel, and the first frame of a session that streams or streamed
/// tiles is the `DESKTOP_RESIZE`.
pub proof fn lemma_resize_first(s: ScreenView, i: int)
    requires
        s.wf(),
        0 <= i < s.sent.len(),
    ensures
        s.sent[i].header.channel == s.channel,
        s.sent[i].header.msg_type == DESKTOP_FRAME ==> i > 0 && s.sent[0].header.msg_type
            == DESKTOP_RESIZE,
        s.state is Streaming ==> s.sent[0].header.msg_type == DESKTOP_RESIZE,
{
}

} // verus!
