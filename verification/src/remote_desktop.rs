//! The Remote Desktop panel: reassembling a remote screen's frames, and turning
//! local pointer input into remote input.

use vstd::prelude::*;

use crate::text::{
    chars_of, concat2, decimal, decimal_of, join_path, own, path_join, push_all, push_str,
    string_of,
};
use crate::wm::{coord, OutputId, Rect, COORD_LIMIT, PX};

verus! {

// ---------------------------------------------------------------------------
// Pairing
// ---------------------------------------------------------------------------

/// Where the server's address and PIN are read from, given `$HOME`.
pub fn pair_config_path(home: Option<&str>) -> (r: String)
    ensures
        r@ == path_join(
            match home {
                Some(h) => h@,
                None => "/root"@,
            },
            ".config/bacak-remote/pair.json"@,
        ),
{
    match home {
        Some(h) => join_path(h, ".config/bacak-remote/pair.json"),
        None => join_path("/root", ".config/bacak-remote/pair.json"),
    }
}

/// Why the pairing file could not be used.
#[derive(Debug, Clone, PartialEq, Eq)]
pub enum PairFault {
    /// It cannot be read.
    Missing { path: String },
    /// It does not hold what it should; the reason is the reader's.
    Invalid { reason: String },
}

/// What is said of a pairing file that could not be used.
pub fn pair_fault_text(fault: &PairFault) -> (r: String)
    ensures
        r@ == (match *fault {
            PairFault::Missing { path } => path@ + " bulunamadı"@,
            PairFault::Invalid { reason } => "geçersiz pair.json: "@ + reason@,
        }),
{
    match fault {
        PairFault::Missing { path } => concat2(path.as_str(), " bulunamadı"),
        PairFault::Invalid { reason } => concat2("geçersiz pair.json: ", reason.as_str()),
    }
}

/// What came back for a pairing request.
#[derive(Debug, Clone, Copy, PartialEq, Eq, Structural)]
pub enum PairReply {
    Accepted,
    Rejected,
    /// Nothing in time, or something else.
    Other,
}

/// What follows a pairing request.
#[derive(Debug, Clone, PartialEq, Eq)]
pub enum PairStep {
    /// Send the request again.
    Retry,
    /// Derive the keys and compare the confirmation.
    Confirm,
    Fail { message: String },
}

/// A rejected PIN ends the pairing; silence and noise do not.
pub fn pair_step(reply: PairReply) -> (r: PairStep)
    ensures
        match (r, reply) {
            (PairStep::Confirm, PairReply::Accepted) => true,
            (PairStep::Fail { message }, PairReply::Rejected) => message@ == "sunucu PIN'i reddetti"@,
            (PairStep::Retry, PairReply::Other) => true,
            _ => false,
        },
{
    match reply {
        PairReply::Accepted => PairStep::Confirm,
        PairReply::Rejected => PairStep::Fail { message: own("sunucu PIN'i reddetti") },
        PairReply::Other => PairStep::Retry,
    }
}

/// Whether a server may be trusted: only one whose confirmation matches the keys
/// that were derived.
pub fn confirm_pairing(matches_tag: bool) -> (r: Result<(), String>)
    ensures
        match r {
            Ok(()) => matches_tag,
            Err(m) => !matches_tag && m@
                == "eşleşme doğrulaması başarısız — yanlış PIN ya da güvenilmeyen bağlantı"@,
        },
{
    if matches_tag {
        Ok(())
    } else {
        Err(own("eşleşme doğrulaması başarısız — yanlış PIN ya da güvenilmeyen bağlantı"))
    }
}

// ---------------------------------------------------------------------------
// Frames
// ---------------------------------------------------------------------------

/// How a frame's pixels are encoded.
#[derive(Debug, Clone, Copy, PartialEq, Eq, Structural)]
pub enum Codec {
    /// Raw BGRA, compressed.
    RawZstd,
}

/// What is announced of a frame before its chunks.
#[derive(Debug, Clone, Copy, PartialEq, Eq, Structural)]
pub struct FrameInfo {
    pub frame_id: u32,
    pub width: u32,
    pub height: u32,
    pub chunk_count: u16,
    pub codec: Codec,
}

/// A decoded frame, BGRA.
#[derive(Debug, Clone, PartialEq, Eq)]
pub struct DecodedFrame {
    pub width: u32,
    pub height: u32,
    pub bgra: Vec<u8>,
}

/// What `zstd` decompresses bytes to; none where they are no whole stream.
pub uninterp spec fn zstd_decoded(bytes: Seq<u8>) -> Option<Seq<u8>>;

pub open spec fn opt_bytes(o: Option<Vec<u8>>) -> Option<Seq<u8>> {
    match o {
        Some(v) => Some(v@),
        None => None,
    }
}

/// `zstd::stream::decode_all` depends on the bytes alone.
#[verifier::external_body]
fn decompress(bytes: &[u8]) -> (r: Option<Vec<u8>>)
    ensures
        opt_bytes(r) == zstd_decoded(bytes@),
{
    zstd::stream::decode_all(bytes).ok()
}

struct InProgress {
    info: FrameInfo,
    chunks: Vec<Option<Vec<u8>>>,
    received: u16,
}

/// A frame of which some chunks have come.
#[verifier::ext_equal]
pub struct ProgressView {
    pub info: FrameInfo,
    pub chunks: Seq<Option<Seq<u8>>>,
}

/// How many of the first `n` chunks have come.
pub open spec fn filled(chunks: Seq<Option<Seq<u8>>>, n: int) -> int
    decreases n,
{
    if n <= 0 {
        0
    } else if chunks[n - 1] is Some {
        filled(chunks, n - 1) + 1
    } else {
        filled(chunks, n - 1)
    }
}

/// The first `n` chunks in a row.
pub open spec fn payload_upto(chunks: Seq<Option<Seq<u8>>>, n: int) -> Seq<u8>
    decreases n,
{
    if n <= 0 {
        seq![]
    } else {
        payload_upto(chunks, n - 1) + chunks[n - 1]->0
    }
}

pub open spec fn complete(chunks: Seq<Option<Seq<u8>>>) -> bool {
    forall|k: int| 0 <= k < chunks.len() ==> #[trigger] chunks[k] is Some
}

pub open spec fn chunks_view(v: Seq<Option<Vec<u8>>>) -> Seq<Option<Seq<u8>>> {
    v.map_values(|o: Option<Vec<u8>>| opt_bytes(o))
}

proof fn lemma_filled(chunks: Seq<Option<Seq<u8>>>, n: int)
    requires
        0 <= n <= chunks.len(),
    ensures
        0 <= filled(chunks, n) <= n,
        filled(chunks, n) == n <==> forall|k: int| 0 <= k < n ==> #[trigger] chunks[k] is Some,
    decreases n,
{
    if n > 0 {
        lemma_filled(chunks, n - 1);
    }
}

proof fn lemma_filled_update(chunks: Seq<Option<Seq<u8>>>, i: int, data: Seq<u8>, n: int)
    requires
        0 <= i < chunks.len(),
        0 <= n <= chunks.len(),
        chunks[i] is None,
    ensures
        filled(chunks.update(i, Some(data)), n) == filled(chunks, n) + (if i < n {
            1int
        } else {
            0
        }),
    decreases n,
{
    if n > 0 {
        lemma_filled_update(chunks, i, data, n - 1);
    }
}

proof fn lemma_filled_none(chunks: Seq<Option<Seq<u8>>>, n: int)
    requires
        0 <= n <= chunks.len(),
        forall|k: int| 0 <= k < chunks.len() ==> #[trigger] chunks[k] is None,
    ensures
        filled(chunks, n) == 0,
    decreases n,
{
    if n > 0 {
        lemma_filled_none(chunks, n - 1);
    }
}

/// One in-flight frame's chunks. An incomplete frame is dropped the moment a
/// newer one starts: a live desktop prefers a dropped frame over a stale one.
pub struct FrameReassembler {
    current: Option<InProgress>,
}

impl View for FrameReassembler {
    type V = Option<ProgressView>;

    closed spec fn view(&self) -> Option<ProgressView> {
        match self.current {
            Some(p) => Some(ProgressView { info: p.info, chunks: chunks_view(p.chunks@) }),
            None => None,
        }
    }
}

/// The frame with chunk `index` filled in, unless it has come already.
pub open spec fn with_chunk(p: ProgressView, index: int, data: Seq<u8>) -> ProgressView {
    if p.chunks[index] is None {
        ProgressView { info: p.info, chunks: p.chunks.update(index, Some(data)) }
    } else {
        p
    }
}

/// What a chunk comes to: the frame in flight after it, and the compressed
/// payload once it is whole.
pub open spec fn chunk_step(
    current: Option<ProgressView>,
    frame_id: u32,
    index: u16,
    data: Seq<u8>,
) -> (Option<ProgressView>, Option<Seq<u8>>) {
    match current {
        None => (None, None),
        Some(p) => if p.info.frame_id != frame_id || index >= p.chunks.len() {
            (Some(p), None)
        } else {
            let next = with_chunk(p, index as int, data);
            if complete(next.chunks) {
                (None, Some(payload_upto(next.chunks, next.chunks.len() as int)))
            } else {
                (Some(next), None)
            }
        },
    }
}

/// Whether `r` is the frame that a chunk gave: the decoded payload where it made
/// the frame in flight whole and could be decoded, with the size announced; else
/// nothing.
pub open spec fn chunk_gives(
    before: Option<ProgressView>,
    payload: Option<Seq<u8>>,
    r: Option<DecodedFrame>,
) -> bool {
    match (before, payload) {
        (Some(p), Some(payload)) => match (r, zstd_decoded(payload)) {
            (Some(f), Some(b)) => f.bgra@ == b && f.width == p.info.width && f.height
                == p.info.height,
            (None, None) => true,
            _ => false,
        },
        _ => r is None,
    }
}

/// A frame of which nothing has come yet.
pub open spec fn announced(current: Option<ProgressView>, info: FrameInfo) -> bool {
    match current {
        Some(p) => {
            &&& p.info == info
            &&& p.chunks.len() == info.chunk_count
            &&& forall|k: int| 0 <= k < p.chunks.len() ==> #[trigger] p.chunks[k] is None
        },
        None => false,
    }
}

/// A frame from its pixels, if they could be had.
pub fn frame_from(info: FrameInfo, bgra: Option<Vec<u8>>) -> (r: Option<DecodedFrame>)
    ensures
        match (r, bgra) {
            (Some(f), Some(b)) => f.width == info.width && f.height == info.height && f.bgra@ == b@,
            (None, None) => true,
            _ => false,
        },
{
    match bgra {
        Some(bgra) => Some(DecodedFrame { width: info.width, height: info.height, bgra }),
        None => None,
    }
}

fn no_chunks(n: usize) -> (r: Vec<Option<Vec<u8>>>)
    ensures
        r@.len() == n,
        forall|k: int| 0 <= k < n ==> #[trigger] r@[k] is None,
{
    let mut v: Vec<Option<Vec<u8>>> = Vec::new();
    let mut i: usize = 0;
    while i < n
        invariant
            i <= n,
            v@.len() == i,
            forall|k: int| 0 <= k < i ==> #[trigger] v@[k] is None,
        decreases n - i,
    {
        v.push(None);
        i += 1;
    }
    v
}

fn join_chunks(chunks: &Vec<Option<Vec<u8>>>) -> (r: Vec<u8>)
    requires
        complete(chunks_view(chunks@)),
    ensures
        r@ == payload_upto(chunks_view(chunks@), chunks@.len() as int),
{
    let ghost all = chunks_view(chunks@);
    assert(all.len() == chunks@.len());
    let mut payload: Vec<u8> = Vec::new();
    let mut i: usize = 0;
    assert(payload@ =~= seq![]);
    while i < chunks.len()
        invariant
            i <= chunks.len(),
            all == chunks_view(chunks@),
            all.len() == chunks@.len(),
            complete(all),
            payload@ == payload_upto(all, i as int),
        decreases chunks.len() - i,
    {
        assert(all[i as int] is Some);
        assert(all[i as int] == opt_bytes(chunks@[i as int]));
        let ghost done = payload@;
        match &chunks[i] {
            Some(c) => {
                let mut j: usize = 0;
                assert(payload@ =~= done + c@.take(0));
                while j < c.len()
                    invariant
                        j <= c.len(),
                        payload@ == done + c@.take(j as int),
                    decreases c.len() - j,
                {
                    payload.push(c[j]);
                    assert(payload@ =~= done + c@.take(j + 1));
                    j += 1;
                }
                assert(c@.take(c@.len() as int) =~= c@);
            },
            None => {},
        }
        i += 1;
    }
    payload
}

impl Default for FrameReassembler {
    fn default() -> (r: FrameReassembler)
        ensures
            r@ is None,
            r.wf(),
    {
        FrameReassembler { current: None }
    }
}

impl FrameReassembler {
    /// The count of chunks that have come is right, and the frame in flight is
    /// not whole.
    pub closed spec fn wf(&self) -> bool {
        self.current matches Some(p) ==> {
            &&& p.chunks@.len() == p.info.chunk_count
            &&& p.received == filled(chunks_view(p.chunks@), p.chunks@.len() as int)
            &&& p.info.chunk_count > 0 ==> p.received < p.info.chunk_count
        }
    }

    /// A frame is announced: whatever was in flight is dropped.
    pub fn start_frame(&mut self, info: FrameInfo)
        ensures
            final(self).wf(),
            announced(final(self)@, info),
    {
        let chunks: Vec<Option<Vec<u8>>> = no_chunks(info.chunk_count as usize);
        proof {
            let all = chunks_view(chunks@);
            assert forall|k: int| 0 <= k < all.len() implies #[trigger] all[k] is None by {
                assert(chunks@[k] is None);
            }
            lemma_filled_none(all, all.len() as int);
        }
        self.current = Some(InProgress { info, chunks, received: 0 });
    }

    /// A chunk arrives. One of another frame, or beyond the announced count, is
    /// ignored, and one that has come already is not taken again. The chunk that
    /// makes the frame whole gives the decoded frame, if it can be decoded.
    pub fn add_chunk(&mut self, frame_id: u32, chunk_index: u16, data: Vec<u8>) -> (r: Option<
        DecodedFrame,
    >)
        requires
            old(self).wf(),
        ensures
            final(self).wf(),
            final(self)@ == chunk_step(old(self)@, frame_id, chunk_index, data@).0,
            chunk_gives(
                old(self)@,
                chunk_step(old(self)@, frame_id, chunk_index, data@).1,
                r,
            ),
    {
        let ghost before = self@;
        let mut p: InProgress = match self.current.take() {
            Some(p) => p,
            None => {
                return None;
            },
        };
        let ghost all = chunks_view(p.chunks@);
        assert(all.len() == p.chunks@.len());
        if p.info.frame_id != frame_id || chunk_index as usize >= p.chunks.len() {
            self.current = Some(p);
            return None;
        }
        let i: usize = chunk_index as usize;
        assert(all[i as int] == opt_bytes(p.chunks@[i as int]));
        proof {
            lemma_filled(all, all.len() as int);
        }
        if p.chunks[i].is_none() {
            proof {
                lemma_filled_update(all, i as int, data@, all.len() as int);
            }
            p.chunks.set(i, Some(data));
            p.received = p.received + 1;
            assert(chunks_view(p.chunks@) =~= all.update(i as int, Some(data@)));
        }
        let ghost next = chunks_view(p.chunks@);
        proof {
            lemma_filled(next, next.len() as int);
        }
        if p.received < p.info.chunk_count {
            self.current = Some(p);
            assert(!complete(next));
            assert(self@->0 =~= with_chunk(before->0, i as int, data@));
            return None;
        }
        assert(complete(next));
        let payload: Vec<u8> = join_chunks(&p.chunks);
        let bgra: Option<Vec<u8>> = match p.info.codec {
            Codec::RawZstd => decompress(payload.as_slice()),
        };
        frame_from(p.info, bgra)
    }
}

/// A message of the video channel.
#[derive(Debug, Clone, PartialEq, Eq)]
pub enum VideoMessage {
    Info(FrameInfo),
    Chunk { frame_id: u32, chunk_index: u16, data: Vec<u8> },
    Other,
}

/// What a message of the video channel comes to: an announcement starts a frame,
/// a chunk goes to the one in flight, anything else is ignored.
pub fn receive(frames: &mut FrameReassembler, msg: VideoMessage) -> (r: Option<DecodedFrame>)
    requires
        old(frames).wf(),
    ensures
        final(frames).wf(),
        match msg {
            VideoMessage::Info(info) => r is None && announced(final(frames)@, info),
            VideoMessage::Chunk { frame_id, chunk_index, data } => {
                let step = chunk_step(old(frames)@, frame_id, chunk_index, data@);
                final(frames)@ == step.0 && chunk_gives(old(frames)@, step.1, r)
            },
            VideoMessage::Other => r is None && final(frames)@ == old(frames)@,
        },
{
    match msg {
        VideoMessage::Info(info) => {
            frames.start_frame(info);
            None
        },
        VideoMessage::Chunk { frame_id, chunk_index, data } => frames.add_chunk(
            frame_id,
            chunk_index,
            data,
        ),
        VideoMessage::Other => None,
    }
}

// ---------------------------------------------------------------------------
// Status
// ---------------------------------------------------------------------------

/// Where a session stands.
#[derive(Debug, Clone, PartialEq, Eq)]
pub enum SessionStatus {
    Connecting,
    Failed(String),
    Connected { width: u32, height: u32 },
}

pub open spec fn status_of(status: SessionStatus) -> Seq<char> {
    match status {
        SessionStatus::Connecting => "Bağlanıyor…"@,
        SessionStatus::Failed(e) => "Bağlantı hatası: "@ + e@,
        SessionStatus::Connected { width, height } => "Bağlandı — "@ + decimal(width as nat) + "x"@
            + decimal(height as nat),
    }
}

/// What the panel says of the session.
pub fn remote_desktop_status_text(status: &SessionStatus) -> (r: String)
    ensures
        r@ == status_of(*status),
{
    match status {
        SessionStatus::Connecting => own("Bağlanıyor…"),
        SessionStatus::Failed(e) => concat2("Bağlantı hatası: ", e.as_str()),
        SessionStatus::Connected { width, height } => {
            let mut v: Vec<char> = chars_of("Bağlandı — ");
            let w: Vec<char> = decimal_of(*width as u64);
            push_all(&mut v, w.as_slice());
            push_str(&mut v, "x");
            let h: Vec<char> = decimal_of(*height as u64);
            push_all(&mut v, h.as_slice());
            string_of(v.as_slice())
        },
    }
}

/// The status after the updates that are pending: the last of them.
pub fn latest_status(status: SessionStatus, pending: Vec<SessionStatus>) -> (r: SessionStatus)
    ensures
        r == (if pending@.len() > 0 {
            pending@.last()
        } else {
            status
        }),
{
    let mut pending = pending;
    match pending.pop() {
        Some(s) => s,
        None => status,
    }
}

/// The newest of the frames that are pending; the older ones are dropped.
pub fn latest_frame(pending: Vec<DecodedFrame>) -> (r: Option<DecodedFrame>)
    ensures
        r == (if pending@.len() > 0 {
            Some(pending@.last())
        } else {
            None
        }),
{
    let mut pending = pending;
    pending.pop()
}

// ---------------------------------------------------------------------------
// The panel
// ---------------------------------------------------------------------------

/// What is sent to the remote.
#[derive(Debug, Clone, Copy, PartialEq, Eq, Structural)]
pub enum RemoteInput {
    /// The left button went down or up.
    Button { pressed: bool },
    /// The pointer moved by as much of the remote screen, in 256ths of its
    /// pixels.
    Motion { dx: i64, dy: i64 },
}

/// The panel's live state.
#[derive(Debug, Clone, Copy, PartialEq, Eq)]
pub struct RemoteDesktopPanel {
    pub output: OutputId,
    /// Where the remote screen is shown.
    pub video_rect: Rect,
    pub close_rect: Rect,
    /// Size of the last frame.
    pub frame: Option<(u32, u32)>,
    /// Last pointer position inside `video_rect`, from its corner; none right
    /// after the panel opens or the pointer left, so that the first motion sends
    /// no huge delta.
    pub last: Option<(i64, i64)>,
}

/// Margin around the panel.
pub const MARGIN: i64 = 40 * PX;

/// Room below the video for the status and the button.
pub const FOOTER: i64 = 56 * PX;

pub open spec fn at_least_px(v: int) -> int {
    if v > PX {
        v
    } else {
        PX as int
    }
}

fn min_px(v: i64) -> (r: i64)
    ensures
        r == at_least_px(v as int),
{
    if v > PX {
        v
    } else {
        PX
    }
}

pub open spec fn video_of(bounds: Rect) -> Rect {
    Rect {
        x: (bounds.x + MARGIN) as i64,
        y: (bounds.y + MARGIN) as i64,
        w: at_least_px(bounds.w - 2 * MARGIN) as i64,
        h: at_least_px(bounds.h - 2 * MARGIN - FOOTER) as i64,
    }
}

pub open spec fn close_of(bounds: Rect) -> Rect {
    Rect {
        x: (bounds.x + bounds.w - MARGIN - 120 * PX) as i64,
        y: (bounds.y + bounds.h - MARGIN - 40 * PX) as i64,
        w: (120 * PX) as i64,
        h: (40 * PX) as i64,
    }
}

/// The panel as it opens on an output of these bounds; a full-HD screen is taken
/// where the output is unknown.
pub open spec fn panel_on(output: OutputId, bounds: Option<Rect>) -> RemoteDesktopPanel {
    let b = match bounds {
        Some(b) => b,
        None => Rect { x: 0, y: 0, w: (1920 * PX) as i64, h: (1080 * PX) as i64 },
    };
    RemoteDesktopPanel {
        output,
        video_rect: video_of(b),
        close_rect: close_of(b),
        frame: None,
        last: None,
    }
}

/// The overlays that the panel shares the screen with.
#[derive(Debug, Clone, Copy, PartialEq, Eq)]
pub struct RemoteOverlay {
    pub panel: Option<RemoteDesktopPanel>,
    /// Whether the control center, which the panel is opened from, is open.
    pub control_center: bool,
}

impl RemoteOverlay {
    /// Open the panel. It takes the place of the control center.
    pub fn open_remote_desktop_panel(&mut self, output: OutputId, bounds: Option<Rect>)
        requires
            bounds matches Some(b) ==> b.bounded(),
        ensures
            *final(self) == (RemoteOverlay {
                panel: Some(panel_on(output, bounds)),
                control_center: false,
            }),
    {
        let b: Rect = match bounds {
            Some(b) => b,
            None => Rect::new(0, 0, 1920 * PX, 1080 * PX),
        };
        self.control_center = false;
        self.panel = Some(
            RemoteDesktopPanel {
                output,
                video_rect: Rect::new(
                    b.x + MARGIN,
                    b.y + MARGIN,
                    min_px(b.w - 2 * MARGIN),
                    min_px(b.h - 2 * MARGIN - FOOTER),
                ),
                close_rect: Rect::new(
                    b.x + b.w - MARGIN - 120 * PX,
                    b.y + b.h - MARGIN - 40 * PX,
                    120 * PX,
                    40 * PX,
                ),
                frame: None,
                last: None,
            },
        );
    }

    /// Close the panel; the control center stays as it is.
    pub fn close_remote_desktop_panel(&mut self)
        ensures
            *final(self) == (RemoteOverlay { panel: None, ..*old(self) }),
    {
        self.panel = None;
    }
}

/// What a poll of the session came to.
#[derive(Debug, Clone, PartialEq, Eq)]
pub struct PanelTick {
    /// A frame to show: the panel must be drawn again.
    pub frame: Option<DecodedFrame>,
    pub status: SessionStatus,
    /// What the panel says of the session.
    pub status_text: String,
}

/// Poll the session of the panel, given its status and what it sent since: the
/// newest frame is shown, and the newest status is told.
pub fn remote_desktop_tick(
    panel: &mut RemoteDesktopPanel,
    status: SessionStatus,
    statuses: Vec<SessionStatus>,
    frames: Vec<DecodedFrame>,
) -> (r: PanelTick)
    ensures
        r.status == (if statuses@.len() > 0 {
            statuses@.last()
        } else {
            status
        }),
        r.status_text@ == status_of(r.status),
        r.frame == (if frames@.len() > 0 {
            Some(frames@.last())
        } else {
            None
        }),
        *final(panel) == (RemoteDesktopPanel {
            frame: match r.frame {
                Some(f) => Some((f.width, f.height)),
                None => old(panel).frame,
            },
            ..*old(panel)
        }),
{
    let status: SessionStatus = latest_status(status, statuses);
    let frame: Option<DecodedFrame> = latest_frame(frames);
    if let Some(f) = &frame {
        panel.frame = Some((f.width, f.height));
    }
    let status_text: String = remote_desktop_status_text(&status);
    PanelTick { frame, status, status_text }
}

/// A distance kept within a length.
pub open spec fn within(v: int, len: int) -> int {
    if v < 0 {
        0
    } else if v > len {
        len
    } else {
        v
    }
}

/// A point's position inside a rectangle, from its corner, kept within it.
pub open spec fn norm_of(rect: Rect, x: int, y: int) -> (int, int) {
    (within(x - rect.x, at_least_px(rect.w as int)), within(y - rect.y, at_least_px(rect.h as int)))
}

fn clamp_within(v: i64, len: i64) -> (r: i64)
    ensures
        r == within(v as int, len as int),
{
    if v < 0 {
        0
    } else if v > len {
        len
    } else {
        v
    }
}

/// A point's position inside a rectangle, from its corner, kept within it so that
/// a pointer at the very edge still maps inside.
pub fn norm_in_rect(rect: Rect, x: i64, y: i64) -> (r: (i64, i64))
    requires
        rect.bounded(),
        coord(x),
        coord(y),
    ensures
        r.0 == norm_of(rect, x as int, y as int).0,
        r.1 == norm_of(rect, x as int, y as int).1,
{
    (clamp_within(x - rect.x, min_px(rect.w)), clamp_within(y - rect.y, min_px(rect.h)))
}

/// What a press comes to.
#[derive(Debug, Clone, Copy, PartialEq, Eq)]
pub struct PressOutcome {
    /// The panel afterwards; none where it was closed.
    pub panel: Option<RemoteDesktopPanel>,
    pub send: Option<RemoteInput>,
    /// Whether the panel took the event.
    pub handled: bool,
}

pub open spec fn pressed_at(panel: Option<RemoteDesktopPanel>, px: int, py: int) -> PressOutcome {
    match panel {
        None => PressOutcome { panel: None, send: None, handled: false },
        Some(p) => if p.close_rect.holds(px, py) || !p.video_rect.holds(px, py) {
            PressOutcome { panel: None, send: None, handled: true }
        } else {
            let n = norm_of(p.video_rect, px, py);
            PressOutcome {
                panel: Some(RemoteDesktopPanel { last: Some((n.0 as i64, n.1 as i64)), ..p }),
                send: Some(RemoteInput::Button { pressed: true }),
                handled: true,
            }
        },
    }
}

impl RemoteDesktopPanel {
    /// The last position lies within the video.
    pub open spec fn bounded(self) -> bool {
        &&& self.video_rect.bounded()
        &&& self.close_rect.bounded()
        &&& self.last matches Some(l) ==> {
            &&& 0 <= l.0 <= at_least_px(self.video_rect.w as int)
            &&& 0 <= l.1 <= at_least_px(self.video_rect.h as int)
        }
    }
}

/// A press: the close button and anything outside the video dismiss the panel; on
/// the video it is a left-button press for the remote. The close button wins
/// where both are under the pointer.
pub fn remote_desktop_press(panel: Option<RemoteDesktopPanel>, px: i64, py: i64) -> (r: PressOutcome)
    requires
        panel matches Some(p) ==> p.bounded(),
        coord(px),
        coord(py),
    ensures
        r == pressed_at(panel, px as int, py as int),
{
    let p: RemoteDesktopPanel = match panel {
        Some(p) => p,
        None => {
            return PressOutcome { panel: None, send: None, handled: false };
        },
    };
    if p.close_rect.contains(px, py) {
        return PressOutcome { panel: None, send: None, handled: true };
    }
    if p.video_rect.contains(px, py) {
        let n: (i64, i64) = norm_in_rect(p.video_rect, px, py);
        return PressOutcome {
            panel: Some(RemoteDesktopPanel { last: Some(n), ..p }),
            send: Some(RemoteInput::Button { pressed: true }),
            handled: true,
        };
    }
    PressOutcome { panel: None, send: None, handled: true }
}

/// The size that a full sweep of the video stands for, in 256ths of a remote
/// pixel: the last frame's, or the video's own before there is one.
pub open spec fn source_size(p: RemoteDesktopPanel) -> (int, int) {
    match p.frame {
        Some(f) => (f.0 * PX, f.1 * PX),
        None => (p.video_rect.w as int, p.video_rect.h as int),
    }
}

/// A position on the video as one on the remote screen, rounded down.
pub open spec fn scaled(d: int, size: int, len: int) -> int {
    d * size / len
}

/// A position on the video, from its corner, as one on the remote screen.
pub open spec fn remote_of(p: RemoteDesktopPanel, x: int, y: int) -> (int, int) {
    let s = source_size(p);
    (
        scaled(x, s.0, at_least_px(p.video_rect.w as int)),
        scaled(y, s.1, at_least_px(p.video_rect.h as int)),
    )
}

pub open spec fn moved_to(p: RemoteDesktopPanel, px: int, py: int) -> PressOutcome {
    if !p.video_rect.holds(px, py) {
        PressOutcome {
            panel: Some(RemoteDesktopPanel { last: None, ..p }),
            send: None,
            handled: false,
        }
    } else {
        let n = norm_of(p.video_rect, px, py);
        PressOutcome {
            panel: Some(RemoteDesktopPanel { last: Some((n.0 as i64, n.1 as i64)), ..p }),
            send: match p.last {
                Some(l) => {
                    let to = remote_of(p, n.0, n.1);
                    let from = remote_of(p, l.0 as int, l.1 as int);
                    if to == from {
                        None
                    } else {
                        Some(
                            RemoteInput::Motion {
                                dx: (to.0 - from.0) as i64,
                                dy: (to.1 - from.1) as i64,
                            },
                        )
                    }
                },
                None => None,
            },
            handled: true,
        }
    }
}

proof fn lemma_scaled(d: int, size: int, len: int)
    requires
        0 < len,
        0 <= d <= len,
    ensures
        size >= 0 ==> 0 <= scaled(d, size, len) <= size,
        size < 0 ==> size <= scaled(d, size, len) <= 0,
        d == 0 ==> scaled(d, size, len) == 0,
        d == len ==> scaled(d, size, len) == size,
{
    let n = d * size;
    assert(size >= 0 ==> 0 <= n / len <= size) by (nonlinear_arith)
        requires
            n == d * size,
            0 < len,
            0 <= d <= len,
    ;
    assert(size < 0 ==> size <= n / len <= 0) by (nonlinear_arith)
        requires
            n == d * size,
            0 < len,
            0 <= d <= len,
    ;
    assert(d == 0 ==> n / len == 0) by (nonlinear_arith)
        requires
            n == d * size,
            0 < len,
    ;
    assert(d == len ==> n / len == size) by (nonlinear_arith)
        requires
            n == d * size,
            0 < len,
    ;
}

fn scale(d: i64, size: i64, len: i64) -> (r: i64)
    requires
        -COORD_LIMIT <= size <= COORD_LIMIT,
        0 < len <= COORD_LIMIT,
        0 <= d <= len,
    ensures
        r == scaled(d as int, size as int, len as int),
        -COORD_LIMIT <= r <= COORD_LIMIT,
{
    assert(-0x1_0000_0000_0000_0000_0000 <= d * size <= 0x1_0000_0000_0000_0000_0000)
        by (nonlinear_arith)
        requires
            0 <= d <= 0x100_0000_0000,
            -0x100_0000_0000 <= size <= 0x100_0000_0000,
    ;
    let p: i128 = d as i128 * size as i128;
    let m: i128 = len as i128;
    let q: i128 = if p >= 0 {
        p / m
    } else {
        -((-p + m - 1) / m)
    };
    proof {
        let n = d as int * size as int;
        let l = len as int;
        assert(n < 0 ==> -((-n + l - 1) / l) == n / l) by (nonlinear_arith)
            requires
                l > 0,
        ;
        lemma_scaled(d as int, size as int, l);
    }
    q as i64
}

/// The pointer moves: inside the video a relative delta from the last position is
/// sent, scaled so that a full sweep of the panel is a full sweep of the remote
/// screen; outside it the last position is forgotten.
pub fn remote_desktop_pointer_motion(p: RemoteDesktopPanel, px: i64, py: i64) -> (r: PressOutcome)
    requires
        p.bounded(),
        coord(px),
        coord(py),
    ensures
        r == moved_to(p, px as int, py as int),
{
    if !p.video_rect.contains(px, py) {
        return PressOutcome {
            panel: Some(RemoteDesktopPanel { last: None, ..p }),
            send: None,
            handled: false,
        };
    }
    let n: (i64, i64) = norm_in_rect(p.video_rect, px, py);
    let (sw, sh): (i64, i64) = match p.frame {
        Some((w, h)) => (w as i64 * PX, h as i64 * PX),
        None => (p.video_rect.w, p.video_rect.h),
    };
    let (vw, vh): (i64, i64) = (min_px(p.video_rect.w), min_px(p.video_rect.h));
    let mut send: Option<RemoteInput> = None;
    if let Some((lx, ly)) = p.last {
        let dx: i64 = scale(n.0, sw, vw) - scale(lx, sw, vw);
        let dy: i64 = scale(n.1, sh, vh) - scale(ly, sh, vh);
        if dx != 0 || dy != 0 {
            send = Some(RemoteInput::Motion { dx, dy });
        }
    }
    PressOutcome { panel: Some(RemoteDesktopPanel { last: Some(n), ..p }), send, handled: true }
}

/// The button is released: the remote is told, unless the pointer is outside the
/// video and was not inside before.
pub fn remote_desktop_pointer_release(panel: Option<RemoteDesktopPanel>, px: i64, py: i64) -> (r:
    Option<RemoteInput>)
    ensures
        r == (match panel {
            Some(p) if p.video_rect.holds(px as int, py as int) || p.last is Some => Some(
                RemoteInput::Button { pressed: false },
            ),
            _ => None,
        }),
{
    match panel {
        Some(p) => {
            if p.video_rect.contains(px, py) || p.last.is_some() {
                Some(RemoteInput::Button { pressed: false })
            } else {
                None
            }
        },
        None => None,
    }
}

// ---------------------------------------------------------------------------
// Laws
// ---------------------------------------------------------------------------

/// How far a message moves the remote pointer.
pub open spec fn motion_of(send: Option<RemoteInput>) -> (int, int) {
    match send {
        Some(RemoteInput::Motion { dx, dy }) => (dx as int, dy as int),
        _ => (0, 0),
    }
}

/// The panel, and how far the remote pointer was moved in all, once the pointer
/// went through the first `n` points of a path.
pub open spec fn swept(p: RemoteDesktopPanel, path: Seq<(int, int)>, n: int) -> (
    RemoteDesktopPanel,
    (int, int),
)
    decreases n,
{
    if n <= 0 {
        (p, (0, 0))
    } else {
        let (before, sum) = swept(p, path, n - 1);
        let out = moved_to(before, path[n - 1].0, path[n - 1].1);
        let d = motion_of(out.send);
        (out.panel->0, (sum.0 + d.0, sum.1 + d.1))
    }
}

/// The position on the remote screen that a point on the video stands for.
pub open spec fn remote_at(p: RemoteDesktopPanel, x: int, y: int) -> (int, int) {
    let n = norm_of(p.video_rect, x, y);
    remote_of(p, n.0, n.1)
}

proof fn lemma_one_motion(p: RemoteDesktopPanel, x: int, y: int)
    requires
        p.bounded(),
        p.last is Some,
        p.video_rect.holds(x, y),
    ensures
        ({
            let out = moved_to(p, x, y);
            let from = remote_of(p, (p.last->0).0 as int, (p.last->0).1 as int);
            let to = remote_at(p, x, y);
            let n = norm_of(p.video_rect, x, y);
            let after = out.panel->0;
            &&& out.panel == Some(
                RemoteDesktopPanel { last: Some((n.0 as i64, n.1 as i64)), ..p },
            )
            &&& after.bounded()
            &&& remote_of(after, (after.last->0).0 as int, (after.last->0).1 as int) == to
            &&& motion_of(out.send) == (to.0 - from.0, to.1 - from.1)
        }),
{
    let n = norm_of(p.video_rect, x, y);
    let l = p.last->0;
    let s = source_size(p);
    let (vw, vh) = (at_least_px(p.video_rect.w as int), at_least_px(p.video_rect.h as int));
    lemma_scaled(n.0, s.0, vw);
    lemma_scaled(n.1, s.1, vh);
    lemma_scaled(l.0 as int, s.0, vw);
    lemma_scaled(l.1 as int, s.1, vh);
}

/// Motions add up: whatever way the pointer goes over the video, and in however
/// many steps, the remote pointer moves by just the distance between the two
/// positions that the path's ends stand for.
pub proof fn law_motions_add_up(p: RemoteDesktopPanel, path: Seq<(int, int)>, n: int)
    requires
        p.bounded(),
        p.last is Some,
        0 < n <= path.len(),
        forall|i: int|
            0 <= i < path.len() ==> p.video_rect.holds(
                (#[trigger] path[i]).0,
                path[i].1,
            ),
    ensures
        ({
            let from = remote_of(p, (p.last->0).0 as int, (p.last->0).1 as int);
            let to = remote_at(p, path[n - 1].0, path[n - 1].1);
            swept(p, path, n).1 == (to.0 - from.0, to.1 - from.1)
        }),
{
    lemma_swept(p, path, n);
}

proof fn lemma_swept(p: RemoteDesktopPanel, path: Seq<(int, int)>, n: int)
    requires
        p.bounded(),
        p.last is Some,
        0 < n <= path.len(),
        forall|i: int|
            0 <= i < path.len() ==> p.video_rect.holds(
                (#[trigger] path[i]).0,
                path[i].1,
            ),
    ensures
        ({
            let (after, sum) = swept(p, path, n);
            let from = remote_of(p, (p.last->0).0 as int, (p.last->0).1 as int);
            let to = remote_at(p, path[n - 1].0, path[n - 1].1);
            &&& after.bounded()
            &&& after.last is Some
            &&& after == (RemoteDesktopPanel { last: after.last, ..p })
            &&& remote_of(after, (after.last->0).0 as int, (after.last->0).1 as int) == to
            &&& sum == (to.0 - from.0, to.1 - from.1)
        }),
    decreases n,
{
    assert(p.video_rect.holds(path[n - 1].0, path[n - 1].1));
    if n > 1 {
        lemma_swept(p, path, n - 1);
        let before = swept(p, path, n - 1).0;
        lemma_one_motion(before, path[n - 1].0, path[n - 1].1);
    } else {
        assert(swept(p, path, 0) == (p, (0int, 0int)));
        lemma_one_motion(p, path[0].0, path[0].1);
    }
}

/// The video stands for the whole remote screen: its corner for the corner, and
/// its far ends for the far ends.
pub proof fn law_video_is_the_screen(p: RemoteDesktopPanel)
    ensures
        remote_of(p, 0, 0) == (0int, 0int),
        remote_of(
            p,
            at_least_px(p.video_rect.w as int),
            at_least_px(p.video_rect.h as int),
        ) == source_size(p),
{
    let s = source_size(p);
    let (vw, vh) = (at_least_px(p.video_rect.w as int), at_least_px(p.video_rect.h as int));
    lemma_scaled(0, s.0, vw);
    lemma_scaled(0, s.1, vh);
    lemma_scaled(vw, s.0, vw);
    lemma_scaled(vh, s.1, vh);
}

/// The frame in flight, and the payload once it is whole, after the first `n` of
/// a frame's pieces have come, in this order.
pub open spec fn after_pieces(
    start: ProgressView,
    pieces: Seq<Seq<u8>>,
    order: Seq<u16>,
    n: int,
) -> (Option<ProgressView>, Option<Seq<u8>>)
    decreases n,
{
    if n <= 0 {
        (Some(start), None)
    } else {
        chunk_step(
            after_pieces(start, pieces, order, n - 1).0,
            start.info.frame_id,
            order[n - 1],
            pieces[order[n - 1] as int],
        )
    }
}

/// The first `n` pieces in a row.
pub open spec fn in_a_row(pieces: Seq<Seq<u8>>, n: int) -> Seq<u8>
    decreases n,
{
    if n <= 0 {
        seq![]
    } else {
        in_a_row(pieces, n - 1) + pieces[n - 1]
    }
}

/// Whether piece `i` is among the first `n`.
pub open spec fn came(order: Seq<u16>, i: int, n: int) -> bool {
    exists|k: int| 0 <= k < n && order[k] == i
}

/// A frame holds the pieces that have come, and no others.
spec fn holds_pieces(p: ProgressView, pieces: Seq<Seq<u8>>, order: Seq<u16>, n: int) -> bool {
    &&& p.chunks.len() == pieces.len()
    &&& forall|i: int|
        0 <= i < pieces.len() ==> #[trigger] p.chunks[i] == (if came(order, i, n) {
            Some(pieces[i])
        } else {
            None
        })
}

proof fn lemma_pieces(
    start: ProgressView,
    info: FrameInfo,
    pieces: Seq<Seq<u8>>,
    order: Seq<u16>,
    n: int,
)
    requires
        announced(Some(start), info),
        info.chunk_count == pieces.len(),
        forall|k: int| 0 <= k < order.len() ==> #[trigger] order[k] < pieces.len(),
        0 <= n < order.len(),
        forall|k: int| 0 <= k < order.len() - 1 ==> order[k] != order.last(),
    ensures
        after_pieces(start, pieces, order, n).1 is None,
        after_pieces(start, pieces, order, n).0 matches Some(p) && p.info == info && holds_pieces(
            p,
            pieces,
            order,
            n,
        ),
    decreases n,
{
    if n > 0 {
        lemma_pieces(start, info, pieces, order, n - 1);
        let p = after_pieces(start, pieces, order, n - 1).0->0;
        let index = order[n - 1] as int;
        let next = with_chunk(p, index, pieces[index]);
        lemma_one_piece(p, pieces, order, n);
        assert(next.chunks[order.last() as int] is None);
    }
}

proof fn lemma_one_piece(p: ProgressView, pieces: Seq<Seq<u8>>, order: Seq<u16>, n: int)
    requires
        0 < n <= order.len(),
        order[n - 1] < pieces.len(),
        holds_pieces(p, pieces, order, n - 1),
    ensures
        holds_pieces(
            with_chunk(p, order[n - 1] as int, pieces[order[n - 1] as int]),
            pieces,
            order,
            n,
        ),
{
    let index = order[n - 1] as int;
    let next = with_chunk(p, index, pieces[index]);
    assert forall|i: int| 0 <= i < pieces.len() implies #[trigger] next.chunks[i] == (if came(
        order,
        i,
        n,
    ) {
        Some(pieces[i])
    } else {
        None
    }) by {
        if i == index {
            assert(order[n - 1] == i);
        } else if came(order, i, n) {
            let k = choose|k: int| 0 <= k < n && order[k] == i;
            assert(0 <= k < n - 1 && order[k] == i);
            assert(came(order, i, n - 1));
            assert(p.chunks[i] == Some(pieces[i]));
        } else {
            assert(p.chunks[i] is None);
        }
    }
}

proof fn lemma_payload(chunks: Seq<Option<Seq<u8>>>, pieces: Seq<Seq<u8>>, n: int)
    requires
        0 <= n <= pieces.len(),
        chunks.len() == pieces.len(),
        forall|i: int| 0 <= i < pieces.len() ==> #[trigger] chunks[i] == Some(pieces[i]),
    ensures
        payload_upto(chunks, n) == in_a_row(pieces, n),
    decreases n,
{
    if n > 0 {
        lemma_payload(chunks, pieces, n - 1);
    }
}

/// A frame's pieces may come in any order, and some of them more than once: the
/// one that was missing last, and none before it, gives the payload that was cut
/// up. Nothing is in flight afterwards.
pub proof fn law_frame_comes_together(
    start: ProgressView,
    info: FrameInfo,
    pieces: Seq<Seq<u8>>,
    order: Seq<u16>,
    n: int,
)
    requires
        announced(Some(start), info),
        info.chunk_count == pieces.len(),
        order.len() > 0,
        forall|k: int| 0 <= k < order.len() ==> #[trigger] order[k] < pieces.len(),
        forall|i: int| 0 <= i < pieces.len() ==> #[trigger] came(order, i, order.len() as int),
        forall|k: int| 0 <= k < order.len() - 1 ==> order[k] != order.last(),
        0 <= n < order.len(),
    ensures
        after_pieces(start, pieces, order, n).1 is None,
        after_pieces(start, pieces, order, order.len() as int) == (
            None::<ProgressView>,
            Some(in_a_row(pieces, pieces.len() as int)),
        ),
{
    lemma_pieces(start, info, pieces, order, n);
    let m = order.len() as int;
    lemma_pieces(start, info, pieces, order, m - 1);
    let p = after_pieces(start, pieces, order, m - 1).0->0;
    lemma_one_piece(p, pieces, order, m);
    let next = with_chunk(p, order[m - 1] as int, pieces[order[m - 1] as int]);
    assert forall|i: int| 0 <= i < pieces.len() implies #[trigger] next.chunks[i] == Some(
        pieces[i],
    ) by {
        assert(came(order, i, m));
    }
    lemma_payload(next.chunks, pieces, pieces.len() as int);
}

/// A frame that is announced takes the place of the one in flight: a chunk of any
/// other frame changes nothing.
pub proof fn law_stale_chunks_ignored(p: ProgressView, frame_id: u32, index: u16, data: Seq<u8>)
    requires
        frame_id != p.info.frame_id,
    ensures
        chunk_step(Some(p), frame_id, index, data) == (Some(p), None::<Seq<u8>>),
{
}

/// A chunk that comes twice counts once, with what it held the first time.
pub proof fn law_duplicate_chunk(p: ProgressView, index: u16, data: Seq<u8>, again: Seq<u8>)
    requires
        index < p.chunks.len(),
        chunk_step(Some(p), p.info.frame_id, index, data).0 is Some,
    ensures
        ({
            let once = chunk_step(Some(p), p.info.frame_id, index, data);
            chunk_step(once.0, p.info.frame_id, index, again) == once
        }),
{
    let next = with_chunk(p, index as int, data);
    assert(next.chunks[index as int] is Some);
}

/// Two different chunks may come in either order.
pub proof fn law_chunk_order(p: ProgressView, i: u16, a: Seq<u8>, j: u16, b: Seq<u8>)
    requires
        i < p.chunks.len(),
        j < p.chunks.len(),
        i != j,
    ensures
        with_chunk(with_chunk(p, i as int, a), j as int, b) == with_chunk(
            with_chunk(p, j as int, b),
            i as int,
            a,
        ),
{
    let x = with_chunk(with_chunk(p, i as int, a), j as int, b);
    let y = with_chunk(with_chunk(p, j as int, b), i as int, a);
    assert(x.chunks =~= y.chunks);
}

/// The video, the button and the margins do not overlap on an output that is
/// large enough for them.
pub proof fn law_panel_layout(bounds: Rect)
    requires
        bounds.bounded(),
        bounds.w >= 2 * MARGIN + 120 * PX,
        bounds.h >= 2 * MARGIN + FOOTER + PX,
    ensures
        ({
            let v = video_of(bounds);
            let c = close_of(bounds);
            &&& v.x >= bounds.x && v.x + v.w <= bounds.x + bounds.w
            &&& c.x >= bounds.x && c.x + c.w <= bounds.x + bounds.w
            &&& v.y + v.h <= c.y
            &&& c.y + c.h <= bounds.y + bounds.h
        }),
{
}

/// The video leaves 40 pixels on each side and 56 more below it; the close button, of
/// 120 by 40 pixels, is in the lower right corner of what is left.
pub proof fn law_panel_measures(bounds: Rect)
    requires
        bounds.bounded(),
        bounds.w > 81 * 256,
        bounds.h > 137 * 256,
    ensures
        video_of(bounds).x == bounds.x + 40 * 256,
        video_of(bounds).y == bounds.y + 40 * 256,
        video_of(bounds).x + video_of(bounds).w == bounds.x + bounds.w - 40 * 256,
        video_of(bounds).y + video_of(bounds).h == bounds.y + bounds.h - 96 * 256,
        close_of(bounds).w == 120 * 256,
        close_of(bounds).h == 40 * 256,
        close_of(bounds).x + close_of(bounds).w == bounds.x + bounds.w - 40 * 256,
        close_of(bounds).y + close_of(bounds).h == bounds.y + bounds.h - 40 * 256,
{
}

/// The panel opens on its output with nothing shown yet, and takes a screen of 1920 by
/// 1080 pixels where the output is unknown.
pub proof fn law_panel_opens(output: OutputId, bounds: Rect)
    ensures
        panel_on(output, Some(bounds)).output == output,
        panel_on(output, Some(bounds)).video_rect == video_of(bounds),
        panel_on(output, Some(bounds)).close_rect == close_of(bounds),
        panel_on(output, Some(bounds)).frame is None,
        panel_on(output, Some(bounds)).last is None,
        panel_on(output, None).video_rect.w == (1920 - 80) * 256,
        panel_on(output, None).video_rect.h == (1080 - 136) * 256,
        panel_on(output, None).video_rect.x == 40 * 256,
{
}

/// A press on the video is one for the remote and keeps the panel; a press on the
/// button, or beside the video, closes the panel and is not passed on to anyone; without
/// a panel a press is nobody's.
pub proof fn law_presses(p: RemoteDesktopPanel, px: int, py: int)
    ensures
        p.video_rect.holds(px, py) && !p.close_rect.holds(px, py) ==> {
            let r = pressed_at(Some(p), px, py);
            r.handled && r.panel is Some && r.send == Some(RemoteInput::Button { pressed: true })
        },
        p.close_rect.holds(px, py) ==> {
            let r = pressed_at(Some(p), px, py);
            r.handled && r.panel is None && r.send is None
        },
        !p.video_rect.holds(px, py) ==> {
            let r = pressed_at(Some(p), px, py);
            r.handled && r.panel is None && r.send is None
        },
        !pressed_at(None, px, py).handled,
        pressed_at(None, px, py).send is None,
{
}

/// A pointer that leaves the video is forgotten and handled by others; the first
/// position on the video sends nothing, since there is nothing to measure from.
pub proof fn law_leaving_the_video(p: RemoteDesktopPanel, px: int, py: int)
    ensures
        !p.video_rect.holds(px, py) ==> {
            let r = moved_to(p, px, py);
            !r.handled && r.send is None && (r.panel matches Some(q) && q.last is None)
        },
        p.video_rect.holds(px, py) ==> moved_to(p, px, py).handled,
        p.video_rect.holds(px, py) && p.last is None ==> moved_to(p, px, py).send is None,
{
}

/// The remote pointer goes the way the pointer goes: to the right for a motion to the
/// right, and down for one down, and as far as the sizes of the screen and the video are
/// to each other.
pub proof fn law_motion_direction(p: RemoteDesktopPanel, x: int, y: int, dx: int, dy: int)
    requires
        p.bounded(),
        p.frame matches Some(f) && f.0 * 256 == 2 * at_least_px(p.video_rect.w as int) && f.1 * 256
            == 2 * at_least_px(p.video_rect.h as int),
        0 <= x,
        0 <= y,
        0 <= x + dx,
        0 <= y + dy,
    ensures
        remote_of(p, x + dx, y + dy).0 - remote_of(p, x, y).0 == 2 * dx,
        remote_of(p, x + dx, y + dy).1 - remote_of(p, x, y).1 == 2 * dy,
{
    let w = at_least_px(p.video_rect.w as int);
    let h = at_least_px(p.video_rect.h as int);
    lemma_double(x, w);
    lemma_double(x + dx, w);
    lemma_double(y, h);
    lemma_double(y + dy, h);
}

proof fn lemma_double(d: int, len: int)
    requires
        len > 0,
    ensures
        scaled(d, 2 * len, len) == 2 * d,
{
    assert(d * (2 * len) == (2 * d) * len) by (nonlinear_arith);
    assert(((2 * d) * len) / len == 2 * d) by (nonlinear_arith)
        requires
            len > 0,
    ;
}

/// A position inside a rectangle is its distance from the corner; beyond an edge it is
/// that edge's.
pub proof fn law_position_in_video(rect: Rect, x: int, y: int)
    requires
        rect.w >= 256,
        rect.h >= 256,
    ensures
        rect.x <= x <= rect.x + rect.w ==> norm_of(rect, x, y).0 == x - rect.x,
        rect.y <= y <= rect.y + rect.h ==> norm_of(rect, x, y).1 == y - rect.y,
        x < rect.x ==> norm_of(rect, x, y).0 == 0,
        x > rect.x + rect.w ==> norm_of(rect, x, y).0 == rect.w,
        y < rect.y ==> norm_of(rect, x, y).1 == 0,
        y > rect.y + rect.h ==> norm_of(rect, x, y).1 == rect.h,
{
}

/// A status is told with the size of the screen, width before height, or with the
/// reason of the failure.
pub proof fn law_status_texts(width: u32, height: u32, why: String)
    ensures
        status_of(SessionStatus::Connected { width, height }) == "Bağlandı — "@ + decimal(
            width as nat,
        ) + "x"@ + decimal(height as nat),
        status_of(SessionStatus::Failed(why)) == "Bağlantı hatası: "@ + why@,
        status_of(SessionStatus::Connecting) == "Bağlanıyor…"@,
{
}

} // verus!
