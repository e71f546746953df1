//! The tracks of a media stream, and the commands that reach them.
use crate::clock::TimeSpan;
use crate::event::{SessionEvent, SessionEventView};
use crate::media::processor::{ChainTable, PartsView, ProcessorChain, ProcessorKind};
use crate::media::stream::MuteProcessor;
use crate::media::{AudioFrame, FrameView, Samples};
use crate::{media::processor, media::stream, text};
use vstd::prelude::*;

verus! {

/// Name of the track on which the callee is heard.
pub const CALLEE_TRACK_ID: &'static str = "callee-track";

/// Name of the track on which a queued caller hears the hold music.
pub const QUEUE_HOLD_TRACK_ID: &'static str = "queue-hold-track";

/// A track: its name, and its hold on the chain that its frames go through.
#[derive(Debug, PartialEq, Eq)]
pub struct TrackEntry {
    pub track_id: String,
    pub chain: ProcessorChain,
}

/// What a [`TrackEntry`] holds.
#[verifier::ext_equal]
pub struct TrackView {
    pub track_id: Seq<char>,
    pub chain: ProcessorChain,
}

impl View for TrackEntry {
    type V = TrackView;

    open spec fn view(&self) -> TrackView {
        TrackView { track_id: self.track_id@, chain: self.chain }
    }
}

/// A command to the tracks of a stream.
#[allow(inconsistent_fields)]
#[derive(Debug, PartialEq, Eq)]
pub enum TrackCommand {
    AddTrack { track: TrackEntry },
    RemoveTrack { track_id: String, graceful: bool },
    UpdateRemoteDescription { track_id: String, answer: String, force: bool },
    Handshake { track_id: String, offer: String, timeout: Option<TimeSpan> },
    MuteTrack { track_id: Option<String> },
    UnmuteTrack { track_id: Option<String> },
    AudioFrame { packet: AudioFrame },
}

/// What a [`TrackCommand`] holds.
#[allow(inconsistent_fields)]
#[verifier::ext_equal]
pub enum TrackCommandView {
    AddTrack { track: TrackView },
    RemoveTrack { track_id: Seq<char>, graceful: bool },
    UpdateRemoteDescription { track_id: Seq<char>, answer: Seq<char>, force: bool },
    Handshake { track_id: Seq<char>, offer: Seq<char>, timeout: Option<TimeSpan> },
    MuteTrack { track_id: Option<Seq<char>> },
    UnmuteTrack { track_id: Option<Seq<char>> },
    AudioFrame { packet: FrameView },
}

impl View for TrackCommand {
    type V = TrackCommandView;

    open spec fn view(&self) -> TrackCommandView {
        match *self {
            TrackCommand::AddTrack { track } => TrackCommandView::AddTrack { track: track@ },
            TrackCommand::RemoveTrack { track_id, graceful } => TrackCommandView::RemoveTrack {
                track_id: track_id@,
                graceful,
            },
            TrackCommand::UpdateRemoteDescription { track_id, answer, force } =>
                TrackCommandView::UpdateRemoteDescription {
                track_id: track_id@,
                answer: answer@,
                force,
            },
            TrackCommand::Handshake { track_id, offer, timeout } => TrackCommandView::Handshake {
                track_id: track_id@,
                offer: offer@,
                timeout,
            },
            TrackCommand::MuteTrack { track_id } => TrackCommandView::MuteTrack {
                track_id: text::opt_view(track_id),
            },
            TrackCommand::UnmuteTrack { track_id } => TrackCommandView::UnmuteTrack {
                track_id: text::opt_view(track_id),
            },
            TrackCommand::AudioFrame { packet } => TrackCommandView::AudioFrame { packet: packet@ },
        }
    }
}

/// What becomes of a packet at one track.
#[derive(Debug, Clone, Copy, PartialEq, Eq, Structural)]
pub enum PacketStep {
    /// The packet is the track's own and carries RTP: look for a DTMF digit.
    Detect,
    /// The track does not get the packet.
    Skip,
    /// The track plays the packet.
    Send,
}

/// What the surroundings do for a command.
#[derive(Debug, PartialEq, Eq)]
pub enum TrackAction {
    /// Nothing.
    Done,
    /// Keep the new track under its name, with a fresh digit detector.
    Keep { track_id: String },
    /// Stop the track that left the stream.
    Stop { track_id: String, graceful: bool },
    /// Hand the answer to the track, and report what it says.
    ApplyAnswer { track_id: String, answer: String, force: bool },
    /// Report success: there is no such track.
    AnswerIgnored,
    /// Hand the offer to the track, and report what it says.
    Handshake { track_id: String, offer: String, timeout: Option<TimeSpan> },
    /// Report a failure.
    HandshakeFailed { message: String },
    /// Treat the packet at each track, in the order of the table.
    Deliver { packet: AudioFrame, steps: Vec<PacketStep> },
}

/// What a [`TrackAction`] holds.
#[verifier::ext_equal]
pub enum TrackActionView {
    Done,
    Keep { track_id: Seq<char> },
    Stop { track_id: Seq<char>, graceful: bool },
    ApplyAnswer { track_id: Seq<char>, answer: Seq<char>, force: bool },
    AnswerIgnored,
    Handshake { track_id: Seq<char>, offer: Seq<char>, timeout: Option<TimeSpan> },
    HandshakeFailed { message: Seq<char> },
    Deliver { packet: FrameView, steps: Seq<PacketStep> },
}

impl View for TrackAction {
    type V = TrackActionView;

    open spec fn view(&self) -> TrackActionView {
        match *self {
            TrackAction::Done => TrackActionView::Done,
            TrackAction::Keep { track_id } => TrackActionView::Keep { track_id: track_id@ },
            TrackAction::Stop { track_id, graceful } => TrackActionView::Stop {
                track_id: track_id@,
                graceful,
            },
            TrackAction::ApplyAnswer { track_id, answer, force } => TrackActionView::ApplyAnswer {
                track_id: track_id@,
                answer: answer@,
                force,
            },
            TrackAction::AnswerIgnored => TrackActionView::AnswerIgnored,
            TrackAction::Handshake { track_id, offer, timeout } => TrackActionView::Handshake {
                track_id: track_id@,
                offer: offer@,
                timeout,
            },
            TrackAction::HandshakeFailed { message } => TrackActionView::HandshakeFailed {
                message: message@,
            },
            TrackAction::Deliver { packet, steps } => TrackActionView::Deliver {
                packet: packet@,
                steps: steps@,
            },
        }
    }
}

/// The tracks of a stream. No two have the same name.
#[derive(Debug, PartialEq, Eq)]
pub struct TrackTable {
    pub tracks: Vec<TrackEntry>,
}

impl View for TrackTable {
    type V = Seq<TrackView>;

    open spec fn view(&self) -> Seq<TrackView> {
        Seq::new(self.tracks@.len(), |i: int| self.tracks@[i]@)
    }
}

/// No two tracks have the same name.
pub open spec fn distinct_ids(tracks: Seq<TrackView>) -> bool {
    forall|i: int, j: int|
        0 <= i < j < tracks.len() ==> #[trigger] tracks[i].track_id != #[trigger] tracks[j].track_id
}

/// A track of that name is there.
pub open spec fn has_track(tracks: Seq<TrackView>, id: Seq<char>) -> bool {
    exists|i: int| 0 <= i < tracks.len() && #[trigger] tracks[i].track_id == id
}

/// The tracks after one was added; it takes the place of one with its name.
pub open spec fn with_track(tracks: Seq<TrackView>, track: TrackView) -> Seq<TrackView> {
    if has_track(tracks, track.track_id) {
        Seq::new(
            tracks.len(),
            |i: int|
                if tracks[i].track_id == track.track_id {
                    track
                } else {
                    tracks[i]
                },
        )
    } else {
        tracks.push(track)
    }
}

/// The tracks that do not have a name.
pub open spec fn without_track(tracks: Seq<TrackView>, id: Seq<char>) -> Seq<TrackView>
    decreases tracks.len(),
{
    if tracks.len() == 0 {
        tracks
    } else if tracks.last().track_id == id {
        without_track(tracks.drop_last(), id)
    } else {
        without_track(tracks.drop_last(), id).push(tracks.last())
    }
}

/// A command without a name speaks of every track.
pub open spec fn selects(wanted: Option<Seq<char>>, id: Seq<char>) -> bool {
    match wanted {
        Some(w) => w == id,
        None => true,
    }
}

/// A track of which a command speaks holds the chain at a place.
pub open spec fn reaches(tracks: Seq<TrackView>, wanted: Option<Seq<char>>, place: int) -> bool {
    exists|i: int|
        0 <= i < tracks.len() && selects(wanted, (#[trigger] tracks[i]).track_id)
            && tracks[i].chain.place == place
}

/// The chains after some tracks were silenced, or let be heard again.
pub open spec fn mute_all(
    tracks: Seq<TrackView>,
    wanted: Option<Seq<char>>,
    chains: Seq<PartsView>,
    muted: bool,
) -> Seq<PartsView> {
    Seq::new(
        chains.len(),
        |p: int|
            if reaches(tracks, wanted, p) {
                PartsView {
                    processors: MuteProcessor::set_chain(chains[p].processors, muted),
                    ..chains[p]
                }
            } else {
                chains[p]
            },
    )
}

/// The chains after a command: only silencing and letting be heard change any.
pub open spec fn chains_after(
    tracks: Seq<TrackView>,
    command: TrackCommandView,
    chains: Seq<PartsView>,
) -> Seq<PartsView> {
    match command {
        TrackCommandView::MuteTrack { track_id } => mute_all(tracks, track_id, chains, true),
        TrackCommandView::UnmuteTrack { track_id } => mute_all(tracks, track_id, chains, false),
        _ => chains,
    }
}

/// What becomes of a packet at the track named `id`: its own packets are looked
/// at for digits, hold music does not reach the callee, all else is played.
pub open spec fn step_of(id: Seq<char>, packet: FrameView) -> PacketStep {
    if id == packet.track_id {
        if packet.samples is RTP {
            PacketStep::Detect
        } else {
            PacketStep::Skip
        }
    } else if packet.track_id == QUEUE_HOLD_TRACK_ID@ && id == CALLEE_TRACK_ID@ {
        PacketStep::Skip
    } else {
        PacketStep::Send
    }
}

/// What becomes of a packet at each track.
pub open spec fn steps_of(tracks: Seq<TrackView>, packet: FrameView) -> Seq<PacketStep> {
    Seq::new(tracks.len(), |i: int| step_of(tracks[i].track_id, packet))
}

/// The tracks and the action that a command leads to.
pub open spec fn commanded(tracks: Seq<TrackView>, command: TrackCommandView) -> (
    Seq<TrackView>,
    TrackActionView,
) {
    match command {
        TrackCommandView::AddTrack { track } => (
            with_track(tracks, track),
            TrackActionView::Keep { track_id: track.track_id },
        ),
        TrackCommandView::RemoveTrack { track_id, graceful } => (
            without_track(tracks, track_id),
            if has_track(tracks, track_id) {
                TrackActionView::Stop { track_id, graceful }
            } else {
                TrackActionView::Done
            },
        ),
        TrackCommandView::UpdateRemoteDescription { track_id, answer, force } => (
            tracks,
            if has_track(tracks, track_id) {
                TrackActionView::ApplyAnswer { track_id, answer, force }
            } else {
                TrackActionView::AnswerIgnored
            },
        ),
        TrackCommandView::Handshake { track_id, offer, timeout } => (
            tracks,
            if has_track(tracks, track_id) {
                TrackActionView::Handshake { track_id, offer, timeout }
            } else {
                TrackActionView::HandshakeFailed { message: "track not found "@ + track_id }
            },
        ),
        TrackCommandView::MuteTrack { .. } => (tracks, TrackActionView::Done),
        TrackCommandView::UnmuteTrack { .. } => (tracks, TrackActionView::Done),
        TrackCommandView::AudioFrame { packet } => (
            tracks,
            TrackActionView::Deliver { packet, steps: steps_of(tracks, packet) },
        ),
    }
}

/// A name that stands nowhere leaves the tracks as they are.
proof fn lemma_without_absent(tracks: Seq<TrackView>, id: Seq<char>)
    requires
        !has_track(tracks, id),
    ensures
        without_track(tracks, id) == tracks,
    decreases tracks.len(),
{
    if tracks.len() > 0 {
        let rest = tracks.drop_last();
        assert forall|i: int| 0 <= i < rest.len() implies #[trigger] rest[i].track_id != id by {
            assert(rest[i] == tracks[i]);
        }
        lemma_without_absent(rest, id);
        assert(tracks.last() == tracks[tracks.len() - 1]);
        assert(tracks =~= rest.push(tracks.last()));
    }
}

/// The track with a name leaves its place.
proof fn lemma_without_present(tracks: Seq<TrackView>, id: Seq<char>, at: int)
    requires
        distinct_ids(tracks),
        0 <= at < tracks.len(),
        tracks[at].track_id == id,
    ensures
        without_track(tracks, id) == tracks.remove(at),
    decreases tracks.len(),
{
    let rest = tracks.drop_last();
    assert forall|i: int, j: int| 0 <= i < j < rest.len() implies #[trigger] rest[i].track_id
        != #[trigger] rest[j].track_id by {
        assert(tracks[i].track_id != tracks[j].track_id);
    }
    if at == tracks.len() - 1 {
        assert forall|i: int| 0 <= i < rest.len() implies #[trigger] rest[i].track_id != id by {
            assert(tracks[i].track_id != tracks[at].track_id);
        }
        lemma_without_absent(rest, id);
        assert(tracks.remove(at) =~= rest);
    } else {
        assert(rest[at] == tracks[at]);
        lemma_without_present(rest, id, at);
        assert(tracks[at].track_id != tracks[tracks.len() - 1].track_id);
        assert(tracks.remove(at) =~= rest.remove(at).push(tracks.last()));
    }
}

/// No command brings two tracks of one name into a stream.
pub proof fn law_ids_stay_distinct(tracks: Seq<TrackView>, command: TrackCommandView)
    requires
        distinct_ids(tracks),
    ensures
        distinct_ids(commanded(tracks, command).0),
{
    let after = commanded(tracks, command).0;
    match command {
        TrackCommandView::AddTrack { track } => {
            assert forall|i: int, j: int| 0 <= i < j < after.len() implies
                #[trigger] after[i].track_id != #[trigger] after[j].track_id by {
                if j < tracks.len() {
                    assert(tracks[i].track_id != tracks[j].track_id);
                }
            }
        },
        TrackCommandView::RemoveTrack { track_id, .. } => {
            if has_track(tracks, track_id) {
                let at = choose|i: int| 0 <= i < tracks.len() && #[trigger] tracks[i].track_id
                    == track_id;
                lemma_without_present(tracks, track_id, at);
                assert forall|i: int, j: int| 0 <= i < j < after.len() implies
                    #[trigger] after[i].track_id != #[trigger] after[j].track_id by {
                    let p = if i < at { i } else { i + 1 };
                    let q = if j < at { j } else { j + 1 };
                    assert(tracks[p].track_id != tracks[q].track_id);
                }
            } else {
                lemma_without_absent(tracks, track_id);
            }
        },
        _ => {},
    }
}

/// The chains that tracks hold are kept.
pub open spec fn chains_held(tracks: Seq<TrackView>, chains: Seq<PartsView>) -> bool {
    forall|i: int| 0 <= i < tracks.len() ==> (#[trigger] tracks[i]).chain.held(chains)
}

/// The chain of a track that a command adds is kept.
pub open spec fn command_ok(command: TrackCommandView, chains: Seq<PartsView>) -> bool {
    command matches TrackCommandView::AddTrack { track } ==> track.chain.held(chains)
}

/// A command leaves the chains of all tracks kept.
proof fn lemma_chains_stay_held(
    tracks: Seq<TrackView>,
    command: TrackCommandView,
    chains: Seq<PartsView>,
)
    requires
        distinct_ids(tracks),
        chains_held(tracks, chains),
        command_ok(command, chains),
    ensures
        chains_held(commanded(tracks, command).0, chains_after(tracks, command, chains)),
{
    if let TrackCommandView::RemoveTrack { track_id, .. } = command {
        if has_track(tracks, track_id) {
            let at = choose|i: int| 0 <= i < tracks.len() && #[trigger] tracks[i].track_id
                == track_id;
            lemma_without_present(tracks, track_id, at);
        } else {
            lemma_without_absent(tracks, track_id);
        }
    }
}

/// The silencing of tracks reaches every holder of their chains, and no other
/// chain: what a track was given apart from silencers stays.
pub proof fn law_mute_reaches_holders(
    tracks: Seq<TrackView>,
    wanted: Option<Seq<char>>,
    chains: Seq<PartsView>,
    muted: bool,
    holder: ProcessorChain,
)
    requires
        holder.held(chains),
    ensures
        ({
            let before = holder.seen(chains);
            let after = holder.seen(mute_all(tracks, wanted, chains, muted));
            &&& after.raw_tap == before.raw_tap
            &&& after.processors == if reaches(tracks, wanted, holder.place as int) {
                MuteProcessor::set_chain(before.processors, muted)
            } else {
                before.processors
            }
        }),
{
}

/// After a track was taken out of a stream, no track of its name is there.
pub proof fn law_removed_is_gone(tracks: Seq<TrackView>, id: Seq<char>)
    requires
        distinct_ids(tracks),
    ensures
        !has_track(without_track(tracks, id), id),
{
    if has_track(tracks, id) {
        let at = choose|i: int| 0 <= i < tracks.len() && #[trigger] tracks[i].track_id == id;
        lemma_without_present(tracks, id, at);
        let after = without_track(tracks, id);
        assert forall|i: int| 0 <= i < after.len() implies #[trigger] after[i].track_id != id by {
            if i < at {
                assert(tracks[i].track_id != tracks[at].track_id);
            } else {
                assert(tracks[at].track_id != tracks[i + 1].track_id);
            }
        }
    } else {
        lemma_without_absent(tracks, id);
    }
}

/// A packet is never played on the track that it came from.
pub proof fn law_no_echo(tracks: Seq<TrackView>, packet: FrameView, i: int)
    requires
        0 <= i < tracks.len(),
        tracks[i].track_id == packet.track_id,
    ensures
        steps_of(tracks, packet)[i] != PacketStep::Send,
{
}

/// The chains once one more track was silenced, or let be heard again.
proof fn lemma_mute_one_more(
    done: Seq<TrackView>,
    track: TrackView,
    wanted: Option<Seq<char>>,
    chains: Seq<PartsView>,
    muted: bool,
)
    requires
        track.chain.held(chains),
    ensures
        mute_all(done.push(track), wanted, chains, muted) == if selects(wanted, track.track_id) {
            stream::mute_set(
                mute_all(done, wanted, chains, muted),
                track.chain.place as int,
                muted,
            )
        } else {
            mute_all(done, wanted, chains, muted)
        },
{
    let more = done.push(track);
    let at = track.chain.place as int;
    stream::law_mute_twice(chains[at].processors);
    stream::law_unmute_twice(chains[at].processors);
    assert forall|p: int| 0 <= p < chains.len() implies #[trigger] reaches(more, wanted, p) == (
    reaches(done, wanted, p) || (selects(wanted, track.track_id) && at == p)) by {
        if reaches(done, wanted, p) {
            let i = choose|i: int|
                0 <= i < done.len() && selects(wanted, (#[trigger] done[i]).track_id)
                    && done[i].chain.place == p;
            assert(more[i] == done[i]);
        }
        if selects(wanted, track.track_id) && at == p {
            assert(more[done.len() as int] == track);
        }
        if reaches(more, wanted, p) {
            let i = choose|i: int|
                0 <= i < more.len() && selects(wanted, (#[trigger] more[i]).track_id)
                    && more[i].chain.place == p;
            if i < done.len() {
                assert(more[i] == done[i]);
            }
        }
    }
    assert(mute_all(more, wanted, chains, muted) =~= if selects(wanted, track.track_id) {
        stream::mute_set(mute_all(done, wanted, chains, muted), at, muted)
    } else {
        mute_all(done, wanted, chains, muted)
    });
}

/// Whether a command speaks of a track.
fn wanted_is(wanted: &Option<String>, id: &String) -> (r: bool)
    ensures
        r == selects(text::opt_view(*wanted), id@),
{
    match wanted {
        Some(w) => text::str_eq(w.as_str(), id.as_str()),
        None => true,
    }
}

impl TrackTable {
    /// No two tracks have the same name, and their chains are kept.
    pub open spec fn wf(&self, chains: Seq<PartsView>) -> bool {
        distinct_ids(self@) && chains_held(self@, chains)
    }

    /// A table without tracks.
    pub fn new() -> (r: Self)
        ensures
            r@ == Seq::<TrackView>::empty(),
            forall|chains: Seq<PartsView>| #[trigger] r.wf(chains),
    {
        let r: TrackTable = TrackTable { tracks: Vec::new() };
        assert(r@ =~= Seq::<TrackView>::empty());
        r
    }

    /// The place of the track with a name.
    fn find(&self, id: &str) -> (r: Option<usize>)
        ensures
            match r {
                Some(i) => i < self.tracks@.len() && self@[i as int].track_id == id@,
                None => !has_track(self@, id@),
            },
    {
        let n: usize = self.tracks.len();
        let mut i: usize = 0;
        while i < n
            invariant
                0 <= i <= n,
                n == self.tracks@.len(),
                forall|j: int| 0 <= j < i ==> #[trigger] self@[j].track_id != id@,
            decreases n - i,
        {
            if text::str_eq(self.tracks[i].track_id.as_str(), id) {
                return Some(i);
            }
            i = i + 1;
        }
        None
    }

    /// Adds a track; it takes the place of one with its name.
    fn add_track(&mut self, track: TrackEntry)
        requires
            distinct_ids(old(self)@),
        ensures
            final(self)@ == with_track(old(self)@, track@),
    {
        let ghost before = self@;
        let ghost t = track@;
        match self.find(track.track_id.as_str()) {
            Some(i) => {
                assert(before[i as int].track_id == t.track_id);
                self.tracks.set(i, track);
                assert forall|j: int| 0 <= j < before.len() implies self@[j] == with_track(
                    before,
                    t,
                )[j] by {
                    if j < i {
                        assert(before[j].track_id != before[i as int].track_id);
                    } else if j > i {
                        assert(before[i as int].track_id != before[j].track_id);
                    }
                }
                assert(self@ =~= with_track(before, t));
            },
            None => {
                self.tracks.push(track);
                assert(self@ =~= with_track(before, t));
            },
        }
    }

    /// Takes a track out; tells whether it was there.
    fn take_track(&mut self, id: &str) -> (r: bool)
        requires
            distinct_ids(old(self)@),
        ensures
            final(self)@ == without_track(old(self)@, id@),
            r == has_track(old(self)@, id@),
    {
        let ghost before = self@;
        match self.find(id) {
            Some(i) => {
                let _gone: TrackEntry = self.tracks.remove(i);
                proof {
                    assert(before[i as int].track_id == id@);
                    lemma_without_present(before, id@, i as int);
                    assert(self@ =~= before.remove(i as int));
                }
                true
            },
            None => {
                proof {
                    lemma_without_absent(before, id@);
                }
                false
            },
        }
    }

    /// Silences one track, or all, or lets them be heard again.
    fn set_mute(&self, chains: &mut ChainTable, wanted: &Option<String>, muted: bool)
        requires
            chains_held(self@, old(chains)@),
        ensures
            final(chains)@ == mute_all(self@, text::opt_view(*wanted), old(chains)@, muted),
    {
        let ghost before = chains@;
        let ghost w = text::opt_view(*wanted);
        let n: usize = self.tracks.len();
        let mut i: usize = 0;
        assert(chains@ =~= mute_all(self@.take(0), w, before, muted));
        while i < n
            invariant
                0 <= i <= n,
                n == self.tracks@.len(),
                w == text::opt_view(*wanted),
                chains_held(self@, before),
                chains@ == mute_all(self@.take(i as int), w, before, muted),
            decreases n - i,
        {
            let ghost now = chains@;
            let ghost done = self@.take(i as int);
            let ghost more = self@.take(i + 1);
            let ghost track = self@[i as int];
            assert(track.chain.held(before));
            assert(more =~= done.push(track));
            if wanted_is(wanted, &self.tracks[i].track_id) {
                if muted {
                    MuteProcessor::mute_track(&self.tracks[i].chain, chains);
                } else {
                    MuteProcessor::unmute_track(&self.tracks[i].chain, chains);
                }
            }
            proof {
                lemma_mute_one_more(done, track, w, before, muted);
                assert(chains@ =~= mute_all(more, w, before, muted));
            }
            i = i + 1;
        }
        assert(self@.take(n as int) =~= self@);
    }

    /// What becomes of a packet at each track.
    pub fn handle_packet(&self, packet: &AudioFrame) -> (r: Vec<PacketStep>)
        ensures
            r@ == steps_of(self@, packet@),
    {
        let is_rtp: bool = match &packet.samples {
            Samples::RTP { .. } => true,
            _ => false,
        };
        let from_queue: bool = text::str_eq(packet.track_id.as_str(), QUEUE_HOLD_TRACK_ID);
        let n: usize = self.tracks.len();
        let mut steps: Vec<PacketStep> = Vec::new();
        let mut i: usize = 0;
        while i < n
            invariant
                0 <= i <= n,
                n == self.tracks@.len(),
                is_rtp == (packet@.samples is RTP),
                from_queue == (packet@.track_id == QUEUE_HOLD_TRACK_ID@),
                steps@ == steps_of(self@, packet@).take(i as int),
            decreases n - i,
        {
            let id: &str = self.tracks[i].track_id.as_str();
            let step: PacketStep = if text::str_eq(id, packet.track_id.as_str()) {
                if is_rtp {
                    PacketStep::Detect
                } else {
                    PacketStep::Skip
                }
            } else if from_queue && text::str_eq(id, CALLEE_TRACK_ID) {
                PacketStep::Skip
            } else {
                PacketStep::Send
            };
            assert(self@[i as int].track_id == id@);
            assert(step == step_of(id@, packet@));
            steps.push(step);
            i = i + 1;
            assert(steps@ =~= steps_of(self@, packet@).take(i as int));
        }
        assert(steps_of(self@, packet@).take(n as int) =~= steps_of(self@, packet@));
        steps
    }

    /// Carries out a command.
    pub fn handle_track_command(&mut self, chains: &mut ChainTable, command: TrackCommand) -> (r:
        TrackAction)
        requires
            old(self).wf(old(chains)@),
            command_ok(command@, old(chains)@),
        ensures
            final(self).wf(final(chains)@),
            (final(self)@, r@) == commanded(old(self)@, command@),
            final(chains)@ == chains_after(old(self)@, command@, old(chains)@),
    {
        proof {
            law_ids_stay_distinct(self@, command@);
            lemma_chains_stay_held(self@, command@, chains@);
        }
        match command {
            TrackCommand::AddTrack { track } => {
                let track_id: String = track.track_id.clone();
                self.add_track(track);
                TrackAction::Keep { track_id }
            },
            TrackCommand::RemoveTrack { track_id, graceful } => {
                if self.take_track(track_id.as_str()) {
                    TrackAction::Stop { track_id, graceful }
                } else {
                    TrackAction::Done
                }
            },
            TrackCommand::UpdateRemoteDescription { track_id, answer, force } => {
                if self.find(track_id.as_str()).is_some() {
                    TrackAction::ApplyAnswer { track_id, answer, force }
                } else {
                    TrackAction::AnswerIgnored
                }
            },
            TrackCommand::Handshake { track_id, offer, timeout } => {
                if self.find(track_id.as_str()).is_some() {
                    TrackAction::Handshake { track_id, offer, timeout }
                } else {
                    TrackAction::HandshakeFailed {
                        message: text::concat2("track not found ", track_id.as_str()),
                    }
                }
            },
            TrackCommand::MuteTrack { track_id } => {
                self.set_mute(chains, &track_id, true);
                TrackAction::Done
            },
            TrackCommand::UnmuteTrack { track_id } => {
                self.set_mute(chains, &track_id, false);
                TrackAction::Done
            },
            TrackCommand::AudioFrame { packet } => {
                let steps: Vec<PacketStep> = self.handle_packet(&packet);
                TrackAction::Deliver { packet, steps }
            },
        }
    }
}

/// The event that reports the digit found in a packet.
pub fn dtmf_event(packet: &AudioFrame, digit: Option<String>) -> (r: Option<SessionEvent>)
    ensures
        match (digit, r) {
            (Some(d), Some(e)) => e@ == (SessionEventView::Dtmf {
                track_id: packet@.track_id,
                timestamp: packet@.timestamp,
                digit: d@,
                refer: None,
            }),
            (None, None) => true,
            _ => false,
        },
{
    match digit {
        Some(digit) => Some(
            SessionEvent::Dtmf {
                track_id: packet.track_id.clone(),
                timestamp: packet.timestamp,
                digit,
                refer: None,
            },
        ),
        None => None,
    }
}

/// A packet is played on every other track: whatever it carries, every track of
/// another name plays it, but that music from the queue's track is not played to
/// the callee. The packet is handed on as it came, with one step for each track.
pub proof fn law_played_on_every_other_track(tracks: Seq<TrackView>, packet: FrameView, i: int)
    requires
        0 <= i < tracks.len(),
        tracks[i].track_id != packet.track_id,
    ensures
        ({
            let step = commanded(tracks, TrackCommandView::AudioFrame { packet }).1;
            &&& step matches TrackActionView::Deliver { packet: handed, steps }
            &&& handed == packet
            &&& steps.len() == tracks.len()
            &&& !(packet.track_id == "queue-hold-track"@ && tracks[i].track_id == "callee-track"@)
                ==> steps[i] == PacketStep::Send
            &&& packet.track_id == "queue-hold-track"@ && tracks[i].track_id == "callee-track"@
                ==> steps[i] == PacketStep::Skip
        }),
{
}

/// A track looks for digits in its own packets where they carry RTP, and does
/// nothing with its others.
pub proof fn law_own_packets_are_searched(tracks: Seq<TrackView>, packet: FrameView, i: int)
    requires
        0 <= i < tracks.len(),
        tracks[i].track_id == packet.track_id,
    ensures
        packet.samples is RTP ==> steps_of(tracks, packet)[i] == PacketStep::Detect,
        packet.samples !is RTP ==> steps_of(tracks, packet)[i] == PacketStep::Skip,
{
}

/// Whatever the order of the tracks, each gets the step that its name calls for.
pub proof fn law_steps_go_by_name(
    tracks: Seq<TrackView>,
    others: Seq<TrackView>,
    packet: FrameView,
    i: int,
    j: int,
)
    requires
        0 <= i < tracks.len(),
        0 <= j < others.len(),
        tracks[i].track_id == others[j].track_id,
    ensures
        steps_of(tracks, packet)[i] == steps_of(others, packet)[j],
{
}

/// A track that is added is there afterwards. A track of another name stays where
/// it is, and one of the same name gives way: none is added to those that are
/// there.
pub proof fn law_added_is_there(tracks: Seq<TrackView>, track: TrackView)
    ensures
        ({
            let (after, action) = commanded(tracks, TrackCommandView::AddTrack { track });
            &&& after.contains(track)
            &&& action == (TrackActionView::Keep { track_id: track.track_id })
            &&& after.len() == tracks.len() + if has_track(tracks, track.track_id) {
                0int
            } else {
                1
            }
            &&& forall|i: int|
                0 <= i < tracks.len() && tracks[i].track_id != track.track_id ==> after[i]
                    == #[trigger] tracks[i]
            &&& forall|i: int|
                0 <= i < after.len() && (#[trigger] after[i]).track_id == track.track_id
                    ==> after[i] == track
        }),
{
    let after = with_track(tracks, track);
    if has_track(tracks, track.track_id) {
        let at = choose|i: int|
            0 <= i < tracks.len() && #[trigger] tracks[i].track_id == track.track_id;
        assert(after[at] == track);
    } else {
        assert(after[tracks.len() as int] == track);
    }
}

/// A track that is taken out leaves the others as they are and in their order;
/// it is stopped as the command says. A name that no track has takes nothing out.
pub proof fn law_removal_leaves_the_others(tracks: Seq<TrackView>, id: Seq<char>, graceful: bool)
    requires
        distinct_ids(tracks),
    ensures
        ({
            let (after, action) = commanded(
                tracks,
                TrackCommandView::RemoveTrack { track_id: id, graceful },
            );
            &&& forall|i: int|
                0 <= i < tracks.len() && (#[trigger] tracks[i]).track_id == id ==> {
                    &&& after == tracks.remove(i)
                    &&& action == (TrackActionView::Stop { track_id: id, graceful })
                }
            &&& !has_track(tracks, id) ==> after == tracks && action == TrackActionView::Done
        }),
{
    assert forall|i: int|
        0 <= i < tracks.len() && (#[trigger] tracks[i]).track_id == id implies without_track(
        tracks,
        id,
    ) == tracks.remove(i) by {
        lemma_without_present(tracks, id, i);
    }
    if !has_track(tracks, id) {
        lemma_without_absent(tracks, id);
    }
}

/// An answer and an offer reach the track that they are for, unchanged. Where
/// there is no such track, an answer is let go and an offer fails; either way the
/// tracks stay.
pub proof fn law_descriptions_reach_their_track(
    tracks: Seq<TrackView>,
    id: Seq<char>,
    sdp: Seq<char>,
    force: bool,
    timeout: Option<TimeSpan>,
)
    ensures
        ({
            let answered = commanded(
                tracks,
                TrackCommandView::UpdateRemoteDescription { track_id: id, answer: sdp, force },
            );
            let offered = commanded(
                tracks,
                TrackCommandView::Handshake { track_id: id, offer: sdp, timeout },
            );
            &&& answered.0 == tracks && offered.0 == tracks
            &&& forall|i: int|
                0 <= i < tracks.len() && (#[trigger] tracks[i]).track_id == id ==> {
                    &&& answered.1 == (TrackActionView::ApplyAnswer {
                        track_id: id,
                        answer: sdp,
                        force,
                    })
                    &&& offered.1 == (TrackActionView::Handshake {
                        track_id: id,
                        offer: sdp,
                        timeout,
                    })
                }
            &&& (forall|i: int| 0 <= i < tracks.len() ==> (#[trigger] tracks[i]).track_id != id)
                ==> answered.1 == TrackActionView::AnswerIgnored && offered.1 is HandshakeFailed
        }),
{
}

/// A command that silences a track, by its name or without one, leaves a silencer
/// in its chain; one that lets it be heard leaves none there. A chain that no
/// named track holds stays, and no track comes or goes.
pub proof fn law_silenced_by_name(
    tracks: Seq<TrackView>,
    chains: Seq<PartsView>,
    wanted: Option<Seq<char>>,
    i: int,
)
    requires
        chains_held(tracks, chains),
        0 <= i < tracks.len(),
    ensures
        ({
            let mute = TrackCommandView::MuteTrack { track_id: wanted };
            let unmute = TrackCommandView::UnmuteTrack { track_id: wanted };
            let place = tracks[i].chain.place as int;
            let muted = chains_after(tracks, mute, chains)[place].processors;
            let heard = chains_after(tracks, unmute, chains)[place].processors;
            &&& commanded(tracks, mute).0 == tracks && commanded(tracks, unmute).0 == tracks
            &&& (wanted is None || wanted == Some(tracks[i].track_id)) ==> {
                &&& processor::any_kind(muted, ProcessorKind::Mute)
                &&& !processor::any_kind(heard, ProcessorKind::Mute)
            }
            &&& (wanted matches Some(w) && forall|j: int|
                0 <= j < tracks.len() && (#[trigger] tracks[j]).chain.place == place
                    ==> tracks[j].track_id != w) ==> muted == chains[place].processors && heard
                == chains[place].processors
        }),
{
    let place = tracks[i].chain.place as int;
    assert(tracks[i].chain.held(chains));
    let before = chains[place].processors;
    assert(processor::any_kind(MuteProcessor::muted_chain(before), ProcessorKind::Mute)) by {
        if !processor::any_kind(before, ProcessorKind::Mute) {
            assert(MuteProcessor::muted_chain(before)[0].kind_of() == ProcessorKind::Mute);
        }
    }
    let heard = MuteProcessor::unmuted_chain(before);
    assert forall|k: int| 0 <= k < heard.len() implies (#[trigger] heard[k]).kind_of()
        != ProcessorKind::Mute by {
        broadcast use vstd::seq_lib::group_filter_ensures;

        assert(heard.contains(heard[k]));
    }
}

/// Commands other than those that silence leave every chain as it is.
pub proof fn law_only_silencing_touches_chains(
    tracks: Seq<TrackView>,
    command: TrackCommandView,
    chains: Seq<PartsView>,
)
    requires
        command !is MuteTrack,
        command !is UnmuteTrack,
    ensures
        chains_after(tracks, command, chains) == chains,
{
}

/// What is seen of a [`TrackCommand`] is all that it holds, and nothing else.
pub proof fn law_view_of_track_command(it: TrackCommand)
    ensures
        it matches TrackCommand::AddTrack { track } ==> it@ == (TrackCommandView::AddTrack {
            track: track@,
        }),
        it matches TrackCommand::RemoveTrack { track_id, graceful } ==> it@ == (
        TrackCommandView::RemoveTrack {
            track_id: track_id@,
            graceful,
        }),
        it matches TrackCommand::UpdateRemoteDescription { track_id, answer, force } ==> it@ == (
        TrackCommandView::UpdateRemoteDescription {
            track_id: track_id@,
            answer: answer@,
            force,
        }),
        it matches TrackCommand::Handshake { track_id, offer, timeout } ==> it@ == (
        TrackCommandView::Handshake {
            track_id: track_id@,
            offer: offer@,
            timeout,
        }),
        it matches TrackCommand::MuteTrack { track_id } ==> it@ == (TrackCommandView::MuteTrack {
            track_id: text::opt_view(track_id),
        }),
        it matches TrackCommand::UnmuteTrack { track_id } ==> it@ == (
        TrackCommandView::UnmuteTrack {
            track_id: text::opt_view(track_id),
        }),
        it matches TrackCommand::AudioFrame { packet } ==> it@ == (TrackCommandView::AudioFrame {
            packet: packet@,
        }),
{
}

/// What is seen of a [`TrackAction`] is all that it holds, and nothing else.
pub proof fn law_view_of_track_action(it: TrackAction)
    ensures
        it is Done ==> it@ == TrackActionView::Done,
        it matches TrackAction::Keep { track_id } ==> it@ == (TrackActionView::Keep {
            track_id: track_id@,
        }),
        it matches TrackAction::Stop { track_id, graceful } ==> it@ == (TrackActionView::Stop {
            track_id: track_id@,
            graceful,
        }),
        it matches TrackAction::ApplyAnswer { track_id, answer, force } ==> it@ == (
        TrackActionView::ApplyAnswer {
            track_id: track_id@,
            answer: answer@,
            force,
        }),
        it is AnswerIgnored ==> it@ == TrackActionView::AnswerIgnored,
        it matches TrackAction::Handshake { track_id, offer, timeout } ==> it@ == (
        TrackActionView::Handshake {
            track_id: track_id@,
            offer: offer@,
            timeout,
        }),
        it matches TrackAction::HandshakeFailed { message } ==> it@ == (
        TrackActionView::HandshakeFailed {
            message: message@,
        }),
        it matches TrackAction::Deliver { packet, steps } ==> it@ == (TrackActionView::Deliver {
            packet: packet@,
            steps: steps@,
        }),
{
}

/// The tracks of a table are seen in their order, each with its name and its
/// chain.
pub proof fn law_view_of_tracks(table: TrackTable, i: int)
    requires
        0 <= i < table.tracks@.len(),
    ensures
        table@.len() == table.tracks@.len(),
        table@[i].track_id == table.tracks@[i].track_id@,
        table@[i].chain == table.tracks@[i].chain,
{
}

/// Where an offer finds no track, the failure names the track that it was for.
pub proof fn law_failure_names_the_track(
    tracks: Seq<TrackView>,
    id: Seq<char>,
    offer: Seq<char>,
    timeout: Option<TimeSpan>,
)
    requires
        !has_track(tracks, id),
    ensures
        commanded(
            tracks,
            TrackCommandView::Handshake { track_id: id, offer, timeout },
        ).1 matches TrackActionView::HandshakeFailed { message } && message
            == "track not found "@ + id,
{
}

}
