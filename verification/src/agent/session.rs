//! WebRTC session: what is negotiated, when to stream, when to lock.
//!
//! The agent always answers: the client makes the offer and opens both data
//! channels. Capture starts once the transport is connected and ends as soon as it
//! is not.

use crate::agent::pairing::{self, RandomUnavailable};
use crate::crypto;
use crate::text;
use vstd::prelude::*;

verus! {

/// Media stream announced in the session description.
pub const STREAM_ID: &'static str = "sidgate";

/// Video track.
pub const TRACK_ID: &'static str = "desktop";

/// Label of the video track.
pub const TRACK_LABEL: &'static str = "Bureau";

/// RTP clock of video, which is imposed for H.264.
pub const VIDEO_CLOCK_RATE: u32 = 90_000;

/// Payload type used until one is negotiated.
pub const DEFAULT_PAYLOAD_TYPE: u8 = 96;

/// State of the transport.
#[derive(Debug, Clone, Copy, PartialEq, Eq, Structural)]
pub enum ConnectionState {
    /// Not known.
    Unspecified,
    /// Just made.
    New,
    /// Being established.
    Connecting,
    /// Established.
    Connected,
    /// Lost, perhaps for a moment.
    Disconnected,
    /// Lost for good.
    Failed,
    /// Closed.
    Closed,
}

/// Whether a state calls for the host to be locked.
pub open spec fn terminal(s: ConnectionState) -> bool {
    s is Disconnected || s is Failed || s is Closed
}

/// Whether a change to this state triggers the kill switch.
///
/// `Disconnected` does: the transport might recover by itself, but waiting for that
/// would leave the host's session open. Locking can be undone in two seconds; not
/// locking cannot.
pub fn is_terminal(state: ConnectionState) -> (b: bool)
    ensures
        b == terminal(state),
{
    matches!(
        state,
        ConnectionState::Disconnected | ConnectionState::Failed | ConnectionState::Closed
    )
}

/// Whether the transport can be used.
pub fn is_connected(state: ConnectionState) -> (b: bool)
    ensures
        b == (state == ConnectionState::Connected),
{
    matches!(state, ConnectionState::Connected)
}

/// No state both starts the stream and locks the host.
pub proof fn law_connected_is_not_terminal(s: ConnectionState)
    ensures
        !(terminal(s) && s == ConnectionState::Connected),
{
}

/// A codec that was negotiated.
#[derive(Debug, Clone, PartialEq, Eq)]
pub struct NegotiatedCodec {
    /// Its MIME type.
    pub mime_type: String,
    /// Its payload type.
    pub payload_type: u8,
}

/// A text in which ASCII letters are in upper case.
pub open spec fn upper_text(t: Seq<char>) -> Seq<char> {
    Seq::new(t.len(), |i: int| pairing::ascii_upper(t[i]))
}

/// Whether two texts are the same but for the case of ASCII letters.
pub fn same_ignoring_case(a: &str, b: &str) -> (same: bool)
    ensures
        same == (upper_text(a@) == upper_text(b@)),
{
    let x = text::chars_of(a);
    let y = text::chars_of(b);
    if x.len() != y.len() {
        assert(upper_text(a@).len() != upper_text(b@).len());
        return false;
    }
    let mut i: usize = 0;
    while i < x.len()
        invariant
            i <= x@.len(),
            x@.len() == y@.len(),
            x@ == a@,
            y@ == b@,
            forall|k: int|
                0 <= k < i ==> pairing::ascii_upper(#[trigger] x@[k]) == pairing::ascii_upper(
                    y@[k],
                ),
        decreases x@.len() - i,
    {
        if pairing::to_upper(x[i]) != pairing::to_upper(y[i]) {
            assert(upper_text(a@)[i as int] != upper_text(b@)[i as int]);
            return false;
        }
        i = i + 1;
    }
    assert(upper_text(a@) =~= upper_text(b@));
    true
}

/// Whether a codec is H.264.
pub open spec fn is_h264(c: NegotiatedCodec) -> bool {
    upper_text(c.mime_type@) == upper_text("video/H264"@)
}

/// The first H.264 codec from a place on.
pub open spec fn first_h264(cs: Seq<NegotiatedCodec>, from: int) -> Option<u8>
    decreases cs.len() - from,
{
    if from >= cs.len() {
        None
    } else if is_h264(cs[from]) {
        Some(cs[from].payload_type)
    } else {
        first_h264(cs, from + 1)
    }
}

/// The payload type of the first codec, if there is one.
pub open spec fn first_payload_type(cs: Seq<NegotiatedCodec>) -> Option<u8> {
    if cs.len() > 0 {
        Some(cs[0].payload_type)
    } else {
        None
    }
}

/// The payload type that was negotiated: that of the first H.264 codec, else that of
/// the first codec.
pub open spec fn negotiated(cs: Seq<NegotiatedCodec>) -> Option<u8> {
    match first_h264(cs, 0) {
        Some(p) => Some(p),
        None => first_payload_type(cs),
    }
}

/// The codecs that a sender tells of, if it does.
pub open spec fn codecs_view(codecs: Option<&[NegotiatedCodec]>) -> Option<Seq<NegotiatedCodec>> {
    match codecs {
        Some(cs) => Some(cs@),
        None => None,
    }
}

/// The payload type before any offer.
pub open spec fn type_at_start(codecs: Option<Seq<NegotiatedCodec>>) -> u8 {
    match codecs {
        Some(cs) => match first_payload_type(cs) {
            Some(p) => p,
            None => DEFAULT_PAYLOAD_TYPE,
        },
        None => DEFAULT_PAYLOAD_TYPE,
    }
}

/// The payload type once an offer was answered.
pub open spec fn type_after_offer(before: u8, codecs: Option<Seq<NegotiatedCodec>>) -> u8 {
    match codecs {
        Some(cs) => match negotiated(cs) {
            Some(p) => p,
            None => before,
        },
        None => before,
    }
}

/// The payload type that was negotiated.
pub fn negotiated_payload_type(codecs: &[NegotiatedCodec]) -> (p: Option<u8>)
    ensures
        p == negotiated(codecs@),
{
    let mut i: usize = 0;
    while i < codecs.len()
        invariant
            i <= codecs@.len(),
            first_h264(codecs@, 0) == first_h264(codecs@, i as int),
        decreases codecs@.len() - i,
    {
        if same_ignoring_case(codecs[i].mime_type.as_str(), "video/H264") {
            return Some(codecs[i].payload_type);
        }
        i = i + 1;
    }
    if codecs.len() > 0 {
        Some(codecs[0].payload_type)
    } else {
        None
    }
}

/// The codec, as the agent sends it.
#[derive(Debug, Clone, PartialEq, Eq)]
pub struct VideoCodec {
    /// MIME type.
    pub mime_type: String,
    /// RTP clock.
    pub clock_rate: u32,
    /// Number of channels.
    pub channels: u16,
    /// Format parameters.
    pub sdp_fmtp_line: String,
}

/// The H.264 codec as the agent sends it. Packetisation mode 1 allows fragmented
/// units, which anything larger than a packet needs; the level may differ on either
/// side, as it does with every browser.
pub fn h264_codec() -> (c: VideoCodec)
    ensures
        c.mime_type@ == "video/H264"@,
        c.clock_rate == VIDEO_CLOCK_RATE,
        c.channels == 0,
        c.sdp_fmtp_line@
            == "level-asymmetry-allowed=1;packetization-mode=1;profile-level-id=42e01f"@,
{
    VideoCodec {
        mime_type: "video/H264".to_owned(),
        clock_rate: VIDEO_CLOCK_RATE,
        channels: 0,
        sdp_fmtp_line:
            "level-asymmetry-allowed=1;packetization-mode=1;profile-level-id=42e01f".to_owned(),
    }
}

/// The synchronisation source that a draw makes (`None`: the system's generator is not
/// available).
pub open spec fn ssrc_of(drawn: Option<u32>) -> Result<u32, RandomUnavailable> {
    match drawn {
        Some(n) => Ok(n),
        None => Err(RandomUnavailable),
    }
}

/// The synchronisation source that a draw makes.
pub fn drawn_ssrc(drawn: Option<u32>) -> (r: Result<u32, RandomUnavailable>)
    ensures
        r == ssrc_of(drawn),
{
    match drawn {
        Some(n) => Ok(n),
        None => Err(RandomUnavailable),
    }
}

/// Draws a synchronisation source from the system's generator. Zero is not valid in
/// RTP. Whether there is one, and which, is up to the generator: what a draw makes is
/// said by [`drawn_ssrc`].
pub fn random_ssrc() -> (r: Result<u32, RandomUnavailable>)
    ensures
        exists|drawn: Option<u32>| r == #[trigger] ssrc_of(drawn) && drawn != Some(0u32),
        r matches Ok(n) ==> n != 0,
{
    drawn_ssrc(crypto::random_between(1, u32::MAX))
}

/// What a connection is made from.
#[derive(Debug, Clone, PartialEq, Eq)]
pub struct SessionPlan {
    /// URLs of the only ICE server, if there is one.
    pub ice_urls: Option<Vec<String>>,
    /// Synchronisation source of the track.
    pub ssrc: u32,
    /// Codec of the track.
    pub codec: VideoCodec,
    /// Highest rate of the track, in frames per second.
    pub max_framerate: u32,
}

/// Whether a result is what a drawn synchronisation source comes to: the plan of a
/// connection, or that none could be drawn.
pub open spec fn plan_outcome(
    drawn: Result<u32, RandomUnavailable>,
    stun_servers: Seq<String>,
    framerate: u32,
    r: Result<SessionPlan, RandomUnavailable>,
) -> bool {
    match drawn {
        Err(e) => r == Err::<SessionPlan, RandomUnavailable>(e),
        Ok(ssrc) => r matches Ok(p) && {
            &&& match p.ice_urls {
                None => stun_servers.len() == 0,
                Some(urls) => stun_servers.len() > 0 && text::texts(urls@) == text::texts(
                    stun_servers,
                ),
            }
            &&& p.ssrc == ssrc
            &&& p.codec.mime_type@ == "video/H264"@
            &&& p.codec.clock_rate == VIDEO_CLOCK_RATE
            &&& p.codec.channels == 0
            &&& p.codec.sdp_fmtp_line@
                == "level-asymmetry-allowed=1;packetization-mode=1;profile-level-id=42e01f"@
            &&& p.max_framerate == framerate
        },
    }
}

/// A session: its synchronisation source, and the payload type in force.
#[derive(Debug, Clone, Copy, PartialEq, Eq, Structural)]
pub struct Session {
    /// Synchronisation source.
    pub ssrc: u32,
    /// Payload type.
    pub payload_type: u8,
}

impl Session {
    /// What to make a connection from, with a synchronisation source from the system's
    /// generator. Whether there is one, and which, is up to the generator:
    /// [`Self::planned`] says what follows.
    pub fn plan(stun_servers: &[String], framerate: u32) -> (r: Result<
        SessionPlan,
        RandomUnavailable,
    >)
        ensures
            exists|drawn: Result<u32, RandomUnavailable>| #[trigger]
                plan_outcome(drawn, stun_servers@, framerate, r) && (drawn matches Ok(n) ==> n
                    != 0),
    {
        let drawn = random_ssrc();
        let r = Session::planned(drawn, stun_servers, framerate);
        assert(plan_outcome(drawn, stun_servers@, framerate, r));
        r
    }

    /// What to make a connection from, with the synchronisation source that was drawn.
    /// All the STUN servers make one ICE server; without any, none is named.
    pub fn planned(
        drawn: Result<u32, RandomUnavailable>,
        stun_servers: &[String],
        framerate: u32,
    ) -> (r: Result<SessionPlan, RandomUnavailable>)
        ensures
            plan_outcome(drawn, stun_servers@, framerate, r),
    {
        let ssrc: u32 = match drawn {
            Ok(n) => n,
            Err(e) => {
                return Err(e);
            },
        };
        let ice_urls = if stun_servers.len() == 0 {
            None
        } else {
            let mut urls: Vec<String> = Vec::new();
            let mut i: usize = 0;
            while i < stun_servers.len()
                invariant
                    i <= stun_servers@.len(),
                    urls@.len() == i,
                    forall|k: int| 0 <= k < i ==> (#[trigger] urls@[k])@ == stun_servers@[k]@,
                decreases stun_servers@.len() - i,
            {
                urls.push(stun_servers[i].clone());
                i = i + 1;
            }
            assert(text::texts(urls@) =~= text::texts(stun_servers@));
            Some(urls)
        };
        Ok(SessionPlan { ice_urls, ssrc, codec: h264_codec(), max_framerate: framerate })
    }

    /// A session that was just made, before any offer: the payload type is that of
    /// the first codec of the sender, if it tells.
    pub fn new(ssrc: u32, codecs: Option<&[NegotiatedCodec]>) -> (s: Session)
        ensures
            s.ssrc == ssrc,
            s.payload_type == type_at_start(codecs_view(codecs)),
    {
        let payload_type: u8 = match codecs {
            Some(cs) => {
                if cs.len() > 0 {
                    cs[0].payload_type
                } else {
                    DEFAULT_PAYLOAD_TYPE
                }
            },
            None => DEFAULT_PAYLOAD_TYPE,
        };
        Session { ssrc, payload_type }
    }

    /// The client's offer was answered, and these codecs were negotiated (`None`: the
    /// sender does not tell). The payload type is the client's: packets with another
    /// would be dropped without a word. Tells whether it changed.
    pub fn accept_offer(&mut self, codecs: Option<&[NegotiatedCodec]>) -> (changed: bool)
        ensures
            final(self).ssrc == old(self).ssrc,
            final(self).payload_type == type_after_offer(
                old(self).payload_type,
                codecs_view(codecs),
            ),
            changed == (final(self).payload_type != old(self).payload_type),
    {
        let before: u8 = self.payload_type;
        if let Some(cs) = codecs {
            if let Some(p) = negotiated_payload_type(cs) {
                self.payload_type = p;
            }
        }
        self.payload_type != before
    }
}

/// Nominal time between two images, in nanoseconds. A rate of zero counts as one
/// image per second.
pub open spec fn nominal_duration(framerate: u32) -> u64 {
    if framerate == 0 {
        1_000_000_000
    } else {
        (1_000_000_000int / framerate as int) as u64
    }
}

/// How long an image lasts: the time since the one before, or the nominal one where
/// there is none before or no time went by.
pub open spec fn image_duration(previous: Option<u64>, timestamp: u64, nominal: u64) -> u64 {
    match previous {
        Some(p) if timestamp > p => (timestamp - p) as u64,
        _ => nominal,
    }
}

/// Clock of the video sender. On a still desktop images are seconds apart, and a
/// fixed step would shift the clock.
#[derive(Debug, Clone, Copy)]
pub struct VideoClock {
    nominal: u64,
    previous: Option<u64>,
}

impl VideoClock {
    /// Nominal time between two images, in nanoseconds.
    pub closed spec fn step(&self) -> u64 {
        self.nominal
    }

    /// Time of the last image, in nanoseconds.
    pub closed spec fn last(&self) -> Option<u64> {
        self.previous
    }

    /// A clock before the first image.
    pub fn new(framerate: u32) -> (c: VideoClock)
        ensures
            c.step() == nominal_duration(framerate),
            c.last() is None,
    {
        let rate: u64 = if framerate == 0 {
            1
        } else {
            framerate as u64
        };
        proof {
            let r = rate as int;
            assert(0 <= 1_000_000_000int / r <= 1_000_000_000) by (nonlinear_arith)
                requires
                    r >= 1,
            ;
        }
        VideoClock { nominal: 1_000_000_000 / rate, previous: None }
    }

    /// How long the image with this time lasts, in nanoseconds.
    pub fn advance(&mut self, timestamp: u64) -> (d: u64)
        ensures
            d == image_duration(old(self).last(), timestamp, old(self).step()),
            final(self).step() == old(self).step(),
            final(self).last() == Some(timestamp),
    {
        let d: u64 = match self.previous {
            Some(p) => {
                if timestamp > p {
                    timestamp - p
                } else {
                    self.nominal
                }
            },
            None => self.nominal,
        };
        self.previous = Some(timestamp);
        d
    }
}

/// The sum of the durations of images with increasing times is the time between the
/// first and the last, and the nominal duration of the first: the clock does not
/// drift.
pub proof fn law_video_clock_does_not_drift(times: Seq<u64>, nominal: u64)
    requires
        times.len() > 0,
        forall|i: int, j: int| 0 <= i < j < times.len() ==> times[i] < times[j],
    ensures
        total_duration(times, nominal) == nominal + (times.last() - times[0]),
    decreases times.len(),
{
    if times.len() > 1 {
        let prev = times.drop_last();
        law_video_clock_does_not_drift(prev, nominal);
        assert(prev.last() == times[times.len() - 2]);
        assert(times[times.len() - 2] < times[times.len() - 1]);
    } else {
        assert(total_duration(times.drop_last(), nominal) == 0);
    }
}

/// The sum of the durations of images with the given times.
pub open spec fn total_duration(times: Seq<u64>, nominal: u64) -> int
    decreases times.len(),
{
    if times.len() == 0 {
        0
    } else {
        let prev = times.drop_last();
        total_duration(prev, nominal) + image_duration(
            if prev.len() == 0 {
                None
            } else {
                Some(prev.last())
            },
            times.last(),
            nominal,
        )
    }
}

/// The kill switch: a transport that is disconnected, has failed or is closed, and no other.
pub proof fn law_three_states_are_the_end(s: ConnectionState)
    ensures
        terminal(s) <==> s == ConnectionState::Disconnected || s == ConnectionState::Failed || s
            == ConnectionState::Closed,
        s is Unspecified || s is New || s is Connecting || s is Connected ==> !terminal(s),
{
}

/// H.264 is recognised by its name in any case, and by nothing else.
pub proof fn law_h264_is_told_by_its_name(c: NegotiatedCodec, i: int)
    ensures
        is_h264(c) ==> c.mime_type@.len() == 10 && (0 <= i < 10 ==> c.mime_type@[i]
            == "video/H264"@[i] || pairing::ascii_upper(c.mime_type@[i]) == pairing::ascii_upper(
            "video/H264"@[i],
        )),
        c.mime_type@ == "video/H264"@ ==> is_h264(c),
        c.mime_type@ == "video/h264"@ ==> is_h264(c),
{
    reveal_strlit("video/H264");
    reveal_strlit("video/h264");
    assert("video/H264"@.len() == 10);
    assert("video/h264"@.len() == 10);
    if is_h264(c) {
        assert(upper_text(c.mime_type@).len() == 10);
        if 0 <= i < 10 {
            assert(upper_text(c.mime_type@)[i] == upper_text("video/H264"@)[i]);
        }
    }
    assert(upper_text("video/h264"@) =~= upper_text("video/H264"@));
}

proof fn lemma_first_h264(cs: Seq<NegotiatedCodec>, from: int)
    requires
        0 <= from <= cs.len(),
    ensures
        match first_h264(cs, from) {
            Some(p) => exists|i: int|
                from <= i < cs.len() && is_h264(#[trigger] cs[i]) && cs[i].payload_type == p
                    && forall|k: int| from <= k < i ==> !is_h264(#[trigger] cs[k]),
            None => forall|k: int| from <= k < cs.len() ==> !is_h264(#[trigger] cs[k]),
        },
    decreases cs.len() - from,
{
    if from < cs.len() {
        if is_h264(cs[from]) {
            assert(is_h264(cs[from]));
        } else {
            lemma_first_h264(cs, from + 1);
            if first_h264(cs, from + 1) is Some {
                let i = choose|i: int|
                    from + 1 <= i < cs.len() && is_h264(#[trigger] cs[i]) && cs[i].payload_type
                        == first_h264(cs, from + 1)->0 && forall|k: int|
                        from + 1 <= k < i ==> !is_h264(#[trigger] cs[k]);
                assert(is_h264(cs[i]));
            }
        }
    }
}

/// The payload type is that of the first H.264 codec, wherever it stands; without one, that
/// of the first codec; and without codecs there is none. `i` tells where the first stands.
pub proof fn law_the_first_h264_codec_counts(cs: Seq<NegotiatedCodec>, i: int)
    ensures
        negotiated(cs) is None <==> cs.len() == 0,
        0 <= i < cs.len() && is_h264(cs[i]) && (forall|k: int|
            0 <= k < i ==> !is_h264(#[trigger] cs[k])) ==> negotiated(cs) == Some(
            cs[i].payload_type,
        ),
        cs.len() > 0 && (forall|k: int| 0 <= k < cs.len() ==> !is_h264(#[trigger] cs[k]))
            ==> negotiated(cs) == Some(cs[0].payload_type),
{
    lemma_first_h264(cs, 0);
    if 0 <= i < cs.len() && is_h264(cs[i]) && (forall|k: int|
        0 <= k < i ==> !is_h264(#[trigger] cs[k])) {
        let p = first_h264(cs, 0);
        assert(p is Some);
        let j = choose|j: int|
            0 <= j < cs.len() && is_h264(#[trigger] cs[j]) && cs[j].payload_type == p->0
                && forall|k: int| 0 <= k < j ==> !is_h264(#[trigger] cs[k]);
        if j < i {
            assert(!is_h264(cs[j]));
        } else if i < j {
            assert(!is_h264(cs[i]));
        }
    }
}

/// The payload type in force: 96 until the sender tells of a codec, and then that of its
/// first; after an offer, the negotiated one, if there is any.
pub proof fn law_the_payload_type_follows_the_offer(
    before: u8,
    codecs: Option<Seq<NegotiatedCodec>>,
)
    ensures
        codecs is None || codecs->0.len() == 0 ==> type_at_start(codecs) == 96
            && type_after_offer(before, codecs) == before,
        codecs matches Some(cs) ==> (cs.len() > 0 ==> type_at_start(codecs) == cs[0].payload_type
            && Some(type_after_offer(before, codecs)) == negotiated(cs)),
{
    if codecs is Some {
        law_the_first_h264_codec_counts(codecs->0, 0);
    }
}

/// A plan goes with the source that was drawn, names all the STUN servers or none, offers
/// H.264 on the clock of video, and keeps the rate. Without a source there is no plan.
pub proof fn law_a_plan_goes_with_its_source(
    drawn: Result<u32, RandomUnavailable>,
    stun_servers: Seq<String>,
    framerate: u32,
    r: Result<SessionPlan, RandomUnavailable>,
)
    requires
        plan_outcome(drawn, stun_servers, framerate, r),
    ensures
        r is Ok <==> drawn is Ok,
        r matches Ok(p) ==> {
            &&& Ok::<u32, RandomUnavailable>(p.ssrc) == drawn
            &&& p.max_framerate == framerate
            &&& p.ice_urls is None <==> stun_servers.len() == 0
            &&& p.ice_urls matches Some(urls) ==> urls@.len() == stun_servers.len() && forall|
                i: int,
            |
                0 <= i < urls@.len() ==> (#[trigger] urls@[i])@ == stun_servers[i]@
            &&& p.codec.mime_type@ == "video/H264"@
            &&& p.codec.clock_rate == 90_000
            &&& p.codec.channels == 0
        },
{
    if r is Ok && r->Ok_0.ice_urls is Some {
        let urls = r->Ok_0.ice_urls->0;
        assert(text::texts(urls@).len() == text::texts(stun_servers).len());
        assert forall|i: int| 0 <= i < urls@.len() implies (#[trigger] urls@[i])@
            == stun_servers[i]@ by {
            assert(text::texts(urls@)[i] == text::texts(stun_servers)[i]);
        }
    }
}

/// The nominal time of an image is the largest whole number of nanoseconds of which as many
/// as there are images fit in a second; without a rate it is one second.
pub proof fn law_a_second_holds_its_frames(framerate: u32)
    ensures
        framerate > 0 ==> nominal_duration(framerate) * framerate <= 1_000_000_000 < (
        nominal_duration(framerate) + 1) * framerate,
        framerate == 0 ==> nominal_duration(framerate) == 1_000_000_000,
{
    if framerate > 0 {
        let r = framerate as int;
        let d = 1_000_000_000int / r;
        assert(d * r <= 1_000_000_000 < (d + 1) * r && 0 <= d <= 1_000_000_000) by (nonlinear_arith)
            requires
                r > 0,
                d == 1_000_000_000int / r,
        ;
    }
}

/// An image lasts as long as the time since the one before it; the first one, and one that
/// comes with no later a time, last the nominal time.
pub proof fn law_an_image_lasts_until_the_next(previous: u64, timestamp: u64, nominal: u64)
    ensures
        timestamp > previous ==> image_duration(Some(previous), timestamp, nominal) + previous
            == timestamp,
        timestamp <= previous ==> image_duration(Some(previous), timestamp, nominal) == nominal,
        image_duration(None, timestamp, nominal) == nominal,
{
}

/// The source is what was drawn, and without a draw there is none.
pub proof fn law_the_source_is_what_was_drawn(drawn: Option<u32>)
    ensures
        drawn matches Some(n) ==> ssrc_of(drawn) == Ok::<u32, RandomUnavailable>(n),
        drawn is None ==> ssrc_of(drawn) is Err,
{
}

/// Codecs that a sender tells of are all looked at, and none are made up where it tells of none.
pub proof fn law_told_codecs_are_looked_at(codecs: Option<&[NegotiatedCodec]>)
    ensures
        codecs_view(codecs) is Some <==> codecs is Some,
        codecs matches Some(cs) ==> codecs_view(codecs) == Some(cs@),
{
}

} // verus!
