//! The video pipeline: its elements, and the decisions while it runs.
//!
//! ```text
//! udpsrc -> tsdemux ~> h264parse -> decoder -> autovideosink
//! ```
//!
//! The demultiplexer adds a pad for each elementary stream that it finds; the
//! first H.264 stream is linked to the parser.

use vstd::prelude::*;

use crate::config::Config;
use crate::health;
use crate::text;

verus! {

// ---------------------------------------------------------------------------
// Construction
// ---------------------------------------------------------------------------

/// An element of the pipeline: the factory that makes it, and its name.
pub struct ElementPlan {
    pub factory: String,
    pub name: String,
}

/// How the pipeline is built.
pub struct PipelinePlan {
    /// The elements, in the order of the stream.
    pub elements: Vec<ElementPlan>,
    /// Pairs of elements, by index, that are linked at once.
    pub links: Vec<(usize, usize)>,
    /// The pair of elements that is linked when the stream is found.
    pub dynamic_link: (usize, usize),
    /// The port on which the first element receives.
    pub port: i32,
    /// Whether the last element keeps audio and video in step.
    pub sync: bool,
}

/// The factories and names of a list of elements.
pub open spec fn element_texts(v: Seq<ElementPlan>) -> Seq<(Seq<char>, Seq<char>)> {
    v.map_values(|e: ElementPlan| (e.factory@, e.name@))
}

/// The elements of the pipeline, with the decoder chosen.
pub open spec fn pipeline_elements(decoder: Seq<char>) -> Seq<(Seq<char>, Seq<char>)> {
    seq![
        ("udpsrc"@, "src"@),
        ("tsdemux"@, "demux"@),
        ("h264parse"@, "parse"@),
        (decoder, "decode"@),
        ("autovideosink"@, "sink"@),
    ]
}

/// An element of the pipeline.
fn element(factory: &str, name: &str) -> (e: ElementPlan)
    ensures
        e.factory@ == factory@,
        e.name@ == name@,
{
    ElementPlan { factory: factory.to_owned(), name: name.to_owned() }
}

/// Plan the pipeline for the decoder chosen.
pub fn pipeline_plan(cfg: &Config, decoder: &str) -> (plan: PipelinePlan)
    ensures
        element_texts(plan.elements@) == pipeline_elements(decoder@),
        plan.links@ == seq![(0usize, 1usize), (2usize, 3usize), (3usize, 4usize)],
        plan.dynamic_link == (1usize, 2usize),
        plan.port == cfg.rtp_port,
        !plan.sync,
{
    let mut elements: Vec<ElementPlan> = Vec::new();
    elements.push(element("udpsrc", "src"));
    elements.push(element("tsdemux", "demux"));
    elements.push(element("h264parse", "parse"));
    elements.push(element(decoder, "decode"));
    elements.push(element("autovideosink", "sink"));
    assert(element_texts(elements@) =~= pipeline_elements(decoder@));
    let mut links: Vec<(usize, usize)> = Vec::new();
    links.push((0, 1));
    links.push((2, 3));
    links.push((3, 4));
    assert(links@ =~= seq![(0usize, 1usize), (2usize, 3usize), (3usize, 4usize)]);
    PipelinePlan {
        elements,
        links,
        dynamic_link: (1, 2),
        port: cfg.rtp_port as i32,
        sync: false,
    }
}

/// The decoder: the hardware one where it is available, else the software one.
pub fn decoder_factory(hardware: bool) -> (r: &'static str)
    ensures
        r@ == if hardware {
            "v4l2h264dec"@
        } else {
            "avdec_h264"@
        },
{
    if hardware {
        "v4l2h264dec"
    } else {
        "avdec_h264"
    }
}

/// The media that the first element receives: an MPEG transport stream.
pub struct StreamCaps {
    pub media: &'static str,
    pub systemstream: bool,
    pub packetsize: i32,
}

/// The media that the first element receives, in packets of 188 bytes.
pub fn mpeg_ts_caps() -> (c: StreamCaps)
    ensures
        c.media@ == "video/mpegts"@,
        c.systemstream,
        c.packetsize == 188,
{
    StreamCaps { media: "video/mpegts", systemstream: true, packetsize: 188 }
}

/// The message for an element that cannot be made.
pub open spec fn missing_element(factory: Seq<char>) -> Seq<char> {
    "creating GStreamer element '"@ + factory + "' — is the '"@ + factory
        + "' plugin installed on this device?"@
}

/// The message for an element that cannot be made.
pub fn missing_element_message(factory: &str) -> (out: String)
    ensures
        out@ == missing_element(factory@),
{
    let mut out = "creating GStreamer element '".to_owned();
    out.append(factory);
    out.append("' — is the '");
    out.append(factory);
    out.append("' plugin installed on this device?");
    out
}

/// The parser's sink pad when the demultiplexer adds a pad.
pub enum ParserPad {
    /// The parser is gone.
    Dropped,
    /// The parser has no sink pad.
    Missing,
    /// The sink pad is already linked.
    Linked,
    /// The sink pad is free.
    Free,
}

/// What becomes of a pad that the demultiplexer adds.
pub enum PadStep {
    /// The pad carries no H.264; it is left alone.
    NotH264,
    /// The parser is gone.
    ParserDropped,
    /// The parser has no sink pad.
    NoSinkPad,
    /// Another pad is linked already; this one is left alone.
    AlreadyLinked,
    /// The pad is linked to the parser, which then follows the pipeline's state.
    Link,
}

/// Whether one of the media types is H.264 video.
pub open spec fn carries_h264(media: Seq<String>) -> bool {
    text::texts(media).contains("video/x-h264"@)
}

/// Decide what becomes of a pad whose capabilities name these media types.
pub fn pad_added(media: &Vec<String>, parser: ParserPad) -> (step: PadStep)
    ensures
        step == if !carries_h264(media@) {
            PadStep::NotH264
        } else {
            match parser {
                ParserPad::Dropped => PadStep::ParserDropped,
                ParserPad::Missing => PadStep::NoSinkPad,
                ParserPad::Linked => PadStep::AlreadyLinked,
                ParserPad::Free => PadStep::Link,
            }
        },
{
    let ghost names = text::texts(media@);
    let mut h264 = false;
    for i in 0..media.len()
        invariant
            names == text::texts(media@),
            h264 == exists|j: int| 0 <= j < i && #[trigger] names[j] == "video/x-h264"@,
    {
        assert(names[i as int] == media@[i as int]@);
        if text::same(media[i].as_str(), "video/x-h264") {
            h264 = true;
        }
    }
    if !h264 {
        return PadStep::NotH264;
    }
    match parser {
        ParserPad::Dropped => PadStep::ParserDropped,
        ParserPad::Missing => PadStep::NoSinkPad,
        ParserPad::Linked => PadStep::AlreadyLinked,
        ParserPad::Free => PadStep::Link,
    }
}

// ---------------------------------------------------------------------------
// Running
// ---------------------------------------------------------------------------

/// What the pipeline's bus delivered.
pub enum BusEvent {
    /// The end of the stream.
    EndOfStream,
    /// An error with this text.
    Error(String),
    /// Any other message.
    Other,
    /// No message came in time.
    Silence,
}

/// What the task that runs the pipeline does.
pub enum PipelineStep {
    /// Poll the bus again.
    Poll,
    /// Sleep for this many milliseconds, and poll the bus again.
    SleepThenPoll { millis: u64 },
    /// Stop the pipeline; the subsystem takes this state.
    Stop { video_state: u8 },
    /// Stop the pipeline and fail with this message; the subsystem takes this
    /// state.
    Fail { message: String, video_state: u8 },
}

/// Decide what follows an event.  Only the end of the stream and an error stop
/// the pipeline, and the subsystem is idle from then on.
pub fn bus_step(event: BusEvent) -> (step: PipelineStep)
    ensures
        match event {
            BusEvent::EndOfStream => step matches PipelineStep::Stop { video_state } && video_state
                == health::STATE_IDLE,
            BusEvent::Error(e) => step matches PipelineStep::Fail { message, video_state }
                && message@ == "GStreamer pipeline error: "@ + e@ && video_state
                == health::STATE_IDLE,
            BusEvent::Other => step is Poll,
            BusEvent::Silence => step matches PipelineStep::SleepThenPoll { millis } && millis
                == 50,
        },
{
    match event {
        BusEvent::EndOfStream => PipelineStep::Stop { video_state: health::STATE_IDLE },
        BusEvent::Error(e) => {
            let mut message = "GStreamer pipeline error: ".to_owned();
            message.append(e.as_str());
            PipelineStep::Fail { message, video_state: health::STATE_IDLE }
        },
        BusEvent::Other => PipelineStep::Poll,
        BusEvent::Silence => PipelineStep::SleepThenPoll { millis: 50 },
    }
}

// ---------------------------------------------------------------------------
// Laws
// ---------------------------------------------------------------------------

/// The pipeline receives on the RTP port and goes from the network over the
/// demultiplexer, the parser and the decoder to the screen; every element is
/// linked to the next, one link of them once the stream is found.
pub proof fn law_pipeline_plan(cfg: &Config, decoder: &str, plan: PipelinePlan, i: usize)
    requires
        call_ensures(pipeline_plan, (cfg, decoder), plan),
        i < 4,
    ensures
        plan.port == cfg.rtp_port,
        !plan.sync,
        plan.elements@.len() == 5,
        plan.elements@[0].factory@ == "udpsrc"@ && plan.elements@[0].name@ == "src"@,
        plan.elements@[1].factory@ == "tsdemux"@ && plan.elements@[1].name@ == "demux"@,
        plan.elements@[2].factory@ == "h264parse"@ && plan.elements@[2].name@ == "parse"@,
        plan.elements@[3].factory@ == decoder@ && plan.elements@[3].name@ == "decode"@,
        plan.elements@[4].factory@ == "autovideosink"@ && plan.elements@[4].name@ == "sink"@,
        i == 1 <==> plan.dynamic_link == (i, (i + 1) as usize),
        i != 1 <==> plan.links@.contains((i, (i + 1) as usize)),
        plan.links@.len() == 3,
{
    let t = element_texts(plan.elements@);
    assert(t.len() == 5);
    assert(t[0] == (plan.elements@[0].factory@, plan.elements@[0].name@));
    assert(t[1] == (plan.elements@[1].factory@, plan.elements@[1].name@));
    assert(t[2] == (plan.elements@[2].factory@, plan.elements@[2].name@));
    assert(t[3] == (plan.elements@[3].factory@, plan.elements@[3].name@));
    assert(t[4] == (plan.elements@[4].factory@, plan.elements@[4].name@));
    assert(plan.links@[0] == (0usize, 1usize) && plan.links@[1] == (2usize, 3usize)
        && plan.links@[2] == (3usize, 4usize));
}

/// The hardware decoder is used exactly where it is available.
pub proof fn law_decoder_factory(hardware: bool, r: &str)
    requires
        call_ensures(decoder_factory, (hardware,), r),
    ensures
        r@ == "v4l2h264dec"@ <==> hardware,
        r@ == "avdec_h264"@ <==> !hardware,
{
    reveal_strlit("v4l2h264dec");
    reveal_strlit("avdec_h264");
    assert("v4l2h264dec"@.len() == 11 && "avdec_h264"@.len() == 10);
}

/// A pad is linked exactly where one of its media types is H.264 and the
/// parser waits for one; nothing is done about a pad without H.264.
pub proof fn law_pad_added(media: &Vec<String>, parser: ParserPad, step: PadStep)
    requires
        call_ensures(pad_added, (media, parser), step),
    ensures
        ({
            let h264 = exists|i: int|
                0 <= i < media@.len() && #[trigger] media@[i]@ == "video/x-h264"@;
            &&& step is Link <==> h264 && parser is Free
            &&& step is NotH264 <==> !h264
            &&& step is AlreadyLinked <==> h264 && parser is Linked
            &&& step is NoSinkPad <==> h264 && parser is Missing
            &&& step is ParserDropped <==> h264 && parser is Dropped
        }),
{
    let names = text::texts(media@);
    if exists|i: int| 0 <= i < media@.len() && #[trigger] media@[i]@ == "video/x-h264"@ {
        let i = choose|i: int| 0 <= i < media@.len() && #[trigger] media@[i]@ == "video/x-h264"@;
        assert(names[i] == media@[i]@);
    }
    if names.contains("video/x-h264"@) {
        let i = choose|i: int| 0 <= i < names.len() && names[i] == "video/x-h264"@;
        assert(media@[i]@ == "video/x-h264"@);
    }
}

/// Only the end of the stream and an error stop the pipeline; both leave the
/// subsystem idle, and an error is passed on with its text.
pub proof fn law_bus_step(event: BusEvent, step: PipelineStep)
    requires
        call_ensures(bus_step, (event,), step),
    ensures
        step is Stop <==> event is EndOfStream,
        step is Fail <==> event is Error,
        step is Poll <==> event is Other,
        step is SleepThenPoll <==> event is Silence,
        step matches PipelineStep::Stop { video_state } ==> video_state == 0,
        step matches PipelineStep::Fail { message, video_state } ==> video_state == 0
            && message@ == "GStreamer pipeline error: "@ + event->Error_0@,
        step matches PipelineStep::SleepThenPoll { millis } ==> millis == 50,
{
}

/// A missing element is named twice: as the element and as its plugin.
pub proof fn law_missing_element(factory: &str, out: String)
    requires
        call_ensures(missing_element_message, (factory,), out),
    ensures
        out@ == "creating GStreamer element '"@ + factory@ + "' — is the '"@ + factory@
            + "' plugin installed on this device?"@,
{
}

/// The pipeline is fed with an MPEG transport stream in packets of 188 bytes.
pub proof fn law_mpeg_ts_caps(c: StreamCaps)
    requires
        call_ensures(mpeg_ts_caps, (), c),
    ensures
        c.media@ == "video/mpegts"@,
        c.systemstream,
        c.packetsize == 188,
{
}

} // verus!
