use nicocast_v2::config::Config;
use nicocast_v2::health::STATE_IDLE;
use nicocast_v2::video::{
    bus_step, decoder_factory, missing_element_message, mpeg_ts_caps, pad_added, pipeline_plan,
    BusEvent, PadStep, ParserPad, PipelineStep,
};

#[test]
fn pipeline_layout() {
    let cfg = Config::default();
    let plan = pipeline_plan(&cfg, decoder_factory(true));
    let elements: Vec<(&str, &str)> = plan
        .elements
        .iter()
        .map(|e| (e.factory.as_str(), e.name.as_str()))
        .collect();
    assert_eq!(
        elements,
        vec![
            ("udpsrc", "src"),
            ("tsdemux", "demux"),
            ("h264parse", "parse"),
            ("v4l2h264dec", "decode"),
            ("autovideosink", "sink"),
        ]
    );
    assert_eq!(plan.links, vec![(0, 1), (2, 3), (3, 4)]);
    assert_eq!(plan.dynamic_link, (1, 2));
    assert_eq!(plan.port, 16384);
    assert!(!plan.sync);
    assert_eq!(decoder_factory(false), "avdec_h264");
}

#[test]
fn mpeg_ts_caps_correct() {
    let caps = mpeg_ts_caps();
    assert_eq!(caps.media, "video/mpegts");
    assert!(caps.systemstream);
    assert_eq!(caps.packetsize, 188);
}

#[test]
fn message_for_a_missing_element() {
    assert_eq!(
        missing_element_message("tsdemux"),
        "creating GStreamer element 'tsdemux' — \
         is the 'tsdemux' plugin installed on this device?"
    );
}

#[test]
fn only_the_first_h264_pad_is_linked() {
    let media = |list: &[&str]| list.iter().map(|s| s.to_string()).collect::<Vec<String>>();
    let h264 = media(&["audio/x-lpcm", "video/x-h264"]);
    assert!(matches!(pad_added(&h264, ParserPad::Free), PadStep::Link));
    assert!(matches!(pad_added(&h264, ParserPad::Linked), PadStep::AlreadyLinked));
    assert!(matches!(pad_added(&h264, ParserPad::Missing), PadStep::NoSinkPad));
    assert!(matches!(pad_added(&h264, ParserPad::Dropped), PadStep::ParserDropped));
    let audio = media(&["audio/mpeg", "video/x-h265"]);
    assert!(matches!(pad_added(&audio, ParserPad::Free), PadStep::NotH264));
    assert!(matches!(pad_added(&media(&[]), ParserPad::Free), PadStep::NotH264));
}

#[test]
fn bus_events() {
    assert!(matches!(
        bus_step(BusEvent::EndOfStream),
        PipelineStep::Stop { video_state: STATE_IDLE }
    ));
    match bus_step(BusEvent::Error("no data".to_owned())) {
        PipelineStep::Fail { message, video_state } => {
            assert_eq!(message, "GStreamer pipeline error: no data");
            assert_eq!(video_state, STATE_IDLE);
        }
        _ => panic!("no failure"),
    }
    assert!(matches!(bus_step(BusEvent::Other), PipelineStep::Poll));
    assert!(matches!(
        bus_step(BusEvent::Silence),
        PipelineStep::SleepThenPoll { millis: 50 }
    ));
}
