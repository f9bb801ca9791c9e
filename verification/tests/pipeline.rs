use voiceload::channel::Channel;
use voiceload::config::SettingsBuilder;
use voiceload::link::{
    classify_host, find_id_segment, get_bv, is_link, link_dispatch, scheme_is_web, LinkKind,
};
use voiceload::media::{
    api_data, choose_filename, select_audio, ApiResponse, Audio, AudioKind, Dash, Flac,
};
use voiceload::pipeline::{consumer_plan, produce_items, ConsumerAction, PipelineItem};
use voiceload::transform::{extension, transform_args};

fn item(index: usize, name: &str) -> PipelineItem {
    PipelineItem {
        index,
        audio: AudioKind::M4a,
        filename: name.to_string(),
        owner: "someone".to_string(),
    }
}

#[test]
fn channel_delivers_in_enqueue_order() {
    let mut ch: Channel<PipelineItem> = Channel::new(3);
    ch.send(item(1, "a"));
    ch.send(item(2, "b"));
    ch.send(item(3, "c"));
    ch.close();
    let out = ch.drain();
    let indices: Vec<usize> = out.iter().map(|i| i.index).collect();
    assert_eq!(indices, vec![1, 2, 3]);
}

#[test]
fn channel_recv_pops_oldest_first() {
    let mut ch: Channel<u32> = Channel::new(4);
    ch.send(10);
    ch.send(20);
    assert_eq!(ch.recv(), Some(10));
    ch.send(30);
    assert_eq!(ch.recv(), Some(20));
    assert_eq!(ch.recv(), Some(30));
    ch.close();
    assert_eq!(ch.recv(), None);
}

#[test]
fn producer_counts_and_skips_failures() {
    // Three items; the second one's resolution fails.  The two others
    // still produce pipeline items, in order, and the summary reports
    // one failure and two successes.
    let outcomes = vec![Some(item(1, "one")), None, Some(item(3, "three"))];
    let mut ch: Channel<PipelineItem> = Channel::new(3);
    let summary = produce_items(outcomes, &mut ch);
    assert_eq!(summary.succeeded, 2);
    assert_eq!(summary.failed, 1);
    let out = ch.drain();
    let indices: Vec<usize> = out.iter().map(|i| i.index).collect();
    assert_eq!(indices, vec![1, 3]);
}

#[test]
fn consumer_transforms_only_fresh_items() {
    let p = consumer_plan(true, false, false);
    assert_eq!(p.action, ConsumerAction::Transform);
    let p = consumer_plan(false, false, true);
    assert_eq!(p.action, ConsumerAction::SkipMissingSource);
    let p = consumer_plan(false, true, false);
    assert_eq!(p.action, ConsumerAction::SkipMissingSource);
    let p = consumer_plan(true, true, true);
    assert_eq!(p.action, ConsumerAction::SkipOutputExists);
}

#[test]
fn consumer_cleanup_happens_on_every_path() {
    for source_exists in [false, true] {
        for output_exists in [false, true] {
            for side_allowed in [false, true] {
                let p = consumer_plan(source_exists, output_exists, side_allowed);
                assert!(p.remove_source);
                assert_eq!(p.remove_side, side_allowed);
            }
        }
    }
}

#[test]
fn transform_arguments_for_m4a_with_picture() {
    let args = transform_args(
        "dir/song.m4s",
        "dir/song.m4a",
        Some("dir/song.jpg"),
        AudioKind::M4a,
        "song",
        "artist x",
    );
    assert_eq!(
        args,
        vec![
            "-i",
            "dir/song.m4s",
            "-i",
            "dir/song.jpg",
            "-metadata",
            "title=song",
            "-metadata",
            "artist=artist x",
            "-c",
            "copy",
            "-c:v:1",
            "jpg",
            "-disposition:v:0",
            "attached_pic",
            "dir/song.m4a",
        ]
    );
}

#[test]
fn transform_arguments_for_flac_without_picture() {
    let args = transform_args(
        "a.m4s",
        "a.flac",
        None,
        AudioKind::Flac,
        "t",
        "o",
    );
    assert_eq!(
        args,
        vec![
            "-i",
            "a.m4s",
            "-metadata",
            "title=t",
            "-metadata",
            "artist=o",
            "-acodec",
            "flac",
            "a.flac",
        ]
    );
}

#[test]
fn extension_of_each_kind() {
    assert_eq!(extension(AudioKind::M4a), "m4a");
    assert_eq!(extension(AudioKind::Flac), "flac");
}

fn stream(url: &str) -> Audio {
    Audio {
        id: 30280,
        base_url: url.to_string(),
        backup_url: vec![],
        mime_type: "audio/mp4".to_string(),
        codecs: "mp4a.40.2".to_string(),
    }
}

#[test]
fn audio_selection_prefers_allowed_flac() {
    let dash = Dash {
        audio: vec![stream("http://cdn/default")],
        flac: Some(Flac { audio: Some(stream("http://cdn/lossless")) }),
    };
    let c = select_audio(&dash, true).unwrap();
    assert_eq!(c.url, "http://cdn/lossless");
    assert_eq!(c.kind, AudioKind::Flac);

    let c = select_audio(&dash, false).unwrap();
    assert_eq!(c.url, "http://cdn/default");
    assert_eq!(c.kind, AudioKind::M4a);
}

#[test]
fn audio_selection_falls_back_and_degrades() {
    let dash = Dash { audio: vec![stream("http://cdn/default")], flac: Some(Flac { audio: None }) };
    let c = select_audio(&dash, true).unwrap();
    assert_eq!(c.url, "http://cdn/default");
    assert_eq!(c.kind, AudioKind::M4a);

    let empty = Dash { audio: vec![], flac: None };
    assert!(select_audio(&empty, true).is_none());
}

#[test]
fn filename_prefers_configured_name() {
    assert_eq!(choose_filename("fixed", "Title?x"), "fixed");
    assert_eq!(choose_filename("", "Title?x"), "Title x");
    assert_eq!(choose_filename("a/b", "t"), "a b");
}

#[test]
fn api_data_unwraps_by_code() {
    let ok = ApiResponse { code: 0, message: "".to_string(), data: 7u64 };
    assert_eq!(api_data(ok), Ok(7));
    let err = ApiResponse { code: -404, message: "not found".to_string(), data: 7u64 };
    assert_eq!(api_data(err), Err("not found".to_string()));
}

#[test]
fn settings_layering_and_defaults() {
    let mut base = SettingsBuilder::new();
    let mut file_layer = SettingsBuilder::new();
    file_layer.flac_allowed = Some(true);
    file_layer.path = Some("/tmp/music".to_string());
    let mut arg_layer = SettingsBuilder::new();
    arg_layer.path = Some("/data".to_string());
    arg_layer.id = Some(vec!["BV1fB4y1h76Z".to_string()]);

    base.merge(file_layer);
    base.merge(arg_layer);
    let s = base.build();
    assert_eq!(s.id, vec!["BV1fB4y1h76Z".to_string()]);
    assert!(s.flac_allowed);
    assert!(!s.dolby_allowed);
    assert!(!s.pic_allowed);
    assert_eq!(s.path, "/data");
    assert_eq!(s.filename, "");
    assert_eq!(s.session, "");
}

#[test]
fn link_classification() {
    assert_eq!(classify_host(Some("www.bilibili.com")), LinkKind::Direct);
    assert_eq!(classify_host(Some("b23.tv")), LinkKind::Shortened);
    assert_eq!(classify_host(Some("example.org")), LinkKind::Other);
    assert_eq!(classify_host(None), LinkKind::Other);
    assert!(scheme_is_web("http"));
    assert!(scheme_is_web("https"));
    assert!(!scheme_is_web("ftp"));
}

#[test]
fn link_dispatch_by_scheme_and_host() {
    let url = is_link("https://www.bilibili.com/video/BV1fB4y1h76Z").unwrap();
    assert_eq!(link_dispatch(&url), LinkKind::Direct);
    let url = is_link("http://b23.tv/abcdef").unwrap();
    assert_eq!(link_dispatch(&url), LinkKind::Shortened);
    let url = is_link("ftp://www.bilibili.com/video/x").unwrap();
    assert_eq!(link_dispatch(&url), LinkKind::Other);
    let url = is_link("https://example.org/video/x").unwrap();
    assert_eq!(link_dispatch(&url), LinkKind::Other);
}

#[test]
fn id_found_in_link_path() {
    let url = is_link("https://www.bilibili.com/video/BV1fB4y1h76Z").unwrap();
    assert_eq!(get_bv(&url), Some("BV1fB4y1h76Z".to_string()));

    let url = is_link("https://www.bilibili.com/about/team").unwrap();
    assert_eq!(get_bv(&url), None);
}

#[test]
fn earliest_id_segment_wins() {
    let segments = vec![
        "video".to_string(),
        "av123".to_string(),
        "BV1fB4y1h76Z".to_string(),
    ];
    assert_eq!(find_id_segment(&segments), Some("av123".to_string()));
    let none: Vec<String> = vec!["x".to_string(), "about".to_string()];
    assert_eq!(find_id_segment(&none), None);
}
