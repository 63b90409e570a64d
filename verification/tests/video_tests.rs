use scout::video::{format_timestamp, frame_len, get_ffmpeg_tool_binary, plan_frames, sample_indices, scene_time_token, tool_candidates, whole_frame, FramePlan, PlanError};

#[test]
fn all_scenes_are_kept_when_they_are_few() {
    assert_eq!(sample_indices(3, 15), vec![0, 1, 2]);
    assert_eq!(sample_indices(15, 15), (0..15).collect::<Vec<usize>>());
    assert_eq!(sample_indices(0, 15), Vec::<usize>::new());
}

#[test]
fn many_scenes_are_sampled_evenly() {
    assert_eq!(sample_indices(30, 10), vec![0, 3, 6, 9, 12, 15, 18, 21, 24, 27]);
    assert_eq!(sample_indices(10, 4), vec![0, 2, 5, 7]);
    assert_eq!(sample_indices(16, 15).len(), 15);
    assert_eq!(sample_indices(7, 0), Vec::<usize>::new());
}

#[test]
fn sampling_agrees_with_a_fractional_stride() {
    for (len, count) in [(16usize, 15usize), (100, 15), (31, 10), (1000, 7), (17, 16)] {
        let step = len as f64 / count as f64;
        let expected: Vec<usize> = (0..count).map(|i| ((i as f64 * step).floor() as usize).min(len - 1)).collect();
        assert_eq!(sample_indices(len, count), expected);
    }
}

#[test]
fn sampled_scenes_are_distinct_and_ascending() {
    let v = sample_indices(1000, 15);
    assert_eq!(v.len(), 15);
    assert!(v.windows(2).all(|w| w[0] < w[1]));
    assert!(v.iter().all(|i| *i < 1000));
}

#[test]
fn sampling_does_not_overflow() {
    let v = sample_indices(usize::MAX, 3);
    assert_eq!(v.len(), 3);
    assert_eq!(v[0], 0);
    assert_eq!(v[1], usize::MAX / 3);
}

#[test]
fn no_frames_allowed_is_an_error() {
    assert!(matches!(plan_frames(5, 0), Err(PlanError::NoFramesAllowed)));
    assert!(matches!(plan_frames(0, 0), Err(PlanError::NoFramesAllowed)));
}

#[test]
fn no_scene_falls_back_to_the_middle() {
    assert!(matches!(plan_frames(0, 15), Ok(FramePlan::Middle)));
}

#[test]
fn scenes_are_planned_up_to_the_maximum() {
    match plan_frames(4, 15) {
        Ok(FramePlan::Scenes(v)) => assert_eq!(v, vec![0, 1, 2, 3]),
        _ => panic!("scenes expected"),
    }
    match plan_frames(40, 15) {
        Ok(FramePlan::Scenes(v)) => {
            assert_eq!(v.len(), 15);
            assert_eq!(v[1], 2);
            assert_eq!(v[14], 37);
        }
        _ => panic!("scenes expected"),
    }
}

#[test]
fn timestamp_is_read_from_a_diagnostic_line() {
    let line = "[Parsed_showinfo_1 @ 0x55] n:   3 pts:  92160 pts_time:7.68    duration: 512";
    assert_eq!(scene_time_token(line), Some("7.68".to_string()));
    assert_eq!(scene_time_token("pts_time:0.5 x"), Some("0.5".to_string()));
    assert_eq!(scene_time_token("a pts_time:12\tb"), Some("12".to_string()));
}

#[test]
fn first_marker_of_a_line_counts() {
    assert_eq!(scene_time_token("pts_time:1 pts_time:2 "), Some("1".to_string()));
}

#[test]
fn line_without_timestamp_gives_none() {
    assert_eq!(scene_time_token("frame=  10 fps=0.0"), None);
    assert_eq!(scene_time_token(""), None);
    assert_eq!(scene_time_token("pts_time"), None);
    assert_eq!(scene_time_token("pts_time:7.68"), None);
}

#[test]
fn empty_token_is_handed_on_as_it_is() {
    assert_eq!(scene_time_token("pts_time: 7"), Some("".to_string()));
}

#[test]
fn token_reading_agrees_with_a_search_on_text() {
    for line in ["x pts_time:3.25 y", "pts_time:abc\u{a0}z", "no marker", "pts_time:9", "ab pts_time:1.5\n"] {
        let expected = line.find("pts_time:").and_then(|start| {
            let rest = &line[start + 9..];
            rest.find(char::is_whitespace).map(|end| rest[..end].to_string())
        });
        assert_eq!(scene_time_token(line), expected);
    }
}

#[test]
fn frame_has_three_bytes_a_pixel() {
    assert_eq!(frame_len(1920, 1080), Some(1920 * 1080 * 3));
    assert_eq!(frame_len(0, 1080), Some(0));
    assert_eq!(frame_len(1, 1), Some(3));
    assert_eq!(frame_len(u32::MAX, u32::MAX), None);
}

#[test]
fn short_read_is_no_frame() {
    assert_eq!(whole_frame(6, 2, 1), Some(6));
    assert_eq!(whole_frame(7, 2, 1), Some(6));
    assert_eq!(whole_frame(5, 2, 1), None);
    assert_eq!(whole_frame(0, 0, 5), Some(0));
    assert_eq!(whole_frame(usize::MAX, u32::MAX, u32::MAX), None);
}

#[test]
fn timestamps_are_shown_as_minutes_and_seconds() {
    assert_eq!(format_timestamp(0), "00:00");
    assert_eq!(format_timestamp(5), "00:05");
    assert_eq!(format_timestamp(59), "00:59");
    assert_eq!(format_timestamp(60), "01:00");
    assert_eq!(format_timestamp(125), "02:05");
    assert_eq!(format_timestamp(3599), "59:59");
    assert_eq!(format_timestamp(6000), "100:00");
    assert_eq!(format_timestamp(u64::MAX), format!("{:02}:{:02}", u64::MAX / 60, u64::MAX % 60));
}

#[test]
fn tool_is_run_by_name_without_a_custom_transcoder() {
    assert_eq!(get_ffmpeg_tool_binary(None, "ffmpeg", false, false), "ffmpeg");
    assert_eq!(get_ffmpeg_tool_binary(None, "ffprobe", true, true), "ffprobe");
}

#[test]
fn custom_transcoder_is_run_by_its_path() {
    assert_eq!(get_ffmpeg_tool_binary(Some("/opt/ff/bin/ffmpeg"), "ffmpeg", false, false), "/opt/ff/bin/ffmpeg");
    assert_eq!(get_ffmpeg_tool_binary(Some("ffmpeg-custom"), "ffmpeg", true, true), "ffmpeg-custom");
}

#[test]
fn other_tools_are_looked_for_beside_the_custom_transcoder() {
    assert_eq!(get_ffmpeg_tool_binary(Some("/opt/ff/bin/ffmpeg"), "ffprobe", true, false), "/opt/ff/bin/ffprobe");
    assert_eq!(get_ffmpeg_tool_binary(Some("/opt/ff/bin/ffmpeg"), "ffprobe", true, true), "/opt/ff/bin/ffprobe");
    assert_eq!(get_ffmpeg_tool_binary(Some("/opt/ff/bin/ffmpeg"), "ffprobe", false, true), "/opt/ff/bin/ffprobe.exe");
    assert_eq!(get_ffmpeg_tool_binary(Some("/opt/ff/bin/ffmpeg"), "ffprobe", false, false), "ffprobe");
    assert_eq!(get_ffmpeg_tool_binary(Some("/ffmpeg"), "ffprobe", true, false), "/ffprobe");
    assert_eq!(get_ffmpeg_tool_binary(Some("/ffmpeg"), "ffprobe", false, true), "/ffprobe.exe");
    assert_eq!(get_ffmpeg_tool_binary(Some("ffmpeg-custom"), "ffprobe", true, true), "ffprobe");
    assert_eq!(get_ffmpeg_tool_binary(Some("ffmpeg-custom"), "ffprobe", false, true), "ffprobe.exe");
    assert_eq!(get_ffmpeg_tool_binary(Some("/"), "ffprobe", true, true), "ffprobe");
}

#[test]
fn candidates_lie_in_the_directory_of_the_custom_transcoder() {
    assert_eq!(tool_candidates("/opt/ff/bin/ffmpeg", "ffprobe"), Some(("/opt/ff/bin/ffprobe".to_string(), "/opt/ff/bin/ffprobe.exe".to_string())));
    assert_eq!(tool_candidates("/ffmpeg", "ffprobe"), Some(("/ffprobe".to_string(), "/ffprobe.exe".to_string())));
    assert_eq!(tool_candidates("ffmpeg", "ffprobe"), Some(("ffprobe".to_string(), "ffprobe.exe".to_string())));
    assert_eq!(tool_candidates("/", "ffprobe"), None);
    assert_eq!(tool_candidates("", "ffprobe"), None);
}
