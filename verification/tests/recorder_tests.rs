use camera_server::logger::Logger;
use camera_server::logger::LoggerConfig;
use camera_server::logger::LogLevel;
use camera_server::logger::tail_lines;
use camera_server::video::CameraConfig;
use camera_server::video::Error;
use camera_server::video::RecordingConfig;
use camera_server::video::VideoRecorder;

#[test]
fn recorder_starts_into_a_timestamped_file() {
    let mut rec = VideoRecorder::new(RecordingConfig::default());
    assert!(!rec.is_recording());
    assert!(rec.current_file().is_none());
    let path = rec.start_recording().unwrap();
    assert!(rec.is_recording());
    assert!(path.starts_with("./recordings/video_"));
    assert!(path.ends_with(".mp4"));
    assert_eq!(rec.current_file(), Some(&path));
}

#[test]
fn starting_twice_returns_the_same_file() {
    let mut rec = VideoRecorder::new(RecordingConfig::default());
    let first = rec.start_recording().unwrap();
    let second = rec.start_recording().unwrap();
    assert_eq!(first, second);
    assert!(rec.is_recording());
}

#[test]
fn stopping_hands_back_the_file_and_goes_idle() {
    let mut rec = VideoRecorder::new(RecordingConfig::default());
    let path = rec.start_recording().unwrap();
    let stopped = rec.stop_recording().unwrap();
    assert_eq!(stopped, Some(path));
    assert!(!rec.is_recording());
}

#[test]
fn stopping_an_idle_recorder_is_a_no_op() {
    let mut rec = VideoRecorder::new(RecordingConfig::default());
    let stopped = rec.stop_recording().unwrap();
    assert_eq!(stopped, None);
}

#[test]
fn reconfiguring_mid_recording_is_refused() {
    let mut rec = VideoRecorder::new(RecordingConfig::default());
    rec.start_recording().unwrap();
    let r = rec.set_config(RecordingConfig::default());
    assert!(matches!(r, Err(Error::VideoProcessing(_))));
    rec.stop_recording().unwrap();
    let mut other = RecordingConfig::default();
    other.container = "mkv".to_string();
    rec.set_config(other).unwrap();
    assert_eq!(rec.config().container, "mkv");
}

#[test]
fn default_configurations_match_the_documented_values() {
    let cam = CameraConfig::default();
    assert_eq!(cam.device_path, "/dev/video0");
    assert_eq!((cam.width, cam.height, cam.fps), (1920, 1080, 30));
    assert_eq!(cam.pixel_format, "YUYV");
    let recording = RecordingConfig::default();
    assert_eq!(recording.output_dir, "./recordings");
    assert_eq!(recording.encoder, "h264");
    assert_eq!(recording.container, "mp4");
    assert_eq!(recording.bitrate, 4_000_000);
    let log = LoggerConfig::default();
    assert_eq!(log.log_file, "camera-server.log");
    assert!(matches!(log.level, LogLevel::Info));
    assert!(log.console_output);
    assert_eq!(log.max_file_size, 10 * 1024 * 1024);
    assert_eq!(log.max_files, 5);
}

#[test]
fn logger_keeps_its_configuration() {
    let mut logger = Logger::new(LoggerConfig::default());
    assert_eq!(logger.log_file_path(), "camera-server.log");
    logger.set_level(LogLevel::Debug).unwrap();
    assert!(!logger.needs_rotation(0));
    assert!(logger.needs_rotation(10 * 1024 * 1024));
}

#[test]
fn tail_keeps_the_last_lines_only() {
    let lines: Vec<String> = vec!["a", "b", "c", "d"].into_iter().map(String::from).collect();
    assert_eq!(tail_lines(lines.clone(), 2), vec!["c".to_string(), "d".to_string()]);
    assert_eq!(tail_lines(lines.clone(), 4), lines.clone());
    assert_eq!(tail_lines(lines.clone(), 10), lines);
    let empty: Vec<String> = Vec::new();
    assert_eq!(tail_lines(empty, 3), Vec::<String>::new());
}
