use rc_link::demux::{MarkerDemuxer, VideoStream};
use rc_link::settings::{Connection, Controller, Heartbeat, Settings, Video};

fn jpeg(body: &[u8]) -> Vec<u8> {
    let mut v = vec![0xFF, 0xD8];
    v.extend_from_slice(body);
    v.extend_from_slice(&[0xFF, 0xD9]);
    v
}

fn images() -> Vec<Vec<u8>> {
    vec![
        jpeg(&[1, 2, 3, 0xFF, 0x00, 4]),
        jpeg(&[]),
        jpeg(&[0xFF, 0xD8, 9, 9, 0xFF]),
        jpeg(&(0..200u8).filter(|b| *b != 0xFF).collect::<Vec<u8>>()),
    ]
}

fn feed_in_chunks(stream: &[u8], size: usize) -> Vec<Vec<u8>> {
    let mut d = MarkerDemuxer::new();
    let mut out = vec![];
    for chunk in stream.chunks(size) {
        out.extend(d.push(chunk));
    }
    out
}

#[test]
fn demux_recovers_images_for_every_chunk_size() {
    let imgs = images();
    let stream: Vec<u8> = imgs.concat();
    for size in 1..=stream.len() {
        assert_eq!(feed_in_chunks(&stream, size), imgs, "chunk size {}", size);
    }
}

#[test]
fn marker_split_across_reads() {
    let mut d = MarkerDemuxer::new();
    assert!(d.push(&[0xFF]).is_empty());
    assert!(d.push(&[0xD8, 7, 0xFF]).is_empty());
    assert_eq!(d.push(&[0xD9]), vec![vec![0xFF, 0xD8, 7, 0xFF, 0xD9]]);
}

#[test]
fn garbage_before_start_is_discarded() {
    let mut d = MarkerDemuxer::new();
    let out = d.push(&[1, 2, 0xFF, 0xD8, 5, 0xFF, 0xD9, 0xFF]);
    assert_eq!(out, vec![vec![0xFF, 0xD8, 5, 0xFF, 0xD9]]);
    assert_eq!(d.push(&[0xD8, 0xFF, 0xD9]), vec![vec![0xFF, 0xD8, 0xFF, 0xD9]]);
}

#[test]
fn end_marker_before_start_waits_for_a_later_end() {
    let mut d = MarkerDemuxer::new();
    assert!(d.push(&[0xFF, 0xD9, 0xFF, 0xD8, 3]).is_empty());
    assert_eq!(d.push(&[0xFF, 0xD9]), vec![vec![0xFF, 0xD8, 3, 0xFF, 0xD9]]);
}

#[test]
fn nothing_comes_from_an_empty_push() {
    let mut d = MarkerDemuxer::new();
    assert!(d.push(&[]).is_empty());
}

#[test]
fn video_stream_demuxes_what_it_receives() {
    let settings = Settings {
        connection: Connection { host: "robot".to_string(), port: 20301, token: "t".to_string() },
        video: Video { device: "/dev/video0".to_string(), resolution: (640, 480), max_framerate: 24 },
        heartbeat: Heartbeat { interval: 1, missed_beats: 3 },
        controller: Controller {},
    };
    let mut s = VideoStream::new(settings);
    assert_eq!(s.settings().connection.port, 20301);
    assert!(s.receive(&[0xFF, 0xD8, 1]).is_empty());
    assert_eq!(s.receive(&[0xFF, 0xD9, 0xFF]), vec![vec![0xFF, 0xD8, 1, 0xFF, 0xD9]]);
}
