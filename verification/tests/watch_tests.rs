use scout::media::MediaType;
use scout::watch::{accept_file, expand_event, Expansion, Stability, Step};

#[test]
fn file_at_rest_is_opened_after_three_equal_looks() {
    let mut s = Stability::new();
    assert_eq!(s.observe(Some(4096)), Step::Wait);
    assert_eq!(s.observe(Some(4096)), Step::Wait);
    assert_eq!(s.observe(Some(4096)), Step::TryOpen);
    assert_eq!(s.opened(true), Step::Ready);
    assert_eq!(s.attempts(), 3);
}

#[test]
fn growing_file_is_waited_for() {
    let mut s = Stability::new();
    for size in [100u64, 200, 300, 400, 500, 600] {
        assert_eq!(s.observe(Some(size)), Step::Wait);
    }
    assert_eq!(s.observe(Some(600)), Step::Wait);
    assert_eq!(s.observe(Some(600)), Step::TryOpen);
    assert_eq!(s.opened(true), Step::Ready);
}

#[test]
fn file_written_in_chunks_is_indexed_once() {
    let mut s = Stability::new();
    let mut ready = 0;
    let sizes = [1u64, 2, 3, 4, 5, 6, 6, 6];
    for size in sizes {
        if s.observe(Some(size)) == Step::TryOpen && s.opened(true) == Step::Ready {
            ready += 1;
            break;
        }
    }
    assert_eq!(ready, 1);
    assert_eq!(s.attempts(), 8);
}

#[test]
fn empty_file_never_comes_to_rest() {
    let mut s = Stability::new();
    for _ in 0..19 {
        assert_eq!(s.observe(Some(0)), Step::Wait);
    }
    assert_eq!(s.observe(Some(0)), Step::GiveUp);
}

#[test]
fn missing_file_resets_the_count() {
    let mut s = Stability::new();
    assert_eq!(s.observe(Some(7)), Step::Wait);
    assert_eq!(s.observe(Some(7)), Step::Wait);
    assert_eq!(s.observe(None), Step::Wait);
    assert_eq!(s.observe(Some(7)), Step::Wait);
    assert_eq!(s.observe(Some(7)), Step::TryOpen);
}

#[test]
fn locked_file_is_tried_again() {
    let mut s = Stability::new();
    s.observe(Some(9));
    s.observe(Some(9));
    assert_eq!(s.observe(Some(9)), Step::TryOpen);
    assert_eq!(s.opened(false), Step::Wait);
    assert_eq!(s.observe(Some(9)), Step::TryOpen);
    assert_eq!(s.opened(true), Step::Ready);
}

#[test]
fn busy_file_is_given_up_after_twenty_looks() {
    let mut s = Stability::new();
    let mut steps = Vec::new();
    for i in 0..20u64 {
        steps.push(s.observe(Some(i + 1)));
    }
    assert!(steps[..19].iter().all(|x| *x == Step::Wait));
    assert_eq!(steps[19], Step::GiveUp);
    assert_eq!(s.attempts(), 20);
    assert_eq!(s.observe(Some(5)), Step::GiveUp);
    assert_eq!(s.attempts(), 20);
}

#[test]
fn locked_file_is_given_up_at_the_last_look() {
    let mut s = Stability::new();
    for _ in 0..19 {
        let step = s.observe(Some(3));
        if step == Step::TryOpen {
            assert_eq!(s.opened(false), Step::Wait);
        }
    }
    assert_eq!(s.observe(Some(3)), Step::TryOpen);
    assert_eq!(s.opened(false), Step::GiveUp);
    assert_eq!(s.opened(true), Step::Ready);
}

#[test]
fn events_on_files_queue_the_file() {
    assert_eq!(expand_event(false, false), Expansion::File);
    assert_eq!(expand_event(false, true), Expansion::File);
}

#[test]
fn events_on_directories_queue_children_when_recursive() {
    assert_eq!(expand_event(true, true), Expansion::Children);
    assert_eq!(expand_event(true, false), Expansion::Nothing);
}

#[test]
fn media_files_are_queued_as_what_they_are() {
    assert_eq!(accept_file("/w/a.jpg", true, Some(10), Some((100, 100)), None, None), Some(MediaType::Image));
    assert_eq!(accept_file("/w/a.mp4", true, Some(10), None, Some(64), None), Some(MediaType::Video));
    assert_eq!(accept_file("/w/a.txt", true, Some(10), None, None, None), None);
}

#[test]
fn videos_are_not_queued_while_they_are_not_taken() {
    assert_eq!(accept_file("/w/a.mp4", false, None, None, None, None), None);
    assert_eq!(accept_file("/w/a.png", false, None, None, None, None), Some(MediaType::Image));
}

#[test]
fn queued_files_pass_the_limits_of_a_scan() {
    assert_eq!(accept_file("/w/a.jpg", true, Some(3 * 1048576), None, None, Some(2)), None);
    assert_eq!(accept_file("/w/a.jpg", true, Some(3 * 1048576 - 1), None, None, Some(2)), Some(MediaType::Image));
    assert_eq!(accept_file("/w/a.jpg", true, None, Some((10, 800)), Some(64), None), None);
    assert_eq!(accept_file("/w/a.jpg", true, None, Some((64, 800)), Some(64), None), Some(MediaType::Image));
}
