use dsge_vk::events::EventProcessor;
use dsge_vk::frame::{split_static, FrameControl};

#[test]
fn swapchain_rebuild_follows_suboptimal_images() {
    let mut c = FrameControl::new();
    assert!(c.start_frame());
    assert!(!c.start_frame());
    assert!(!c.image_acquired(true));
    assert!(c.start_frame());
    assert!(c.image_acquired(false));
    c.frame_submitted(true);
    assert!(c.start_frame());
    c.frame_submitted(false);
    assert!(!c.start_frame());
}

#[test]
fn draw_list_splits_into_static_and_dynamic() {
    let (statics, dynamics) = split_static(&vec![true, false, false, true]);
    assert_eq!(statics, vec![0, 3]);
    assert_eq!(dynamics, vec![1, 2]);
}

#[test]
fn events_come_out_in_order() {
    let mut p: EventProcessor<&str> = EventProcessor::new();
    p.send_event("a");
    p.send_event("b");
    assert_eq!(p.next_event(), Some("a"));
    assert_eq!(p.next_event(), Some("b"));
    assert_eq!(p.next_event(), None);
}

#[test]
fn handlers_are_registered_once() {
    let mut p: EventProcessor<u32> = EventProcessor::new();
    assert!(p.register_handler(3, 1, 10, 0));
    assert!(!p.register_handler(3, 1, 10, 0));
    assert!(p.register_handler(3, 2, 20, 0));
    assert!(p.register_handler(4, 1, 11, 0));
    assert_eq!(p.handlers_for(3), vec![(1, 10), (2, 20)]);
    assert_eq!(p.next_event(), Some(0));
    assert_eq!(p.next_event(), Some(0));
    assert_eq!(p.next_event(), Some(0));
    assert_eq!(p.next_event(), None);
    p.remove_object(1);
    assert_eq!(p.handlers_for(3), vec![(2, 20)]);
    assert!(p.handlers_for(4).is_empty());
}
