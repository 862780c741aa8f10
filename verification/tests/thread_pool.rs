use yarr::thread_pool::{Action, Event, Frame, Pixel, Worker};

fn px(i: usize, j: usize, c: u8) -> Pixel {
    Pixel { p: (i, j), color: (c, c, c) }
}

#[test]
fn a_new_frame_is_black() {
    let f = Frame::new(3, 2).unwrap();
    assert_eq!(f.width(), 3);
    assert_eq!(f.height(), 2);
    assert_eq!(f.received(), 0);
    assert_eq!(f.image(), &vec![(0, 0, 0); 6]);
    assert_eq!(Frame::new(0, 5).unwrap().image().len(), 0);
}

#[test]
fn a_frame_too_large_to_address_is_refused() {
    assert!(Frame::new(usize::MAX, 2).is_none());
    assert!(Frame::new(usize::MAX / 2 + 1, 2).is_none());
}

#[test]
fn tasks_go_row_by_row() {
    let f = Frame::new(3, 2).unwrap();
    assert_eq!(f.tasks(), vec![(0, 0), (1, 0), (2, 0), (0, 1), (1, 1), (2, 1)]);
    assert_eq!(Frame::new(0, 3).unwrap().tasks(), vec![]);
    assert_eq!(Frame::new(1, 3).unwrap().tasks(), vec![(0, 0), (0, 1), (0, 2)]);
}

#[test]
fn a_pixel_lands_at_its_place() {
    let mut f = Frame::new(3, 2).unwrap();
    assert!(f.place(px(1, 1, 9)));
    assert!(f.place(px(2, 0, 7)));
    assert_eq!(
        f.image(),
        &vec![(0, 0, 0), (0, 0, 0), (7, 7, 7), (0, 0, 0), (9, 9, 9), (0, 0, 0)]
    );
    assert_eq!(f.received(), 2);
}

#[test]
fn a_pixel_from_outside_is_left_out() {
    let mut f = Frame::new(3, 2).unwrap();
    assert!(!f.place(px(3, 0, 9)));
    assert!(!f.place(px(0, 2, 9)));
    assert!(!f.place(px(usize::MAX, usize::MAX, 9)));
    assert_eq!(f.image(), &vec![(0, 0, 0); 6]);
    assert_eq!(f.received(), 0);
}

#[test]
fn the_order_of_arrival_does_not_matter() {
    let w = 7;
    let h = 5;
    let tasks = Frame::new(w, h).unwrap().tasks();
    let colour = |p: (usize, usize)| (p.0 as u8, p.1 as u8, (p.0 * 31 + p.1) as u8);
    let mut forward = Frame::new(w, h).unwrap();
    for p in tasks.iter() {
        forward.place(Pixel { p: *p, color: colour(*p) });
    }
    let mut backward = Frame::new(w, h).unwrap();
    for p in tasks.iter().rev() {
        backward.place(Pixel { p: *p, color: colour(*p) });
    }
    let mut mixed = Frame::new(w, h).unwrap();
    for k in 0..tasks.len() {
        let p = tasks[(k * 13) % tasks.len()];
        mixed.place(Pixel { p, color: colour(p) });
    }
    assert_eq!(forward.image(), backward.image());
    assert_eq!(forward.image(), mixed.image());
    assert_eq!(forward.received(), 35);
    for (k, c) in forward.image().iter().enumerate() {
        assert_eq!(*c, colour((k % w, k / w)));
    }
}

#[test]
fn a_row_lands_at_its_place() {
    let mut f = Frame::new(3, 3).unwrap();
    assert!(f.place_row(2, &vec![(1, 1, 1), (2, 2, 2), (3, 3, 3)]));
    assert!(f.place_row(0, &vec![(4, 4, 4), (5, 5, 5), (6, 6, 6)]));
    assert_eq!(
        f.image(),
        &vec![
            (4, 4, 4),
            (5, 5, 5),
            (6, 6, 6),
            (0, 0, 0),
            (0, 0, 0),
            (0, 0, 0),
            (1, 1, 1),
            (2, 2, 2),
            (3, 3, 3)
        ]
    );
    assert_eq!(f.received(), 2);
}

#[test]
fn a_row_that_does_not_fit_is_left_out() {
    let mut f = Frame::new(3, 3).unwrap();
    assert!(!f.place_row(3, &vec![(1, 1, 1), (2, 2, 2), (3, 3, 3)]));
    assert!(!f.place_row(0, &vec![(1, 1, 1), (2, 2, 2)]));
    assert!(!f.place_row(0, &vec![(1, 1, 1); 4]));
    assert_eq!(f.image(), &vec![(0, 0, 0); 9]);
    assert_eq!(f.received(), 0);
}

#[test]
fn a_worker_renders_what_it_is_given_and_hands_it_back() {
    let w = Worker::Waiting;
    let (w, a) = w.step(Event::Task((3, 4)));
    assert_eq!(w, Worker::Rendering { task: (3, 4) });
    assert!(matches!(a, Action::Render((3, 4))));
    let (w, a) = w.step(Event::Rendered((1, 2, 3)));
    assert_eq!(w, Worker::Waiting);
    match a {
        Action::Send(p) => {
            assert_eq!(p.p, (3, 4));
            assert_eq!(p.color, (1, 2, 3));
        }
        _ => panic!("a finished pixel is handed back"),
    }
    let (w, a) = w.step(Event::Closed);
    assert_eq!(w, Worker::Exited);
    assert!(matches!(a, Action::Exit));
}

#[test]
fn a_worker_goes_on_where_nothing_fits() {
    let (w, a) = Worker::Waiting.step(Event::Rendered((9, 9, 9)));
    assert_eq!(w, Worker::Waiting);
    assert!(matches!(a, Action::Wait));
    let busy = Worker::Rendering { task: (1, 1) };
    let (w, a) = busy.step(Event::Task((2, 2)));
    assert_eq!(w, busy);
    assert!(matches!(a, Action::Render((1, 1))));
    let (w, a) = busy.step(Event::Closed);
    assert_eq!(w, busy);
    assert!(matches!(a, Action::Render((1, 1))));
    for e in [Event::Task((0, 0)), Event::Closed, Event::Rendered((0, 0, 0))] {
        let (w, a) = Worker::Exited.step(e);
        assert_eq!(w, Worker::Exited);
        assert!(matches!(a, Action::Exit));
    }
}

#[test]
fn workers_and_a_frame_make_a_picture() {
    let (w, h) = (5, 3);
    let mut frame = Frame::new(w, h).unwrap();
    let tasks = frame.tasks();
    let mut workers = [Worker::Waiting; 3];
    let mut pending: Vec<Pixel> = vec![];
    for (k, task) in tasks.iter().enumerate() {
        let (next, _) = workers[k % 3].step(Event::Task(*task));
        let colour = (task.0 as u8, task.1 as u8, 7);
        let (next, action) = next.step(Event::Rendered(colour));
        workers[k % 3] = next;
        if let Action::Send(p) = action {
            pending.push(p);
        }
    }
    pending.reverse();
    for p in pending {
        assert!(frame.place(p));
    }
    assert_eq!(frame.received(), w * h);
    for (k, c) in frame.image().iter().enumerate() {
        assert_eq!(*c, ((k % w) as u8, (k / w) as u8, 7));
    }
}
