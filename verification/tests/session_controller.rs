use digit_canvas::controller::{Action, Controller, InputEvent};
use digit_canvas::errors::ModelError;
use digit_canvas::{FIXED_ONE, IMAGE_SIZE};

#[test]
fn drawing_inside_the_canvas_requests_inference() {
    let mut controller = Controller::new();
    assert!(matches!(
        controller.handle_event(InputEvent::PointerDown),
        Action::Idle
    ));
    let action = controller.handle_event(InputEvent::PointerMove { x: 59, y: 59 });
    match action {
        Action::RunInference(sample) => {
            assert_eq!(sample.len(), IMAGE_SIZE);
            // Cell (0, 0) was just set; everything else is still blank.
            assert_eq!(sample[0], FIXED_ONE);
            assert!(sample[1..].iter().all(|&v| v == -FIXED_ONE));
        }
        other => panic!("expected an inference request, got {:?}", other),
    }
    assert_eq!(controller.board.snapshot()[0], FIXED_ONE);
}

#[test]
fn moves_with_the_button_up_do_nothing() {
    let mut controller = Controller::new();
    let action = controller.handle_event(InputEvent::PointerMove { x: 59, y: 59 });
    assert!(matches!(action, Action::Idle));
    assert!(controller.board.snapshot().iter().all(|&v| v == 0));
}

#[test]
fn moves_outside_the_canvas_do_nothing() {
    let mut controller = Controller::new();
    controller.handle_event(InputEvent::PointerDown);
    for (x, y) in [(50, 50), (554, 554), (0, 300), (300, 1000)] {
        let action = controller.handle_event(InputEvent::PointerMove { x, y });
        assert!(matches!(action, Action::Idle));
    }
    assert!(controller.board.snapshot().iter().all(|&v| v == 0));
}

#[test]
fn releasing_the_button_stops_drawing() {
    let mut controller = Controller::new();
    controller.handle_event(InputEvent::PointerDown);
    controller.handle_event(InputEvent::PointerUp);
    let action = controller.handle_event(InputEvent::PointerMove { x: 100, y: 100 });
    assert!(matches!(action, Action::Idle));
}

#[test]
fn clearing_blanks_the_board_but_keeps_the_best_guess() {
    let mut controller = Controller::new();
    controller.handle_event(InputEvent::PointerDown);
    controller.handle_event(InputEvent::PointerMove { x: 200, y: 200 });
    let mut scores = vec![0; 10];
    scores[9] = 750;
    controller.record_scores(&scores);
    assert_eq!(controller.adapter.predicted, 9);
    let action = controller.handle_event(InputEvent::ClearBoard);
    assert!(matches!(action, Action::Idle));
    assert!(controller.board.snapshot().iter().all(|&v| v == 0));
    // The running best guess is deliberately not reset by a clear.
    assert_eq!(controller.adapter.predicted, 9);
    assert_eq!(controller.adapter.highest_probability, 750);
}

#[test]
fn quit_ends_the_session_without_touching_state() {
    let mut controller = Controller::new();
    controller.handle_event(InputEvent::PointerDown);
    let action = controller.handle_event(InputEvent::Quit);
    assert!(matches!(action, Action::Quit));
    assert!(controller.mouse_down);
}

#[test]
fn inference_reflects_the_board_as_of_the_triggering_event() {
    let mut controller = Controller::new();
    controller.handle_event(InputEvent::PointerDown);
    let first = controller.handle_event(InputEvent::PointerMove { x: 59, y: 59 });
    let second = controller.handle_event(InputEvent::PointerMove { x: 553, y: 553 });
    let (Action::RunInference(s1), Action::RunInference(s2)) = (first, second) else {
        panic!("expected two inference requests");
    };
    // The first sample has one set cell, the second has both.
    assert_eq!(s1.iter().filter(|&&v| v == FIXED_ONE).count(), 1);
    assert_eq!(s2.iter().filter(|&&v| v == FIXED_ONE).count(), 2);
    assert_eq!(s2[27 * 28 + 27], FIXED_ONE);
}

#[test]
fn model_error_carries_the_attempted_path() {
    let err = ModelError::UnableToOpenModel(String::from("./model_scripted.pth"));
    assert_eq!(err.path(), "./model_scripted.pth");
}
