use mig_gpu_mon::event::{AppEvent, EventHandler, KeyCode, KeyInput, TermInput};

fn press(code: KeyCode, ctrl: bool) -> Option<TermInput> {
    Some(TermInput::Key(KeyInput { code, ctrl }))
}

#[test]
fn quit_keys() {
    let h = EventHandler::new();
    assert_eq!(h.next(press(KeyCode::Char('q'), false)), AppEvent::Quit);
    assert_eq!(h.next(press(KeyCode::Char('q'), true)), AppEvent::Quit);
    assert_eq!(h.next(press(KeyCode::Char('c'), true)), AppEvent::Quit);
}

#[test]
fn other_keys_pass_through() {
    let h = EventHandler::new();
    let k = KeyInput { code: KeyCode::Char('c'), ctrl: false };
    assert_eq!(h.next(Some(TermInput::Key(k))), AppEvent::Key(k));
    let tab = KeyInput { code: KeyCode::Tab, ctrl: false };
    assert_eq!(h.next(Some(TermInput::Key(tab))), AppEvent::Key(tab));
}

#[test]
fn timeouts_and_other_input_tick() {
    let h = EventHandler::new();
    assert_eq!(h.next(None), AppEvent::Tick);
    assert_eq!(h.next(Some(TermInput::Other)), AppEvent::Tick);
}
