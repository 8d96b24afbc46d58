use punchball::gamepad::{
    axis_system, button_system, connection_system, AxisCode, ButtonCode, Gamepad, GamepadAxis,
    GamepadButton, GamepadEvent, GamepadEventType, GamepadInput, GamepadInputs, GamepadManager,
};
use punchball::vector::Vec2;

fn event(id: usize, event_type: GamepadEventType) -> GamepadEvent {
    GamepadEvent { gamepad: Gamepad { id }, event_type }
}

#[test]
fn connections_spawn_players() {
    let mut manager = GamepadManager::new();
    let spawns = connection_system(
        &mut manager,
        &vec![
            event(0, GamepadEventType::Connected),
            event(1, GamepadEventType::Connected),
            event(0, GamepadEventType::Disconnected),
        ],
    );
    assert_eq!(spawns.iter().map(|s| s.id).collect::<Vec<_>>(), vec![0, 1]);
    assert!(!manager.contains(Gamepad { id: 0 }));
    assert!(manager.contains(Gamepad { id: 1 }));
}

#[test]
fn trigger_and_start_buttons() {
    let mut manager = GamepadManager::new();
    connection_system(&mut manager, &vec![event(0, GamepadEventType::Connected), event(1, GamepadEventType::Connected)]);
    let mut inputs = GamepadInputs::new();
    let pressed = vec![
        GamepadButton::new(Gamepad { id: 1 }, ButtonCode::RightTrigger2),
        GamepadButton::new(Gamepad { id: 3 }, ButtonCode::Start),
    ];
    assert!(!button_system(&manager, &pressed, &mut inputs));
    assert!(inputs.get(1).right_trigger2);
    assert!(!inputs.get(0).right_trigger2);
    let quit = vec![GamepadButton::new(Gamepad { id: 0 }, ButtonCode::Start)];
    assert!(button_system(&manager, &quit, &mut inputs));
    assert!(!inputs.get(1).right_trigger2);
}

#[test]
fn sticks_are_read_per_axis() {
    let mut manager = GamepadManager::new();
    connection_system(&mut manager, &vec![event(2, GamepadEventType::Connected)]);
    let mut inputs = GamepadInputs::new();
    let g = Gamepad { id: 2 };
    let axes = vec![
        (GamepadAxis::new(g, AxisCode::LeftStickX), 500),
        (GamepadAxis::new(g, AxisCode::RightStickY), -1000),
        (GamepadAxis::new(Gamepad { id: 3 }, AxisCode::LeftStickY), 900),
        (GamepadAxis::new(g, AxisCode::LeftZ), 300),
    ];
    axis_system(&manager, &axes, &mut inputs);
    let got = inputs.get(2);
    assert_eq!(got.left_stick, Vec2::new(500, 0));
    assert_eq!(got.right_stick, Vec2::new(0, -1000));
    assert_eq!(inputs.get(3), GamepadInput::neutral());
    axis_system(&manager, &vec![(GamepadAxis::new(g, AxisCode::LeftStickY), 250)], &mut inputs);
    assert_eq!(inputs.get(2).left_stick, Vec2::new(500, 250));
}
