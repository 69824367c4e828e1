use streamdeck_interface::deckactor::{
    ButtonChange, ButtonState, DeckActor, DeviceOp, GetTasks, MsgType, Ping, Polled, ReadOutcome,
    WriteMsg, WriterActor, INITIAL_BUTTONS,
};
use streamdeck_interface::hub::Disconnect;

fn pressed(btn: usize) -> ButtonChange {
    ButtonChange::new(btn, ButtonState::Pressed)
}

fn released(btn: usize) -> ButtonChange {
    ButtonChange::new(btn, ButtonState::Released)
}

#[test]
fn button_change_holds_its_fields() {
    let change = ButtonChange::new(4, ButtonState::Released);
    assert_eq!(change.btn, 4);
    assert_eq!(change.state, ButtonState::Released);
    assert_ne!(pressed(4), released(4));
    assert_ne!(pressed(4), pressed(5));
}

#[test]
fn state_change_lists_differences_in_order() {
    let prev = vec![0u8, 0, 1, 1, 0];
    let curr = vec![1u8, 0, 0, 1, 1];
    assert_eq!(
        DeckActor::state_change(&prev, &curr),
        vec![pressed(0), released(2), pressed(4)]
    );
    assert_eq!(DeckActor::state_change(&curr, &curr), vec![]);
}

#[test]
fn state_change_takes_only_one_as_pressed() {
    let prev = vec![0u8, 1, 1, 2];
    let curr = vec![2u8, 255, 0, 1];
    assert_eq!(
        DeckActor::state_change(&prev, &curr),
        vec![released(0), released(1), released(2), pressed(3)]
    );
}

#[test]
fn state_change_compares_the_common_buttons_only() {
    let long = vec![1u8, 1, 1, 1];
    let short = vec![0u8, 1];
    assert_eq!(DeckActor::state_change(&long, &short), vec![released(0)]);
    assert_eq!(DeckActor::state_change(&short, &long), vec![pressed(0)]);
    assert_eq!(DeckActor::state_change(&[], &long), vec![]);
    assert_eq!(DeckActor::state_change(&long, &vec![]), vec![]);
}

#[test]
fn queue_is_first_in_first_out() {
    let mut queue = WriterActor::new();
    assert_eq!(queue.len(), 0);
    assert_eq!(queue.handle_get_tasks(GetTasks()), vec![]);
    queue.handle_write(WriteMsg(MsgType::Ping(1)));
    queue.handle_write(WriteMsg(MsgType::BrightnessChange(9)));
    queue.handle_write(WriteMsg(MsgType::Ping(1)));
    queue.handle_write(WriteMsg(MsgType::Reset));
    assert_eq!(queue.len(), 4);
    assert_eq!(
        queue.handle_get_tasks(GetTasks()),
        vec![MsgType::Ping(1), MsgType::BrightnessChange(9), MsgType::Ping(1), MsgType::Reset]
    );
    assert_eq!(queue.len(), 0);
    assert_eq!(queue.handle_get_tasks(GetTasks()), vec![]);
    queue.handle_write(WriteMsg(MsgType::Reset));
    assert_eq!(queue.handle_get_tasks(GetTasks()), vec![MsgType::Reset]);
}

#[test]
fn actor_wraps_commands_for_its_queue() {
    let actor = DeckActor::new(5);
    let image = MsgType::SetImage(3, String::from("a.png"));
    assert_eq!(actor.handle_msg(image.clone()), WriteMsg(image.clone()));
    assert_eq!(WriteMsg(image.clone()).clone(), WriteMsg(image));
    assert_eq!(Ping(3), Ping(3));
}

#[test]
fn new_actor_runs_with_all_buttons_released() {
    let mut actor = DeckActor::new(42);
    assert_eq!(actor.devid(), 42);
    assert!(actor.is_running());
    assert_eq!(INITIAL_BUTTONS, 16);
    let mut snapshot = vec![0u8; 16];
    snapshot[15] = 1;
    assert_eq!(
        actor.handle_read(ReadOutcome::Buttons(snapshot)),
        Polled::Changes(vec![pressed(15)])
    );
}

#[test]
fn first_snapshot_is_compared_with_sixteen_buttons() {
    let mut actor = DeckActor::new(1);
    let snapshot = vec![1u8; 32];
    let expected: Vec<ButtonChange> = (0..16).map(pressed).collect();
    assert_eq!(actor.handle_read(ReadOutcome::Buttons(snapshot)), Polled::Changes(expected));
    let mut next = vec![1u8; 32];
    next[20] = 0;
    assert_eq!(
        actor.handle_read(ReadOutcome::Buttons(next)),
        Polled::Changes(vec![released(20)])
    );
}

#[test]
fn snapshots_are_compared_with_the_one_before() {
    let mut actor = DeckActor::new(1);
    assert_eq!(
        actor.handle_read(ReadOutcome::Buttons(vec![0, 1, 0])),
        Polled::Changes(vec![pressed(1)])
    );
    assert_eq!(actor.handle_read(ReadOutcome::NoData), Polled::Changes(vec![]));
    assert_eq!(
        actor.handle_read(ReadOutcome::Buttons(vec![0, 1, 0])),
        Polled::Changes(vec![])
    );
    assert_eq!(
        actor.handle_read(ReadOutcome::Buttons(vec![1, 0, 0])),
        Polled::Changes(vec![pressed(0), released(1)])
    );
    assert!(actor.is_running());
}

#[test]
fn read_error_disconnects_once_and_stops() {
    let mut actor = DeckActor::new(7);
    assert_eq!(
        actor.handle_read(ReadOutcome::Buttons(vec![1])),
        Polled::Changes(vec![pressed(0)])
    );
    assert_eq!(actor.handle_read(ReadOutcome::Failed), Polled::Lost(Disconnect(7)));
    assert!(!actor.is_running());
    assert_eq!(actor.devid(), 7);
    assert_eq!(actor.handle_read(ReadOutcome::Failed), Polled::Halted);
    assert_eq!(actor.handle_read(ReadOutcome::NoData), Polled::Halted);
    assert_eq!(actor.handle_read(ReadOutcome::Buttons(vec![0])), Polled::Halted);
    assert_eq!(actor.plan_tasks(&vec![MsgType::Reset, MsgType::BrightnessChange(1)]), vec![]);
    assert_eq!(actor.handle_failure(&DeviceOp::WriteImage(0, String::from("x"))), None);
    assert!(!actor.is_running());
}

#[test]
fn tasks_become_hardware_operations() {
    assert_eq!(DeckActor::plan_task(&MsgType::Ping(3)), None);
    assert_eq!(
        DeckActor::plan_task(&MsgType::BrightnessChange(255)),
        Some(DeviceOp::SetBrightness(255))
    );
    assert_eq!(
        DeckActor::plan_task(&MsgType::SetImage(14, String::from("icons/cat.png"))),
        Some(DeviceOp::WriteImage(14, String::from("../images/icons/cat.png")))
    );
    assert_eq!(
        DeckActor::plan_task(&MsgType::SetImage(0, String::new())),
        Some(DeviceOp::WriteImage(0, String::from("../images/")))
    );
    assert_eq!(DeckActor::plan_task(&MsgType::Reset), Some(DeviceOp::Reset));
}

#[test]
fn batch_is_planned_in_order_without_pings() {
    let actor = DeckActor::new(1);
    let tasks = vec![
        MsgType::Reset,
        MsgType::Ping(1),
        MsgType::SetImage(2, String::from("b.png")),
        MsgType::BrightnessChange(30),
        MsgType::Ping(2),
        MsgType::Reset,
    ];
    assert_eq!(
        actor.plan_tasks(&tasks),
        vec![
            DeviceOp::Reset,
            DeviceOp::WriteImage(2, String::from("../images/b.png")),
            DeviceOp::SetBrightness(30),
            DeviceOp::Reset,
        ]
    );
    assert_eq!(actor.plan_tasks(&vec![]), vec![]);
    assert_eq!(actor.plan_tasks(&vec![MsgType::Ping(0)]), vec![]);
}

#[test]
fn only_a_failed_image_write_is_fatal() {
    let mut actor = DeckActor::new(9);
    assert_eq!(actor.handle_failure(&DeviceOp::SetBrightness(3)), None);
    assert_eq!(actor.handle_failure(&DeviceOp::Reset), None);
    assert!(actor.is_running());
    assert_eq!(
        actor.handle_failure(&DeviceOp::WriteImage(1, String::from("../images/a.png"))),
        Some(Disconnect(9))
    );
    assert!(!actor.is_running());
    assert_eq!(
        actor.handle_failure(&DeviceOp::WriteImage(1, String::from("../images/a.png"))),
        None
    );
    assert_eq!(actor.handle_read(ReadOutcome::Buttons(vec![1])), Polled::Halted);
}
