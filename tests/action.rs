use wzmach::action::{consume_events, key_ops, Action, ActionError, ActionSlot, CommandAction, KeyOp, ShellCommandAction};

struct Recorder {
    runs: u32,
    fail: bool,
}

impl Action for Recorder {
    fn execute(&mut self) -> Result<(), ActionError> {
        self.runs += 1;
        if self.fail {
            Err(ActionError("broken".to_string()))
        } else {
            Ok(())
        }
    }
}

#[test]
fn dispatch_runs_each_index_and_keeps_going() {
    let mut actions = vec![
        ActionSlot::new(Recorder { runs: 0, fail: false }),
        ActionSlot::new(Recorder { runs: 0, fail: true }),
        ActionSlot::new(Recorder { runs: 0, fail: false }),
    ];
    let errors = consume_events(&vec![1, 2, 1, 0], &mut actions);
    assert_eq!(actions[0].action().runs, 1);
    assert_eq!(actions[1].action().runs, 2);
    assert_eq!(actions[2].action().runs, 1);
    assert_eq!(errors.len(), 2);
    assert_eq!(errors[0].0, 1);
    assert_eq!(errors[1].1.message(), "broken".to_string());
}

#[test]
fn command_argv() {
    let c = CommandAction { path: "/usr/bin/notify".to_string(), args: vec!["a".to_string(), "b c".to_string()] };
    assert_eq!(c.argv(), vec!["/usr/bin/notify".to_string(), "a".to_string(), "b c".to_string()]);
    let s = ShellCommandAction { command: "echo hi | wc".to_string() };
    assert_eq!(s.argv(), vec!["/bin/sh".to_string(), "-c".to_string(), "echo hi | wc".to_string()]);
}

#[test]
fn key_steps_press_click_release_in_reverse() {
    assert_eq!(
        key_ops(2, 3),
        vec![
            KeyOp::Press(0),
            KeyOp::Press(1),
            KeyOp::Click(0),
            KeyOp::Click(1),
            KeyOp::Click(2),
            KeyOp::Release(1),
            KeyOp::Release(0),
            KeyOp::Sync,
        ]
    );
    assert_eq!(key_ops(0, 0), vec![KeyOp::Sync]);
}

#[test]
fn dispatch_of_nothing_runs_nothing() {
    let mut actions = vec![ActionSlot::new(Recorder { runs: 0, fail: true })];
    let errors = consume_events(&vec![], &mut actions);
    assert!(errors.is_empty());
    assert_eq!(actions[0].action().runs, 0);
}
