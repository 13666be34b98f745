use led_matrix::command::{
    DisplayId, Interpreter, PanelOp, Reply, CLEAR, CONTROL, HELP, INSTANT, QUIET, SELECT0, SELECT1,
    SHOW,
};
use led_matrix::matrix::{LedMatrix, Line, Signal};

fn sig(line: Line, high: bool) -> Signal {
    Signal { line, high }
}

fn row_of(byte: u8) -> Vec<Signal> {
    let mut out = Vec::new();
    for k in 0..8 {
        let on = (byte >> (7 - k)) & 1 == 1;
        out.push(sig(Line::Data, on));
        out.push(sig(Line::Clock, true));
        out.push(sig(Line::Clock, false));
    }
    out
}

fn strobe() -> Vec<Signal> {
    vec![sig(Line::Strobe, true), sig(Line::Strobe, false)]
}

fn clear_of(cells: usize) -> Vec<Signal> {
    let mut out = vec![sig(Line::Data, false)];
    for _ in 0..cells {
        out.push(sig(Line::Clock, true));
        out.push(sig(Line::Clock, false));
    }
    out
}

struct Rig {
    state: Interpreter,
    d0: LedMatrix,
    d1: LedMatrix,
}

impl Rig {
    fn new() -> Rig {
        Rig { state: Interpreter::new(), d0: LedMatrix::new(8, 72), d1: LedMatrix::new(8, 72) }
    }

    fn feed(&mut self, bytes: &[u8]) -> Vec<Option<Reply>> {
        bytes.iter().map(|b| self.state.handle_byte(&mut self.d0, &mut self.d1, *b)).collect()
    }
}

#[test]
fn new_interpreter_is_literal_on_display0() {
    let s = Interpreter::new();
    assert!(!s.command_mode);
    assert_eq!(s.active_display, DisplayId::Display0);
    assert!(!s.instant_strobe);
    assert!(!s.quiet);
}

#[test]
fn scenario_row_clear_row_on_display0() {
    let mut rig = Rig::new();
    let replies = rig.feed(&[b'A', b'.', b'c', b'B']);
    assert_eq!(replies, vec![None, None, Some(Reply::Clearing), None]);
    assert_eq!(Reply::Clearing.text(), "Clearing\r\n");
    let mut expected = row_of(b'A');
    expected.extend(clear_of(576));
    expected.extend(row_of(b'B'));
    assert_eq!(rig.d0.take_signals(), expected);
    assert!(rig.d1.take_signals().is_empty());
    assert!(!rig.state.command_mode);
}

#[test]
fn scenario_select_display1_then_row() {
    let mut rig = Rig::new();
    let replies = rig.feed(&[b'.', b'1', b'C']);
    assert_eq!(replies, vec![None, Some(Reply::Switching1), None]);
    assert_eq!(Reply::Switching1.text(), "Switching to row 1\r\n");
    assert_eq!(rig.state.active_display, DisplayId::Display1);
    assert_eq!(rig.d1.take_signals(), row_of(b'C'));
    assert!(rig.d0.take_signals().is_empty());
}

#[test]
fn instant_strobe_shows_each_data_byte() {
    let mut rig = Rig::new();
    rig.state.instant_strobe = true;
    let replies = rig.feed(&[b'Z']);
    assert_eq!(replies, vec![None]);
    let mut expected = row_of(b'Z');
    expected.extend(strobe());
    assert_eq!(rig.d0.take_signals(), expected);
}

#[test]
fn instant_strobe_applies_to_display1_too() {
    let mut rig = Rig::new();
    rig.feed(&[b'.', b'1', b'.', b'i']);
    rig.feed(&[7]);
    let mut expected = row_of(7);
    expected.extend(strobe());
    assert_eq!(rig.d1.take_signals(), expected);
}

#[test]
fn control_byte_enters_command_mode_without_data() {
    let mut rig = Rig::new();
    let replies = rig.feed(&[CONTROL]);
    assert_eq!(replies, vec![None]);
    assert!(rig.state.command_mode);
    assert!(rig.d0.take_signals().is_empty());
    assert!(rig.d1.take_signals().is_empty());
}

#[test]
fn doubled_control_byte_is_one_literal_row() {
    let mut rig = Rig::new();
    let replies = rig.feed(&[CONTROL, CONTROL]);
    assert_eq!(replies, vec![None, None]);
    assert!(!rig.state.command_mode);
    assert_eq!(rig.state, Interpreter::new());
    assert_eq!(rig.d0.take_signals(), row_of(b'.'));
    assert!(rig.d1.take_signals().is_empty());
}

#[test]
fn doubled_control_byte_goes_to_active_display1() {
    let mut rig = Rig::new();
    rig.feed(&[CONTROL, SELECT1, CONTROL, CONTROL]);
    assert_eq!(rig.d1.take_signals(), row_of(b'.'));
    assert!(rig.d0.take_signals().is_empty());
}

#[test]
fn help_directive_replies_with_help_text() {
    let mut rig = Rig::new();
    assert_eq!(rig.feed(&[CONTROL, HELP]), vec![None, Some(Reply::Help)]);
    let text = Reply::Help.text();
    assert!(text.starts_with("\n.h - show this help\r\n"));
    assert!(text.contains(".q - set quiet (high speed) mode\r\n"));
    assert!(text.ends_with("use '..' to enter a literal '.'-byte as data\r\n"));
    assert!(!rig.state.command_mode);
}

#[test]
fn select_display0_directive() {
    let mut rig = Rig::new();
    rig.feed(&[CONTROL, SELECT1]);
    assert_eq!(rig.feed(&[CONTROL, SELECT0]), vec![None, Some(Reply::Switching0)]);
    assert_eq!(Reply::Switching0.text(), "Switching to row 0\r\n");
    assert_eq!(rig.state.active_display, DisplayId::Display0);
}

#[test]
fn show_directive_strobes_active_display() {
    let mut rig = Rig::new();
    rig.feed(&[CONTROL, SELECT1]);
    assert_eq!(rig.feed(&[CONTROL, SHOW]), vec![None, Some(Reply::Showing)]);
    assert_eq!(Reply::Showing.text(), "Showing\r\n");
    assert_eq!(rig.d1.take_signals(), strobe());
    assert!(rig.d0.take_signals().is_empty());
}

#[test]
fn clear_directive_clears_active_display1() {
    let mut rig = Rig::new();
    rig.d1 = LedMatrix::new(2, 3);
    rig.feed(&[CONTROL, SELECT1]);
    assert_eq!(rig.feed(&[CONTROL, CLEAR]), vec![None, Some(Reply::Clearing)]);
    assert_eq!(rig.d1.take_signals(), clear_of(6));
    assert!(rig.d0.take_signals().is_empty());
}

#[test]
fn instant_directive_toggles() {
    let mut rig = Rig::new();
    assert_eq!(rig.feed(&[CONTROL, INSTANT]), vec![None, Some(Reply::InstantStrobeOn)]);
    assert!(rig.state.instant_strobe);
    assert_eq!(Reply::InstantStrobeOn.text(), "Enabling instant strobe\r\n");
    assert_eq!(rig.feed(&[CONTROL, INSTANT]), vec![None, Some(Reply::InstantStrobeOff)]);
    assert!(!rig.state.instant_strobe);
    assert_eq!(Reply::InstantStrobeOff.text(), "Disabling instant strobe\r\n");
}

#[test]
fn quiet_directive_sets_quiet_without_reply() {
    let mut rig = Rig::new();
    assert_eq!(rig.feed(&[CONTROL, QUIET]), vec![None, None]);
    assert!(rig.state.quiet);
    assert!(!rig.state.command_mode);
    assert!(rig.d0.take_signals().is_empty());
}

#[test]
fn unknown_directive_is_reported() {
    let mut rig = Rig::new();
    assert_eq!(rig.feed(&[CONTROL, b'x']), vec![None, Some(Reply::InvalidCommand)]);
    assert_eq!(Reply::InvalidCommand.text(), "Invalid command character\r\n");
    assert!(!rig.state.command_mode);
    assert!(rig.d0.take_signals().is_empty());
    assert!(rig.d1.take_signals().is_empty());
}

#[test]
fn decide_describes_without_acting() {
    let s = Interpreter::new();
    let t = s.decide(b'A');
    assert_eq!(t.op, PanelOp::PushRow(b'A'));
    assert_eq!(t.next, s);
    assert!(t.reply.is_none());
    let t = s.decide(CONTROL);
    assert_eq!(t.op, PanelOp::Nothing);
    assert!(t.next.command_mode);
    let t = t.next.decide(CLEAR);
    assert_eq!(t.op, PanelOp::Clear);
    assert_eq!(t.reply, Some(Reply::Clearing));
    assert!(!t.next.command_mode);
}
