use vstd::prelude::*;

use crate::matrix::{clear_signals, row_signals, strobe_pulse, LedMatrix, PanelView, Signal};

verus! {

/// Starts a directive; twice in a row, it stands for itself as data.
pub const CONTROL: u8 = 46; // '.'

/// Directive: print the help text.
pub const HELP: u8 = 104; // 'h'

/// Directive: make display 0 the active one.
pub const SELECT0: u8 = 48; // '0'

/// Directive: make display 1 the active one.
pub const SELECT1: u8 = 49; // '1'

/// Directive: show what the active display's register holds.
pub const SHOW: u8 = 115; // 's'

/// Directive: clear the active display's register.
pub const CLEAR: u8 = 99; // 'c'

/// Directive: toggle instant strobe.
pub const INSTANT: u8 = 105; // 'i'

/// Directive: put the transport in quiet mode.
pub const QUIET: u8 = 113; // 'q'

/// Which of the two displays literal data goes to.
#[derive(Clone, Copy, PartialEq, Eq, Structural, Debug)]
pub enum DisplayId {
    Display0,
    Display1,
}

/// A text reply to the sender of the byte stream.
#[derive(Clone, Copy, PartialEq, Eq, Structural, Debug)]
pub enum Reply {
    Help,
    Switching0,
    Switching1,
    Showing,
    Clearing,
    InstantStrobeOn,
    InstantStrobeOff,
    InvalidCommand,
}

/// What one byte does to the active display.
#[derive(Clone, Copy, PartialEq, Eq, Structural, Debug)]
pub enum PanelOp {
    Nothing,
    PushRow(u8),
    PushRowAndShow(u8),
    Show,
    Clear,
}

/// State of the command interpreter.
#[derive(Clone, Copy, PartialEq, Eq, Structural, Debug)]
pub struct Interpreter {
    /// The previous byte was a lone `CONTROL`: this one is a directive.
    pub command_mode: bool,
    pub active_display: DisplayId,
    /// Every row of data is shown as soon as it is pushed.
    pub instant_strobe: bool,
    /// The transport writes without pausing between chunks.
    pub quiet: bool,
}

/// What one byte does: the next state, the operation on the active display
/// and the reply, if any.
#[derive(Clone, Copy, Debug)]
pub struct Transition {
    pub next: Interpreter,
    pub op: PanelOp,
    pub reply: Option<Reply>,
}

pub open spec fn reply_text(r: Reply) -> Seq<char> {
    match r {
        Reply::Help => "\n.h - show this help\r\n.0 - select row 0\r\n.1 - select row 1\r\n.s - strobe active row\r\n.c - clear active row\r\n.i - toggle instant strobe\r\n.q - set quiet (high speed) mode\r\n\r\nanything else will be interpreted as data to active row\r\nuse '..' to enter a literal '.'-byte as data\r\n"@,
        Reply::Switching0 => "Switching to row 0\r\n"@,
        Reply::Switching1 => "Switching to row 1\r\n"@,
        Reply::Showing => "Showing\r\n"@,
        Reply::Clearing => "Clearing\r\n"@,
        Reply::InstantStrobeOn => "Enabling instant strobe\r\n"@,
        Reply::InstantStrobeOff => "Disabling instant strobe\r\n"@,
        Reply::InvalidCommand => "Invalid command character\r\n"@,
    }
}

impl Reply {
    /// The text sent back for this reply, ending in CR LF.
    pub fn text(&self) -> (r: &'static str)
        ensures
            r@ == reply_text(*self),
    {
        match self {
            Reply::Help => "\n.h - show this help\r\n.0 - select row 0\r\n.1 - select row 1\r\n.s - strobe active row\r\n.c - clear active row\r\n.i - toggle instant strobe\r\n.q - set quiet (high speed) mode\r\n\r\nanything else will be interpreted as data to active row\r\nuse '..' to enter a literal '.'-byte as data\r\n",
            Reply::Switching0 => "Switching to row 0\r\n",
            Reply::Switching1 => "Switching to row 1\r\n",
            Reply::Showing => "Showing\r\n",
            Reply::Clearing => "Clearing\r\n",
            Reply::InstantStrobeOn => "Enabling instant strobe\r\n",
            Reply::InstantStrobeOff => "Disabling instant strobe\r\n",
            Reply::InvalidCommand => "Invalid command character\r\n",
        }
    }
}

/// A byte of data for the active display: pushed as a row, and shown at
/// once under instant strobe.
pub open spec fn data_op(s: Interpreter, byte: u8) -> PanelOp {
    if s.instant_strobe {
        PanelOp::PushRowAndShow(byte)
    } else {
        PanelOp::PushRow(byte)
    }
}

/// The rules of the protocol, in order of priority.
pub open spec fn transition(s: Interpreter, byte: u8) -> Transition {
    let literal = Interpreter { command_mode: false, ..s };
    if s.command_mode {
        if byte == CONTROL {
            Transition { next: literal, op: data_op(s, byte), reply: None }
        } else if byte == HELP {
            Transition { next: literal, op: PanelOp::Nothing, reply: Some(Reply::Help) }
        } else if byte == SELECT0 {
            Transition {
                next: Interpreter { active_display: DisplayId::Display0, ..literal },
                op: PanelOp::Nothing,
                reply: Some(Reply::Switching0),
            }
        } else if byte == SELECT1 {
            Transition {
                next: Interpreter { active_display: DisplayId::Display1, ..literal },
                op: PanelOp::Nothing,
                reply: Some(Reply::Switching1),
            }
        } else if byte == SHOW {
            Transition { next: literal, op: PanelOp::Show, reply: Some(Reply::Showing) }
        } else if byte == CLEAR {
            Transition { next: literal, op: PanelOp::Clear, reply: Some(Reply::Clearing) }
        } else if byte == INSTANT {
            Transition {
                next: Interpreter { instant_strobe: !s.instant_strobe, ..literal },
                op: PanelOp::Nothing,
                reply: Some(
                    if s.instant_strobe {
                        Reply::InstantStrobeOff
                    } else {
                        Reply::InstantStrobeOn
                    },
                ),
            }
        } else if byte == QUIET {
            Transition {
                next: Interpreter { quiet: true, ..literal },
                op: PanelOp::Nothing,
                reply: None,
            }
        } else {
            Transition { next: literal, op: PanelOp::Nothing, reply: Some(Reply::InvalidCommand) }
        }
    } else if byte == CONTROL {
        Transition {
            next: Interpreter { command_mode: true, ..s },
            op: PanelOp::Nothing,
            reply: None,
        }
    } else {
        Transition { next: s, op: data_op(s, byte), reply: None }
    }
}

/// The operation that `byte` makes on display `id`: the active display gets
/// the operation of the transition, the other one nothing.
pub open spec fn op_on(s: Interpreter, byte: u8, id: DisplayId) -> PanelOp {
    if s.active_display == id {
        transition(s, byte).op
    } else {
        PanelOp::Nothing
    }
}

/// The line writes that carry out `op` on a panel of `cells` pixels.
pub open spec fn op_signals(op: PanelOp, cells: nat) -> Seq<Signal> {
    match op {
        PanelOp::Nothing => seq![],
        PanelOp::PushRow(row) => row_signals(row),
        PanelOp::PushRowAndShow(row) => row_signals(row) + strobe_pulse(),
        PanelOp::Show => strobe_pulse(),
        PanelOp::Clear => clear_signals(cells),
    }
}

/// A panel once `op` is carried out on it.
pub open spec fn after_op(v: PanelView, op: PanelOp) -> PanelView {
    v.emit(op_signals(op, v.cells()))
}

/// In literal mode the control byte enters command mode, changes nothing
/// else, and reaches no display as data.
pub proof fn lemma_control_enters_command(s: Interpreter)
    requires
        !s.command_mode,
    ensures
        transition(s, CONTROL).next == (Interpreter { command_mode: true, ..s }),
        transition(s, CONTROL).op == PanelOp::Nothing,
        transition(s, CONTROL).reply == None::<Reply>,
        op_on(s, CONTROL, DisplayId::Display0) == PanelOp::Nothing,
        op_on(s, CONTROL, DisplayId::Display1) == PanelOp::Nothing,
{
}

/// From literal mode, the control byte twice pushes the control byte once,
/// as one row to the active display, and leaves the interpreter in literal
/// mode, in the state it started from.
pub proof fn lemma_escaped_control(s: Interpreter)
    requires
        !s.command_mode,
    ensures
        ({
            let first = transition(s, CONTROL);
            let second = transition(first.next, CONTROL);
            &&& first.op == PanelOp::Nothing
            &&& second.op == data_op(s, CONTROL)
            &&& second.next == s
            &&& !second.next.command_mode
            &&& first.reply == None::<Reply>
            &&& second.reply == None::<Reply>
        }),
{
}

/// Under instant strobe, a byte of data in literal mode is pushed as a row
/// and shown at once.
pub proof fn lemma_instant_strobe_shows(s: Interpreter, byte: u8)
    requires
        s.instant_strobe,
        !s.command_mode,
        byte != CONTROL,
    ensures
        transition(s, byte).op == PanelOp::PushRowAndShow(byte),
        op_signals(transition(s, byte).op, 0) == row_signals(byte) + strobe_pulse(),
{
}

/// Carries out `op` on `display`.
pub fn perform(display: &mut LedMatrix, op: PanelOp)
    ensures
        final(display)@ == after_op(old(display)@, op),
{
    match op {
        PanelOp::Nothing => {
            assert(old(display)@.emit(seq![]) =~~= old(display)@);
        },
        PanelOp::PushRow(row) => {
            display.push_row(row);
        },
        PanelOp::PushRowAndShow(row) => {
            display.push_row(row);
            display.show();
            proof {
                crate::matrix::lemma_emit_twice(old(display)@, row_signals(row), strobe_pulse());
            }
        },
        PanelOp::Show => {
            display.show();
        },
        PanelOp::Clear => {
            display.clear();
        },
    }
}

impl Interpreter {
    /// Literal mode, display 0 active, both options off.
    pub fn new() -> (r: Interpreter)
        ensures
            r == (Interpreter {
                command_mode: false,
                active_display: DisplayId::Display0,
                instant_strobe: false,
                quiet: false,
            }),
    {
        Interpreter {
            command_mode: false,
            active_display: DisplayId::Display0,
            instant_strobe: false,
            quiet: false,
        }
    }

    /// What `byte` does in this state, without doing it.
    pub fn decide(&self, byte: u8) -> (t: Transition)
        ensures
            t == transition(*self, byte),
    {
        let literal = Interpreter { command_mode: false, ..*self };
        let data = if self.instant_strobe {
            PanelOp::PushRowAndShow(byte)
        } else {
            PanelOp::PushRow(byte)
        };
        if self.command_mode {
            if byte == CONTROL {
                Transition { next: literal, op: data, reply: None }
            } else if byte == HELP {
                Transition { next: literal, op: PanelOp::Nothing, reply: Some(Reply::Help) }
            } else if byte == SELECT0 {
                Transition {
                    next: Interpreter { active_display: DisplayId::Display0, ..literal },
                    op: PanelOp::Nothing,
                    reply: Some(Reply::Switching0),
                }
            } else if byte == SELECT1 {
                Transition {
                    next: Interpreter { active_display: DisplayId::Display1, ..literal },
                    op: PanelOp::Nothing,
                    reply: Some(Reply::Switching1),
                }
            } else if byte == SHOW {
                Transition { next: literal, op: PanelOp::Show, reply: Some(Reply::Showing) }
            } else if byte == CLEAR {
                Transition { next: literal, op: PanelOp::Clear, reply: Some(Reply::Clearing) }
            } else if byte == INSTANT {
                let reply = if self.instant_strobe {
                    Reply::InstantStrobeOff
                } else {
                    Reply::InstantStrobeOn
                };
                Transition {
                    next: Interpreter { instant_strobe: !self.instant_strobe, ..literal },
                    op: PanelOp::Nothing,
                    reply: Some(reply),
                }
            } else if byte == QUIET {
                Transition {
                    next: Interpreter { quiet: true, ..literal },
                    op: PanelOp::Nothing,
                    reply: None,
                }
            } else {
                Transition {
                    next: literal,
                    op: PanelOp::Nothing,
                    reply: Some(Reply::InvalidCommand),
                }
            }
        } else if byte == CONTROL {
            Transition {
                next: Interpreter { command_mode: true, ..*self },
                op: PanelOp::Nothing,
                reply: None,
            }
        } else {
            Transition { next: *self, op: data, reply: None }
        }
    }

    /// Takes one byte of the stream: updates the state, carries out the
    /// operation on the active display, and returns the reply to send back.
    pub fn handle_byte(
        &mut self,
        display0: &mut LedMatrix,
        display1: &mut LedMatrix,
        byte: u8,
    ) -> (r: Option<Reply>)
        ensures
            *final(self) == transition(*old(self), byte).next,
            r == transition(*old(self), byte).reply,
            final(display0)@ == after_op(old(display0)@, op_on(*old(self), byte, DisplayId::Display0)),
            final(display1)@ == after_op(old(display1)@, op_on(*old(self), byte, DisplayId::Display1)),
    {
        let t = self.decide(byte);
        match self.active_display {
            DisplayId::Display0 => {
                perform(display0, t.op);
                assert(old(display1)@.emit(seq![]) =~~= old(display1)@);
            },
            DisplayId::Display1 => {
                assert(old(display0)@.emit(seq![]) =~~= old(display0)@);
                perform(display1, t.op);
            },
        }
        *self = t.next;
        t.reply
    }
}

} // verus!
