//! How the reader reacts to input: which inputs it handles before any widget
//! sees them, which keys are its commands, and what each command does to the
//! reader's state.

use vstd::prelude::*;
use crate::config::{Config, DELAY_STEP, spec_faster_delay, spec_slower_delay};

verus! {

/// Modifier bit of the Shift key, as the terminal library numbers it.
pub const SHIFT: u8 = 0b0000_0001;

/// Modifier bit of the Control key, as the terminal library numbers it.
pub const CONTROL: u8 = 0b0000_0010;

/// The key of a key event.
#[derive(Clone, Copy, Debug, PartialEq, Eq, Structural)]
pub enum KeyCode {
    /// A character key.
    Char(char),
    /// A function key, by number.
    F(u8),
    /// Any other key.
    Other,
}

/// Whether a key went down, repeats, or went up.
#[derive(Clone, Copy, Debug, PartialEq, Eq, Structural)]
pub enum KeyKind {
    Press,
    Repeat,
    Release,
}

/// A key event.
#[derive(Clone, Copy, Debug, PartialEq, Eq, Structural)]
pub struct Key {
    pub code: KeyCode,
    /// The modifier keys held, as a set of modifier bits.
    pub modifiers: u8,
    pub kind: KeyKind,
}

/// An input from the terminal, as far as the reader tells inputs apart.
#[derive(Clone, Copy, Debug, PartialEq, Eq, Structural)]
pub enum Input {
    /// The terminal was resized.
    Resized,
    /// The terminal window gained the focus.
    FocusGained,
    /// A key event.
    Key(Key),
    /// Any other input.
    Other,
}

/// How event handling goes on after a step.
#[derive(Clone, Copy, Debug, PartialEq, Eq, Structural)]
pub enum Flow {
    /// Not handled: go on with the next handler.
    Continue,
    /// Handled, nothing to redraw.
    Unchanged,
    /// Handled, redraw the screen.
    Changed,
    /// End the program.
    Quit,
}

/// What the reader does with an input before dialogs and widgets see it.
#[derive(Clone, Copy, Debug, PartialEq, Eq, Structural)]
pub enum EarlyAction {
    /// Redraw the screen.
    Redraw,
    /// Reload the file list.
    Reload,
    /// End the program.
    Quit,
}

/// The reader's commands, bound to function keys.
#[derive(Clone, Copy, Debug, PartialEq, Eq, Structural)]
pub enum Command {
    /// F1: start or stop the auto-scroll.
    StartStop,
    /// F3: show or hide the file list.
    FlipFiles,
    /// F5: lengthen the auto-scroll delay.
    Faster,
    /// F6: shorten the auto-scroll delay.
    Slower,
    /// F8: next theme.
    NextTheme,
    /// Shift-F8: previous theme.
    PrevTheme,
    /// F7: next font, where the front end has fonts.
    NextFont,
    /// Shift-F7: previous font, where the front end has fonts.
    PrevFont,
}

/// The key goes down or repeats.
pub open spec fn is_down(kind: KeyKind) -> bool {
    !(kind is Release)
}

/// The input is a press (or repeat) of the character key `c` with exactly
/// the modifiers `mods`.
pub open spec fn is_char_press(input: Input, c: char, mods: u8) -> bool {
    &&& input is Key
    &&& input->Key_0.code == KeyCode::Char(c)
    &&& input->Key_0.modifiers == mods
    &&& is_down(input->Key_0.kind)
}

/// The input is a press (or repeat) of function key `n` with exactly the
/// modifiers `mods`.
pub open spec fn is_f_press(input: Input, n: u8, mods: u8) -> bool {
    &&& input is Key
    &&& input->Key_0.code == KeyCode::F(n)
    &&& input->Key_0.modifiers == mods
    &&& is_down(input->Key_0.kind)
}

/// The action taken before the widgets: a resize redraws, regaining the
/// focus reloads the file list, `q` and Ctrl-`q` quit.
pub open spec fn spec_early_action(input: Input) -> Option<EarlyAction> {
    if input is Resized {
        Some(EarlyAction::Redraw)
    } else if input is FocusGained {
        Some(EarlyAction::Reload)
    } else if is_char_press(input, 'q', CONTROL) || is_char_press(input, 'q', 0) {
        Some(EarlyAction::Quit)
    } else {
        None
    }
}

/// The command bound to an input, if any. The font keys are bound only where
/// the front end has fonts.
pub open spec fn spec_command(input: Input, fonts: bool) -> Option<Command> {
    if is_f_press(input, 1, 0) {
        Some(Command::StartStop)
    } else if is_f_press(input, 3, 0) {
        Some(Command::FlipFiles)
    } else if is_f_press(input, 5, 0) {
        Some(Command::Faster)
    } else if is_f_press(input, 6, 0) {
        Some(Command::Slower)
    } else if is_f_press(input, 8, 0) {
        Some(Command::NextTheme)
    } else if is_f_press(input, 8, SHIFT) {
        Some(Command::PrevTheme)
    } else if fonts && is_f_press(input, 7, 0) {
        Some(Command::NextFont)
    } else if fonts && is_f_press(input, 7, SHIFT) {
        Some(Command::PrevFont)
    } else {
        None
    }
}

fn key_is_down(kind: KeyKind) -> (r: bool)
    ensures
        r == is_down(kind),
{
    match kind {
        KeyKind::Release => false,
        _ => true,
    }
}

/// The action taken on an input before dialogs and widgets see it.
pub fn early_action(input: &Input) -> (a: Option<EarlyAction>)
    ensures
        a == spec_early_action(*input),
        a == Some(EarlyAction::Quit) ==> input is Key && input->Key_0.code == KeyCode::Char('q')
            && (input->Key_0.modifiers == 0 || input->Key_0.modifiers == CONTROL)
            && !(input->Key_0.kind is Release),
        a == Some(EarlyAction::Redraw) <==> input is Resized,
        a == Some(EarlyAction::Reload) <==> input is FocusGained,
{
    proof {
        lemma_only_q_quits(*input);
    }
    match input {
        Input::Resized => Some(EarlyAction::Redraw),
        Input::FocusGained => Some(EarlyAction::Reload),
        Input::Key(k) => {
            let quit = match k.code {
                KeyCode::Char(c) => c == 'q' && (k.modifiers == CONTROL || k.modifiers == 0)
                    && key_is_down(k.kind),
                _ => false,
            };
            if quit {
                Some(EarlyAction::Quit)
            } else {
                None
            }
        },
        Input::Other => None,
    }
}

/// The command bound to an input, if any; `fonts` tells whether the front
/// end has fonts to switch.
pub fn command_for(input: &Input, fonts: bool) -> (c: Option<Command>)
    ensures
        c == spec_command(*input, fonts),
        c is Some ==> input is Key && input->Key_0.code is F && !(input->Key_0.kind is Release),
        input is Key && input->Key_0.kind is Release ==> c is None,
{
    proof {
        lemma_commands_on_key_down(*input, fonts);
    }
    match input {
        Input::Key(k) => {
            if !key_is_down(k.kind) {
                return None;
            }
            match k.code {
                KeyCode::F(n) => {
                    if k.modifiers == 0 {
                        if n == 1 {
                            Some(Command::StartStop)
                        } else if n == 3 {
                            Some(Command::FlipFiles)
                        } else if n == 5 {
                            Some(Command::Faster)
                        } else if n == 6 {
                            Some(Command::Slower)
                        } else if n == 8 {
                            Some(Command::NextTheme)
                        } else if fonts && n == 7 {
                            Some(Command::NextFont)
                        } else {
                            None
                        }
                    } else if k.modifiers == SHIFT {
                        if n == 8 {
                            Some(Command::PrevTheme)
                        } else if fonts && n == 7 {
                            Some(Command::PrevFont)
                        } else {
                            None
                        }
                    } else {
                        None
                    }
                },
                _ => None,
            }
        },
        _ => None,
    }
}

/// An event of the reader's event loop, as far as the routing tells events
/// apart.
#[derive(Clone, Copy, Debug, PartialEq, Eq, Structural)]
pub enum AppEvent {
    /// The screen was drawn.
    Rendered,
    /// A message to show in the message dialog.
    Message,
    /// An input from the terminal.
    Input(Input),
    /// A timer fired.
    Timer,
}

/// One step of handling an event. The steps of an event are taken in order;
/// each step ends in a `Flow`, and the first one that is not `Continue` ends
/// the handling of the event with that flow. When all steps continue, so
/// does the event.
#[derive(Clone, Copy, Debug, PartialEq, Eq, Structural)]
pub enum Step {
    /// Rebuild the focus list of the widgets (continues).
    RebuildFocus,
    /// Add the message to the message dialog (redraws).
    ShowMessage,
    /// Take an action before dialogs and widgets see the input.
    Early(EarlyAction),
    /// Let the message dialog, when it is open, handle the input.
    Dialog,
    /// Let the focus move on the input (continues).
    Focus,
    /// Run a command (redraws).
    Command(Command),
    /// Let the file list handle the input; a changed selection shows the
    /// newly selected file.
    FileList,
    /// Let the text view handle the input.
    TextView,
    /// Move the auto-scroll one line on (redraws).
    AutoScroll,
}

/// The steps of handling an event: rendering rebuilds the focus; a message
/// goes to the dialog; a terminal input meets first the early actions, then
/// the dialog, the focus, the commands, the file list and the text view; a
/// timer event of the auto-scroll timer scrolls, another timer event does
/// nothing.
pub open spec fn spec_event_steps(event: AppEvent, scroll_timer: bool, fonts: bool) -> Seq<Step> {
    match event {
        AppEvent::Rendered => seq![Step::RebuildFocus],
        AppEvent::Message => seq![Step::ShowMessage],
        AppEvent::Timer => if scroll_timer {
            seq![Step::AutoScroll]
        } else {
            Seq::empty()
        },
        AppEvent::Input(input) => {
            let early = match spec_early_action(input) {
                Some(a) => seq![Step::Early(a)],
                None => Seq::empty(),
            };
            let command = match spec_command(input, fonts) {
                Some(c) => seq![Step::Command(c)],
                None => Seq::empty(),
            };
            early + seq![Step::Dialog, Step::Focus] + command + seq![Step::FileList, Step::TextView]
        },
    }
}

/// The steps of handling an event, in order; `scroll_timer` tells whether a
/// timer event comes from the auto-scroll timer, `fonts` whether the front
/// end has fonts to switch.
pub fn event_steps(event: &AppEvent, scroll_timer: bool, fonts: bool) -> (steps: Vec<Step>)
    ensures
        steps@ == spec_event_steps(*event, scroll_timer, fonts),
        event is Input ==> steps.len() >= 4 && steps@[steps.len() - 2] == Step::FileList
            && steps@[steps.len() - 1] == Step::TextView,
{
    proof {
        if let AppEvent::Input(i) = *event {
            lemma_input_steps(i, scroll_timer, fonts);
        }
    }
    let mut steps: Vec<Step> = Vec::new();
    match event {
        AppEvent::Rendered => {
            steps.push(Step::RebuildFocus);
        },
        AppEvent::Message => {
            steps.push(Step::ShowMessage);
        },
        AppEvent::Timer => {
            if scroll_timer {
                steps.push(Step::AutoScroll);
            }
        },
        AppEvent::Input(input) => {
            let ghost early = match spec_early_action(*input) {
                Some(a) => seq![Step::Early(a)],
                None => Seq::<Step>::empty(),
            };
            let ghost command = match spec_command(*input, fonts) {
                Some(c) => seq![Step::Command(c)],
                None => Seq::<Step>::empty(),
            };
            if let Some(a) = early_action(input) {
                steps.push(Step::Early(a));
            }
            assert(steps@ =~= early);
            steps.push(Step::Dialog);
            steps.push(Step::Focus);
            assert(steps@ =~= early + seq![Step::Dialog, Step::Focus]);
            if let Some(c) = command_for(input, fonts) {
                steps.push(Step::Command(c));
            }
            assert(steps@ =~= early + seq![Step::Dialog, Step::Focus] + command);
            steps.push(Step::FileList);
            steps.push(Step::TextView);
            assert(steps@ =~= early + seq![Step::Dialog, Step::Focus] + command + seq![
                Step::FileList,
                Step::TextView,
            ]);
        },
    }
    steps
}

/// The early actions come before any dialog or widget sees the input: `q`
/// quits even while the message dialog is open. Commands come after the
/// dialog and the focus, before the file list and the text view.
pub proof fn lemma_early_actions_first(input: Input, fonts: bool)
    ensures
        spec_early_action(input) is Some ==> spec_event_steps(AppEvent::Input(input), false, fonts)[0]
            == Step::Early(spec_early_action(input)->0),
        spec_command(input, fonts) is Some ==> {
            let steps = spec_event_steps(AppEvent::Input(input), false, fonts);
            let d = if spec_early_action(input) is Some { 1int } else { 0int };
            &&& steps[d] == Step::Dialog
            &&& steps[d + 1] == Step::Focus
            &&& steps[d + 2] == Step::Command(spec_command(input, fonts)->0)
            &&& steps[d + 3] == Step::FileList
        },
{
}

/// The flow a step ends in when it does not depend on a widget: rebuilding
/// the focus and moving it go on, a message, a redraw, a command and an
/// auto-scroll step redraw, quitting quits. The flows of the dialog, the
/// file list, the text view and a reload depend on what they find.
pub open spec fn step_flow(step: Step) -> Option<Flow> {
    match step {
        Step::RebuildFocus => Some(Flow::Continue),
        Step::ShowMessage => Some(Flow::Changed),
        Step::Early(EarlyAction::Redraw) => Some(Flow::Changed),
        Step::Early(EarlyAction::Quit) => Some(Flow::Quit),
        Step::Early(EarlyAction::Reload) => None,
        Step::Dialog => None,
        Step::Focus => Some(Flow::Continue),
        Step::Command(_) => Some(Flow::Changed),
        Step::FileList => None,
        Step::TextView => None,
        Step::AutoScroll => Some(Flow::Changed),
    }
}

/// The flow of a step that does not depend on a widget, if it does not.
pub fn fixed_flow(step: Step) -> (f: Option<Flow>)
    ensures
        f == step_flow(step),
{
    match step {
        Step::RebuildFocus => Some(Flow::Continue),
        Step::ShowMessage => Some(Flow::Changed),
        Step::Early(EarlyAction::Redraw) => Some(Flow::Changed),
        Step::Early(EarlyAction::Quit) => Some(Flow::Quit),
        Step::Early(EarlyAction::Reload) => None,
        Step::Dialog => None,
        Step::Focus => Some(Flow::Continue),
        Step::Command(_) => Some(Flow::Changed),
        Step::FileList => None,
        Step::TextView => None,
        Step::AutoScroll => Some(Flow::Changed),
    }
}

/// What a widget reports after it saw an input.
#[derive(Clone, Copy, Debug, PartialEq, Eq, Structural)]
pub enum WidgetOutcome {
    /// Not handled.
    Continue,
    /// Handled, nothing to redraw.
    Unchanged,
    /// Handled, redraw.
    Changed,
}

/// The flow a widget's outcome ends a step in.
pub open spec fn spec_outcome_flow(o: WidgetOutcome) -> Flow {
    match o {
        WidgetOutcome::Continue => Flow::Continue,
        WidgetOutcome::Unchanged => Flow::Unchanged,
        WidgetOutcome::Changed => Flow::Changed,
    }
}

/// The flow a widget's outcome ends a step in (the text view's step).
pub fn outcome_flow(o: WidgetOutcome) -> (f: Flow)
    ensures
        f == spec_outcome_flow(o),
{
    match o {
        WidgetOutcome::Continue => Flow::Continue,
        WidgetOutcome::Unchanged => Flow::Unchanged,
        WidgetOutcome::Changed => Flow::Changed,
    }
}

/// The dialog step: an open message dialog ends the step in its outcome; a
/// closed one does not see the input, and the step goes on.
pub fn dialog_flow(open: bool, o: WidgetOutcome) -> (f: Flow)
    ensures
        open ==> f == spec_outcome_flow(o),
        !open ==> f == Flow::Continue,
{
    if open {
        outcome_flow(o)
    } else {
        Flow::Continue
    }
}

/// The file-list step: when the list's selection changed, the newly
/// selected file is shown (`true`) and the screen redrawn; otherwise the
/// list's outcome ends the step.
pub fn file_list_step(o: WidgetOutcome) -> (r: (bool, Flow))
    ensures
        o == WidgetOutcome::Changed ==> r == (true, Flow::Changed),
        o != WidgetOutcome::Changed ==> r == (false, spec_outcome_flow(o)),
{
    match o {
        WidgetOutcome::Changed => (true, Flow::Changed),
        _ => (false, outcome_flow(o)),
    }
}

/// No step has ended the event yet: every flow so far goes on.
pub open spec fn all_continue(flows: Seq<Flow>) -> bool {
    forall|k: int| 0 <= k < flows.len() ==> flows[k] == Flow::Continue
}

/// The result of an event whose steps ended in `flows`: the first flow that
/// is not `Continue`, or `Continue` when all go on.
pub open spec fn event_result(flows: Seq<Flow>) -> Flow
    decreases flows.len(),
{
    if flows.len() == 0 {
        Flow::Continue
    } else if flows[0] != Flow::Continue {
        flows[0]
    } else {
        event_result(flows.drop_first())
    }
}

/// The step to take next, given the steps of the event and the flows of the
/// steps taken so far: none once a step has ended the event or all steps are
/// taken, else the next one in order.
pub open spec fn spec_pending_step(steps: Seq<Step>, flows: Seq<Flow>) -> Option<Step> {
    if all_continue(flows) && flows.len() < steps.len() {
        Some(steps[flows.len() as int])
    } else {
        None
    }
}

/// The step to take next (see `spec_pending_step`).
pub fn pending_step(steps: &Vec<Step>, flows: &Vec<Flow>) -> (next: Option<Step>)
    ensures
        next == spec_pending_step(steps@, flows@),
{
    let mut k: usize = 0;
    while k < flows.len()
        invariant
            k <= flows.len(),
            forall|j: int| 0 <= j < k ==> flows@[j] == Flow::Continue,
        decreases flows.len() - k,
    {
        if flows[k] != Flow::Continue {
            return None;
        }
        k = k + 1;
    }
    if flows.len() < steps.len() {
        Some(steps[flows.len()])
    } else {
        None
    }
}

/// The result of an event from the flows of its steps (see `event_result`).
pub fn first_consumed(flows: &Vec<Flow>) -> (f: Flow)
    ensures
        f == event_result(flows@),
{
    let mut k: usize = 0;
    assert(flows@.skip(0) =~= flows@);
    while k < flows.len()
        invariant
            k <= flows.len(),
            event_result(flows@) == event_result(flows@.skip(k as int)),
        decreases flows.len() - k,
    {
        assert(flows@.skip(k as int).drop_first() =~= flows@.skip(k + 1));
        if flows[k] != Flow::Continue {
            return flows[k];
        }
        k = k + 1;
    }
    assert(flows@.skip(k as int) =~= Seq::<Flow>::empty());
    Flow::Continue
}

/// Taking steps while `pending_step` offers one and recording their flows
/// ends with the result of the first step that does not go on: once a step
/// ends the event no later step is taken, and the event's result is that
/// step's flow.
pub proof fn lemma_stop_at_first_consumed(steps: Seq<Step>, flows: Seq<Flow>, f: Flow)
    requires
        all_continue(flows),
        flows.len() < steps.len(),
        f != Flow::Continue,
    ensures
        spec_pending_step(steps, flows.push(f)) is None,
        event_result(flows.push(f)) == f,
    decreases flows.len(),
{
    let g = flows.push(f);
    assert(g[flows.len() as int] == f);
    if flows.len() > 0 {
        assert(flows.drop_first().push(f) =~= g.drop_first());
        lemma_stop_at_first_consumed(steps.drop_first(), flows.drop_first(), f);
    }
}

/// When every step goes on, the event goes on too.
pub proof fn lemma_all_continue_result(flows: Seq<Flow>)
    requires
        all_continue(flows),
    ensures
        event_result(flows) == Flow::Continue,
    decreases flows.len(),
{
    if flows.len() > 0 {
        lemma_all_continue_result(flows.drop_first());
    }
}

/// The results of whole events whose steps all have fixed flows: rendering
/// goes on; a message, a resize, a command key and the scroll timer redraw;
/// `q` and Ctrl-`q` quit before any dialog or widget sees the key.
pub proof fn lemma_fixed_event_results(input: Input, fonts: bool)
    ensures
        ({
            let steps = spec_event_steps(AppEvent::Rendered, false, fonts);
            &&& steps.len() == 1
            &&& step_flow(steps[0]) == Some(Flow::Continue)
            &&& event_result(seq![Flow::Continue]) == Flow::Continue
        }),
        ({
            let steps = spec_event_steps(AppEvent::Message, false, fonts);
            &&& steps.len() == 1
            &&& step_flow(steps[0]) == Some(Flow::Changed)
            &&& event_result(seq![Flow::Changed]) == Flow::Changed
        }),
        ({
            let steps = spec_event_steps(AppEvent::Timer, true, fonts);
            &&& steps.len() == 1
            &&& step_flow(steps[0]) == Some(Flow::Changed)
        }),
        spec_event_steps(AppEvent::Timer, false, fonts).len() == 0,
        event_result(Seq::<Flow>::empty()) == Flow::Continue,
        spec_early_action(input) == Some(EarlyAction::Quit) ==> ({
            let steps = spec_event_steps(AppEvent::Input(input), false, fonts);
            &&& step_flow(steps[0]) == Some(Flow::Quit)
            &&& spec_pending_step(steps, seq![Flow::Quit]) is None
            &&& event_result(seq![Flow::Quit]) == Flow::Quit
        }),
        spec_early_action(input) == Some(EarlyAction::Redraw) ==> ({
            let steps = spec_event_steps(AppEvent::Input(input), false, fonts);
            &&& step_flow(steps[0]) == Some(Flow::Changed)
            &&& spec_pending_step(steps, seq![Flow::Changed]) is None
        }),
        spec_command(input, fonts) is Some ==> step_flow(Step::Command(spec_command(input, fonts)->0))
            == Some(Flow::Changed),
{
    let s1 = seq![Flow::Continue];
    assert(s1.drop_first() =~= Seq::<Flow>::empty());
    let s2 = seq![Flow::Quit];
    assert(s2[0] == Flow::Quit);
    let s3 = seq![Flow::Changed];
    assert(s3[0] == Flow::Changed);
}

/// What to show for a selection: nothing is read and the text is cleared
/// when no valid row is selected.
#[derive(Clone, Copy, Debug, PartialEq, Eq, Structural)]
pub enum ShowFile {
    /// Clear the text view.
    Clear,
    /// Read the file of this row of the file list and show it.
    Read { row: usize },
}

/// Which file to show: the selected row's file when the selection is a row
/// of the list (`rows` rows), else nothing.
pub fn show_file(selected: Option<usize>, rows: usize) -> (s: ShowFile)
    ensures
        selected is Some && selected->0 < rows ==> s == (ShowFile::Read { row: selected->0 }),
        !(selected is Some && selected->0 < rows) ==> s == ShowFile::Clear,
{
    match checked_selection(selected, rows) {
        Some(row) => ShowFile::Read { row },
        None => ShowFile::Clear,
    }
}

/// Only the `q` key quits, pressed (or repeated) alone or with Control;
/// only a resize redraws early and only regaining the focus reloads; a key
/// release never has an early action.
pub proof fn lemma_only_q_quits(input: Input)
    ensures
        spec_early_action(input) == Some(EarlyAction::Quit) ==> {
            &&& input is Key
            &&& input->Key_0.code == KeyCode::Char('q')
            &&& input->Key_0.modifiers == 0 || input->Key_0.modifiers == CONTROL
            &&& !(input->Key_0.kind is Release)
        },
        (input is Key && input->Key_0.code == KeyCode::Char('q') && (input->Key_0.modifiers == 0
            || input->Key_0.modifiers == CONTROL) && !(input->Key_0.kind is Release))
            ==> spec_early_action(input) == Some(EarlyAction::Quit),
        spec_early_action(input) == Some(EarlyAction::Redraw) <==> input is Resized,
        spec_early_action(input) == Some(EarlyAction::Reload) <==> input is FocusGained,
        input is Key && input->Key_0.kind is Release ==> spec_early_action(input) is None,
{
}

/// Commands are bound to function keys going down (pressed or repeated),
/// never to a release; the font keys only where there are fonts.
pub proof fn lemma_commands_on_key_down(input: Input, fonts: bool)
    ensures
        spec_command(input, fonts) is Some ==> {
            &&& input is Key
            &&& input->Key_0.code is F
            &&& !(input->Key_0.kind is Release)
            &&& input->Key_0.modifiers == 0 || input->Key_0.modifiers == SHIFT
        },
        input is Key && input->Key_0.kind is Release ==> spec_command(input, fonts) is None,
        !fonts ==> spec_command(input, fonts) != Some(Command::NextFont) && spec_command(input, fonts)
            != Some(Command::PrevFont),
{
}

/// Which key runs which command, for a key that goes down (`kind` is not a
/// release).
pub proof fn lemma_command_keys(kind: KeyKind, fonts: bool)
    requires
        !(kind is Release),
    ensures
        spec_command(Input::Key(Key { code: KeyCode::F(1), modifiers: 0, kind }), fonts) == Some(
            Command::StartStop,
        ),
        spec_command(Input::Key(Key { code: KeyCode::F(3), modifiers: 0, kind }), fonts) == Some(
            Command::FlipFiles,
        ),
        spec_command(Input::Key(Key { code: KeyCode::F(5), modifiers: 0, kind }), fonts) == Some(
            Command::Faster,
        ),
        spec_command(Input::Key(Key { code: KeyCode::F(6), modifiers: 0, kind }), fonts) == Some(
            Command::Slower,
        ),
        spec_command(Input::Key(Key { code: KeyCode::F(8), modifiers: 0, kind }), fonts) == Some(
            Command::NextTheme,
        ),
        spec_command(Input::Key(Key { code: KeyCode::F(8), modifiers: SHIFT, kind }), fonts)
            == Some(Command::PrevTheme),
        fonts ==> spec_command(Input::Key(Key { code: KeyCode::F(7), modifiers: 0, kind }), fonts)
            == Some(Command::NextFont),
        fonts ==> spec_command(Input::Key(Key { code: KeyCode::F(7), modifiers: SHIFT, kind }), fonts)
            == Some(Command::PrevFont),
{
}

/// Every terminal input ends with the file list and then the text view, so
/// any key that nothing earlier takes reaches the text view; the dialog and
/// the focus come right after the early action, if there is one, and the
/// command, if there is one, right after them.
pub proof fn lemma_input_steps(input: Input, scroll_timer: bool, fonts: bool)
    ensures
        ({
            let steps = spec_event_steps(AppEvent::Input(input), scroll_timer, fonts);
            let d: int = if spec_early_action(input) is Some { 1 } else { 0 };
            let c: int = if spec_command(input, fonts) is Some { 1 } else { 0 };
            &&& steps.len() == d + c + 4
            &&& spec_early_action(input) is Some ==> steps[0] == Step::Early(spec_early_action(input)->0)
            &&& steps[d] == Step::Dialog
            &&& steps[d + 1] == Step::Focus
            &&& spec_command(input, fonts) is Some ==> steps[d + 2] == Step::Command(spec_command(input, fonts)->0)
            &&& steps[steps.len() - 2] == Step::FileList
            &&& steps[steps.len() - 1] == Step::TextView
        }),
{
}

/// Starting the auto-scroll uses the configured delay, whatever it is.
pub proof fn lemma_start_uses_delay(delay: u64)
    ensures
        start_stop_op(false, delay) == (TimerOp::Start { millis: delay }),
        start_stop_op(true, delay) == TimerOp::Stop,
{
}

/// The selection a list reports as valid: the selected row, when there is
/// one and it is below the number of rows.
pub fn checked_selection(selected: Option<usize>, rows: usize) -> (r: Option<usize>)
    ensures
        r == (match selected {
            Some(i) => if i < rows { Some(i) } else { None },
            None => None,
        }),
{
    match selected {
        Some(i) => if i < rows {
            Some(i)
        } else {
            None
        },
        None => None,
    }
}

/// What happens to the auto-scroll timer.
#[derive(Clone, Copy, Debug, PartialEq, Eq, Structural)]
pub enum TimerOp {
    /// Start a timer that fires every `millis` milliseconds.
    Start { millis: u64 },
    /// Replace the current timer (if any) by one that fires every `millis`
    /// milliseconds.
    Restart { millis: u64 },
    /// Stop the current timer.
    Stop,
}

/// Whether the auto-scroll runs after a timer operation.
pub open spec fn runs_after(op: TimerOp) -> bool {
    !(op is Stop)
}

/// The timer operation of F1: start at the configured delay when the
/// auto-scroll is stopped, stop it when it runs.
pub open spec fn start_stop_op(running: bool, delay: u64) -> TimerOp {
    if running {
        TimerOp::Stop
    } else {
        TimerOp::Start { millis: delay }
    }
}

/// F1: starts the auto-scroll at the configured delay when it is stopped,
/// stops it when it runs.
pub fn start_stop(running: bool, cfg: &Config) -> (op: TimerOp)
    ensures
        op == start_stop_op(running, cfg.delay),
        !running ==> op == (TimerOp::Start { millis: cfg.delay }),
        running ==> op == TimerOp::Stop,
{
    if !running {
        TimerOp::Start { millis: cfg.delay }
    } else {
        TimerOp::Stop
    }
}

/// F5: lengthens the delay by one step and restarts the auto-scroll at the
/// new delay (starting it if it was stopped).
pub fn faster(cfg: &mut Config) -> (op: TimerOp)
    requires
        old(cfg).delay + DELAY_STEP <= u64::MAX,
    ensures
        final(cfg).delay == spec_faster_delay(old(cfg).delay),
        final(cfg).base == old(cfg).base,
        op == (TimerOp::Restart { millis: final(cfg).delay }),
{
    cfg.faster();
    TimerOp::Restart { millis: cfg.delay }
}

/// F6: shortens the delay by one step when it is longer than one step, and
/// restarts the auto-scroll at the new delay (starting it if it was stopped).
pub fn slower(cfg: &mut Config) -> (op: TimerOp)
    ensures
        final(cfg).delay == spec_slower_delay(old(cfg).delay),
        final(cfg).base == old(cfg).base,
        op == (TimerOp::Restart { millis: final(cfg).delay }),
{
    cfg.slower();
    TimerOp::Restart { millis: cfg.delay }
}

/// One F1 press flips whether the auto-scroll runs; two presses leave it as
/// it was.
pub proof fn lemma_start_stop_toggles(running: bool, delay: u64)
    ensures
        runs_after(start_stop_op(running, delay)) == !running,
        runs_after(start_stop_op(runs_after(start_stop_op(running, delay)), delay)) == running,
{
}

/// The widget that gets the focus.
#[derive(Clone, Copy, Debug, PartialEq, Eq, Structural)]
pub enum Focus {
    /// The file list.
    Files,
    /// The text view.
    Text,
}

/// Where the focus goes when the file list is shown or hidden: to the list
/// when it is shown, else to the text.
pub open spec fn focus_for(show_files: bool) -> Focus {
    if show_files {
        Focus::Files
    } else {
        Focus::Text
    }
}

/// What F3 does to the file list's visibility `show_files`: it flips it,
/// and the focus goes where the new visibility puts it.
pub open spec fn flip_result(show_files: bool) -> (bool, Focus) {
    (!show_files, focus_for(!show_files))
}

/// F3: shows the file list when it is hidden and hides it when it is shown,
/// and moves the focus accordingly.
pub fn flip_files(show_files: &mut bool) -> (focus: Focus)
    ensures
        (*final(show_files), focus) == flip_result(*old(show_files)),
{
    *show_files = !*show_files;
    if *show_files {
        Focus::Files
    } else {
        Focus::Text
    }
}

/// F3 always moves the focus to the other widget, and two F3 presses leave
/// the file list shown or hidden as it was, with the focus where that
/// visibility puts it.
pub proof fn lemma_flip_files_twice(show_files: bool)
    ensures
        flip_result(show_files).1 != focus_for(show_files),
        flip_result(flip_result(show_files).0) == (show_files, focus_for(show_files)),
{
}

/// The row selected when the reader starts: the first file, if there is one.
pub fn initial_selection(n_files: usize) -> (sel: Option<usize>)
    ensures
        n_files > 0 ==> sel == Some(0usize),
        n_files == 0 ==> sel is None,
{
    if n_files > 0 {
        Some(0)
    } else {
        None
    }
}

/// What to do after the file list was reloaded.
#[derive(Clone, Copy, Debug, PartialEq, Eq, Structural)]
pub enum Reload {
    /// The selection still points at a file: nothing changes, go on.
    Keep,
    /// The selection was lost: select `select` (when it is a row), show the
    /// selected file, and redraw.
    Reselect { select: Option<usize> },
}

/// After the file list was reloaded: when the selection no longer points at
/// a file, the last file is selected (if there is one) and shown.
pub fn reload_files(selected: Option<usize>, n_files: usize) -> (r: Reload)
    ensures
        selected is Some ==> r == Reload::Keep,
        selected is None && n_files > 0 ==> r == (Reload::Reselect { select: Some((n_files - 1) as usize) }),
        selected is None && n_files == 0 ==> r == (Reload::Reselect { select: None }),
{
    if selected.is_none() {
        if n_files > 0 {
            Reload::Reselect { select: Some(n_files - 1) }
        } else {
            Reload::Reselect { select: None }
        }
    } else {
        Reload::Keep
    }
}

/// How the event handling goes on after a reload.
pub fn reload_flow(r: Reload) -> (f: Flow)
    ensures
        r is Keep ==> f == Flow::Continue,
        r is Reselect ==> f == Flow::Changed,
{
    match r {
        Reload::Keep => Flow::Continue,
        Reload::Reselect { .. } => Flow::Changed,
    }
}

} // verus!
