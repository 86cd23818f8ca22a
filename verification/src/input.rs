//! Key presses: typed into the input line, or looked up in the keymap.

use vstd::prelude::*;
use crate::app::{App, AppView};
use crate::event::AppCommand;
use crate::keymap::{
    command_to_app_command, is_plugin_command, spec_builtin_command, spec_feed,
    spec_from_key_input, KeyCombo, KeyInput, KeymapResult, KeymapResultView, RawKeyCode,
};

verus! {

/// `cmd` is what the command name `name` maps to: a built-in command, or else
/// a plugin command of that name.
pub open spec fn names_command(name: Seq<char>, cmd: AppCommand) -> bool {
    match spec_builtin_command(name) {
        Some(b) => cmd == b,
        None => is_plugin_command(cmd, name),
    }
}

/// A key press while the input line is active: Enter confirms, Escape or
/// Ctrl-C cancels, Ctrl-N and Ctrl-P search on, Backspace deletes, and other
/// characters are typed.
pub open spec fn spec_input_key(v: AppView, key: KeyInput) -> (AppView, Option<AppCommand>) {
    match key.code {
        RawKeyCode::Enter => (v, Some(AppCommand::ConfirmInput)),
        RawKeyCode::Esc => (v, Some(AppCommand::CancelInput)),
        RawKeyCode::Backspace => (
            AppView {
                input: if v.input.len() > 0 {
                    v.input.drop_last()
                } else {
                    v.input
                },
                ..v
            },
            None,
        ),
        RawKeyCode::Char(c) => if key.ctrl {
            (
                v,
                if c == 'c' {
                    Some(AppCommand::CancelInput)
                } else if c == 'n' {
                    Some(AppCommand::SearchNext)
                } else if c == 'p' {
                    Some(AppCommand::SearchPrev)
                } else {
                    None
                },
            )
        } else {
            (AppView { input: v.input.push(c), ..v }, None)
        },
        _ => (v, None),
    }
}

/// A key press in the keymap's hands, at time `now` on the keymap's clock:
/// the state after it, and whether the key completed a binding whose command
/// is `cmd`.
pub open spec fn keymap_key(v: AppView, combo: KeyCombo, now: u64, w: AppView, r: Option<AppCommand>) -> bool {
    let (kv, res) = spec_feed(v.keymap, combo, v.key_context(), now);
    &&& w == AppView { keymap: kv, ..v }
    &&& match res {
        KeymapResultView::Command(name) => r is Some && names_command(name, r->0),
        _ => r is None,
    }
}

fn handle_input_key(app: &mut App, key: KeyInput) -> (r: Option<AppCommand>)
    requires
        old(app).wf(),
    ensures
        final(app).wf(),
        (final(app)@, r) == spec_input_key(old(app)@, key),
{
    match key.code {
        RawKeyCode::Enter => Some(AppCommand::ConfirmInput),
        RawKeyCode::Esc => Some(AppCommand::CancelInput),
        RawKeyCode::Backspace => {
            app.handle_input_backspace();
            None
        },
        RawKeyCode::Char(c) => {
            if key.ctrl {
                if c == 'c' {
                    Some(AppCommand::CancelInput)
                } else if c == 'n' {
                    Some(AppCommand::SearchNext)
                } else if c == 'p' {
                    Some(AppCommand::SearchPrev)
                } else {
                    None
                }
            } else {
                app.handle_input_char(c);
                None
            }
        },
        _ => None,
    }
}

/// Handles a key press: in an input mode the input line takes it, otherwise the
/// keymap does, and a completed binding yields its command.
pub fn handle_key(app: &mut App, key: KeyInput) -> (r: Option<AppCommand>)
    requires
        old(app).wf(),
    ensures
        final(app).wf(),
        old(app)@.is_input_mode() ==> (final(app)@, r) == spec_input_key(old(app)@, key),
        !old(app)@.is_input_mode() ==> match spec_from_key_input(key) {
            Some(combo) => exists|now: u64| keymap_key(old(app)@, combo, now, final(app)@, r),
            None => final(app)@ == old(app)@ && r is None,
        },
{
    if app.is_input_mode() {
        return handle_input_key(app, key);
    }
    let combo = match KeyCombo::from_key_input(&key) {
        Some(c) => c,
        None => {
            return None;
        },
    };
    let ghost v = app@;
    let context = app.key_context();
    let res = app.keymap.feed_key(combo, &context);
    let ghost now = choose|now: u64| (app.keymap@, res@) == spec_feed(v.keymap, combo, context, now);
    let r = match res {
        KeymapResult::Command(name) => command_to_app_command(name.as_str()),
        KeymapResult::Pending => None,
        KeymapResult::Unhandled => None,
    };
    assert(keymap_key(v, combo, now, app@, r));
    r
}

} // verus!
