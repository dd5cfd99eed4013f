//! What each key press does in each mode of the interface.
use crate::model::{App, AppMode, AppView};
use crate::text::{pop_char, push_char};
use vstd::prelude::*;

verus! {

/// The key of a key press, as far as the interface tells keys apart.
#[derive(Clone, Copy, Debug, PartialEq, Eq, Structural)]
pub enum KeyCode {
    Char(char),
    Enter,
    Esc,
    Backspace,
    Tab,
    BackTab,
    Up,
    Down,
    Other,
}

/// A key press: the key, and whether Control (and no other modifier) was
/// held.
#[derive(Clone, Copy, Debug, PartialEq, Eq, Structural)]
pub struct KeyPress {
    pub code: KeyCode,
    pub ctrl: bool,
}

/// A buffer after a Backspace: its last character removed, if any.
pub open spec fn backspaced(s: Seq<char>) -> Seq<char> {
    if s.len() > 0 {
        s.drop_last()
    } else {
        s
    }
}

impl AppView {
    /// A key press in the list.
    pub open spec fn after_normal_key(self, code: KeyCode) -> AppView {
        match code {
            KeyCode::Char('q') => AppView { should_quit: true, ..self },
            KeyCode::Char('j') | KeyCode::Down => self.after_move_down(),
            KeyCode::Char('k') | KeyCode::Up => AppView {
                selected: if self.selected > 0 {
                    (self.selected - 1) as usize
                } else {
                    0
                },
                ..self
            },
            KeyCode::Char(' ') => self.after_toggle_selected(),
            KeyCode::Char('a') | KeyCode::Char('i') => AppView {
                mode: AppMode::Input,
                input_buffer: Seq::empty(),
                input_target: crate::model::InputTarget::NewTodo,
                ..self
            },
            KeyCode::Char('s') => self.after_enter_subtask_input(),
            KeyCode::Char('e') => self.after_enter_edit_mode(),
            KeyCode::Char('d') | KeyCode::Char('x') => self.after_delete_selected(),
            KeyCode::Char('u') => self.after_undo(),
            KeyCode::Char('z') => self.after_toggle_collapse(),
            KeyCode::Char('m') => self.after_enter_notes_mode(),
            KeyCode::Char('p') => self.after_cycle_priority(),
            KeyCode::Tab | KeyCode::Char('l') => self.after_next_group(),
            KeyCode::BackTab | KeyCode::Char('h') => self.after_prev_group(),
            KeyCode::Char('c') => AppView {
                category_cursor: self.selected_group,
                mode: AppMode::CategoryPopup,
                ..self
            },
            KeyCode::Char('/') => AppView { mode: AppMode::Search, ..self },
            KeyCode::Char('?') => self.after_toggle_help(),
            _ => self,
        }
    }

    /// A key press in the category popup.
    pub open spec fn after_popup_key(self, code: KeyCode) -> AppView {
        match code {
            KeyCode::Char('k') | KeyCode::Up => AppView {
                category_cursor: if self.category_cursor > 0 {
                    (self.category_cursor - 1) as usize
                } else {
                    0
                },
                ..self
            },
            KeyCode::Char('j') | KeyCode::Down => AppView {
                category_cursor: if self.category_cursor + 1 < self.groups.len() {
                    (self.category_cursor + 1) as usize
                } else {
                    self.category_cursor
                },
                ..self
            },
            KeyCode::Enter => AppView {
                mode: AppMode::Normal,
                ..self.after_switch_group(self.category_cursor)
            },
            KeyCode::Char('n') => AppView {
                group_editing: None,
                input_buffer: Seq::empty(),
                mode: AppMode::GroupInput,
                ..self
            },
            KeyCode::Char('r') => self.after_enter_group_rename(),
            KeyCode::Char('d') => if self.groups.len() <= 1 {
                self
            } else {
                AppView { mode: AppMode::GroupDeleteConfirm, ..self }
            },
            KeyCode::Esc => AppView { mode: AppMode::Normal, ..self },
            _ => self,
        }
    }

    /// A key press: Control-C asks to quit and Control-S saves the notes
    /// being edited, in every mode; otherwise the key acts as the mode says.
    /// Typing keys go into the buffer of the open editor; the help screen
    /// closes on any key.
    pub open spec fn after_key(self, key: KeyPress) -> AppView {
        if key.ctrl && key.code == KeyCode::Char('c') {
            AppView { should_quit: true, ..self }
        } else if key.ctrl && key.code == KeyCode::Char('s') {
            if self.mode == AppMode::EditingNotes {
                self.after_commit_notes()
            } else {
                self
            }
        } else {
            match self.mode {
                AppMode::Normal => self.after_normal_key(key.code),
                AppMode::Input => match key.code {
                    KeyCode::Enter => self.after_commit_input(),
                    KeyCode::Esc => self.input_closed(),
                    KeyCode::Backspace => AppView {
                        input_buffer: backspaced(self.input_buffer),
                        ..self
                    },
                    KeyCode::Char(c) => AppView { input_buffer: self.input_buffer.push(c), ..self },
                    _ => self,
                },
                AppMode::Help => self.after_toggle_help(),
                AppMode::EditingNotes => match key.code {
                    KeyCode::Esc => AppView {
                        notes_buffer: Seq::empty(),
                        mode: AppMode::Normal,
                        ..self
                    },
                    KeyCode::Enter => AppView { notes_buffer: self.notes_buffer.push('\n'), ..self },
                    KeyCode::Backspace => AppView {
                        notes_buffer: backspaced(self.notes_buffer),
                        ..self
                    },
                    KeyCode::Char(c) => AppView { notes_buffer: self.notes_buffer.push(c), ..self },
                    _ => self,
                },
                AppMode::Search => match key.code {
                    KeyCode::Enter => AppView { mode: AppMode::Normal, ..self }.clamp(),
                    KeyCode::Esc => self.after_cancel_search(),
                    KeyCode::Backspace => self.after_backspace_search(),
                    KeyCode::Char(c) => self.after_push_search(c),
                    _ => self,
                },
                AppMode::CategoryPopup => self.after_popup_key(key.code),
                AppMode::GroupInput => match key.code {
                    KeyCode::Enter => self.after_commit_group_input(),
                    KeyCode::Esc => AppView {
                        input_buffer: Seq::empty(),
                        group_editing: None,
                        mode: AppMode::CategoryPopup,
                        ..self
                    },
                    KeyCode::Backspace => AppView {
                        input_buffer: backspaced(self.input_buffer),
                        ..self
                    },
                    KeyCode::Char(c) => AppView { input_buffer: self.input_buffer.push(c), ..self },
                    _ => self,
                },
                AppMode::GroupDeleteConfirm => match key.code {
                    KeyCode::Char('y') => self.after_confirm_group_delete(),
                    KeyCode::Char('n') => AppView { mode: AppMode::CategoryPopup, ..self },
                    _ => self,
                },
            }
        }
    }

    /// The key press moves no counter past `usize::MAX`: moving down the
    /// list or the popup, and switching groups, add to a position.
    pub open spec fn key_fits(self, key: KeyPress) -> bool {
        let plain = !(key.ctrl && (key.code == KeyCode::Char('c') || key.code == KeyCode::Char('s')));
        plain ==> match self.mode {
            AppMode::Normal => match key.code {
                KeyCode::Char('j') | KeyCode::Down => self.visible_rows().len() > 0 ==> self.selected
                    < usize::MAX,
                KeyCode::Tab | KeyCode::Char('l') => self.groups.len() > 1 ==> self.selected_group
                    < usize::MAX,
                KeyCode::BackTab | KeyCode::Char('h') => self.groups.len() > 1 ==> self.selected_group
                    + self.groups.len() <= usize::MAX,
                _ => true,
            },
            AppMode::CategoryPopup => match key.code {
                KeyCode::Char('j') | KeyCode::Down => self.category_cursor < usize::MAX,
                _ => true,
            },
            _ => true,
        }
    }
}

impl App {
    /// Handles a key press in the list.
    fn handle_normal_key(&mut self, code: KeyCode)
        requires
            old(self).mode == AppMode::Normal,
            old(self)@.key_fits(KeyPress { code, ctrl: false }),
        ensures
            final(self)@ == old(self)@.after_normal_key(code),
    {
        match code {
            KeyCode::Char('q') => self.should_quit = true,
            KeyCode::Char('j') | KeyCode::Down => self.move_down(),
            KeyCode::Char('k') | KeyCode::Up => self.move_up(),
            KeyCode::Char(' ') => self.toggle_selected(),
            KeyCode::Char('a') | KeyCode::Char('i') => self.enter_input_mode(),
            KeyCode::Char('s') => self.enter_subtask_input(),
            KeyCode::Char('e') => self.enter_edit_mode(),
            KeyCode::Char('d') | KeyCode::Char('x') => self.delete_selected(),
            KeyCode::Char('u') => self.undo(),
            KeyCode::Char('z') => self.toggle_collapse(),
            KeyCode::Char('m') => self.enter_notes_mode(),
            KeyCode::Char('p') => self.cycle_priority(),
            KeyCode::Tab | KeyCode::Char('l') => self.next_group(),
            KeyCode::BackTab | KeyCode::Char('h') => self.prev_group(),
            KeyCode::Char('c') => self.enter_category_popup(),
            KeyCode::Char('/') => self.enter_search_mode(),
            KeyCode::Char('?') => self.toggle_help(),
            _ => {},
        }
    }

    /// Handles a key press in the category popup.
    fn handle_popup_key(&mut self, code: KeyCode)
        requires
            old(self).mode == AppMode::CategoryPopup,
            old(self)@.key_fits(KeyPress { code, ctrl: false }),
        ensures
            final(self)@ == old(self)@.after_popup_key(code),
    {
        match code {
            KeyCode::Char('k') | KeyCode::Up => self.category_cursor_up(),
            KeyCode::Char('j') | KeyCode::Down => self.category_cursor_down(),
            KeyCode::Enter => self.confirm_category_popup(),
            KeyCode::Char('n') => self.enter_group_add(),
            KeyCode::Char('r') => self.enter_group_rename(),
            KeyCode::Char('d') => self.enter_group_delete_confirm(),
            KeyCode::Esc => self.cancel_category_popup(),
            _ => {},
        }
    }

    /// Handles one key press: Control-C asks to quit, Control-S saves the
    /// notes being edited, and any other key acts as the current mode says.
    pub fn handle_key(&mut self, key: KeyPress)
        requires
            old(self)@.key_fits(key),
        ensures
            final(self)@ == old(self)@.after_key(key),
    {
        if key.ctrl && key.code == KeyCode::Char('c') {
            self.should_quit = true;
            return;
        }
        if key.ctrl && key.code == KeyCode::Char('s') {
            if self.mode == AppMode::EditingNotes {
                self.commit_notes();
            }
            return;
        }
        let code = key.code;
        match self.mode {
            AppMode::Normal => self.handle_normal_key(code),
            AppMode::Input => match code {
                KeyCode::Enter => self.commit_input(),
                KeyCode::Esc => self.cancel_input(),
                KeyCode::Backspace => {
                    let _ = pop_char(&mut self.input_buffer);
                },
                KeyCode::Char(c) => push_char(&mut self.input_buffer, c),
                _ => {},
            },
            AppMode::Help => self.toggle_help(),
            AppMode::EditingNotes => match code {
                KeyCode::Esc => self.cancel_notes(),
                KeyCode::Enter => push_char(&mut self.notes_buffer, '\n'),
                KeyCode::Backspace => {
                    let _ = pop_char(&mut self.notes_buffer);
                },
                KeyCode::Char(c) => push_char(&mut self.notes_buffer, c),
                _ => {},
            },
            AppMode::Search => match code {
                KeyCode::Enter => self.confirm_search(),
                KeyCode::Esc => self.cancel_search(),
                KeyCode::Backspace => self.backspace_search(),
                KeyCode::Char(c) => self.push_search(c),
                _ => {},
            },
            AppMode::CategoryPopup => self.handle_popup_key(code),
            AppMode::GroupInput => match code {
                KeyCode::Enter => self.commit_group_input(),
                KeyCode::Esc => self.cancel_group_input(),
                KeyCode::Backspace => {
                    let _ = pop_char(&mut self.input_buffer);
                },
                KeyCode::Char(c) => push_char(&mut self.input_buffer, c),
                _ => {},
            },
            AppMode::GroupDeleteConfirm => match code {
                KeyCode::Char('y') => self.confirm_group_delete(),
                KeyCode::Char('n') => self.cancel_group_delete(),
                _ => {},
            },
        }
    }
}

} // verus!
