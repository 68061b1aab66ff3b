//! What a key does: the commands while browsing, and the editing of the search term.

use crate::app::{
    search_results_of, App, InputView, StatusBar, StatusBarInput, StatusBarView,
};
use crate::reference::{bibtex_of, reference_views};
use crate::ui::{delete_char, enter_char};
use vstd::prelude::*;

verus! {

/// A key that was pressed.
#[derive(Debug, Clone, Copy, PartialEq, Eq, Structural)]
pub enum Key {
    Char(char),
    Up,
    Down,
    Left,
    Right,
    Backspace,
    Esc,
    /// Any key that has no meaning here.
    Other,
}

/// What can be asked of the browser while it shows the catalog.
#[derive(Debug, Clone, Copy, PartialEq, Eq, Structural)]
pub enum Command {
    SelectNext,
    SelectPrevious,
    NextColor,
    PreviousColor,
    NextColumn,
    PreviousColumn,
    Yank,
    EnterSearchMode,
    Quit,
}

/// What is left to do after a key was handled.
#[derive(Debug)]
pub enum Action {
    /// Nothing but to show the new state.
    Continue,
    /// To end the session.
    Quit,
    /// To put this text on the clipboard, and to tell the state with `App::yank_finished`
    /// whether that worked.
    Copy(String),
}

/// An action by its characters.
pub enum ActionView {
    Continue,
    Quit,
    Copy(Seq<char>),
}

impl View for Action {
    type V = ActionView;

    open spec fn view(&self) -> ActionView {
        match self {
            Action::Continue => ActionView::Continue,
            Action::Quit => ActionView::Quit,
            Action::Copy(text) => ActionView::Copy(text@),
        }
    }
}

/// The command that a key stands for while browsing.
pub open spec fn command_of(key: Key) -> Option<Command> {
    match key {
        Key::Char('q') => Some(Command::Quit),
        Key::Char('j') | Key::Down => Some(Command::SelectNext),
        Key::Char('k') | Key::Up => Some(Command::SelectPrevious),
        Key::Char('l') | Key::Right => Some(Command::NextColor),
        Key::Char('h') | Key::Left => Some(Command::PreviousColor),
        Key::Char('y') => Some(Command::Yank),
        Key::Char('/') => Some(Command::EnterSearchMode),
        _ => None,
    }
}

/// The command that a key stands for while browsing; `None` for a key without one.
pub fn command_for(key: Key) -> (command: Option<Command>)
    ensures
        command == command_of(key),
{
    match key {
        Key::Char(c) => {
            if c == 'q' {
                Some(Command::Quit)
            } else if c == 'j' {
                Some(Command::SelectNext)
            } else if c == 'k' {
                Some(Command::SelectPrevious)
            } else if c == 'l' {
                Some(Command::NextColor)
            } else if c == 'h' {
                Some(Command::PreviousColor)
            } else if c == 'y' {
                Some(Command::Yank)
            } else if c == '/' {
                Some(Command::EnterSearchMode)
            } else {
                None
            }
        },
        Key::Down => Some(Command::SelectNext),
        Key::Up => Some(Command::SelectPrevious),
        Key::Right => Some(Command::NextColor),
        Key::Left => Some(Command::PreviousColor),
        _ => None,
    }
}

/// Whether `after` is what `command` makes of `before`, with `action` left to do.
pub open spec fn command_done(before: App, command: Command, after: App, action: ActionView) -> bool {
    match command {
        Command::SelectNext => {
            &&& action == ActionView::Continue
            &&& after.selected == crate::app::next_index(before.selected, before.items@.len())
            &&& after.vertical_scroll.position == crate::app::scroll_position(after.selected)
            &&& before.same_but_selection(&after)
        },
        Command::SelectPrevious => {
            &&& action == ActionView::Continue
            &&& after.selected == crate::app::previous_index(before.selected, before.items@.len())
            &&& after.vertical_scroll.position == crate::app::scroll_position(after.selected)
            &&& before.same_but_selection(&after)
        },
        Command::NextColor => {
            &&& action == ActionView::Continue
            &&& after == (App { color_index: crate::app::next_palette(before.color_index), ..before })
        },
        Command::PreviousColor => {
            &&& action == ActionView::Continue
            &&& after == (App {
                color_index: crate::app::previous_palette(before.color_index),
                ..before
            })
        },
        Command::NextColumn => {
            &&& action == ActionView::Continue
            &&& after == (App { horizontal_scroll: before.horizontal_scroll.after_next(), ..before })
        },
        Command::PreviousColumn => {
            &&& action == ActionView::Continue
            &&& after == (App { horizontal_scroll: before.horizontal_scroll.after_prev(), ..before })
        },
        Command::Yank => match before.selected_entry() {
            Some(entry) => action == ActionView::Copy(bibtex_of(entry@)) && after == before,
            None => {
                &&& action == ActionView::Continue
                &&& before.same_but_status(&after)
                &&& after.status_bar@ == StatusBarView::Message("Yank failed."@)
            },
        },
        Command::EnterSearchMode => {
            &&& action == ActionView::Continue
            &&& before.same_but_status(&after)
            &&& after.status_bar@ == StatusBarView::Input(
                InputView { input: "/"@, cursor_position: 1 },
            )
        },
        Command::Quit => action == ActionView::Quit && after == before,
    }
}

/// Whether `after` is what `key` makes of `before` while browsing, with `action` left to do.
/// A key without a command changes nothing.
pub open spec fn key_done(before: App, key: Key, after: App, action: ActionView) -> bool {
    match command_of(key) {
        Some(command) => command_done(before, command, after, action),
        None => action == ActionView::Continue && after == before,
    }
}

/// What a key makes of the input line: backspace deletes before the cursor, escape leaves
/// the input for an empty message, a character is typed in, and any other key changes
/// nothing.
pub open spec fn input_done(before: InputView, key: Key, after: StatusBarView) -> bool {
    match key {
        Key::Backspace => after matches StatusBarView::Input(next) && if before.cursor_position
            <= 1 {
            next == before
        } else {
            &&& next.input == crate::ui::without_char_before(
                before.input,
                before.cursor_position as int,
            )
            &&& next.cursor_position == crate::ui::clamped(
                before.input.len(),
                before.cursor_position - 1,
            )
        },
        Key::Esc => after == StatusBarView::Message(Seq::empty()),
        Key::Char(c) => after matches StatusBarView::Input(next) && {
            &&& next.input == crate::ui::with_char(before.input, before.cursor_position as int, c)
            &&& next.cursor_position == crate::ui::clamped(
                before.input.len(),
                crate::ui::one_more(before.cursor_position),
            )
        },
        _ => after == StatusBarView::Input(before),
    }
}

/// Whether `after` is what `key` makes of `before`, with `action` left to do, but for what the
/// search found.
///
/// While a message is shown, the message is emptied and the key is taken as a command.
/// While a search term is typed, the key edits the term and nothing else changes.
pub open spec fn key_handled(before: App, key: Key, after: App, action: ActionView) -> bool {
    match before.status_bar@ {
        StatusBarView::Message(_) => exists|cleared: App, done: App|
            {
                &&& before.same_but_status(&cleared)
                &&& cleared.status_bar@ == StatusBarView::Message(Seq::empty())
                &&& #[trigger] key_done(cleared, key, done, action)
                &&& done.same_but_results(&after)
            },
        StatusBarView::Input(input) => {
            &&& action == ActionView::Continue
            &&& input_done(input, key, after.status_bar@)
            &&& after.selected == before.selected
            &&& after.items == before.items
            &&& after.longest_item_lens == before.longest_item_lens
            &&& after.vertical_scroll == before.vertical_scroll
            &&& after.horizontal_scroll == before.horizontal_scroll
            &&& after.visible_headers == before.visible_headers
            &&& after.color_index == before.color_index
        },
    }
}

impl App {
    /// Carries out `command`.
    pub fn run(&mut self, command: Command) -> (action: Action)
        ensures
            command_done(*old(self), command, *final(self), action@),
            old(self).well_formed() ==> final(self).well_formed(),
    {
        match command {
            Command::SelectNext => {
                self.select_next();
                Action::Continue
            },
            Command::SelectPrevious => {
                self.select_previous();
                Action::Continue
            },
            Command::NextColor => {
                self.next_color();
                Action::Continue
            },
            Command::PreviousColor => {
                self.previous_color();
                Action::Continue
            },
            Command::NextColumn => {
                self.select_next_column();
                Action::Continue
            },
            Command::PreviousColumn => {
                self.select_previous_column();
                Action::Continue
            },
            Command::Yank => match self.yank() {
                Some(bibtex) => Action::Copy(bibtex),
                None => {
                    self.yank_finished(false);
                    Action::Continue
                },
            },
            Command::EnterSearchMode => {
                self.enter_search_mode();
                Action::Continue
            },
            Command::Quit => Action::Quit,
        }
    }

    /// Handles a key in either mode, and brings what the search found up to date.
    ///
    /// While a message is shown the message is emptied first, and the key is then taken as a
    /// command. While a search term is typed the key edits the term.
    pub fn handle_key(&mut self, key: Key) -> (action: Action)
        ensures
            old(self).well_formed() ==> final(self).well_formed(),
            reference_views(final(self).search_results@) == search_results_of(
                final(self).items@,
                final(self).status_bar@,
            ),
            key_handled(*old(self), key, *final(self), action@),
    {
        let action = match &self.status_bar {
            StatusBar::Message(_) => {
                self.status_bar = StatusBar::Message(String::new());
                let ghost cleared = *self;
                let action = handle_keyboard_command(self, key);
                let ghost done = *self;
                self.search();
                assert(key_done(cleared, key, done, action@));
                action
            },
            StatusBar::Input(status_bar_input) => {
                self.status_bar = handle_status_bar_input(status_bar_input, key);
                self.search();
                Action::Continue
            },
        };
        action
    }
}

/// Handles a key while browsing: carries out the command that the key stands for.
pub fn handle_keyboard_command(app: &mut App, key: Key) -> (action: Action)
    ensures
        key_done(*old(app), key, *final(app), action@),
        old(app).well_formed() ==> final(app).well_formed(),
{
    match command_for(key) {
        Some(command) => app.run(command),
        None => Action::Continue,
    }
}

/// Handles a key while a search term is typed, and gives what the status bar holds then.
pub fn handle_status_bar_input(status_bar_input: &StatusBarInput, key: Key) -> (status_bar:
    StatusBar)
    ensures
        input_done(status_bar_input@, key, status_bar@),
        status_bar_input@.well_formed() ==> status_bar@.well_formed(),
{
    match key {
        Key::Backspace => StatusBar::Input(delete_char(status_bar_input)),
        Key::Esc => StatusBar::Message(String::new()),
        Key::Char(c) => StatusBar::Input(enter_char(status_bar_input, c)),
        _ => StatusBar::Input(status_bar_input.clone()),
    }
}

} // verus!
