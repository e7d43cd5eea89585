//! What the dashboard has from the screen, the clock, the clipboard and the disk,
//! and what it shows of itself.

use vstd::prelude::*;

use crate::composer_view::at_least_one;
use crate::input::offered_sessions;
use crate::lifecycle::{LifecycleData, stored_view};
use crate::menus::HistoryPickerView;
use crate::model::PreviewVerbosity;
use crate::state::{App, AppView, MenuTab};
use crate::style::Rect;
use crate::text::{concat_text, option_text, same_text, texts};
use crate::views::{group_views, views};

verus! {

broadcast use group_views;

impl App {
    /// Tells the time: milliseconds of a steady clock, and seconds of the calendar.
    pub fn set_clock(&mut self, clock: u64, unix_time: i64)
        requires
            old(self)@.wf(),
        ensures
            final(self)@ == (AppView { clock, unix_time, ..old(self)@ }),
            final(self)@.wf(),
    {
        self.put_clock(clock);
        self.put_unix_time(unix_time);
    }

    /// Tells how far the preview is scrolled back.
    pub fn set_scroll_back(&mut self, value: usize)
        requires
            old(self)@.wf(),
        ensures
            final(self)@ == (AppView { scroll_back: value as int, ..old(self)@ }),
            final(self)@.wf(),
    {
        self.put_scroll_back(value);
    }

    /// Tells the height of the preview.
    pub fn set_message_view_height(&mut self, value: usize)
        requires
            old(self)@.wf(),
        ensures
            final(self)@ == (AppView {
                message_view_height: at_least_one(value as int),
                ..old(self)@
            }),
            final(self)@.wf(),
    {
        let height: usize = if value == 0 {
            1
        } else {
            value
        };
        self.put_message_view_height(height);
    }

    /// Tells the width of the composer and of its prefix.
    pub fn set_composer_layout(&mut self, width: usize, prefix_width: usize)
        requires
            old(self)@.wf(),
        ensures
            final(self)@ == (AppView {
                composer_width: width as nat,
                composer_prefix_width: prefix_width as nat,
                ..old(self)@
            }),
            final(self)@.wf(),
    {
        self.put_composer_width(width);
        self.put_composer_prefix_width(prefix_width);
    }

    /// Tells the lines that the preview shows.
    pub fn set_preview_surface(&mut self, area: Rect, lines: &Vec<String>)
        requires
            old(self)@.wf(),
        ensures
            final(self)@ == (AppView {
                preview: old(self)@.preview.on_surface(area, texts(lines@)),
                ..old(self)@
            }),
            final(self)@.wf(),
    {
        self.preview_mut().update_surface(area, lines);
    }

    /// Tells that the preview is hidden.
    pub fn clear_preview_surface(&mut self)
        requires
            old(self)@.wf(),
        ensures
            final(self)@ == (AppView {
                preview: old(self)@.preview.hidden(),
                ..old(self)@
            }),
            final(self)@.wf(),
    {
        self.preview_mut().clear_surface();
    }

    /// The selected columns of a row of the preview.
    pub fn preview_selection_range(&self, row: usize) -> (range: Option<(usize, usize)>)
        ensures
            match range {
                Some((start, end)) => self@.preview.row_range(row as int) == Some(
                    (start as int, end as int),
                ),
                None => self@.preview.row_range(row as int) is None,
            },
    {
        self.preview().range_for_row(row)
    }

    /// Begins to select text in the preview. Tells whether the place is in it.
    pub fn begin_preview_selection(&mut self, column: u16, row: u16) -> (begun: bool)
        requires
            old(self)@.wf(),
        ensures
            begun == (old(self)@.preview.point_at(column as int, row as int) is Some),
            final(self)@ == (AppView {
                preview: old(self)@.preview.begun(column as int, row as int),
                ..old(self)@
            }),
            final(self)@.wf(),
    {
        self.preview_mut().begin(column, row)
    }

    /// Goes on to select text in the preview. Tells whether a selection is going on.
    pub fn update_preview_selection(&mut self, column: u16, row: u16) -> (updated: bool)
        requires
            old(self)@.wf(),
        ensures
            updated == (old(self)@.preview.drag is Some && old(self)@.preview.nearest_point(
                column as int,
                row as int,
            ) is Some),
            final(self)@ == (AppView {
                preview: old(self)@.preview.dragged(column as int, row as int),
                ..old(self)@
            }),
            final(self)@.wf(),
    {
        self.preview_mut().update(column, row)
    }

    /// Ends the selection of text in the preview. The text to copy, where there is
    /// some.
    pub fn finish_preview_selection(&mut self, column: u16, row: u16) -> (text: Option<String>)
        requires
            old(self)@.wf(),
        ensures
            option_text(text) == old(self)@.preview.finished(column as int, row as int).1,
            final(self)@ == (AppView {
                preview: old(self)@.preview.finished(column as int, row as int).0,
                ..old(self)@
            }),
            final(self)@.wf(),
    {
        self.preview_mut().finish(column, row)
    }

    /// How much of a conversation the preview shows.
    pub fn preview_verbosity(&self) -> (verbosity: PreviewVerbosity)
        ensures
            verbosity == self@.lifecycle.verbosity,
    {
        self.lifecycle().preview_verbosity()
    }

    /// Whether the menu is open.
    pub fn settings_open(&self) -> (open: bool)
        ensures
            open == (self@.menu is Some),
    {
        self.menu().is_some()
    }

    /// The tab of the menu; the first one where it is closed.
    pub fn menu_tab(&self) -> (tab: MenuTab)
        ensures
            tab == (match self@.menu {
                Some(menu) => menu.tab,
                None => MenuTab::Resume,
            }),
    {
        match self.menu() {
            Some(menu) => menu.tab,
            None => MenuTab::Resume,
        }
    }

    /// The preview level that is chosen in the menu; the current one where it is
    /// closed.
    pub fn settings_selection(&self) -> (verbosity: PreviewVerbosity)
        ensures
            verbosity == (match self@.menu {
                Some(menu) => menu.verbosity,
                None => self@.lifecycle.verbosity,
            }),
    {
        match self.menu() {
            Some(menu) => menu.verbosity,
            None => self.lifecycle().preview_verbosity(),
        }
    }

    /// The sessions that the menu offers for its search.
    pub fn history_picker_view(&self) -> (picker: Option<HistoryPickerView>)
        ensures
            match (picker, self@.menu) {
                (Some(picker), Some(menu)) => picker.query@ == menu.query && picker.selected
                    == menu.selected && views(picker.items@) == self@.offered(),
                (None, None) => true,
                _ => false,
            },
    {
        match self.menu() {
            Some(menu) => Some(
                HistoryPickerView {
                    query: menu.query.clone(),
                    items: offered_sessions(self.history(), menu.query.as_str()),
                    selected: menu.selected,
                },
            ),
            None => None,
        }
    }

    /// What a session's row asks to confirm.
    pub fn ctrl_x_confirmation(&self, id: &str) -> (text: Option<&'static str>)
        ensures
            match text {
                Some(text) => self@.confirmation(id@) == Some(text@),
                None => self@.confirmation(id@) is None,
            },
    {
        let armed = match self.ctrl_x_armed() {
            Some(armed) => same_text(armed.as_str(), id),
            None => false,
        };
        if !armed {
            return None;
        }
        match self.session(id) {
            Some(session) => if session.status.is_live() {
                Some("Ctrl+X again: pause")
            } else {
                Some("Ctrl+X again: remove")
            },
            None => None,
        }
    }

    /// Tells whether the clipboard should be read, once.
    pub fn take_clipboard_request(&mut self) -> (wanted: bool)
        requires
            old(self)@.wf(),
        ensures
            wanted == old(self)@.clipboard_requested,
            final(self)@ == (AppView { clipboard_requested: false, ..old(self)@ }),
            final(self)@.wf(),
    {
        let wanted = self.clipboard_requested();
        self.put_clipboard_requested(false);
        wanted
    }

    /// Takes the image of the clipboard: the file that it was stored in, nothing
    /// where there is none, or why it could not be read.
    pub fn handle_clipboard_image(&mut self, image: Result<Option<String>, String>)
        requires
            old(self)@.wf(),
        ensures
            final(self)@ == (match image {
                Ok(Some(path)) => old(self)@.with_images(seq![path@]).opened(),
                Ok(None) => old(self)@.noting("Clipboard does not contain an image"@),
                Err(error) => old(self)@.noting("Could not paste clipboard image: "@ + error@),
            }),
            final(self)@.wf(),
    {
        match image {
            Ok(Some(path)) => {
                let mut paths: Vec<String> = Vec::new();
                paths.push(path);
                assert(texts(paths@) =~= seq![path@]);
                self.add_images(&paths);
                self.show_composer();
            },
            Ok(None) => self.note("Clipboard does not contain an image"),
            Err(error) => self.put_notice(
                concat_text("Could not paste clipboard image: ", error.as_str()),
            ),
        }
    }

    /// The registry in the form in which it is stored; nothing where the stored
    /// form is up to date.
    pub fn unsaved_lifecycle(&mut self) -> (data: Option<LifecycleData>)
        requires
            old(self)@.wf(),
        ensures
            stored_view(data) == old(self)@.lifecycle.to_store(),
            final(self)@ == (AppView {
                lifecycle: old(self)@.lifecycle.storing(),
                ..old(self)@
            }),
            final(self)@.wf(),
    {
        self.lifecycle_mut().to_store()
    }

    /// Notes that the registry is stored.
    pub fn lifecycle_saved(&mut self)
        requires
            old(self)@.wf(),
        ensures
            final(self)@ == (AppView {
                lifecycle: old(self)@.lifecycle.saved(),
                ..old(self)@
            }),
            final(self)@.wf(),
    {
        self.lifecycle_mut().saved();
    }
}

} // verus!
