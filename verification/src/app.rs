//! The session: the diary and the to-do list, the day being looked at, and the
//! editing of that day's entry.

use crate::buffer::{lemma_from_text_at_zero, BufferView, EditBuffer};
use crate::date::{julian_in_range, Date};
use crate::entry::{
    lemma_rank_splits, lookup, sorted, upserted, Entry, EntryStore, EntryView,
};
use crate::graph::{
    history, history_points, placed, plotted, series, series_points, Field, Point, ZoomLevel,
};
use crate::measure::{
    accepts, char_is_digit, formatted, lemma_parsed_formatted, measured, read, Measurement,
};
use crate::todo::{
    clean_sections, cleaned, section_views, task_views, Section, SectionView, TaskView,
};
use vstd::prelude::*;

verus! {

/// What the to-do list is doing: being shown, or having a title or a task edited.
#[derive(Clone, Copy, Debug, PartialEq, Eq, Structural, Hash)]
pub enum Mode {
    Main,
    Edit,
}

/// What the diary is doing: showing a day, editing that day's entry, or asking whether
/// the edit is to be thrown away.
#[derive(Clone, Copy, Debug, PartialEq, Eq, Structural, Hash)]
pub enum CurrScreen {
    Main,
    Editing,
    DiscardChanges,
}

/// The part of an entry that typing goes to.
#[derive(Clone, Copy, Debug, PartialEq, Eq, Structural, Hash)]
pub enum EditValue {
    Content,
    Weight,
    Waist,
}

impl EditValue {
    /// The field that follows this one: content, weight, waist, and content again.
    pub open spec fn following(self) -> EditValue {
        match self {
            EditValue::Content => EditValue::Weight,
            EditValue::Weight => EditValue::Waist,
            EditValue::Waist => EditValue::Content,
        }
    }

    /// The field that follows this one: content, weight, waist, and content again.
    #[verifier::when_used_as_spec(following)]
    pub fn next(self) -> (v: EditValue)
        ensures
            v == self.following(),
    {
        match self {
            EditValue::Content => EditValue::Weight,
            EditValue::Weight => EditValue::Waist,
            EditValue::Waist => EditValue::Content,
        }
    }
}

/// The whole state of a session.
#[derive(Debug)]
pub struct MyApp {
    pub sections: Vec<Section>,
    pub entries: EntryStore,
    pub curr_date: Date,
    pub mode: Mode,
    pub first_time_edit: bool,
    pub path_to_file: String,
    pub zoom: ZoomLevel,
    pub curr_screen: CurrScreen,
    pub edit_value: EditValue,
    pub edit_content: EditBuffer,
    pub edit_weight: EditBuffer,
    pub edit_waist: EditBuffer,
}

/// The state of a session as mathematical values.
pub struct AppView {
    pub sections: Seq<SectionView>,
    pub entries: Seq<EntryView>,
    pub curr_date: int,
    pub mode: Mode,
    pub first_time_edit: bool,
    pub path_to_file: Seq<char>,
    pub zoom: ZoomLevel,
    pub curr_screen: CurrScreen,
    pub edit_value: EditValue,
    pub edit_content: BufferView,
    pub edit_weight: BufferView,
    pub edit_waist: BufferView,
}

impl View for MyApp {
    type V = AppView;

    open spec fn view(&self) -> AppView {
        AppView {
            sections: section_views(self.sections@),
            entries: self.entries@,
            curr_date: self.curr_date@,
            mode: self.mode,
            first_time_edit: self.first_time_edit,
            path_to_file: self.path_to_file@,
            zoom: self.zoom,
            curr_screen: self.curr_screen,
            edit_value: self.edit_value,
            edit_content: self.edit_content@,
            edit_weight: self.edit_weight@,
            edit_waist: self.edit_waist@,
        }
    }
}

/// The buffer in which a measurement is edited: its written form with the cursor at
/// the end, or nothing where the measurement was not taken.
pub open spec fn measurement_buffer(m: Option<nat>) -> BufferView {
    match m {
        Some(v) => BufferView::from_text(formatted(v), 0),
        None => BufferView::empty(),
    }
}

impl AppView {
    /// The session as it starts: on the main screens of the diary and the to-do list,
    /// with day-by-day graphs and empty buffers, and `diary.json` as the file's name.
    pub open spec fn started(
        sections: Seq<SectionView>,
        entries: Seq<EntryView>,
        today: int,
    ) -> AppView {
        AppView {
            sections,
            entries,
            curr_date: today,
            mode: Mode::Main,
            first_time_edit: false,
            path_to_file: "diary.json"@,
            zoom: ZoomLevel::Day,
            curr_screen: CurrScreen::Main,
            edit_value: EditValue::Content,
            edit_content: BufferView::empty(),
            edit_weight: BufferView::empty(),
            edit_waist: BufferView::empty(),
        }
    }

    /// The entry that the three buffers hold for the current day.
    pub open spec fn edited_entry(self) -> EntryView {
        EntryView {
            date: self.curr_date,
            content: self.edit_content.text(),
            weight_kg: read(self.edit_weight.text()),
            waist_cm: read(self.edit_waist.text()),
        }
    }

    /// The session with all three buffers emptied.
    pub open spec fn without_buffers(self) -> AppView {
        AppView {
            edit_content: BufferView::empty(),
            edit_weight: BufferView::empty(),
            edit_waist: BufferView::empty(),
            ..self
        }
    }

    /// After a request to edit. From the main screen the three buffers are filled from
    /// the current day's entry, or left empty where the day has none, and typing goes
    /// to the content. On any other screen nothing changes.
    pub open spec fn begun_edit(self) -> AppView {
        if self.curr_screen != CurrScreen::Main {
            self
        } else {
            match lookup(self.entries, self.curr_date) {
                Some(e) => AppView {
                    curr_screen: CurrScreen::Editing,
                    edit_value: EditValue::Content,
                    edit_content: BufferView::from_text(e.content, 0),
                    edit_weight: measurement_buffer(e.weight_kg),
                    edit_waist: measurement_buffer(e.waist_cm),
                    ..self
                },
                None => AppView {
                    curr_screen: CurrScreen::Editing,
                    edit_value: EditValue::Content,
                    ..self.without_buffers()
                },
            }
        }
    }

    /// After a request to commit. While editing, the buffers' entry is put into the
    /// store unless it is empty, the buffers are dropped and the main screen returns.
    /// On any other screen nothing changes.
    pub open spec fn committed(self) -> AppView {
        if self.curr_screen != CurrScreen::Editing {
            self
        } else {
            let e = self.edited_entry();
            AppView {
                curr_screen: CurrScreen::Main,
                entries: if e.is_empty() {
                    self.entries
                } else {
                    upserted(self.entries, e)
                },
                ..self.without_buffers()
            }
        }
    }

    /// After an entry was picked from the list for editing: from the main screen the
    /// day of the entry becomes the current day and its edit begins, and the editor,
    /// just opened, waits for the keyboard focus. On any other screen nothing changes.
    pub open spec fn opened(self, date: int) -> AppView {
        if self.curr_screen != CurrScreen::Main {
            self
        } else {
            AppView {
                mode: Mode::Edit,
                first_time_edit: true,
                ..(AppView { curr_date: date, ..self }).begun_edit()
            }
        }
    }

    /// After the editor of an entry was closed: while editing, the edit is committed
    /// and the list is back in its main mode. On any other screen nothing changes.
    pub open spec fn closed(self) -> AppView {
        if self.curr_screen != CurrScreen::Editing {
            self
        } else {
            AppView { mode: Mode::Main, ..self.committed() }
        }
    }

    /// After a request to cancel: while editing, the question whether to discard the
    /// changes comes up. On any other screen nothing changes.
    pub open spec fn cancelled(self) -> AppView {
        if self.curr_screen != CurrScreen::Editing {
            self
        } else {
            AppView { curr_screen: CurrScreen::DiscardChanges, ..self }
        }
    }

    /// After the answer to that question. On yes the buffers are dropped and the main
    /// screen returns; on no, editing goes on with the buffers as they were. On any
    /// other screen nothing changes.
    pub open spec fn answered(self, discard: bool) -> AppView {
        if self.curr_screen != CurrScreen::DiscardChanges {
            self
        } else if discard {
            AppView { curr_screen: CurrScreen::Main, ..self.without_buffers() }
        } else {
            AppView { curr_screen: CurrScreen::Editing, ..self }
        }
    }

    /// The buffer that typing goes to.
    pub open spec fn active_buffer(self) -> BufferView {
        match self.edit_value {
            EditValue::Content => self.edit_content,
            EditValue::Weight => self.edit_weight,
            EditValue::Waist => self.edit_waist,
        }
    }

    /// The session with `buffer` in the place of the buffer that typing goes to.
    pub open spec fn with_active_buffer(self, buffer: BufferView) -> AppView {
        match self.edit_value {
            EditValue::Content => AppView { edit_content: buffer, ..self },
            EditValue::Weight => AppView { edit_weight: buffer, ..self },
            EditValue::Waist => AppView { edit_waist: buffer, ..self },
        }
    }

    /// After an edit of the active buffer that left it as `buffer`: while editing, that
    /// buffer is replaced. On any other screen nothing changes.
    pub open spec fn edited(self, buffer: BufferView) -> AppView {
        if self.curr_screen == CurrScreen::Editing {
            self.with_active_buffer(buffer)
        } else {
            self
        }
    }

    /// The text of a field as the edit screen shows it.
    pub open spec fn shown(self, field: EditValue) -> Seq<char> {
        let buffer = match field {
            EditValue::Content => self.edit_content,
            EditValue::Weight => self.edit_weight,
            EditValue::Waist => self.edit_waist,
        };
        if self.edit_value == field {
            buffer.display_text()
        } else {
            buffer.text()
        }
    }

    /// After a step of `days` days from the current day: while the main screen shows
    /// and the calendar reaches that far, the current day moves. Otherwise nothing
    /// changes.
    pub open spec fn turned(self, days: int) -> AppView {
        if self.curr_screen == CurrScreen::Main && julian_in_range(self.curr_date + days) {
            AppView { curr_date: self.curr_date + days, ..self }
        } else {
            self
        }
    }

    /// After the title of section `s` was opened for editing or closed again: the
    /// section says so, and so does the list's mode. Where the list has no section `s`,
    /// nothing changes.
    pub open spec fn with_section_edit(self, s: int, edit: bool) -> AppView {
        if 0 <= s < self.sections.len() {
            AppView {
                sections: self.sections.update(s, SectionView { edit, ..self.sections[s] }),
                mode: if edit {
                    Mode::Edit
                } else {
                    Mode::Main
                },
                ..self
            }
        } else {
            self
        }
    }

    /// After section `s` was removed: it has lost its tasks and is marked for deletion,
    /// and the list is back in its main mode. Where the list has no section `s`,
    /// nothing changes.
    pub open spec fn with_section_removed(self, s: int) -> AppView {
        if 0 <= s < self.sections.len() {
            AppView {
                sections: self.sections.update(
                    s,
                    SectionView { tasks: Seq::empty(), delete: true, ..self.sections[s] },
                ),
                mode: Mode::Main,
                ..self
            }
        } else {
            self
        }
    }

    /// Whether the list has a section `s` with a task `t`.
    pub open spec fn has_task(self, s: int, t: int) -> bool {
        0 <= s < self.sections.len() && 0 <= t < self.sections[s].tasks.len()
    }

    /// After task `t` of section `s` was opened for editing or closed again. An opened
    /// editor waits for the keyboard focus. Where there is no such task, nothing
    /// changes.
    pub open spec fn with_task_edit(self, s: int, t: int, edit: bool) -> AppView {
        if self.has_task(s, t) {
            AppView {
                sections: self.sections.update(s, self.sections[s].with_task_edit(t, edit)),
                mode: if edit {
                    Mode::Edit
                } else {
                    Mode::Main
                },
                first_time_edit: edit || self.first_time_edit,
                ..self
            }
        } else {
            self
        }
    }

    /// After task `t` of section `s` was removed: it is marked for deletion, and the
    /// list is back in its main mode. Where there is no such task, nothing changes.
    pub open spec fn with_task_removed(self, s: int, t: int) -> AppView {
        if self.has_task(s, t) {
            AppView {
                sections: self.sections.update(s, self.sections[s].with_task_removed(t)),
                mode: Mode::Main,
                ..self
            }
        } else {
            self
        }
    }

    /// After an empty task was added to section `s` and opened for editing. Where the
    /// list has no section `s`, nothing changes.
    pub open spec fn with_task_appended(self, s: int) -> AppView {
        if 0 <= s < self.sections.len() {
            AppView {
                sections: self.sections.update(s, self.sections[s].with_task_appended()),
                mode: Mode::Edit,
                first_time_edit: true,
                ..self
            }
        } else {
            self
        }
    }

    /// Whether the field that typing goes to takes the character `c`. The content takes
    /// every character; a measurement takes digits and one decimal point.
    pub open spec fn takes(self, c: char) -> bool {
        self.edit_value == EditValue::Content || accepts(self.active_buffer().text(), c)
    }

    /// After the character `c` was typed. While editing, it goes into the active buffer
    /// if the field takes it. Otherwise nothing changes.
    pub open spec fn typed(self, c: char) -> AppView {
        if self.curr_screen == CurrScreen::Editing && self.takes(c) {
            self.with_active_buffer(self.active_buffer().inserted(c))
        } else {
            self
        }
    }
}

impl MyApp {
    /// A session that starts on the day `today` with the given to-do list and diary.
    pub fn restore(sections: Vec<Section>, entries: EntryStore, today: Date) -> (app: MyApp)
        ensures
            app@ == AppView::started(section_views(sections@), entries@, today@),
            app.curr_date == today,
    {
        MyApp {
            sections,
            entries,
            curr_date: today,
            mode: Mode::Main,
            first_time_edit: false,
            path_to_file: "diary.json".to_owned(),
            zoom: ZoomLevel::Day,
            curr_screen: CurrScreen::Main,
            edit_value: EditValue::Content,
            edit_content: EditBuffer::create_empty(),
            edit_weight: EditBuffer::create_empty(),
            edit_waist: EditBuffer::create_empty(),
        }
    }

    /// A first session, on the day `today`: an empty diary, and a to-do list of one
    /// new section.
    pub fn new(today: Date) -> (app: MyApp)
        ensures
            app@ == AppView::started(seq![Section::default_view()], Seq::empty(), today@),
            app.curr_date == today,
    {
        let mut sections: Vec<Section> = Vec::new();
        sections.push(Section::default());
        assert(section_views(sections@) =~= seq![Section::default_view()]);
        MyApp::restore(sections, EntryStore::new(), today)
    }

    /// Moves the current day on to `now` if `now` is later; it never moves back.
    pub fn roll_date(&mut self, now: Date)
        ensures
            final(self)@ == (AppView {
                curr_date: if now@ > old(self)@.curr_date {
                    now@
                } else {
                    old(self)@.curr_date
                },
                ..old(self)@
            }),
    {
        if now.to_julian_day() > self.curr_date.to_julian_day() {
            self.curr_date = now;
        }
    }

    /// The entry for `date`, if the diary has one.
    pub fn get_entry_by_date(&self, date: Date) -> (r: Option<Entry>)
        ensures
            match r {
                Some(e) => lookup(self@.entries, date@) == Some(e@) && e.date == date,
                None => lookup(self@.entries, date@) is None,
            },
    {
        match self.entries.get(date) {
            Some(e) => Some(e.clone()),
            None => None,
        }
    }

    /// The graph of the weights for the window that ends with `date`.
    pub fn get_weights(&self, date: Date, zoom: ZoomLevel) -> (points: Vec<Point>)
        ensures
            plotted(points@) == series_points(self@.entries, date@, zoom, Field::Weight),
    {
        series(&self.entries, date, zoom, Field::Weight)
    }

    /// The graph of the waist measurements for the window that ends with `date`.
    pub fn get_waists(&self, date: Date, zoom: ZoomLevel) -> (points: Vec<Point>)
        ensures
            plotted(points@) == series_points(self@.entries, date@, zoom, Field::Waist),
    {
        series(&self.entries, date, zoom, Field::Waist)
    }

    /// Every weight in the diary, oldest first, each with the distance of its day from
    /// the current day in days.
    pub fn weight_history(&self) -> (samples: Vec<(i32, Measurement)>)
        ensures
            placed(samples@) == history_points(self@.entries, self@.curr_date, Field::Weight),
    {
        history(&self.entries, self.curr_date, Field::Weight)
    }

    /// Every waist measurement in the diary, oldest first, each with the distance of
    /// its day from the current day in days.
    pub fn waist_history(&self) -> (samples: Vec<(i32, Measurement)>)
        ensures
            placed(samples@) == history_points(self@.entries, self@.curr_date, Field::Waist),
    {
        history(&self.entries, self.curr_date, Field::Waist)
    }

    /// Shows the graphs one level coarser.
    pub fn zoom_out(&mut self)
        ensures
            final(self)@ == (AppView { zoom: old(self)@.zoom.coarser(), ..old(self)@ }),
    {
        self.zoom = self.zoom.zoom_out();
    }

    /// Shows the graphs one level finer.
    pub fn zoom_in(&mut self)
        ensures
            final(self)@ == (AppView { zoom: old(self)@.zoom.finer(), ..old(self)@ }),
    {
        self.zoom = self.zoom.zoom_in();
    }

    /// Starts editing the current day's entry.
    pub fn begin_edit(&mut self)
        ensures
            final(self)@ == old(self)@.begun_edit(),
    {
        if self.curr_screen == CurrScreen::Main {
            let (content, weight, waist) = match self.entries.get(self.curr_date) {
                Some(e) => (
                    EditBuffer::create_from(e.content.as_str(), 0),
                    measurement_editor(e.weight_kg),
                    measurement_editor(e.waist_cm),
                ),
                None => (
                    EditBuffer::create_empty(),
                    EditBuffer::create_empty(),
                    EditBuffer::create_empty(),
                ),
            };
            self.edit_content = content;
            self.edit_weight = weight;
            self.edit_waist = waist;
            self.edit_value = EditValue::Content;
            self.curr_screen = CurrScreen::Editing;
        }
    }

    /// Ends editing and keeps what was typed: the entry goes into the diary unless it
    /// is empty. A measurement that cannot be read counts as not taken.
    pub fn commit(&mut self)
        ensures
            final(self)@ == old(self)@.committed(),
    {
        if self.curr_screen == CurrScreen::Editing {
            let content = self.edit_content.to_text();
            let weight = Measurement::parse(self.edit_weight.to_text().as_str());
            let waist = Measurement::parse(self.edit_waist.to_text().as_str());
            let entry = Entry::new(self.curr_date, content, weight, waist);
            if !entry.is_empty() {
                self.entries.upsert(entry);
            }
            self.drop_buffers();
            self.curr_screen = CurrScreen::Main;
        }
    }

    /// Opens the entry of `date` in the editor, or an empty one where the day has no
    /// entry yet.
    pub fn open_entry(&mut self, date: Date)
        ensures
            final(self)@ == old(self)@.opened(date@),
    {
        if self.curr_screen == CurrScreen::Main {
            self.curr_date = date;
            self.begin_edit();
            self.mode = Mode::Edit;
            self.first_time_edit = true;
        }
    }

    /// Closes the editor and keeps what was typed.
    pub fn close_entry(&mut self)
        ensures
            final(self)@ == old(self)@.closed(),
    {
        if self.curr_screen == CurrScreen::Editing {
            self.commit();
            self.mode = Mode::Main;
        }
    }

    /// Asks whether the edit is to be thrown away.
    pub fn cancel(&mut self)
        ensures
            final(self)@ == old(self)@.cancelled(),
    {
        if self.curr_screen == CurrScreen::Editing {
            self.curr_screen = CurrScreen::DiscardChanges;
        }
    }

    /// Answers that question with yes: the edit is thrown away.
    pub fn confirm_discard(&mut self)
        ensures
            final(self)@ == old(self)@.answered(true),
    {
        if self.curr_screen == CurrScreen::DiscardChanges {
            self.drop_buffers();
            self.curr_screen = CurrScreen::Main;
        }
    }

    /// Answers that question with no: editing goes on.
    pub fn decline_discard(&mut self)
        ensures
            final(self)@ == old(self)@.answered(false),
    {
        if self.curr_screen == CurrScreen::DiscardChanges {
            self.curr_screen = CurrScreen::Editing;
        }
    }

    /// Deletes the character before the cursor of the active field.
    pub fn delete_char(&mut self)
        ensures
            final(self)@ == old(self)@.edited(old(self)@.active_buffer().deleted_before()),
    {
        if self.curr_screen == CurrScreen::Editing {
            match self.edit_value {
                EditValue::Content => {
                    self.edit_content.delete_before();
                },
                EditValue::Weight => {
                    self.edit_weight.delete_before();
                },
                EditValue::Waist => {
                    self.edit_waist.delete_before();
                },
            }
        }
    }

    /// Moves the cursor of the active field one character towards the end.
    pub fn cursor_forward(&mut self)
        ensures
            final(self)@ == old(self)@.edited(old(self)@.active_buffer().moved_forward()),
    {
        if self.curr_screen == CurrScreen::Editing {
            match self.edit_value {
                EditValue::Content => {
                    self.edit_content.move_cursor_forward();
                },
                EditValue::Weight => {
                    self.edit_weight.move_cursor_forward();
                },
                EditValue::Waist => {
                    self.edit_waist.move_cursor_forward();
                },
            }
        }
    }

    /// Moves the cursor of the active field one character towards the start.
    pub fn cursor_backward(&mut self)
        ensures
            final(self)@ == old(self)@.edited(old(self)@.active_buffer().moved_backward()),
    {
        if self.curr_screen == CurrScreen::Editing {
            match self.edit_value {
                EditValue::Content => {
                    self.edit_content.move_cursor_backward();
                },
                EditValue::Weight => {
                    self.edit_weight.move_cursor_backward();
                },
                EditValue::Waist => {
                    self.edit_waist.move_cursor_backward();
                },
            }
        }
    }

    /// The text of a field as the edit screen shows it: with the cursor marker where
    /// typing goes to that field, plain otherwise.
    pub fn field_text(&self, field: EditValue) -> (text: String)
        ensures
            text@ == self@.shown(field),
    {
        let active = self.edit_value == field;
        match field {
            EditValue::Content => if active {
                self.edit_content.to_display_text()
            } else {
                self.edit_content.to_text()
            },
            EditValue::Weight => if active {
                self.edit_weight.to_display_text()
            } else {
                self.edit_weight.to_text()
            },
            EditValue::Waist => if active {
                self.edit_waist.to_display_text()
            } else {
                self.edit_waist.to_text()
            },
        }
    }

    /// Goes `days` days on from the current day (back, where `days` is negative), while
    /// the main screen shows. Where the calendar does not reach that far, and on any
    /// other screen, nothing changes.
    pub fn turn(&mut self, days: i32)
        ensures
            final(self)@ == old(self)@.turned(days as int),
    {
        if self.curr_screen == CurrScreen::Main {
            match self.curr_date.checked_add_days(days) {
                Some(d) => {
                    self.curr_date = d;
                },
                None => {},
            }
        }
    }

    /// Goes to the day after the current one.
    pub fn next_day(&mut self)
        ensures
            final(self)@ == old(self)@.turned(1),
    {
        self.turn(1);
    }

    /// Goes to the day before the current one.
    pub fn previous_day(&mut self)
        ensures
            final(self)@ == old(self)@.turned(-1),
    {
        self.turn(-1);
    }

    /// Adds a section without tasks at the end of the to-do list.
    pub fn add_section(&mut self, title: &str, edit: bool)
        ensures
            final(self)@ == (AppView {
                sections: old(self)@.sections.push(
                    SectionView { title: title@, tasks: Seq::empty(), edit, delete: false },
                ),
                ..old(self)@
            }),
    {
        let section = Section { title: title.to_owned(), tasks: Vec::new(), edit, delete: false };
        assert(section@.tasks =~= Seq::empty());
        self.sections.push(section);
        assert(section_views(self.sections@) =~= section_views(old(self).sections@).push(
            SectionView { title: title@, tasks: Seq::empty(), edit, delete: false },
        ));
    }

    /// Opens the title of section `s` for editing.
    pub fn edit_section(&mut self, s: usize)
        ensures
            final(self)@ == old(self)@.with_section_edit(s as int, true),
    {
        if s < self.sections.len() {
            self.sections[s].edit = true;
            self.mode = Mode::Edit;
            assert(section_views(self.sections@) =~= old(self)@.sections.update(
                s as int,
                SectionView { edit: true, ..old(self)@.sections[s as int] },
            ));
        }
    }

    /// Closes the title of section `s` after editing.
    pub fn close_section(&mut self, s: usize)
        ensures
            final(self)@ == old(self)@.with_section_edit(s as int, false),
    {
        if s < self.sections.len() {
            self.sections[s].edit = false;
            self.mode = Mode::Main;
            assert(section_views(self.sections@) =~= old(self)@.sections.update(
                s as int,
                SectionView { edit: false, ..old(self)@.sections[s as int] },
            ));
        }
    }

    /// Marks section `s` for deletion and empties it.
    pub fn remove_section(&mut self, s: usize)
        ensures
            final(self)@ == old(self)@.with_section_removed(s as int),
    {
        if s < self.sections.len() {
            self.sections[s].tasks.clear();
            self.sections[s].delete = true;
            self.mode = Mode::Main;
            assert(section_views(self.sections@) =~= old(self)@.sections.update(
                s as int,
                SectionView { tasks: Seq::empty(), delete: true, ..old(self)@.sections[s as int] },
            )) by {
                assert(task_views(self.sections@[s as int].tasks@) =~= Seq::<TaskView>::empty());
            }
        }
    }

    /// Opens task `t` of section `s` for editing.
    pub fn edit_task(&mut self, s: usize, t: usize)
        ensures
            final(self)@ == old(self)@.with_task_edit(s as int, t as int, true),
    {
        if s < self.sections.len() && t < self.sections[s].tasks.len() {
            self.sections[s].tasks[t].edit = true;
            self.mode = Mode::Edit;
            self.first_time_edit = true;
            proof {
                let section = old(self)@.sections[s as int];
                assert(task_views(self.sections@[s as int].tasks@) =~= section.tasks.update(
                    t as int,
                    TaskView { edit: true, ..section.tasks[t as int] },
                ));
                assert(section_views(self.sections@) =~= old(self)@.sections.update(
                    s as int,
                    section.with_task_edit(t as int, true),
                ));
            }
        }
    }

    /// Closes task `t` of section `s` after editing.
    pub fn close_task(&mut self, s: usize, t: usize)
        ensures
            final(self)@ == old(self)@.with_task_edit(s as int, t as int, false),
    {
        if s < self.sections.len() && t < self.sections[s].tasks.len() {
            self.sections[s].tasks[t].edit = false;
            self.mode = Mode::Main;
            proof {
                let section = old(self)@.sections[s as int];
                assert(task_views(self.sections@[s as int].tasks@) =~= section.tasks.update(
                    t as int,
                    TaskView { edit: false, ..section.tasks[t as int] },
                ));
                assert(section_views(self.sections@) =~= old(self)@.sections.update(
                    s as int,
                    section.with_task_edit(t as int, false),
                ));
            }
        }
    }

    /// Marks task `t` of section `s` for deletion.
    pub fn remove_task(&mut self, s: usize, t: usize)
        ensures
            final(self)@ == old(self)@.with_task_removed(s as int, t as int),
    {
        if s < self.sections.len() && t < self.sections[s].tasks.len() {
            self.sections[s].tasks[t].delete = true;
            self.mode = Mode::Main;
            proof {
                let section = old(self)@.sections[s as int];
                assert(task_views(self.sections@[s as int].tasks@) =~= section.tasks.update(
                    t as int,
                    TaskView { delete: true, ..section.tasks[t as int] },
                ));
                assert(section_views(self.sections@) =~= old(self)@.sections.update(
                    s as int,
                    section.with_task_removed(t as int),
                ));
            }
        }
    }

    /// Adds an empty task at the end of section `s` and opens it for editing.
    pub fn append_task(&mut self, s: usize)
        ensures
            final(self)@ == old(self)@.with_task_appended(s as int),
    {
        if s < self.sections.len() {
            self.sections[s].add_task("", true);
            self.mode = Mode::Edit;
            self.first_time_edit = true;
            proof {
                reveal_strlit("");
                assert(""@ =~= Seq::<char>::empty());
                assert(section_views(self.sections@) =~= old(self)@.sections.update(
                    s as int,
                    old(self)@.sections[s as int].with_task_appended(),
                ));
            }
        }
    }

    /// Adds an untitled section at the end of the list and opens its title for editing.
    pub fn append_section(&mut self)
        ensures
            final(self)@ == (AppView {
                sections: old(self)@.sections.push(
                    SectionView {
                        title: Seq::empty(),
                        tasks: Seq::empty(),
                        edit: true,
                        delete: false,
                    },
                ),
                mode: Mode::Edit,
                first_time_edit: true,
                ..old(self)@
            }),
    {
        self.add_section("", true);
        self.mode = Mode::Edit;
        self.first_time_edit = true;
        proof {
            reveal_strlit("");
            assert(""@ =~= Seq::<char>::empty());
        }
    }

    /// Says whether an editor that was just opened still waits for the keyboard focus,
    /// and notes that it now has it.
    pub fn take_focus(&mut self) -> (wanted: bool)
        ensures
            wanted == old(self)@.first_time_edit,
            final(self)@ == (AppView { first_time_edit: false, ..old(self)@ }),
    {
        let wanted = self.first_time_edit;
        self.first_time_edit = false;
        wanted
    }

    /// Sweeps the tasks that are marked for deletion out of every section.
    pub fn sweep_tasks(&mut self)
        ensures
            final(self)@ == (AppView {
                sections: old(self)@.sections.map_values(|s: SectionView| s.swept()),
                ..old(self)@
            }),
    {
        let ghost before = section_views(self.sections@);
        let mut i: usize = 0;
        while i < self.sections.len()
            invariant
                i <= self.sections.len(),
                self.sections.len() == before.len(),
                before == old(self)@.sections,
                self@ == (AppView { sections: section_views(self.sections@), ..old(self)@ }),
                forall|k: int| 0 <= k < i ==> section_views(self.sections@)[k] == before[k].swept(),
                forall|k: int|
                    i <= k < before.len() ==> section_views(self.sections@)[k] == before[k],
            decreases self.sections.len() - i,
        {
            let ghost prev = section_views(self.sections@);
            self.sections[i].sweep();
            proof {
                let next = section_views(self.sections@);
                assert forall|k: int| 0 <= k < i + 1 implies next[k] == before[k].swept() by {
                    assert(k < i ==> prev[k] == before[k].swept());
                }
            }
            i += 1;
        }
        assert(section_views(self.sections@) =~= before.map_values(|s: SectionView| s.swept()));
    }

    /// Clears the finished tasks out of every section, and removes the sections that
    /// are left without tasks or were marked for deletion.
    pub fn clean_tasks(&mut self)
        ensures
            final(self)@ == (AppView { sections: cleaned(old(self)@.sections), ..old(self)@ }),
    {
        clean_sections(&mut self.sections);
    }

    /// Empties the three buffers.
    fn drop_buffers(&mut self)
        ensures
            final(self)@ == old(self)@.without_buffers(),
            final(self).curr_date == old(self).curr_date,
    {
        self.edit_content = EditBuffer::create_empty();
        self.edit_weight = EditBuffer::create_empty();
        self.edit_waist = EditBuffer::create_empty();
    }

    /// Moves typing on to the next field.
    pub fn next_field(&mut self)
        ensures
            final(self)@ == (AppView {
                edit_value: old(self)@.edit_value.following(),
                ..old(self)@
            }),
    {
        self.edit_value = self.edit_value.next();
    }

    /// Types the character `c` into the active field. A measurement takes only digits
    /// and one decimal point; what it does not take is dropped.
    pub fn input_char(&mut self, c: char)
        ensures
            final(self)@ == old(self)@.typed(c),
    {
        if self.curr_screen == CurrScreen::Editing {
            match self.edit_value {
                EditValue::Content => {
                    self.edit_content.insert_char(c);
                },
                EditValue::Weight => {
                    if char_is_digit(c) || (c == '.' && !self.edit_weight.contains('.')) {
                        self.edit_weight.insert_char(c);
                    }
                },
                EditValue::Waist => {
                    if char_is_digit(c) || (c == '.' && !self.edit_waist.contains('.')) {
                        self.edit_waist.insert_char(c);
                    }
                },
            }
        }
    }
}

/// The buffer in which a measurement is edited.
fn measurement_editor(m: Option<Measurement>) -> (buffer: EditBuffer)
    ensures
        buffer@ == measurement_buffer(measured(m)),
{
    match m {
        Some(m) => EditBuffer::create_from(m.to_text().as_str(), 0),
        None => EditBuffer::create_empty(),
    }
}

/// Editing a day that has no entry starts with three empty buffers, and committing
/// them as they are leaves the diary as it was.
pub proof fn lemma_empty_edit_adds_nothing(v: AppView)
    requires
        v.curr_screen == CurrScreen::Main,
        lookup(v.entries, v.curr_date) is None,
    ensures
        v.begun_edit().curr_screen == CurrScreen::Editing,
        v.begun_edit().edit_content == BufferView::empty(),
        v.begun_edit().edit_weight == BufferView::empty(),
        v.begun_edit().edit_waist == BufferView::empty(),
        v.begun_edit().edited_entry().is_empty(),
        v.begun_edit().committed().entries == v.entries,
        v.begun_edit().committed().curr_screen == CurrScreen::Main,
{
}

/// Editing a day's entry and committing without a keystroke leaves the diary as it
/// was.
pub proof fn lemma_untouched_edit_changes_nothing(v: AppView)
    requires
        sorted(v.entries),
        v.curr_screen == CurrScreen::Main,
        forall|i: int|
            0 <= i < v.entries.len() ==> (#[trigger] v.entries[i]).weight_kg.unwrap_or(0)
                <= u32::MAX && v.entries[i].waist_cm.unwrap_or(0) <= u32::MAX,
    ensures
        v.begun_edit().committed().entries == v.entries,
        v.begun_edit().committed().curr_screen == CurrScreen::Main,
{
    match lookup(v.entries, v.curr_date) {
        Some(e) => {
            lemma_rank_splits(v.entries, v.curr_date);
            lemma_from_text_at_zero(e.content);
            if let Some(w) = e.weight_kg {
                lemma_parsed_formatted(w);
                lemma_from_text_at_zero(formatted(w));
            }
            if let Some(w) = e.waist_cm {
                lemma_parsed_formatted(w);
                lemma_from_text_at_zero(formatted(w));
            }
        },
        None => {},
    }
}

/// Cancelling an edit and then declining to discard it resumes the edit with
/// nothing lost; confirming instead returns to the main screen with empty buffers. In
/// neither case does the diary change.
pub proof fn lemma_cancel_keeps_diary(v: AppView)
    requires
        v.curr_screen == CurrScreen::Editing,
    ensures
        v.cancelled().answered(false) == v,
        v.cancelled().answered(true) == (AppView {
            curr_screen: CurrScreen::Main,
            ..v.without_buffers()
        }),
        v.cancelled().answered(true).entries == v.entries,
{
}

/// Going round the three fields once comes back to the field where typing was.
pub proof fn lemma_fields_cycle(field: EditValue)
    ensures
        field.following().following().following() == field,
        field.following() != field,
{
}

} // verus!
