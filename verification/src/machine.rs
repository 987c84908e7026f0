//! The interaction machine: which surface is active, what is selected, what
//! the form holds, and what each key does to all of it.

use crate::date::{Date, DateStyle};
use crate::scroll::{fresh, ticked, ScrollState};
use crate::store::{last_index_of, probe, Probe, Record, RecordStore};
use crate::text::{pop_char, push_char, string_of, without_last};
use crate::validate::{date_ok, validate_date, validate_weight, weight_ok};
use crate::weight::{format_tenths, tenths_text, weight_of};
use crate::window::{step_anchor, stepped, ViewMode};
use vstd::prelude::*;
use vstd::string::StrSliceExecFns;

verus! {

/// How long a banner stays, in milliseconds.
pub const BANNER_MS: u64 = 3000;

/// The two halves of the main view.
#[derive(Clone, Copy, Debug, PartialEq, Eq, Structural)]
pub enum Frame {
    Table,
    Chart,
}

/// The surface that takes the keys.
#[derive(Clone, Copy, Debug, PartialEq, Eq, Structural)]
pub enum Modal {
    Main,
    ConfirmClose,
    Form,
}

/// What the form is open for.
#[derive(Clone, Copy, Debug, PartialEq, Eq, Structural)]
pub enum FormMode {
    Append,
    Edit,
}

/// The fields of the form.
#[derive(Clone, Copy, Debug, PartialEq, Eq, Structural)]
pub enum Field {
    Date,
    Weight,
}

/// How grave a banner is.
#[derive(Clone, Copy, Debug, PartialEq, Eq, Structural)]
pub enum Severity {
    Info,
    Warning,
    Error,
}

/// A key as the machine sees it.
#[derive(Clone, Copy, Debug, PartialEq, Eq, Structural)]
pub enum Key {
    Esc,
    Enter,
    Tab,
    Backspace,
    Char(char),
    Other,
}

/// A passing message.
#[derive(Debug, PartialEq, Eq)]
pub struct Banner {
    pub text: String,
    pub severity: Severity,
    pub created_ms: u64,
}

/// The anchor of each view mode; each keeps its place while another mode is
/// shown.
#[derive(Clone, Copy, Debug, PartialEq, Eq, Structural)]
pub struct Anchors {
    pub month: Date,
    pub year: Date,
    pub rolling: Date,
}

/// A banner, its text as characters.
pub struct BannerView {
    pub text: Seq<char>,
    pub severity: Severity,
    pub created_ms: u64,
}

/// The open form, its texts as characters.
pub struct FormView {
    pub mode: FormMode,
    pub date_text: Seq<char>,
    pub weight_text: Seq<char>,
    pub date_valid: bool,
    pub weight_valid: bool,
    pub focus: Field,
}

/// The state of the machine as plain values.
pub struct AppView {
    pub records: Seq<Record>,
    pub modal: Modal,
    pub frame: Frame,
    pub mode: ViewMode,
    pub anchors: Anchors,
    pub selection: Option<usize>,
    pub form: Option<FormView>,
    pub banner: Option<BannerView>,
    pub delete_armed: bool,
    pub closed: bool,
    pub scroll: ScrollState,
}

/// The application: the store and everything the keys act on.
pub struct App {
    pub store: RecordStore,
    pub modal: Modal,
    pub frame: Frame,
    pub mode: ViewMode,
    pub anchors: Anchors,
    pub selection: Option<usize>,
    pub form_mode: FormMode,
    pub date_text: String,
    pub weight_text: String,
    pub date_valid: bool,
    pub weight_valid: bool,
    pub focus: Field,
    pub banner: Option<Banner>,
    pub delete_armed: bool,
    pub closed: bool,
    pub scroll: ScrollState,
}

/// The other frame.
pub open spec fn other_frame(frame: Frame) -> Frame {
    match frame {
        Frame::Table => Frame::Chart,
        Frame::Chart => Frame::Table,
    }
}

/// The other field.
pub open spec fn other_field(field: Field) -> Field {
    match field {
        Field::Date => Field::Weight,
        Field::Weight => Field::Date,
    }
}

/// The mode after `mode` in the cycle month, year, rolling year.
pub open spec fn next_mode(mode: ViewMode) -> ViewMode {
    match mode {
        ViewMode::Month => ViewMode::Year,
        ViewMode::Year => ViewMode::RollingYear,
        ViewMode::RollingYear => ViewMode::Month,
    }
}

/// The mode before `mode` in the cycle month, year, rolling year.
pub open spec fn previous_mode(mode: ViewMode) -> ViewMode {
    match mode {
        ViewMode::Month => ViewMode::RollingYear,
        ViewMode::Year => ViewMode::Month,
        ViewMode::RollingYear => ViewMode::Year,
    }
}

/// The anchor of a mode.
pub open spec fn anchor_of(anchors: Anchors, mode: ViewMode) -> Date {
    match mode {
        ViewMode::Month => anchors.month,
        ViewMode::Year => anchors.year,
        ViewMode::RollingYear => anchors.rolling,
    }
}

/// The anchors with that of one mode replaced.
pub open spec fn with_anchor(anchors: Anchors, mode: ViewMode, date: Date) -> Anchors {
    match mode {
        ViewMode::Month => Anchors { month: date, ..anchors },
        ViewMode::Year => Anchors { year: date, ..anchors },
        ViewMode::RollingYear => Anchors { rolling: date, ..anchors },
    }
}

/// The key hints of a surface.
pub open spec fn hint_of(modal: Modal, frame: Frame) -> Seq<char> {
    match modal {
        Modal::ConfirmClose => "Esc/n => back to main window | Enter/y => quit app"@,
        Modal::Form => "Esc => go to main window | Tab => switch input box | Enter => submit form"@,
        Modal::Main => match frame {
            Frame::Chart => "Esc/q: quit app | a: append table | e: edit selected row | j/k: cycle chart | h/l: (-/+)x-axis"@,
            Frame::Table => "Esc/q: quit app | a: append table | e: edit selected row | j/k: (↓/↑) 1 row | d: delete 1 row"@,
        },
    }
}

/// The machine back on the main view, the form discarded.
pub open spec fn back_to_main(s: AppView) -> AppView {
    AppView { modal: Modal::Main, form: None, scroll: fresh(), ..s }
}

/// The machine asking whether to quit.
pub open spec fn asking_to_close(s: AppView) -> AppView {
    AppView { modal: Modal::ConfirmClose, form: None, scroll: fresh(), ..s }
}

/// The machine with a banner posted.
pub open spec fn with_banner(s: AppView, text: Seq<char>, severity: Severity, now_ms: u64) -> AppView {
    AppView { banner: Some(BannerView { text, severity, created_ms: now_ms }), ..s }
}

/// After `Esc`: the main view asks whether to quit; the other surfaces go
/// back to the main view.
pub open spec fn escaped(s: AppView) -> AppView {
    match s.modal {
        Modal::Main => asking_to_close(s),
        _ => back_to_main(s),
    }
}

/// The form after both fields were validated anew.
pub open spec fn checked(f: FormView) -> FormView {
    FormView { date_valid: date_ok(f.date_text), weight_valid: weight_ok(f.weight_text), ..f }
}

/// The sentence that names the fields that did not validate.
pub open spec fn invalid_text(date_valid: bool, weight_valid: bool) -> Seq<char> {
    if date_valid {
        "Invalid weight format!"@
    } else if weight_valid {
        "Invalid date format!"@
    } else {
        "Invalid weight & date format!"@
    }
}

/// After `Enter` in the form. Both fields are validated anew. Where one is
/// invalid the form stays and an error banner names it. Else, to append, the
/// record goes into the store, the last row is selected and the main view
/// returns; a date the store meets leaves the form open under an error
/// banner. To edit, the weight of the selected row is replaced.
pub open spec fn submitted(s: AppView, now_ms: u64) -> AppView {
    match s.form {
        None => s,
        Some(f) => {
            let held = AppView { form: Some(checked(f)), ..s };
            if date_ok(f.date_text) && weight_ok(f.weight_text) {
                let date = Date::parsed(f.date_text).unwrap();
                let tenths = weight_of(f.weight_text).unwrap();
                match f.mode {
                    FormMode::Append => match probe(s.records, date, 0, s.records.len() as int) {
                        Probe::Found(_) => with_banner(
                            held,
                            "Cannot add element. Did you mean to edit?"@,
                            Severity::Error,
                            now_ms,
                        ),
                        Probe::Slot(i) => {
                            let records = s.records.insert(i, Record { date, tenths });
                            AppView {
                                records,
                                selection: last_index_of(records),
                                ..back_to_main(s)
                            }
                        },
                    },
                    FormMode::Edit => match s.selection {
                        Some(i) => if i < s.records.len() {
                            let records = s.records.update(
                                i as int,
                                Record { date: s.records[i as int].date, tenths },
                            );
                            AppView {
                                records,
                                selection: last_index_of(records),
                                ..back_to_main(s)
                            }
                        } else {
                            held
                        },
                        None => held,
                    },
                }
            } else {
                with_banner(
                    held,
                    invalid_text(date_ok(f.date_text), weight_ok(f.weight_text)),
                    Severity::Error,
                    now_ms,
                )
            }
        },
    }
}

/// After `Enter`: the main view ignores it, the question whether to quit is
/// answered with yes, the form is submitted.
pub open spec fn entered(s: AppView, now_ms: u64) -> AppView {
    match s.modal {
        Modal::Main => s,
        Modal::ConfirmClose => AppView { closed: true, ..s },
        Modal::Form => submitted(s, now_ms),
    }
}

/// After `Tab`: the main view shows its other frame; the form, when open to
/// append, moves the focus to its other field.
pub open spec fn tabbed(s: AppView) -> AppView {
    match s.modal {
        Modal::Main => AppView { frame: other_frame(s.frame), ..s },
        Modal::ConfirmClose => s,
        Modal::Form => match s.form {
            Some(f) => if f.mode == FormMode::Append {
                AppView { form: Some(FormView { focus: other_field(f.focus), ..f }), ..s }
            } else {
                s
            },
            None => s,
        },
    }
}

/// The text of the field in focus.
pub open spec fn focused_text(f: FormView) -> Seq<char> {
    match f.focus {
        Field::Date => f.date_text,
        Field::Weight => f.weight_text,
    }
}

/// The form with a new text in the field in focus, that field validated.
pub open spec fn with_focused_text(f: FormView, text: Seq<char>) -> FormView {
    match f.focus {
        Field::Date => FormView { date_text: text, date_valid: date_ok(text), ..f },
        Field::Weight => FormView { weight_text: text, weight_valid: weight_ok(text), ..f },
    }
}

/// After a character in the form: it goes to the end of the field in focus.
pub open spec fn inserted(s: AppView, c: char) -> AppView {
    match s.form {
        Some(f) => AppView { form: Some(with_focused_text(f, focused_text(f).push(c))), ..s },
        None => s,
    }
}

/// After `Backspace`: the form loses the last character of the field in
/// focus; the other surfaces ignore it.
pub open spec fn erased(s: AppView) -> AppView {
    match s.form {
        Some(f) => AppView {
            form: Some(with_focused_text(f, without_last(focused_text(f)))),
            ..s
        },
        None => s,
    }
}

/// The selection one row down, or where it is at the last row.
pub open spec fn selection_down(selection: Option<usize>, len: nat) -> Option<usize> {
    match selection {
        Some(i) => if i + 1 < len { Some((i + 1) as usize) } else { selection },
        None => None,
    }
}

/// The selection one row up, or where it is at the first row.
pub open spec fn selection_up(selection: Option<usize>) -> Option<usize> {
    match selection {
        Some(i) => if i > 0 { Some((i - 1) as usize) } else { selection },
        None => None,
    }
}

/// The form opened to append: the date field holds today, the weight field
/// is empty and has the focus.
pub open spec fn append_form(s: AppView, today: Date) -> AppView {
    AppView {
        modal: Modal::Form,
        scroll: fresh(),
        form: Some(
            FormView {
                mode: FormMode::Append,
                date_text: today.text(),
                weight_text: Seq::empty(),
                date_valid: true,
                weight_valid: false,
                focus: Field::Weight,
            },
        ),
        ..s
    }
}

/// The form opened to edit the selected row: both fields hold what the row
/// holds, the weight field has the focus. Without a selection nothing opens.
pub open spec fn edit_form(s: AppView) -> AppView {
    match s.selection {
        Some(i) => if i < s.records.len() {
            AppView {
                modal: Modal::Form,
                scroll: fresh(),
                form: Some(
                    FormView {
                        mode: FormMode::Edit,
                        date_text: s.records[i as int].date.text(),
                        weight_text: tenths_text(s.records[i as int].tenths as nat),
                        date_valid: true,
                        weight_valid: s.records[i as int].tenths > 0,
                        focus: Field::Weight,
                    },
                ),
                ..s
            }
        } else {
            s
        },
        None => s,
    }
}

/// After `d` on the table. Unarmed, the key arms the deletion and posts a
/// warning. Armed, it deletes the selected row, selects the last row that is
/// left, disarms and takes the banner down.
pub open spec fn delete_pressed(s: AppView, now_ms: u64) -> AppView {
    if s.delete_armed {
        match s.selection {
            Some(i) => if i < s.records.len() {
                let records = s.records.remove(i as int);
                AppView {
                    records,
                    selection: last_index_of(records),
                    delete_armed: false,
                    banner: None,
                    ..s
                }
            } else {
                AppView { delete_armed: false, banner: None, ..s }
            },
            None => AppView { delete_armed: false, banner: None, ..s },
        }
    } else {
        AppView {
            delete_armed: true,
            ..with_banner(s, "Press 'd' again to confirm deletion"@, Severity::Warning, now_ms)
        }
    }
}

/// After a character on the table.
pub open spec fn table_key(s: AppView, c: char, today: Date, now_ms: u64) -> AppView {
    if c == 'q' {
        asking_to_close(s)
    } else if c == 'j' {
        AppView { selection: selection_down(s.selection, s.records.len()), ..s }
    } else if c == 'k' {
        AppView { selection: selection_up(s.selection), ..s }
    } else if c == 'a' {
        append_form(s, today)
    } else if c == 'e' {
        edit_form(s)
    } else if c == 'd' {
        delete_pressed(s, now_ms)
    } else {
        s
    }
}

/// After a character on the chart.
pub open spec fn chart_key(s: AppView, c: char) -> AppView {
    if c == 'q' {
        asking_to_close(s)
    } else if c == 'j' {
        AppView { mode: next_mode(s.mode), ..s }
    } else if c == 'k' {
        AppView { mode: previous_mode(s.mode), ..s }
    } else if c == 'h' || c == 'l' {
        AppView {
            anchors: with_anchor(
                s.anchors,
                s.mode,
                stepped(s.mode, anchor_of(s.anchors, s.mode), c == 'l'),
            ),
            ..s
        }
    } else {
        s
    }
}

/// After a character.
pub open spec fn typed(s: AppView, c: char, today: Date, now_ms: u64) -> AppView {
    match s.modal {
        Modal::Main => match s.frame {
            Frame::Table => table_key(s, c, today, now_ms),
            Frame::Chart => chart_key(s, c),
        },
        Modal::ConfirmClose => if c == 'y' {
            AppView { closed: true, ..s }
        } else if c == 'n' {
            back_to_main(s)
        } else {
            s
        },
        Modal::Form => inserted(s, c),
    }
}

/// The machine after a key. Any key but `d` disarms a pending deletion.
pub open spec fn step(s: AppView, key: Key, today: Date, now_ms: u64) -> AppView {
    let base = AppView { delete_armed: s.delete_armed && key == Key::Char('d'), ..s };
    match key {
        Key::Esc => escaped(base),
        Key::Enter => entered(base, now_ms),
        Key::Tab => tabbed(base),
        Key::Backspace => erased(base),
        Key::Char(c) => typed(base, c, today, now_ms),
        Key::Other => base,
    }
}

/// Whether a banner posted at `created_ms` has had its time at `now_ms`.
pub open spec fn expired(created_ms: u64, now_ms: u64) -> bool {
    now_ms >= created_ms && now_ms - created_ms >= BANNER_MS
}

/// The machine after a render tick. A banner that has had its time comes
/// down, and a pending deletion is disarmed with it. While no banner is up,
/// the marquee of the key hints moves on.
pub open spec fn after_tick(s: AppView, width: usize, now_ms: u64) -> AppView {
    match s.banner {
        Some(b) => if expired(b.created_ms, now_ms) {
            AppView { banner: None, delete_armed: false, ..s }
        } else {
            s
        },
        None => AppView {
            scroll: ticked(s.scroll, hint_of(s.modal, s.frame).len() as usize, width, now_ms),
            ..s
        },
    }
}

/// On the table, with a row selected and no deletion pending: one `d` posts
/// the warning and leaves every record; a second `d` right after it removes
/// the selected row, selects the last row that is left and disarms.
pub proof fn lemma_delete_takes_two_presses(
    s: AppView,
    row: usize,
    today: Date,
    first_ms: u64,
    second_ms: u64,
)
    requires
        s.modal == Modal::Main,
        s.frame == Frame::Table,
        !s.delete_armed,
        s.selection == Some(row),
        row < s.records.len(),
    ensures
        ({
            let once = step(s, Key::Char('d'), today, first_ms);
            let twice = step(once, Key::Char('d'), today, second_ms);
            &&& once.records == s.records
            &&& once.selection == s.selection
            &&& once.delete_armed
            &&& once.banner == Some(
                BannerView {
                    text: "Press 'd' again to confirm deletion"@,
                    severity: Severity::Warning,
                    created_ms: first_ms,
                },
            )
            &&& twice.records == s.records.remove(row as int)
            &&& twice.selection == last_index_of(s.records.remove(row as int))
            &&& !twice.delete_armed
            &&& twice.banner is None
        }),
{
}

/// A key other than `d` between two presses of `d` leaves every record.
pub proof fn lemma_other_key_disarms(s: AppView, key: Key, today: Date, now_ms: u64)
    requires
        key != Key::Char('d'),
    ensures
        !step(s, key, today, now_ms).delete_armed,
{
}

impl Banner {
    /// The banner as plain values.
    pub open spec fn view(&self) -> BannerView {
        BannerView { text: self.text@, severity: self.severity, created_ms: self.created_ms }
    }
}

impl App {
    /// The state as plain values; the form only while it is open.
    pub open spec fn view(&self) -> AppView {
        AppView {
            records: self.store@,
            modal: self.modal,
            frame: self.frame,
            mode: self.mode,
            anchors: self.anchors,
            selection: self.selection,
            form: if self.modal == Modal::Form {
                Some(
                    FormView {
                        mode: self.form_mode,
                        date_text: self.date_text@,
                        weight_text: self.weight_text@,
                        date_valid: self.date_valid,
                        weight_valid: self.weight_valid,
                        focus: self.focus,
                    },
                )
            } else {
                None
            },
            banner: match self.banner {
                Some(b) => Some(b.view()),
                None => None,
            },
            delete_armed: self.delete_armed,
            closed: self.closed,
            scroll: self.scroll,
        }
    }

    /// The dates exist, and a row of the table is selected exactly while
    /// there are rows.
    pub open spec fn wf(&self) -> bool {
        &&& self.store.wf()
        &&& self.anchors.month.wf()
        &&& self.anchors.year.wf()
        &&& self.anchors.rolling.wf()
        &&& self.selection matches Some(i) ==> i < self.store@.len()
        &&& self.store@.len() > 0 ==> self.selection is Some
    }

    /// The machine at its start: the main view with the table in front, the
    /// month of `today` in the chart, every anchor on `today`, and the last
    /// row selected where there is one.
    pub fn new(store: RecordStore, today: Date) -> (r: App)
        requires
            store.wf(),
            today.wf(),
        ensures
            r.wf(),
            r@ == (AppView {
                records: store@,
                modal: Modal::Main,
                frame: Frame::Table,
                mode: ViewMode::Month,
                anchors: Anchors { month: today, year: today, rolling: today },
                selection: last_index_of(store@),
                form: None,
                banner: None,
                delete_armed: false,
                closed: false,
                scroll: fresh(),
            }),
    {
        let selection = store.last_index();
        App {
            store,
            modal: Modal::Main,
            frame: Frame::Table,
            mode: ViewMode::Month,
            anchors: Anchors { month: today, year: today, rolling: today },
            selection,
            form_mode: FormMode::Append,
            date_text: String::new(),
            weight_text: String::new(),
            date_valid: false,
            weight_valid: false,
            focus: Field::Weight,
            banner: None,
            delete_armed: false,
            closed: false,
            scroll: ScrollState::new(),
        }
    }

    /// The key hints of the active surface.
    pub fn hint(&self) -> (r: &'static str)
        ensures
            r@ == hint_of(self.modal, self.frame),
    {
        match self.modal {
            Modal::ConfirmClose => "Esc/n => back to main window | Enter/y => quit app",
            Modal::Form => "Esc => go to main window | Tab => switch input box | Enter => submit form",
            Modal::Main => match self.frame {
                Frame::Chart => "Esc/q: quit app | a: append table | e: edit selected row | j/k: cycle chart | h/l: (-/+)x-axis",
                Frame::Table => "Esc/q: quit app | a: append table | e: edit selected row | j/k: (↓/↑) 1 row | d: delete 1 row",
            },
        }
    }

    /// The rows of the table: of each record the date as `DD-MM-YYYY` and the
    /// weight with one decimal place.
    pub fn table_rows(&self) -> (r: Vec<(String, String)>)
        requires
            self.wf(),
        ensures
            r@.len() == self@.records.len(),
            forall|i: int|
                0 <= i < r@.len() ==> (#[trigger] r@[i]).0@ == self@.records[i].date.text()
                    && r@[i].1@ == tenths_text(self@.records[i].tenths as nat),
    {
        let mut out: Vec<(String, String)> = Vec::new();
        let count = self.store.len();
        let mut i: usize = 0;
        while i < count
            invariant
                0 <= i <= count,
                count == self.store@.len(),
                self.wf(),
                out@.len() == i,
                forall|k: int|
                    0 <= k < i ==> (#[trigger] out@[k]).0@ == self.store@[k].date.text()
                        && out@[k].1@ == tenths_text(self.store@[k].tenths as nat),
            decreases count - i,
        {
            let record = self.store.get(i).unwrap();
            let weight = format_tenths(record.tenths);
            out.push((record.date.format(DateStyle::Full), string_of(&weight)));
            i = i + 1;
        }
        out
    }

    /// The anchor of the mode that the chart shows.
    pub fn anchor(&self) -> (r: Date)
        ensures
            r == anchor_of(self.anchors, self.mode),
    {
        match self.mode {
            ViewMode::Month => self.anchors.month,
            ViewMode::Year => self.anchors.year,
            ViewMode::RollingYear => self.anchors.rolling,
        }
    }

    /// Posts a banner.
    pub fn post(&mut self, text: &str, severity: Severity, now_ms: u64)
        ensures
            final(self)@ == with_banner(old(self)@, text@, severity, now_ms),
            final(self).wf() == old(self).wf(),
    {
        self.banner = Some(Banner { text: text.to_owned(), severity, created_ms: now_ms });
    }

    /// Goes back to the main view and discards the form.
    pub fn leave_form(&mut self)
        ensures
            final(self)@ == back_to_main(old(self)@),
            final(self).wf() == old(self).wf(),
    {
        self.modal = Modal::Main;
        self.date_text = String::new();
        self.weight_text = String::new();
        self.date_valid = false;
        self.weight_valid = false;
        self.focus = Field::Weight;
        self.scroll = ScrollState::new();
    }

    /// Asks whether to quit.
    pub fn ask_to_close(&mut self)
        ensures
            final(self)@ == asking_to_close(old(self)@),
            final(self).wf() == old(self).wf(),
    {
        self.modal = Modal::ConfirmClose;
        self.scroll = ScrollState::new();
    }

    /// Shows the other frame of the main view.
    pub fn toggle_frame(&mut self)
        ensures
            *final(self) == (App { frame: other_frame(old(self).frame), ..*old(self) }),
    {
        self.frame = match self.frame {
            Frame::Chart => Frame::Table,
            Frame::Table => Frame::Chart,
        };
    }

    /// Shows the next view mode: month, year, rolling year, month.
    pub fn cycle_next_tf(&mut self)
        ensures
            *final(self) == (App { mode: next_mode(old(self).mode), ..*old(self) }),
    {
        self.mode = match self.mode {
            ViewMode::RollingYear => ViewMode::Month,
            ViewMode::Year => ViewMode::RollingYear,
            ViewMode::Month => ViewMode::Year,
        };
    }

    /// Shows the view mode before: month, rolling year, year, month.
    pub fn cycle_prev_tf(&mut self)
        ensures
            *final(self) == (App { mode: previous_mode(old(self).mode), ..*old(self) }),
    {
        self.mode = match self.mode {
            ViewMode::Month => ViewMode::RollingYear,
            ViewMode::RollingYear => ViewMode::Year,
            ViewMode::Year => ViewMode::Month,
        };
    }

    /// Submits the form.
    pub fn submit(&mut self, now_ms: u64)
        requires
            old(self).wf(),
        ensures
            final(self).wf(),
            final(self)@ == submitted(old(self)@, now_ms),
    {
        if self.modal != Modal::Form {
            return ;
        }
        let date = validate_date(self.date_text.as_str());
        let weight = validate_weight(self.weight_text.as_str());
        self.date_valid = date.is_ok();
        self.weight_valid = weight.is_ok();
        match (date, weight) {
            (Ok(day), Ok(tenths)) => {
                match self.form_mode {
                    FormMode::Append => {
                        match self.store.append(day, tenths) {
                            Ok(_) => {
                                self.leave_form();
                                self.selection = self.store.last_index();
                            },
                            Err(_) => {
                                self.post(
                                    "Cannot add element. Did you mean to edit?",
                                    Severity::Error,
                                    now_ms,
                                );
                            },
                        }
                    },
                    FormMode::Edit => {
                        match self.selection {
                            Some(i) => {
                                let _ = self.store.edit(i, tenths);
                                self.leave_form();
                                self.selection = self.store.last_index();
                            },
                            None => {},
                        }
                    },
                }
            },
            (Ok(_), Err(_)) => {
                self.post("Invalid weight format!", Severity::Error, now_ms);
            },
            (Err(_), Ok(_)) => {
                self.post("Invalid date format!", Severity::Error, now_ms);
            },
            (Err(_), Err(_)) => {
                self.post("Invalid weight & date format!", Severity::Error, now_ms);
            },
        }
    }

    /// Opens the form to append a record dated today.
    pub fn open_append(&mut self, today: Date)
        requires
            old(self).wf(),
            today.wf(),
        ensures
            final(self).wf(),
            final(self)@ == append_form(old(self)@, today),
    {
        self.modal = Modal::Form;
        self.scroll = ScrollState::new();
        self.form_mode = FormMode::Append;
        self.date_text = today.format(DateStyle::Full);
        self.weight_text = String::new();
        self.date_valid = true;
        self.weight_valid = false;
        self.focus = Field::Weight;
    }

    /// Opens the form to edit the selected row.
    pub fn open_edit(&mut self)
        requires
            old(self).wf(),
        ensures
            final(self).wf(),
            final(self)@ == edit_form(old(self)@),
    {
        match self.selection {
            Some(i) => {
                let record = self.store.get(i).unwrap();
                self.modal = Modal::Form;
                self.scroll = ScrollState::new();
                self.form_mode = FormMode::Edit;
                self.date_text = record.date.format(DateStyle::Full);
                let weight = format_tenths(record.tenths);
                self.weight_text = string_of(&weight);
                self.date_valid = true;
                self.weight_valid = record.tenths > 0;
                self.focus = Field::Weight;
            },
            None => {},
        }
    }

    /// Handles `d` on the table.
    pub fn press_delete(&mut self, now_ms: u64)
        requires
            old(self).wf(),
        ensures
            final(self).wf(),
            final(self)@ == delete_pressed(old(self)@, now_ms),
    {
        if self.delete_armed {
            match self.selection {
                Some(i) => {
                    let _ = self.store.delete(i);
                    self.selection = self.store.last_index();
                },
                None => {},
            }
            self.delete_armed = false;
            self.banner = None;
        } else {
            self.post("Press 'd' again to confirm deletion", Severity::Warning, now_ms);
            self.delete_armed = true;
        }
    }

    /// Puts a character into the field in focus, or takes the last one off.
    fn edit_focused(&mut self, c: Option<char>)
        requires
            old(self).wf(),
            old(self).modal == Modal::Form,
        ensures
            final(self).wf(),
            final(self)@ == (match c {
                Some(ch) => inserted(old(self)@, ch),
                None => erased(old(self)@),
            }),
    {
        match self.focus {
            Field::Date => {
                match c {
                    Some(ch) => push_char(&mut self.date_text, ch),
                    None => pop_char(&mut self.date_text),
                }
                self.date_valid = validate_date(self.date_text.as_str()).is_ok();
            },
            Field::Weight => {
                match c {
                    Some(ch) => push_char(&mut self.weight_text, ch),
                    None => pop_char(&mut self.weight_text),
                }
                self.weight_valid = validate_weight(self.weight_text.as_str()).is_ok();
            },
        }
    }

    /// Handles a character on the main view.
    fn main_key(&mut self, c: char, today: Date, now_ms: u64)
        requires
            old(self).wf(),
            today.wf(),
            old(self).modal == Modal::Main,
        ensures
            final(self).wf(),
            final(self)@ == typed(old(self)@, c, today, now_ms),
    {
        match self.frame {
            Frame::Table => {
                if c == 'q' {
                    self.ask_to_close();
                } else if c == 'j' {
                    match self.selection {
                        Some(i) => {
                            let len = self.store.len();
                            if i + 1 < len {
                                self.selection = Some(i + 1);
                            }
                        },
                        None => {},
                    }
                } else if c == 'k' {
                    match self.selection {
                        Some(i) => {
                            if i > 0 {
                                self.selection = Some(i - 1);
                            }
                        },
                        None => {},
                    }
                } else if c == 'a' {
                    self.open_append(today);
                } else if c == 'e' {
                    self.open_edit();
                } else if c == 'd' {
                    self.press_delete(now_ms);
                }
            },
            Frame::Chart => {
                if c == 'q' {
                    self.ask_to_close();
                } else if c == 'j' {
                    self.cycle_next_tf();
                } else if c == 'k' {
                    self.cycle_prev_tf();
                } else if c == 'h' || c == 'l' {
                    let moved = step_anchor(self.mode, self.anchor(), c == 'l');
                    match self.mode {
                        ViewMode::Month => { self.anchors.month = moved; },
                        ViewMode::Year => { self.anchors.year = moved; },
                        ViewMode::RollingYear => { self.anchors.rolling = moved; },
                    }
                }
            },
        }
    }

    /// Handles a key.
    pub fn handle_key(&mut self, key: Key, today: Date, now_ms: u64)
        requires
            old(self).wf(),
            today.wf(),
        ensures
            final(self).wf(),
            final(self)@ == step(old(self)@, key, today, now_ms),
    {
        let keeps_armed = match key {
            Key::Char(c) => c == 'd',
            _ => false,
        };
        if !keeps_armed {
            self.delete_armed = false;
        }
        match key {
            Key::Esc => {
                match self.modal {
                    Modal::Main => self.ask_to_close(),
                    _ => self.leave_form(),
                }
            },
            Key::Enter => {
                match self.modal {
                    Modal::Main => {},
                    Modal::ConfirmClose => { self.closed = true; },
                    Modal::Form => self.submit(now_ms),
                }
            },
            Key::Tab => {
                match self.modal {
                    Modal::Main => self.toggle_frame(),
                    Modal::ConfirmClose => {},
                    Modal::Form => {
                        if self.form_mode == FormMode::Append {
                            self.focus = match self.focus {
                                Field::Date => Field::Weight,
                                Field::Weight => Field::Date,
                            };
                        }
                    },
                }
            },
            Key::Backspace => {
                if self.modal == Modal::Form {
                    self.edit_focused(None);
                }
            },
            Key::Char(c) => {
                match self.modal {
                    Modal::Main => self.main_key(c, today, now_ms),
                    Modal::ConfirmClose => {
                        if c == 'y' {
                            self.closed = true;
                        } else if c == 'n' {
                            self.leave_form();
                        }
                    },
                    Modal::Form => self.edit_focused(Some(c)),
                }
            },
            Key::Other => {},
        }
    }

    /// Lets a render tick pass.
    pub fn tick(&mut self, width: usize, now_ms: u64)
        requires
            old(self).wf(),
        ensures
            final(self).wf(),
            final(self)@ == after_tick(old(self)@, width, now_ms),
    {
        let due = match &self.banner {
            Some(b) => Some(now_ms >= b.created_ms && now_ms - b.created_ms >= BANNER_MS),
            None => None,
        };
        match due {
            Some(over) => {
                if over {
                    self.banner = None;
                    self.delete_armed = false;
                }
            },
            None => {
                let len = self.hint().unicode_len();
                self.scroll.tick(len, width, now_ms);
            },
        }
    }
}

} // verus!
