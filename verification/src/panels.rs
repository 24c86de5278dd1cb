//! Panels: what they hold and where it stands.

use vstd::prelude::*;

use crate::text::{text_eq, texts};

verus! {

/// What happens when a button is pressed.
#[derive(Debug, Clone, Copy, PartialEq, Eq, Structural)]
pub enum Action {
    PinSubmit,
    PinCancel,
    MessageDismiss,
    MessageRetry,
    SetupSubmit,
    SetupCancel,
    OpenRepository,
}

/// The key that presses a button.
#[derive(Debug, Clone, Copy, PartialEq, Eq, Structural)]
pub enum Key {
    Return,
    Escape,
}

/// One labeled row.
#[derive(Debug)]
pub struct Field {
    pub label: String,
    pub kind: Kind,
}

/// What a row asks for.
#[derive(Debug)]
pub enum Kind {
    Text {
        value: String,
        secure: bool,
        /// For secure fields: an eye button shows or hides the text.
        reveal: bool,
    },
    /// A pop-up menu. Its value is the selected option.
    Choice { options: Vec<String>, selected: usize },
}

/// A [`Field`] as characters.
#[verifier::ext_equal]
pub struct FieldModel {
    pub label: Seq<char>,
    pub kind: KindModel,
}

/// A [`Kind`] as characters.
#[verifier::ext_equal]
pub enum KindModel {
    Text { value: Seq<char>, secure: bool, reveal: bool },
    Choice { options: Seq<Seq<char>>, selected: usize },
}

impl View for Field {
    type V = FieldModel;

    open spec fn view(&self) -> FieldModel {
        FieldModel {
            label: self.label@,
            kind: match self.kind {
                Kind::Text { value, secure, reveal } => KindModel::Text {
                    value: value@,
                    secure,
                    reveal,
                },
                Kind::Choice { options, selected } => KindModel::Choice {
                    options: texts(options@),
                    selected,
                },
            },
        }
    }
}

/// A row for a text.
pub open spec fn plain_field(label: Seq<char>, value: Seq<char>) -> FieldModel {
    FieldModel { label, kind: KindModel::Text { value, secure: false, reveal: false } }
}

/// A row for a secret.
pub open spec fn secret_field(label: Seq<char>, reveal: bool) -> FieldModel {
    FieldModel { label, kind: KindModel::Text { value: Seq::empty(), secure: true, reveal } }
}

/// A row for a choice.
pub open spec fn choice_field(
    label: Seq<char>,
    options: Seq<Seq<char>>,
    selected: usize,
) -> FieldModel {
    FieldModel { label, kind: KindModel::Choice { options, selected } }
}

impl Field {
    /// A row for a text.
    pub fn plain(label: &str, value: &str) -> (field: Field)
        ensures
            field@ == plain_field(label@, value@),
    {
        Field {
            label: label.to_owned(),
            kind: Kind::Text { value: value.to_owned(), secure: false, reveal: false },
        }
    }

    /// A row for a secret.
    pub fn secret(label: &str) -> (field: Field)
        ensures
            field@ == secret_field(label@, false),
    {
        let field = Field {
            label: label.to_owned(),
            kind: Kind::Text { value: String::new(), secure: true, reveal: false },
        };
        assert(field@ =~= secret_field(label@, false));
        field
    }

    /// A row for a secret with an eye button, for long passwords that are easy to mistype.
    pub fn revealable(label: &str) -> (field: Field)
        ensures
            field@ == secret_field(label@, true),
    {
        let field = Field {
            label: label.to_owned(),
            kind: Kind::Text { value: String::new(), secure: true, reveal: true },
        };
        assert(field@ =~= secret_field(label@, true));
        field
    }

    /// A row for a choice.
    pub fn choice(label: &str, options: Vec<String>, selected: usize) -> (field: Field)
        ensures
            field@ == choice_field(label@, texts(options@), selected),
    {
        Field { label: label.to_owned(), kind: Kind::Choice { options, selected } }
    }
}

/// A button at the bottom of a panel.
#[derive(Debug)]
pub struct Button {
    pub title: String,
    pub action: Action,
    pub key: Key,
}

/// A [`Button`] as characters.
#[verifier::ext_equal]
pub struct ButtonModel {
    pub title: Seq<char>,
    pub action: Action,
    pub key: Key,
}

impl View for Button {
    type V = ButtonModel;

    open spec fn view(&self) -> ButtonModel {
        ButtonModel { title: self.title@, action: self.action, key: self.key }
    }
}

impl Button {
    /// A button.
    pub fn new(title: &str, action: Action, key: Key) -> (button: Button)
        ensures
            button@ == (ButtonModel { title: title@, action, key }),
    {
        Button { title: title.to_owned(), action, key }
    }
}

/// The width of a panel, in points.
pub const WIDTH: i64 = 420;

/// The space around a panel's content.
pub const MARGIN: i64 = 20;

/// The size of an eye button.
pub const EYE: i64 = 24;

/// The size of the app icon on each panel's left, as native alerts show it. A genuine prompt is then
/// recognizable at a glance.
pub const ICON: i64 = 56;

/// Where the message starts.
pub const TEXT_LEFT: i64 = 90;

/// The distance from one row to the next.
pub const ROW: i64 = 32;

/// A rectangle, measured from the bottom left corner of a panel.
#[derive(Debug, Clone, Copy, PartialEq, Eq, Structural)]
pub struct Rect {
    pub x: i64,
    pub y: i64,
    pub w: i64,
    pub h: i64,
}

/// The space that the buttons take.
pub open spec fn buttons_height(buttons: nat) -> int {
    if buttons == 0 {
        0
    } else {
        44
    }
}

/// The height of everything below the head, which holds the icon and the message.
pub open spec fn body_height(fields: nat, buttons: nat) -> int {
    12 + ROW * fields + buttons_height(buttons) + 12
}

/// The bottom of a row.
pub open spec fn row_bottom(fields: nat, buttons: nat, i: int) -> int {
    ROW * fields + buttons_height(buttons) + 12 - 24 - ROW * i
}

/// The height of a panel below its head.
pub fn height_below_head(fields: usize, buttons: usize) -> (height: i64)
    requires
        fields <= 0x7fff_ffff,
    ensures
        height == body_height(fields as nat, buttons as nat),
{
    12 + ROW * (fields as i64) + (if buttons == 0 {
        0i64
    } else {
        44i64
    }) + 12
}

/// The frame of a row's label.
pub open spec fn label_frame(y: int) -> Rect {
    Rect { x: MARGIN, y: (y + 2) as i64, w: 110, h: 20 }
}

/// The frame of a row's control.
pub open spec fn control_frame(kind: KindModel, y: int) -> Rect {
    match kind {
        KindModel::Text { value, secure, reveal } => Rect {
            x: (MARGIN + 116) as i64,
            y: y as i64,
            w: (WIDTH - 2 * MARGIN - 116 - (if reveal {
                EYE + 4
            } else {
                0
            })) as i64,
            h: 24,
        },
        KindModel::Choice { options, selected } => Rect {
            x: (MARGIN + 112) as i64,
            y: (y - 1) as i64,
            w: (WIDTH - 2 * MARGIN - 112) as i64,
            h: 26,
        },
    }
}

/// The frame of a row's eye button, if it has one.
pub open spec fn eye_frame(kind: KindModel, y: int) -> Option<Rect> {
    if kind matches KindModel::Text { reveal: true, .. } {
        Some(Rect { x: (WIDTH - MARGIN - EYE) as i64, y: y as i64, w: EYE, h: 24 })
    } else {
        None
    }
}

/// Where a row's parts stand.
#[derive(Debug, Clone, Copy, PartialEq, Eq, Structural)]
pub struct RowFrames {
    pub label: Rect,
    pub control: Rect,
    pub eye: Option<Rect>,
}

/// Where the parts of each row stand.
pub open spec fn row_frames(fields: Seq<FieldModel>, buttons: nat) -> Seq<RowFrames> {
    Seq::new(
        fields.len(),
        |i: int|
            {
                let y = row_bottom(fields.len(), buttons, i);
                RowFrames {
                    label: label_frame(y),
                    control: control_frame(fields[i].kind, y),
                    eye: eye_frame(fields[i].kind, y),
                }
            },
    )
}

/// Rows as characters.
pub open spec fn field_models(fields: Seq<Field>) -> Seq<FieldModel> {
    fields.map_values(|f: Field| f@)
}

/// Where the parts of each row stand, from the top row down.
pub fn rows(fields: &[Field], buttons: usize) -> (frames: Vec<RowFrames>)
    requires
        fields@.len() <= 0x7fff_ffff,
    ensures
        frames@ == row_frames(field_models(fields@), buttons as nat),
{
    let ghost all = field_models(fields@);
    let mut frames: Vec<RowFrames> = Vec::new();
    let mut top: i64 = height_below_head(fields.len(), buttons) - 12;
    for i in 0..fields.len()
        invariant
            all == field_models(fields@),
            fields@.len() <= 0x7fff_ffff,
            top == row_bottom(all.len(), buttons as nat, i as int) + 24,
            frames@.len() == i,
            frames@ =~= row_frames(all, buttons as nat).take(i as int),
    {
        let y: i64 = top - 24;
        let ghost kind = all[i as int].kind;
        let label = Rect { x: MARGIN, y: y + 2, w: 110, h: 20 };
        let (control, eye) = match &fields[i].kind {
            Kind::Text { value: _, secure: _, reveal } => {
                let eye_space: i64 = if *reveal {
                    EYE + 4
                } else {
                    0
                };
                let eye = if *reveal {
                    Some(Rect { x: WIDTH - MARGIN - EYE, y, w: EYE, h: 24 })
                } else {
                    None
                };
                (
                    Rect {
                        x: MARGIN + 116,
                        y,
                        w: WIDTH - 2 * MARGIN - 116 - eye_space,
                        h: 24,
                    },
                    eye,
                )
            },
            Kind::Choice { options: _, selected: _ } => (
                Rect { x: MARGIN + 112, y: y - 1, w: WIDTH - 2 * MARGIN - 112, h: 26 },
                None,
            ),
        };
        frames.push(RowFrames { label, control, eye });
        top = top - ROW;
    }
    frames
}

/// The frame of a button. The first button stands rightmost.
pub open spec fn button_frame(k: int) -> Rect {
    Rect { x: (WIDTH - MARGIN + 6 - 96 * (k + 1)) as i64, y: 12, w: 90, h: 32 }
}

/// Where each button stands.
pub fn button_frames(buttons: usize) -> (frames: Vec<Rect>)
    requires
        buttons <= 0x7fff_ffff,
    ensures
        frames@.len() == buttons,
        forall|k: int| 0 <= k < buttons ==> (#[trigger] frames@[k]) == button_frame(k),
{
    let mut frames: Vec<Rect> = Vec::new();
    let mut right: i64 = WIDTH - MARGIN + 6;
    for k in 0..buttons
        invariant
            buttons <= 0x7fff_ffff,
            right == WIDTH - MARGIN + 6 - 96 * k,
            frames@.len() == k,
            forall|j: int| 0 <= j < k ==> (#[trigger] frames@[j]) == button_frame(j),
    {
        right = right - 96;
        frames.push(Rect { x: right, y: 12, w: 90, h: 32 });
    }
    frames
}

/// The first row that holds a text, which gets the keyboard focus.
pub open spec fn first_text(fields: Seq<FieldModel>) -> Option<int>
    decreases fields.len(),
{
    if fields.len() == 0 {
        None
    } else if first_text(fields.drop_last()) is Some {
        first_text(fields.drop_last())
    } else if fields.last().kind is Text {
        Some(fields.len() - 1)
    } else {
        None
    }
}

/// The first row that holds a text, which gets the keyboard focus.
pub fn focus(fields: &[Field]) -> (row: Option<usize>)
    ensures
        row is Some <==> first_text(field_models(fields@)) is Some,
        row matches Some(i) ==> first_text(field_models(fields@)) == Some(i as int),
{
    let ghost all = field_models(fields@);
    let mut found: Option<usize> = None;
    for i in 0..fields.len()
        invariant
            all == field_models(fields@),
            found is Some <==> first_text(all.take(i as int)) is Some,
            found matches Some(j) ==> first_text(all.take(i as int)) == Some(j as int),
    {
        assert(all.take(i + 1).drop_last() =~= all.take(i as int));
        assert(all.take(i + 1).last() == fields@[i as int]@);
        if found.is_none() {
            if let Kind::Text { .. } = &fields[i].kind {
                found = Some(i);
            }
        }
    }
    assert(all.take(all.len() as int) =~= all);
    found
}

/// Two rectangles share no point.
pub open spec fn apart(a: Rect, b: Rect) -> bool {
    a.x + a.w <= b.x || b.x + b.w <= a.x || a.y + a.h <= b.y || b.y + b.h <= a.y
}

/// The parts of a row stand side by side inside the panel's margins, above the buttons and below the
/// head, and parts of different rows never meet.
pub proof fn rows_do_not_overlap(fields: Seq<FieldModel>, buttons: nat, i: int, j: int)
    requires
        fields.len() <= 0x7fff_ffff,
        0 <= i < fields.len(),
        0 <= j < fields.len(),
    ensures
        ({
            let a = row_frames(fields, buttons)[i];
            let b = row_frames(fields, buttons)[j];
            &&& apart(a.label, a.control)
            &&& a.eye matches Some(eye) ==> apart(a.control, eye)
            &&& a.label.x >= MARGIN
            &&& a.control.x + a.control.w <= WIDTH - MARGIN
            &&& a.eye matches Some(eye) ==> eye.x + eye.w <= WIDTH - MARGIN
            &&& a.control.y >= buttons_height(buttons) + 12
            &&& a.control.y + a.control.h <= body_height(fields.len(), buttons) - 12 + 1
            &&& i != j ==> apart(a.control, b.control) && apart(a.label, b.label) && apart(
                a.label,
                b.control,
            )
        }),
{
}

/// Buttons stand apart from each other, and below every row.
pub proof fn buttons_do_not_overlap(k: int, l: int)
    requires
        0 <= k < l <= 0x7fff_ffff,
    ensures
        apart(button_frame(k), button_frame(l)),
        button_frame(k).y + button_frame(k).h <= buttons_height((l + 1) as nat) + 12,
{
}

/// What an editing shortcut does.
#[derive(Debug, Clone, Copy, PartialEq, Eq, Structural)]
pub enum EditAction {
    Paste,
    Copy,
    Cut,
    SelectAll,
    Undo,
}

/// What a key stands for while Command is held.
pub open spec fn edit_for(characters: Seq<char>) -> Option<EditAction> {
    if characters == "v"@ {
        Some(EditAction::Paste)
    } else if characters == "c"@ {
        Some(EditAction::Copy)
    } else if characters == "x"@ {
        Some(EditAction::Cut)
    } else if characters == "a"@ {
        Some(EditAction::SelectAll)
    } else if characters == "z"@ {
        Some(EditAction::Undo)
    } else {
        None
    }
}

/// The editing shortcut that a key press is, if it is one. A menu-bar app has no Edit menu, and an
/// inactive app's menu gets no key equivalents, so paste would do nothing.
pub fn edit_action(command: bool, characters: Option<&str>) -> (action: Option<EditAction>)
    ensures
        action == (match characters {
            Some(c) => if command {
                edit_for(c@)
            } else {
                None
            },
            None => None,
        }),
{
    if !command {
        return None;
    }
    match characters {
        Some(c) => if text_eq(c, "v") {
            Some(EditAction::Paste)
        } else if text_eq(c, "c") {
            Some(EditAction::Copy)
        } else if text_eq(c, "x") {
            Some(EditAction::Cut)
        } else if text_eq(c, "a") {
            Some(EditAction::SelectAll)
        } else if text_eq(c, "z") {
            Some(EditAction::Undo)
        } else {
            None
        },
        None => None,
    }
}

/// What the two fields of a row hold: the secure one, and for a revealable row a plain one at the same
/// spot, of which exactly one is visible.
#[derive(Debug)]
pub struct Entry {
    pub secure: String,
    pub plain: Option<String>,
    pub revealed: bool,
}

/// An [`Entry`] as characters.
pub struct EntryModel {
    pub secure: Seq<char>,
    pub plain: Option<Seq<char>>,
    pub revealed: bool,
}

impl View for Entry {
    type V = EntryModel;

    open spec fn view(&self) -> EntryModel {
        EntryModel {
            secure: self.secure@,
            plain: match self.plain {
                Some(text) => Some(text@),
                None => None,
            },
            revealed: self.revealed,
        }
    }
}

impl EntryModel {
    /// The text that the user sees or types.
    pub open spec fn visible(self) -> Seq<char> {
        match self.plain {
            Some(text) => if self.revealed {
                text
            } else {
                self.secure
            },
            None => self.secure,
        }
    }

    /// Only the visible field holds a text.
    pub open spec fn wf(self) -> bool {
        match self.plain {
            Some(text) => if self.revealed {
                self.secure.len() == 0
            } else {
                text.len() == 0
            },
            None => true,
        }
    }
}

impl Entry {
    /// Reads the visible text, and clears both fields, so typed secrets do not linger.
    pub fn take(&mut self) -> (value: String)
        ensures
            value@ == old(self)@.visible(),
            final(self)@.secure.len() == 0,
            final(self)@.plain matches Some(text) ==> text.len() == 0,
            final(self)@.plain is Some <==> old(self)@.plain is Some,
            final(self)@.revealed == old(self)@.revealed,
            final(self)@.wf(),
    {
        let mut secure = String::new();
        std::mem::swap(&mut secure, &mut self.secure);
        match self.plain.take() {
            Some(text) => {
                self.plain = Some(String::new());
                if self.revealed {
                    text
                } else {
                    secure
                }
            },
            None => secure,
        }
    }

    /// Shows or hides the text of a revealable row, moving its text across.
    pub fn toggle_reveal(&mut self)
        requires
            old(self)@.wf(),
        ensures
            final(self)@.wf(),
            final(self)@.visible() == old(self)@.visible(),
            final(self)@.plain is Some <==> old(self)@.plain is Some,
            final(self)@.revealed == (if old(self)@.plain is Some {
                !old(self)@.revealed
            } else {
                old(self)@.revealed
            }),
    {
        match self.plain.take() {
            Some(text) => {
                if self.revealed {
                    self.secure = text;
                    self.plain = Some(String::new());
                    self.revealed = false;
                } else {
                    let mut moved = String::new();
                    std::mem::swap(&mut moved, &mut self.secure);
                    self.plain = Some(moved);
                    self.revealed = true;
                }
            },
            None => {},
        }
    }
}

/// The symbol of an eye button, and its description.
pub fn eye_symbol(showing: bool) -> (symbol: (&'static str, &'static str))
    ensures
        symbol.0@ == (if showing {
            "eye.slash"@
        } else {
            "eye"@
        }),
        symbol.1@ == (if showing {
            "Hide password"@
        } else {
            "Show password"@
        }),
{
    if showing {
        ("eye.slash", "Hide password")
    } else {
        ("eye", "Show password")
    }
}

/// The keyboard focus goes to the first row that holds a text, and nowhere if none does.
pub proof fn the_first_text_has_the_focus(fields: Seq<FieldModel>, i: int)
    ensures
        0 <= i < fields.len() && fields[i].kind is Text && (forall|j: int|
            0 <= j < i ==> !((#[trigger] fields[j]).kind is Text)) ==> first_text(fields) == Some(
            i,
        ),
        (forall|j: int| 0 <= j < fields.len() ==> !((#[trigger] fields[j]).kind is Text))
            ==> first_text(fields) is None,
    decreases fields.len(),
{
    if fields.len() > 0 {
        let most = fields.drop_last();
        assert(forall|j: int| 0 <= j < most.len() ==> #[trigger] most[j] == fields[j]);
        the_first_text_has_the_focus(most, i);
        if i == fields.len() - 1 {
            assert((forall|j: int| 0 <= j < i ==> !((#[trigger] fields[j]).kind is Text))
                ==> forall|j: int|
                0 <= j < most.len() ==> !((#[trigger] most[j]).kind is Text));
        }
    }
}

/// Each editing shortcut is its own letter, and no other text is one.
pub proof fn every_shortcut_is_its_letter(characters: Seq<char>)
    ensures
        edit_for(characters) == Some(EditAction::Paste) <==> characters == seq!['v'],
        edit_for(characters) == Some(EditAction::Copy) <==> characters == seq!['c'],
        edit_for(characters) == Some(EditAction::Cut) <==> characters == seq!['x'],
        edit_for(characters) == Some(EditAction::SelectAll) <==> characters == seq!['a'],
        edit_for(characters) == Some(EditAction::Undo) <==> characters == seq!['z'],
{
    reveal_strlit("v");
    reveal_strlit("c");
    reveal_strlit("x");
    reveal_strlit("a");
    reveal_strlit("z");
    assert("v"@ =~= seq!['v']);
    assert("c"@ =~= seq!['c']);
    assert("x"@ =~= seq!['x']);
    assert("a"@ =~= seq!['a']);
    assert("z"@ =~= seq!['z']);
    assert(seq!['v'][0] == 'v');
    assert(seq!['c'][0] == 'c');
    assert(seq!['x'][0] == 'x');
    assert(seq!['a'][0] == 'a');
    assert(seq!['z'][0] == 'z');
}

/// Rows follow each other from the top down, 32 points apart, the last one 12 points above the buttons.
/// A label stands at the left margin, its control fills the rest of the row, and an eye button stands
/// at the right margin of exactly the rows that can be revealed.
pub proof fn rows_follow_from_the_top(fields: Seq<FieldModel>, buttons: nat, i: int)
    requires
        fields.len() <= 0x7fff_ffff,
        0 <= i < fields.len(),
    ensures
        ({
            let row = row_frames(fields, buttons)[i];
            let below = if buttons == 0 {
                0int
            } else {
                44int
            };
            let y = below + 20 + 32 * (fields.len() - 1 - i);
            let reveals = fields[i].kind matches KindModel::Text { reveal: true, .. };
            &&& row_frames(fields, buttons).len() == fields.len()
            &&& row.label == (Rect { x: 20, y: (y + 2) as i64, w: 110, h: 20 })
            &&& row.eye == (if reveals {
                Some(Rect { x: 376, y: y as i64, w: 24, h: 24 })
            } else {
                None
            })
            &&& fields[i].kind is Text ==> row.control == (Rect {
                x: 136,
                y: y as i64,
                w: if reveals {
                    236
                } else {
                    264
                },
                h: 24,
            })
            &&& fields[i].kind is Choice ==> row.control == (Rect {
                x: 132,
                y: (y - 1) as i64,
                w: 268,
                h: 26,
            })
            &&& body_height(fields.len(), buttons) == below + 24 + 32 * fields.len()
        }),
{
}

/// The first button ends at the right margin, and each next one stands 96 points further left.
pub proof fn buttons_stand_from_the_right(k: int)
    requires
        0 <= k <= 0x7fff_ffff,
    ensures
        button_frame(0).x == 310 && button_frame(0).x + button_frame(0).w == 400,
        button_frame(k + 1).x == button_frame(k).x - 96,
        button_frame(k).y == 12 && button_frame(k).w == 90 && button_frame(k).h == 32,
{
}

/// The text that counts is the revealed one while it is revealed, and the hidden one otherwise.
pub proof fn the_visible_text_counts(secure: Seq<char>, plain: Seq<char>, revealed: bool)
    ensures
        (EntryModel { secure, plain: Some(plain), revealed: true }).visible() == plain,
        (EntryModel { secure, plain: Some(plain), revealed: false }).visible() == secure,
        (EntryModel { secure, plain: None, revealed }).visible() == secure,
{
}

} // verus!
