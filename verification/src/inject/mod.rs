//! Injection of input on the host.
//!
//! No event carries any text, and all of them are bounded by the codec of
//! [`crate::proto::input`].

pub mod send_input;

use crate::proto::input::{self, InputEvent, InputFrame};
use crate::text;
use vstd::prelude::*;

verus! {

/// Why input could not be injected.
#[derive(Debug, Clone, PartialEq, Eq)]
pub enum InputError {
    /// The system refused the injection, as it does when the secure desktop has
    /// the focus.
    Refused(String),
    /// A privilege could not be obtained.
    MissingPrivilege(&'static str),
    /// The system's interface reported an error.
    System(String),
}

/// A refused injection in words.
pub open spec fn error_text(e: InputError) -> Seq<char> {
    match e {
        InputError::Refused(detail) => "injection refusée: "@ + detail@,
        InputError::MissingPrivilege(name) => "privilège "@ + name@ + " indisponible"@,
        InputError::System(detail) => "erreur système: "@ + detail@,
    }
}

impl InputError {
    /// The error in words.
    pub fn message(&self) -> (s: String)
        ensures
            s@ == error_text(*self),
    {
        let mut s = String::new();
        match self {
            InputError::Refused(detail) => {
                text::push_text(&mut s, "injection refusée: ");
                text::push_text(&mut s, detail.as_str());
            },
            InputError::MissingPrivilege(name) => {
                text::push_text(&mut s, "privilège ");
                text::push_text(&mut s, name);
                text::push_text(&mut s, " indisponible");
            },
            InputError::System(detail) => {
                text::push_text(&mut s, "erreur système: ");
                text::push_text(&mut s, detail.as_str());
            },
        }
        assert(s@ =~= error_text(*self));
        s
    }
}

/// Where input events go.
pub trait InputSink {
    /// Applies a batch of events, in one block where the platform allows it.
    fn apply(&mut self, frame: &InputFrame) -> Result<(), InputError>;

    /// Releases every key and button that is still held: a modifier left down
    /// after a network cut would make the machine unusable for whoever sits at it.
    fn release_all(&mut self) -> Result<(), InputError>;
}

/// The keys and buttons that the remote client holds.
///
/// Only what the client pressed is remembered: releasing a key that the physical
/// user holds would be just as much of a nuisance.
#[derive(Debug, Clone)]
pub struct PressedState {
    keys: Vec<(u16, bool)>,
    buttons: Vec<u8>,
}

/// What is held, as a mathematical value.
#[verifier::ext_equal]
pub struct PressedModel {
    /// Keys, as a scancode and the extended flag, in the order of the presses.
    pub keys: Seq<(u16, bool)>,
    /// Buttons, by their code, in the order of the presses.
    pub buttons: Seq<u8>,
}

impl View for PressedState {
    type V = PressedModel;

    closed spec fn view(&self) -> PressedModel {
        PressedModel { keys: self.keys@, buttons: self.buttons@ }
    }
}

/// `s` with `x`, at the end unless it is there already.
pub open spec fn added<T>(s: Seq<T>, x: T) -> Seq<T> {
    if s.contains(x) {
        s
    } else {
        s.push(x)
    }
}

/// `s` without `x`.
pub open spec fn dropped<T>(s: Seq<T>, x: T) -> Seq<T>
    decreases s.len(),
{
    if s.len() == 0 {
        s
    } else if s.last() == x {
        dropped(s.drop_last(), x)
    } else {
        dropped(s.drop_last(), x).push(s.last())
    }
}

/// Nothing held.
pub open spec fn nothing_held() -> PressedModel {
    PressedModel { keys: Seq::empty(), buttons: Seq::empty() }
}

/// What is held after one more event.
pub open spec fn held_after(m: PressedModel, e: InputEvent) -> PressedModel {
    match e {
        InputEvent::Key { scancode, pressed, extended } => PressedModel {
            keys: if pressed {
                added(m.keys, (scancode, extended))
            } else {
                dropped(m.keys, (scancode, extended))
            },
            ..m
        },
        InputEvent::MouseButton { button, pressed } => PressedModel {
            buttons: if pressed {
                added(m.buttons, input::button_code(button))
            } else {
                dropped(m.buttons, input::button_code(button))
            },
            ..m
        },
        _ => m,
    }
}

/// What is held after some events.
pub open spec fn held_after_all(m: PressedModel, es: Seq<InputEvent>) -> PressedModel
    decreases es.len(),
{
    if es.len() == 0 {
        m
    } else {
        held_after(held_after_all(m, es.drop_last()), es.last())
    }
}

/// Whether nothing is held twice, and every button code stands for a button.
pub open spec fn pressed_wf(m: PressedModel) -> bool {
    &&& m.keys.no_duplicates()
    &&& m.buttons.no_duplicates()
    &&& forall|i: int| 0 <= i < m.buttons.len() ==> #[trigger] m.buttons[i] <= 4
}

/// Dropping an item of a sequence that holds it once removes it.
proof fn lemma_dropped_at<T>(s: Seq<T>, x: T, i: int)
    requires
        s.no_duplicates(),
        0 <= i < s.len(),
        s[i] == x,
    ensures
        dropped(s, x) == s.remove(i),
    decreases s.len(),
{
    if i == s.len() - 1 {
        lemma_dropped_absent(s.drop_last(), x);
        assert(s.remove(i) =~= s.drop_last());
    } else {
        lemma_dropped_at(s.drop_last(), x, i);
        assert(s.last() != x);
        assert(s.drop_last().remove(i).push(s.last()) =~= s.remove(i));
    }
}

/// Dropping an item that is not there changes nothing.
proof fn lemma_dropped_absent<T>(s: Seq<T>, x: T)
    requires
        forall|i: int| 0 <= i < s.len() ==> s[i] != x,
    ensures
        dropped(s, x) == s,
    decreases s.len(),
{
    if s.len() > 0 {
        lemma_dropped_absent(s.drop_last(), x);
        assert(s.drop_last().push(s.last()) =~= s);
    }
}

/// What is left after dropping an item: all the rest, and not that item.
proof fn lemma_dropped<T>(s: Seq<T>, x: T, y: T)
    ensures
        dropped(s, x).contains(y) <==> y != x && s.contains(y),
        dropped(s, x).len() <= s.len(),
        s.no_duplicates() ==> dropped(s, x).no_duplicates(),
    decreases s.len(),
{
    if s.len() > 0 {
        let prev = s.drop_last();
        let rest = dropped(prev, x);
        let all = dropped(s, x);
        lemma_dropped(prev, x, y);
        if y != x && s.contains(y) {
            let i = choose|i: int| 0 <= i < s.len() && s[i] == y;
            if i < prev.len() {
                assert(prev[i] == y);
                let j = choose|j: int| 0 <= j < rest.len() && rest[j] == y;
                assert(all[j] == y);
            } else {
                assert(all.last() == y);
            }
        }
        if all.contains(y) {
            let i = choose|i: int| 0 <= i < all.len() && all[i] == y;
            if i < rest.len() {
                assert(rest[i] == y);
                let j = choose|j: int| 0 <= j < prev.len() && prev[j] == y;
                assert(s[j] == y);
            } else {
                assert(s.last() == y);
            }
        }
        if s.no_duplicates() && s.last() != x {
            lemma_dropped(prev, x, s.last());
            assert(!prev.contains(s.last())) by {
                if prev.contains(s.last()) {
                    let i = choose|i: int| 0 <= i < prev.len() && prev[i] == s.last();
                    assert(s[i] == s[s.len() - 1]);
                }
            }
            assert forall|i: int, j: int| 0 <= i < all.len() && 0 <= j < all.len() && i
                != j implies all[i] != all[j] by {
                if i < rest.len() && j < rest.len() {
                    assert(rest[i] != rest[j]);
                } else if i < rest.len() {
                    assert(rest.contains(rest[i]));
                } else {
                    assert(rest.contains(rest[j]));
                }
            }
        }
    }
}

/// Adding an item keeps the sequence free of repetitions.
proof fn lemma_added<T>(s: Seq<T>, x: T, y: T)
    ensures
        added(s, x).contains(y) <==> y == x || s.contains(y),
        s.no_duplicates() ==> added(s, x).no_duplicates(),
{
    if !s.contains(x) {
        let all = s.push(x);
        assert(all.last() == x);
        if s.contains(y) {
            let i = choose|i: int| 0 <= i < s.len() && s[i] == y;
            assert(all[i] == y);
        }
        if all.contains(y) {
            let i = choose|i: int| 0 <= i < all.len() && all[i] == y;
            if i < s.len() {
                assert(s[i] == y);
            }
        }
    }
}

impl PressedState {
    /// Whether nothing is held twice, and every button code stands for a button.
    pub open spec fn wf(&self) -> bool {
        pressed_wf(self@)
    }

    /// A state in which nothing is held.
    pub fn new() -> (s: PressedState)
        ensures
            s.wf(),
            s@ == nothing_held(),
    {
        let s = PressedState { keys: Vec::new(), buttons: Vec::new() };
        assert(s@ =~= nothing_held());
        s
    }

    /// Takes an event into account.
    pub fn observe(&mut self, event: &InputEvent)
        requires
            old(self).wf(),
        ensures
            final(self).wf(),
            final(self)@ == held_after(old(self)@, *event),
    {
        match *event {
            InputEvent::Key { scancode, pressed, extended } => {
                let ghost entry = (scancode, extended);
                let at = self.find_key(scancode, extended);
                proof {
                    lemma_dropped(self.keys@, entry, entry);
                    lemma_added(self.keys@, entry, entry);
                }
                match at {
                    Some(i) => {
                        if !pressed {
                            proof {
                                lemma_dropped_at(self.keys@, entry, i as int);
                            }
                            self.keys.remove(i);
                        }
                    },
                    None => {
                        if pressed {
                            self.keys.push((scancode, extended));
                        } else {
                            proof {
                                lemma_dropped_absent(self.keys@, entry);
                            }
                        }
                    },
                }
            },
            InputEvent::MouseButton { button, pressed } => {
                let code: u8 = button.code();
                let at = self.find_button(code);
                let ghost before = self.buttons@;
                proof {
                    lemma_dropped(before, code, code);
                    lemma_added(before, code, code);
                }
                match at {
                    Some(i) => {
                        if !pressed {
                            proof {
                                lemma_dropped_at(before, code, i as int);
                            }
                            self.buttons.remove(i);
                            assert(forall|k: int|
                                0 <= k < self.buttons@.len() ==> #[trigger] self.buttons@[k]
                                    == before[if k < i {
                                    k
                                } else {
                                    k + 1
                                }]);
                        }
                    },
                    None => {
                        if pressed {
                            self.buttons.push(code);
                        } else {
                            proof {
                                lemma_dropped_absent(before, code);
                            }
                        }
                    },
                }
            },
            _ => {},
        }
        assert(self@ =~= held_after(old(self)@, *event));
    }

    fn find_key(&self, scancode: u16, extended: bool) -> (r: Option<usize>)
        ensures
            match r {
                Some(i) => i < self.keys@.len() && self.keys@[i as int] == (scancode, extended)
                    && self.keys@.contains((scancode, extended)),
                None => !self.keys@.contains((scancode, extended)),
            },
    {
        let mut i: usize = 0;
        while i < self.keys.len()
            invariant
                i <= self.keys@.len(),
                forall|k: int| 0 <= k < i ==> self.keys@[k] != (scancode, extended),
            decreases self.keys@.len() - i,
        {
            if self.keys[i].0 == scancode && self.keys[i].1 == extended {
                return Some(i);
            }
            i = i + 1;
        }
        None
    }

    fn find_button(&self, code: u8) -> (r: Option<usize>)
        ensures
            match r {
                Some(i) => i < self.buttons@.len() && self.buttons@[i as int] == code
                    && self.buttons@.contains(code),
                None => !self.buttons@.contains(code),
            },
    {
        let mut i: usize = 0;
        while i < self.buttons.len()
            invariant
                i <= self.buttons@.len(),
                forall|k: int| 0 <= k < i ==> self.buttons@[k] != code,
            decreases self.buttons@.len() - i,
        {
            if self.buttons[i] == code {
                return Some(i);
            }
            i = i + 1;
        }
        None
    }

    /// Keys still held, as a scancode and the extended flag.
    pub fn keys(&self) -> (r: &[(u16, bool)])
        ensures
            r@ == self@.keys,
    {
        self.keys.as_slice()
    }

    /// Mouse buttons still held, by their code.
    pub fn buttons(&self) -> (r: &[u8])
        ensures
            r@ == self@.buttons,
    {
        self.buttons.as_slice()
    }

    /// Whether there is nothing to release.
    pub fn is_empty(&self) -> (b: bool)
        ensures
            b == (self@ == nothing_held()),
    {
        let b = self.keys.len() == 0 && self.buttons.len() == 0;
        assert(b ==> self@ =~= nothing_held());
        b
    }

    /// Forgets everything.
    pub fn clear(&mut self)
        ensures
            final(self).wf(),
            final(self)@ == nothing_held(),
    {
        self.keys.clear();
        self.buttons.clear();
        assert(self@ =~= nothing_held());
    }
}

impl Default for PressedState {
    fn default() -> (s: PressedState)
        ensures
            s.wf(),
            s@ == nothing_held(),
    {
        PressedState::new()
    }
}

/// Whether the last of some events that concern a key was a press.
pub open spec fn last_pressed(es: Seq<InputEvent>, key: (u16, bool)) -> bool
    decreases es.len(),
{
    if es.len() == 0 {
        false
    } else {
        match es.last() {
            InputEvent::Key { scancode, pressed, extended } => if (scancode, extended) == key {
                pressed
            } else {
                last_pressed(es.drop_last(), key)
            },
            _ => last_pressed(es.drop_last(), key),
        }
    }
}

/// Whether the last of some events that concern a button was a press.
pub open spec fn last_clicked(es: Seq<InputEvent>, code: u8) -> bool
    decreases es.len(),
{
    if es.len() == 0 {
        false
    } else {
        match es.last() {
            InputEvent::MouseButton { button, pressed } => if input::button_code(button) == code {
                pressed
            } else {
                last_clicked(es.drop_last(), code)
            },
            _ => last_clicked(es.drop_last(), code),
        }
    }
}

/// Whatever the events, a key is held exactly when the last event that concerns it
/// was a press: repeats count once, a release without a press does nothing, and an
/// extended key is another key than the one with its scancode. It is held once.
pub proof fn law_held_keys_follow_the_last_event(es: Seq<InputEvent>, key: (u16, bool))
    ensures
        held_after_all(nothing_held(), es).keys.contains(key) <==> last_pressed(es, key),
        held_after_all(nothing_held(), es).keys.no_duplicates(),
    decreases es.len(),
{
    if es.len() > 0 {
        let prev = held_after_all(nothing_held(), es.drop_last());
        law_held_keys_follow_the_last_event(es.drop_last(), key);
        match es.last() {
            InputEvent::Key { scancode, pressed, extended } => {
                lemma_added(prev.keys, (scancode, extended), key);
                lemma_dropped(prev.keys, (scancode, extended), key);
            },
            _ => {},
        }
    }
}

/// The same of mouse buttons.
pub proof fn law_held_buttons_follow_the_last_event(es: Seq<InputEvent>, code: u8)
    ensures
        held_after_all(nothing_held(), es).buttons.contains(code) <==> last_clicked(es, code),
        held_after_all(nothing_held(), es).buttons.no_duplicates(),
    decreases es.len(),
{
    if es.len() > 0 {
        let prev = held_after_all(nothing_held(), es.drop_last());
        law_held_buttons_follow_the_last_event(es.drop_last(), code);
        match es.last() {
            InputEvent::MouseButton { button, pressed } => {
                lemma_added(prev.buttons, input::button_code(button), code);
                lemma_dropped(prev.buttons, input::button_code(button), code);
            },
            _ => {},
        }
    }
}

/// What one event changes of what is held. A press holds its key or its button, a release
/// lets go of it, and everything else that is held stays held; moving and scrolling change
/// nothing. An extended key is another key, and keys and buttons never mix.
pub proof fn law_an_event_changes_its_own_input_only(
    m: PressedModel,
    e: InputEvent,
    key: (u16, bool),
    code: u8,
)
    ensures
        held_after(m, e).keys.contains(key) <==> {
            if e matches InputEvent::Key { scancode, pressed, extended } && scancode == key.0
                && extended == key.1 {
                e->Key_pressed
            } else {
                m.keys.contains(key)
            }
        },
        held_after(m, e).buttons.contains(code) <==> {
            if e matches InputEvent::MouseButton { button, pressed } && input::button_code(button)
                == code {
                e->MouseButton_pressed
            } else {
                m.buttons.contains(code)
            }
        },
        e !is Key ==> held_after(m, e).keys == m.keys,
        e !is MouseButton ==> held_after(m, e).buttons == m.buttons,
{
    match e {
        InputEvent::Key { scancode, pressed, extended } => {
            lemma_added(m.keys, (scancode, extended), key);
            lemma_dropped(m.keys, (scancode, extended), key);
        },
        InputEvent::MouseButton { button, pressed } => {
            lemma_added(m.buttons, input::button_code(button), code);
            lemma_dropped(m.buttons, input::button_code(button), code);
        },
        _ => {},
    }
}

/// What was pressed first is remembered first: a new press goes behind what is held, and a
/// repeated one moves nothing.
pub proof fn law_presses_are_remembered_in_order(m: PressedModel, scancode: u16, extended: bool)
    ensures
        ({
            let after = held_after(m, InputEvent::Key { scancode, pressed: true, extended }).keys;
            if m.keys.contains((scancode, extended)) {
                after == m.keys
            } else {
                after == m.keys.push((scancode, extended))
            }
        }),
{
}

/// Pressing and letting go comes back to what was held before.
pub proof fn law_a_release_undoes_its_press(m: PressedModel, scancode: u16, extended: bool)
    requires
        !m.keys.contains((scancode, extended)),
    ensures
        held_after(
            held_after(m, InputEvent::Key { scancode, pressed: true, extended }),
            InputEvent::Key { scancode, pressed: false, extended },
        ) == m,
{
    let key = (scancode, extended);
    let down = m.keys.push(key);
    assert forall|i: int| 0 <= i < m.keys.len() implies m.keys[i] != key by {
        assert(m.keys.contains(m.keys[i]));
    }
    lemma_dropped_absent(m.keys, key);
    assert(down.drop_last() =~= m.keys);
    assert(held_after(
        held_after(m, InputEvent::Key { scancode, pressed: true, extended }),
        InputEvent::Key { scancode, pressed: false, extended },
    ) =~= m);
}

/// An error shows what it was given, whole: the detail of a refusal or of the system, or the
/// name of the privilege.
pub proof fn law_errors_show_what_they_are_about(e: InputError)
    ensures
        e matches InputError::Refused(detail) ==> text::shows(error_text(e), detail@),
        e matches InputError::MissingPrivilege(name) ==> text::shows(error_text(e), name@),
        e matches InputError::System(detail) ==> text::shows(error_text(e), detail@),
{
    match e {
        InputError::Refused(detail) => text::lemma_shows(
            "injection refusée: "@,
            detail@,
            Seq::empty(),
        ),
        InputError::MissingPrivilege(name) => text::lemma_shows(
            "privilège "@,
            name@,
            " indisponible"@,
        ),
        InputError::System(detail) => text::lemma_shows(
            "erreur système: "@,
            detail@,
            Seq::empty(),
        ),
    }
}

} // verus!
