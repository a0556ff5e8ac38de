//! Keys as the application sees them, and the bindings from keys to
//! operations.

use vstd::prelude::*;
use vstd::string::StringExecFns;
use crate::text::push_char;
use crate::Operation;

verus! {

/// The key of a key press.
#[derive(Copy, Clone, PartialEq, Eq, Structural, Debug)]
pub enum KeyCode {
    Backspace,
    Enter,
    Left,
    Right,
    Up,
    Down,
    Home,
    End,
    PageUp,
    PageDown,
    Tab,
    BackTab,
    Delete,
    Insert,
    F(u8),
    Char(char),
    Null,
    Esc,
}

/// The modifier keys that are held during a key press.
#[derive(Copy, Clone, PartialEq, Eq, Structural, Debug)]
pub struct KeyModifiers {
    pub shift: bool,
    pub control: bool,
    pub alt: bool,
}

impl KeyModifiers {
    /// No modifier.
    pub fn none() -> (r: Self)
        ensures
            r == (KeyModifiers { shift: false, control: false, alt: false }),
    {
        KeyModifiers { shift: false, control: false, alt: false }
    }

    /// Shift alone.
    pub fn shift() -> (r: Self)
        ensures
            r == (KeyModifiers { shift: true, control: false, alt: false }),
    {
        KeyModifiers { shift: true, control: false, alt: false }
    }

    /// Control alone.
    pub fn control() -> (r: Self)
        ensures
            r == (KeyModifiers { shift: false, control: true, alt: false }),
    {
        KeyModifiers { shift: false, control: true, alt: false }
    }

    /// Alt alone.
    pub fn alt() -> (r: Self)
        ensures
            r == (KeyModifiers { shift: false, control: false, alt: true }),
    {
        KeyModifiers { shift: false, control: false, alt: true }
    }
}

/// A key press.
#[derive(Copy, Clone, PartialEq, Eq, Structural, Debug)]
pub struct KeyEvent {
    pub code: KeyCode,
    pub modifiers: KeyModifiers,
}

impl KeyEvent {
    pub fn new(code: KeyCode, modifiers: KeyModifiers) -> (r: Self)
        ensures
            r.code == code,
            r.modifiers == modifiers,
    {
        KeyEvent { code, modifiers }
    }
}

/// A binding of one key press to one operation.
#[derive(Copy, Clone, Debug)]
pub struct KeyBind {
    pub operation: Operation,
    pub modifiers: KeyModifiers,
    pub key: KeyCode,
}

/// The symbols of the modifiers in `modifier`: alt, control, shift, in
/// that order.
pub open spec fn modifier_symbol(modifier: KeyModifiers) -> Seq<char> {
    (if modifier.alt {
        seq!['⎇']
    } else {
        Seq::<char>::empty()
    }) + (if modifier.control {
        seq!['^']
    } else {
        Seq::<char>::empty()
    }) + (if modifier.shift {
        seq!['⇧']
    } else {
        Seq::<char>::empty()
    })
}

/// The symbol of a key: the character itself for a character key, and
/// nothing for a function key or the null key.
pub open spec fn key_symbol(key: KeyCode) -> Seq<char> {
    match key {
        KeyCode::Backspace => "⌫"@,
        KeyCode::Enter => "⏎"@,
        KeyCode::Left => "←"@,
        KeyCode::Right => "→"@,
        KeyCode::Up => "↑"@,
        KeyCode::Down => "↓"@,
        KeyCode::Home => "⇱"@,
        KeyCode::End => "End"@,
        KeyCode::PageUp => "PgUp"@,
        KeyCode::PageDown => "PgDn"@,
        KeyCode::Tab => "⇥"@,
        KeyCode::BackTab => "⇤"@,
        KeyCode::Delete => "⌦"@,
        KeyCode::Insert => "Ins"@,
        KeyCode::F(_) => Seq::<char>::empty(),
        KeyCode::Char(c) => seq![c],
        KeyCode::Null => Seq::<char>::empty(),
        KeyCode::Esc => "Esc"@,
    }
}

/// Index of the first binding of `operation` among the first `n`
/// bindings, if there is one.
pub open spec fn first_binding(binds: Seq<KeyBind>, operation: Operation, n: int) -> Option<int>
    decreases n,
{
    if n <= 0 {
        None
    } else {
        match first_binding(binds, operation, n - 1) {
            Some(i) => Some(i),
            None => if binds[n - 1].operation == operation {
                Some(n - 1)
            } else {
                None
            },
        }
    }
}

/// The help text of an operation: the label, and where the operation is
/// bound, a space and the symbols of its first binding.
pub open spec fn help_text(label: Seq<char>, operation: Operation, binds: Seq<KeyBind>) -> Seq<
    char,
> {
    match first_binding(binds, operation, binds.len() as int) {
        Some(i) => label + seq![' '] + modifier_symbol(binds[i].modifiers) + key_symbol(
            binds[i].key,
        ),
        None => label,
    }
}

pub fn get_modifier_symbol(modifier: KeyModifiers) -> (res: String)
    ensures
        res@ == modifier_symbol(modifier),
{
    let mut res = String::new();
    if modifier.alt {
        push_char(&mut res, '⎇');
    }
    if modifier.control {
        push_char(&mut res, '^');
    }
    if modifier.shift {
        push_char(&mut res, '⇧');
    }
    assert(res@ =~= modifier_symbol(modifier));
    res
}

pub fn get_key_symbol(key: KeyCode) -> (res: String)
    ensures
        res@ == key_symbol(key),
{
    match key {
        KeyCode::Backspace => "⌫".to_owned(),
        KeyCode::Enter => "⏎".to_owned(),
        KeyCode::Left => "←".to_owned(),
        KeyCode::Right => "→".to_owned(),
        KeyCode::Up => "↑".to_owned(),
        KeyCode::Down => "↓".to_owned(),
        KeyCode::Home => "⇱".to_owned(),
        KeyCode::End => "End".to_owned(),
        KeyCode::PageUp => "PgUp".to_owned(),
        KeyCode::PageDown => "PgDn".to_owned(),
        KeyCode::Tab => "⇥".to_owned(),
        KeyCode::BackTab => "⇤".to_owned(),
        KeyCode::Delete => "⌦".to_owned(),
        KeyCode::Insert => "Ins".to_owned(),
        KeyCode::F(_) => String::new(),
        KeyCode::Char(c) => {
            let mut res = String::new();
            push_char(&mut res, c);
            assert(res@ =~= seq![c]);
            res
        },
        KeyCode::Null => String::new(),
        KeyCode::Esc => "Esc".to_owned(),
    }
}

pub fn get_help(label: &str, operation: Operation, key_binds: &Vec<KeyBind>) -> (res: String)
    ensures
        res@ == help_text(label@, operation, key_binds@),
{
    let mut i: usize = 0;
    while i < key_binds.len()
        invariant
            i <= key_binds.len(),
            first_binding(key_binds@, operation, i as int) is None,
        decreases key_binds.len() - i,
    {
        let key_bind = key_binds[i];
        if key_bind.operation == operation {
            proof {
                lemma_first_binding_stays(key_binds@, operation, i as int + 1, key_binds.len() as int);
            }
            let mut res = label.to_owned();
            push_char(&mut res, ' ');
            let modifiers = get_modifier_symbol(key_bind.modifiers);
            res.append(modifiers.as_str());
            let key = get_key_symbol(key_bind.key);
            res.append(key.as_str());
            return res;
        }
        i = i + 1;
    }
    label.to_owned()
}

/// A first binding found among the first `n` bindings is the first
/// binding among any more of them.
pub proof fn lemma_first_binding_stays(binds: Seq<KeyBind>, operation: Operation, n: int, m: int)
    requires
        0 <= n <= m,
        first_binding(binds, operation, n) is Some,
    ensures
        first_binding(binds, operation, m) == first_binding(binds, operation, n),
    decreases m - n,
{
    if n < m {
        lemma_first_binding_stays(binds, operation, n, m - 1);
    }
}

} // verus!
