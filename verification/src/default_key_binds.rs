//! The key bindings that the application starts with.

use vstd::prelude::*;
use crate::key_bind::{KeyBind, KeyCode, KeyModifiers};
use crate::Operation;

verus! {

/// Control alone.
pub open spec fn with_control() -> KeyModifiers {
    KeyModifiers { shift: false, control: true, alt: false }
}

/// Alt alone.
pub open spec fn with_alt() -> KeyModifiers {
    KeyModifiers { shift: false, control: false, alt: true }
}

/// The table of the default bindings.
pub open spec fn default_table() -> Seq<KeyBind> {
    seq![
        KeyBind { operation: Operation::GotoUrl, modifiers: with_control(), key: KeyCode::Char('u') },
        KeyBind {
            operation: Operation::GotoRequestBody,
            modifiers: with_control(),
            key: KeyCode::Char('b'),
        },
        KeyBind {
            operation: Operation::GotoRequestHeaders,
            modifiers: with_control(),
            key: KeyCode::Char('h'),
        },
        KeyBind {
            operation: Operation::GotoResponseBody,
            modifiers: with_control(),
            key: KeyCode::Char('j'),
        },
        KeyBind {
            operation: Operation::GotoResponseHeaders,
            modifiers: with_control(),
            key: KeyCode::Char('n'),
        },
        KeyBind {
            operation: Operation::LoadRequest,
            modifiers: with_control(),
            key: KeyCode::Char('r'),
        },
        KeyBind {
            operation: Operation::SaveRequest,
            modifiers: with_control(),
            key: KeyCode::Char('s'),
        },
        KeyBind { operation: Operation::SaveResponse, modifiers: with_alt(), key: KeyCode::Char('s') },
        KeyBind {
            operation: Operation::NextMethod,
            modifiers: with_control(),
            key: KeyCode::Char('p'),
        },
        KeyBind {
            operation: Operation::GotoRequestView,
            modifiers: with_control(),
            key: KeyCode::Char('a'),
        },
        KeyBind {
            operation: Operation::GotoResponseView,
            modifiers: with_control(),
            key: KeyCode::Char('q'),
        },
        KeyBind { operation: Operation::SendRequest, modifiers: with_alt(), key: KeyCode::Enter },
        KeyBind { operation: Operation::Quit, modifiers: with_control(), key: KeyCode::Char('w') },
    ]
}

pub fn default_key_binds() -> (r: Vec<KeyBind>)
    ensures
        r@ == default_table(),
{
    let control = KeyModifiers::control();
    let alt = KeyModifiers::alt();
    let mut binds: Vec<KeyBind> = Vec::new();
    binds.push(KeyBind { operation: Operation::GotoUrl, modifiers: control, key: KeyCode::Char('u') });
    binds.push(
        KeyBind { operation: Operation::GotoRequestBody, modifiers: control, key: KeyCode::Char('b') },
    );
    binds.push(
        KeyBind {
            operation: Operation::GotoRequestHeaders,
            modifiers: control,
            key: KeyCode::Char('h'),
        },
    );
    binds.push(
        KeyBind { operation: Operation::GotoResponseBody, modifiers: control, key: KeyCode::Char('j') },
    );
    binds.push(
        KeyBind {
            operation: Operation::GotoResponseHeaders,
            modifiers: control,
            key: KeyCode::Char('n'),
        },
    );
    binds.push(
        KeyBind { operation: Operation::LoadRequest, modifiers: control, key: KeyCode::Char('r') },
    );
    binds.push(
        KeyBind { operation: Operation::SaveRequest, modifiers: control, key: KeyCode::Char('s') },
    );
    binds.push(KeyBind { operation: Operation::SaveResponse, modifiers: alt, key: KeyCode::Char('s') });
    binds.push(
        KeyBind { operation: Operation::NextMethod, modifiers: control, key: KeyCode::Char('p') },
    );
    binds.push(
        KeyBind { operation: Operation::GotoRequestView, modifiers: control, key: KeyCode::Char('a') },
    );
    binds.push(
        KeyBind { operation: Operation::GotoResponseView, modifiers: control, key: KeyCode::Char('q') },
    );
    binds.push(KeyBind { operation: Operation::SendRequest, modifiers: alt, key: KeyCode::Enter });
    binds.push(KeyBind { operation: Operation::Quit, modifiers: control, key: KeyCode::Char('w') });
    assert(binds@ =~= default_table());
    binds
}

/// Index of the first binding of the key press `key` among the first `n`
/// bindings, if there is one.
pub open spec fn bound_at(binds: Seq<KeyBind>, code: KeyCode, modifiers: KeyModifiers, n: int) -> Option<
    int,
>
    decreases n,
{
    if n <= 0 {
        None
    } else {
        match bound_at(binds, code, modifiers, n - 1) {
            Some(i) => Some(i),
            None => if binds[n - 1].key == code && binds[n - 1].modifiers == modifiers {
                Some(n - 1)
            } else {
                None
            },
        }
    }
}

/// In the default table no key press is bound twice, and every
/// operation has a binding.
pub proof fn lemma_default_table(operation: Operation)
    ensures
        default_table().len() == 13,
        forall|i: int, j: int|
            0 <= i < j < 13 ==> !((#[trigger] default_table()[i]).key == (
            #[trigger] default_table()[j]).key && default_table()[i].modifiers
                == default_table()[j].modifiers),
        exists|i: int| 0 <= i < 13 && (#[trigger] default_table()[i]).operation == operation,
{
    let t = default_table();
    match operation {
        Operation::GotoUrl => assert(t[0].operation == operation),
        Operation::GotoRequestBody => assert(t[1].operation == operation),
        Operation::GotoRequestHeaders => assert(t[2].operation == operation),
        Operation::GotoResponseBody => assert(t[3].operation == operation),
        Operation::GotoResponseHeaders => assert(t[4].operation == operation),
        Operation::LoadRequest => assert(t[5].operation == operation),
        Operation::SaveRequest => assert(t[6].operation == operation),
        Operation::SaveResponse => assert(t[7].operation == operation),
        Operation::NextMethod => assert(t[8].operation == operation),
        Operation::GotoRequestView => assert(t[9].operation == operation),
        Operation::GotoResponseView => assert(t[10].operation == operation),
        Operation::SendRequest => assert(t[11].operation == operation),
        Operation::Quit => assert(t[12].operation == operation),
    }
}

} // verus!
