use rester::default_key_binds::default_key_binds;
use rester::key_bind::{
    get_help, get_key_symbol, get_modifier_symbol, KeyBind, KeyCode, KeyEvent, KeyModifiers,
};
use rester::{Method, Operation};

#[test]
fn modifier_symbols_come_in_a_fixed_order() {
    assert_eq!(get_modifier_symbol(KeyModifiers::none()), "");
    assert_eq!(get_modifier_symbol(KeyModifiers::alt()), "⎇");
    assert_eq!(get_modifier_symbol(KeyModifiers::control()), "^");
    assert_eq!(get_modifier_symbol(KeyModifiers::shift()), "⇧");
    let all = KeyModifiers { shift: true, control: true, alt: true };
    assert_eq!(get_modifier_symbol(all), "⎇^⇧");
}

#[test]
fn key_symbols() {
    assert_eq!(get_key_symbol(KeyCode::Backspace), "⌫");
    assert_eq!(get_key_symbol(KeyCode::Enter), "⏎");
    assert_eq!(get_key_symbol(KeyCode::Left), "←");
    assert_eq!(get_key_symbol(KeyCode::Right), "→");
    assert_eq!(get_key_symbol(KeyCode::Up), "↑");
    assert_eq!(get_key_symbol(KeyCode::Down), "↓");
    assert_eq!(get_key_symbol(KeyCode::Home), "⇱");
    assert_eq!(get_key_symbol(KeyCode::End), "End");
    assert_eq!(get_key_symbol(KeyCode::PageUp), "PgUp");
    assert_eq!(get_key_symbol(KeyCode::PageDown), "PgDn");
    assert_eq!(get_key_symbol(KeyCode::Tab), "⇥");
    assert_eq!(get_key_symbol(KeyCode::BackTab), "⇤");
    assert_eq!(get_key_symbol(KeyCode::Delete), "⌦");
    assert_eq!(get_key_symbol(KeyCode::Insert), "Ins");
    assert_eq!(get_key_symbol(KeyCode::F(5)), "");
    assert_eq!(get_key_symbol(KeyCode::Char('q')), "q");
    assert_eq!(get_key_symbol(KeyCode::Char('é')), "é");
    assert_eq!(get_key_symbol(KeyCode::Null), "");
    assert_eq!(get_key_symbol(KeyCode::Esc), "Esc");
}

#[test]
fn help_shows_the_first_binding_of_an_operation() {
    let binds = default_key_binds();
    assert_eq!(get_help("Quit", Operation::Quit, &binds), "Quit ^w");
    assert_eq!(get_help("Send", Operation::SendRequest, &binds), "Send ⎇⏎");
    assert_eq!(get_help("Save", Operation::SaveResponse, &binds), "Save ⎇s");
    let twice = vec![
        KeyBind { operation: Operation::Quit, modifiers: KeyModifiers::none(), key: KeyCode::Esc },
        KeyBind {
            operation: Operation::Quit,
            modifiers: KeyModifiers::control(),
            key: KeyCode::Char('c'),
        },
    ];
    assert_eq!(get_help("Quit", Operation::Quit, &twice), "Quit Esc");
}

#[test]
fn help_of_an_unbound_operation_is_the_label() {
    assert_eq!(get_help("Quit", Operation::Quit, &Vec::new()), "Quit");
    let binds = vec![KeyBind {
        operation: Operation::GotoUrl,
        modifiers: KeyModifiers::control(),
        key: KeyCode::Char('u'),
    }];
    assert_eq!(get_help("Quit", Operation::Quit, &binds), "Quit");
}

#[test]
fn default_bindings_bind_every_operation_once() {
    let binds = default_key_binds();
    assert_eq!(binds.len(), 13);
    let operations = [
        Operation::GotoUrl,
        Operation::GotoRequestBody,
        Operation::GotoRequestHeaders,
        Operation::GotoResponseBody,
        Operation::GotoResponseHeaders,
        Operation::NextMethod,
        Operation::LoadRequest,
        Operation::SaveRequest,
        Operation::SaveResponse,
        Operation::GotoRequestView,
        Operation::GotoResponseView,
        Operation::SendRequest,
        Operation::Quit,
    ];
    for operation in operations {
        assert_eq!(binds.iter().filter(|b| b.operation == operation).count(), 1);
    }
    for i in 0..binds.len() {
        for j in i + 1..binds.len() {
            assert!(!(binds[i].key == binds[j].key && binds[i].modifiers == binds[j].modifiers));
        }
    }
}

#[test]
fn default_bindings_have_their_keys() {
    let binds = default_key_binds();
    assert_eq!(binds[0].operation, Operation::GotoUrl);
    assert_eq!(binds[0].key, KeyCode::Char('u'));
    assert_eq!(binds[0].modifiers, KeyModifiers::control());
    assert_eq!(binds[7].operation, Operation::SaveResponse);
    assert_eq!(binds[7].key, KeyCode::Char('s'));
    assert_eq!(binds[7].modifiers, KeyModifiers::alt());
    assert_eq!(binds[11].operation, Operation::SendRequest);
    assert_eq!(binds[11].key, KeyCode::Enter);
    assert_eq!(binds[12].operation, Operation::Quit);
    assert_eq!(binds[12].key, KeyCode::Char('w'));
}

#[test]
fn key_event_holds_code_and_modifiers() {
    let event = KeyEvent::new(KeyCode::F(1), KeyModifiers::shift());
    assert_eq!(event.code, KeyCode::F(1));
    assert!(event.modifiers.shift && !event.modifiers.control && !event.modifiers.alt);
}

#[test]
fn method_names() {
    assert_eq!(Method::GET.as_str(), "GET");
    assert_eq!(Method::POST.as_str(), "POST");
    assert_eq!(Method::PUT.as_str(), "PUT");
    assert_eq!(Method::DELETE.as_str(), "DELETE");
    assert_eq!(Method::PATCH.as_str(), "PATCH");
}
