use rex::config::{Config, ConfigError, ConfigValue};
use rex::frontend::KeyPress;
use rex::input::{ConfigScreenActions, Input, MenuActions, OverlayActions};
use rex::inputline::{
    parse_radix, BaseInputLineActions, DataType, FindInputLine, GotoInputLineBehavior, InputLine,
    LineOutcome, RadixType,
};
use rex::segment::{Buffer, Segment};
use rex::split_vec::StoreError;
use rex::view::{HexEditActions, Nibble};

#[test]
fn radix_parsing() {
    assert_eq!(parse_radix(b"100", 10), Some(100));
    assert_eq!(parse_radix(b"ff", 16), Some(255));
    assert_eq!(parse_radix(b"FF", 16), Some(255));
    assert_eq!(parse_radix(b"-17", 8), Some(-15));
    assert_eq!(parse_radix(b"+9", 10), Some(9));
    assert_eq!(parse_radix(b"", 10), None);
    assert_eq!(parse_radix(b"-", 10), None);
    assert_eq!(parse_radix(b"19", 8), None);
    assert_eq!(parse_radix(b"9223372036854775807", 10), Some(isize::MAX));
    assert_eq!(parse_radix(b"9223372036854775808", 10), None);
    assert_eq!(parse_radix(b"-9223372036854775808", 10), Some(isize::MIN));
    assert_eq!(parse_radix(b"99999999999999999999999", 10), None);
}

#[test]
fn goto_prompt_radix_and_validity() {
    let mut goto = GotoInputLineBehavior::new();
    assert_eq!(goto.get_pos(b"10"), Some(10));
    goto.do_shortcut('h');
    assert_eq!(goto.radix, RadixType::HexRadix);
    assert_eq!(goto.get_pos(b"10"), Some(16));
    goto.do_update(b"zz");
    assert!(!goto.is_valid);
    assert_eq!(goto.get_status(), Err("Invalid position"));
    goto.set_radix(RadixType::OctRadix);
    assert_eq!(goto.get_prefix(), "Goto (Oct):");
}

#[test]
fn find_prompt_hex_decoding() {
    let mut find = FindInputLine::new();
    assert_eq!(find.do_find(b"ab"), Some(b"ab".to_vec()));
    find.do_shortcut('h');
    assert_eq!(find.data_type, DataType::HexStr);
    assert_eq!(find.do_find(b"78 7a"), Some(vec![0x78, 0x7a]));
    assert_eq!(find.do_find(b"AbC"), None);
    assert_eq!(find.do_find(b"zz"), None);
    assert_eq!(find.parse_hex(b"0a\n0B"), Some(vec![0x0a, 0x0b]));
    find.do_update(b"123");
    assert!(!find.is_valid);
    find.set_search_data_type(DataType::UnicodeStr);
    assert_eq!(find.get_prefix(), "Find(Uni): ");
}

#[test]
fn input_line_editing() {
    let mut line = InputLine::new();
    assert_eq!(line.edit(BaseInputLineActions::Edit('a')), LineOutcome::Edited);
    line.edit(BaseInputLineActions::Edit('c'));
    line.edit(BaseInputLineActions::MoveLeft);
    line.edit(BaseInputLineActions::Edit('b'));
    assert_eq!(line.data(), b"abc");
    line.edit(BaseInputLineActions::Delete);
    assert_eq!(line.data(), b"ab");
    line.edit(BaseInputLineActions::DeleteWithMove);
    assert_eq!(line.data(), b"a");
    line.edit(BaseInputLineActions::Edit('\u{e9}'));
    assert_eq!(line.data(), b"a");
    assert_eq!(line.edit(BaseInputLineActions::Ctrl('h')), LineOutcome::Shortcut('h'));
    assert_eq!(line.edit(BaseInputLineActions::Enter), LineOutcome::Enter);
    assert_eq!(line.edit(BaseInputLineActions::Cancel), LineOutcome::Cancel);
    let line = InputLine::new_with_value(b"xy".to_vec());
    assert_eq!(line.data(), b"xy");
}

#[test]
fn key_bindings() {
    let input = Input::new();
    assert_eq!(input.editor_input(KeyPress::Shortcut('z')), Some(HexEditActions::Undo));
    assert_eq!(input.editor_input(KeyPress::Key('a')), Some(HexEditActions::Edit('a')));
    assert_eq!(input.editor_input(KeyPress::Esc), None);
    assert_eq!(input.inputline_input(KeyPress::Enter), Some(BaseInputLineActions::Enter));
    assert_eq!(input.inputline_input(KeyPress::Tab), None);
    assert_eq!(input.overlay_input(KeyPress::Esc), Some(OverlayActions::Cancel));
    assert_eq!(input.config_input(KeyPress::Enter), Some(ConfigScreenActions::Select));
    assert_eq!(input.menu_input(KeyPress::Key('?')), Some(MenuActions::ToggleHelp));
    assert_eq!(input.menu_input(KeyPress::Key('m')), Some(MenuActions::Key('m')));
}

#[test]
fn nibble_positions() {
    assert_eq!(Nibble::from_bytes(5), Nibble(10));
    assert_eq!(Nibble(11).to_bytes(), 5);
    assert_eq!(Nibble(11).nibble_bit(), 1);
    assert_eq!(Nibble(10).nibble_bit(), 0);
}

#[test]
fn default_config_values() {
    let config = Config::default();
    assert!(config.show_ascii);
    assert_eq!(config.group_bytes, 1);
    assert_eq!(config.values().len(), 5);
}

#[test]
fn segment_as_buffer() {
    let mut seg = Segment::from_vec(vec![1, 2, 3, 4, 5]);
    assert_eq!(seg.write(1, &[9, 9]), Ok(vec![2, 3]));
    assert_eq!(seg.read(0, 3), Ok(vec![1, 9, 9]));
    assert_eq!(seg.read(3, 100), Ok(vec![4, 5]));
    assert_eq!(seg.read(6, 1), Err(StoreError::OutOfRange));
    assert_eq!(seg.find_from(0, &[4, 5]), Some(3));
    assert_eq!(Buffer::remove(&mut seg, 0, 2), Ok(vec![1, 9]));
    assert_eq!(seg.len(), 3);
    assert_eq!(seg.write(2, &[0, 0]), Err(StoreError::OutOfRange));
    assert_eq!(seg.find_slice(&[9]), Some(0));
}

#[test]
fn config_settings_are_checked() {
    let mut config = Config::default();
    assert_eq!(config.set_from_key_value("show_ascii", ConfigValue::Boolean(false)), Ok(()));
    assert!(!config.show_ascii);
    assert_eq!(config.set_from_key_value("line_width", ConfigValue::Integer(16)), Ok(()));
    assert_eq!(config.line_width, Some(16));
    assert_eq!(config.set_from_key_value("line_width", ConfigValue::Integer(0)), Ok(()));
    assert_eq!(config.line_width, None);
    assert_eq!(
        config.set_from_key_value("line_width", ConfigValue::Integer(-1)),
        Err(ConfigError::InvalidFieldValue("line_width must be >= 0"))
    );
    assert_eq!(
        config.set_from_key_value("group_bytes", ConfigValue::Integer(65)),
        Err(ConfigError::InvalidFieldValue("group_bytes must be between 0 and 64"))
    );
    assert_eq!(config.set_from_key_value("group_bytes", ConfigValue::Integer(4)), Ok(()));
    assert_eq!(config.group_bytes, 4);
    assert_eq!(
        config.set_from_key_value("show_linenum", ConfigValue::Integer(1)),
        Err(ConfigError::InvalidFieldType("Boolean"))
    );
    assert_eq!(
        config.set_from_key_value("little_endian", ConfigValue::Other),
        Err(ConfigError::InvalidFieldType("Boolean"))
    );
    assert_eq!(
        config.set_from_key_value("colour", ConfigValue::Boolean(true)),
        Err(ConfigError::InvalidFieldName)
    );
    assert!(config.show_linenum);
}
