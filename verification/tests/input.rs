use fed::input::vim_input::{EditorAction, Location, Mode, VimInput};

fn kinds(v: &fed::EditorActions) -> Vec<String> {
    v.as_slice()
        .iter()
        .map(|a| match a {
            EditorAction::InsertString(s) => format!("insert {}", s),
            EditorAction::DeleteLeft => "delete_left".to_string(),
            EditorAction::InsertNewline => "newline".to_string(),
            EditorAction::Copy => "copy".to_string(),
            EditorAction::Cut => "cut".to_string(),
            EditorAction::Paste => "paste".to_string(),
            EditorAction::BeginSelection => "begin".to_string(),
            EditorAction::EndSelection => "end".to_string(),
            EditorAction::GoTo(Location::StartOfLine) => "goto start".to_string(),
            EditorAction::GoTo(Location::EndOfLine) => "goto end".to_string(),
            EditorAction::GoTo(Location::FirstLine) => "goto first".to_string(),
            EditorAction::GoTo(Location::LastLine) => "goto last".to_string(),
            EditorAction::GoTo(Location::Offset(d)) => format!("goto {} {}", d.row, d.column),
        })
        .collect()
}

#[test]
fn starts_in_normal_mode() {
    assert_eq!(VimInput::new().mode, Mode::Normal);
}

#[test]
fn i_enters_insert_mode() {
    let mut v = VimInput::new();
    let r = v.receive_char('i');
    assert_eq!(v.mode, Mode::Insert);
    assert!(kinds(&r).is_empty());
}

#[test]
fn a_moves_right_then_inserts() {
    let mut v = VimInput::new();
    let r = v.receive_char('a');
    assert_eq!(v.mode, Mode::Insert);
    assert_eq!(kinds(&r), vec!["goto 0 1"]);
}

#[test]
fn normal_mode_bindings() {
    for (c, expected, mode) in [
        ('$', "goto end", Mode::Normal),
        ('0', "goto start", Mode::Normal),
        ('A', "goto end", Mode::Insert),
        ('I', "goto start", Mode::Insert),
        ('g', "goto first", Mode::Normal),
        ('G', "goto last", Mode::Normal),
        ('v', "begin", Mode::Visual),
        ('p', "paste", Mode::Normal),
    ] {
        let mut v = VimInput::new();
        let r = v.receive_char(c);
        assert_eq!(kinds(&r), vec![expected]);
        assert_eq!(v.mode, mode);
    }
    let mut v = VimInput::new();
    assert!(kinds(&v.receive_char('z')).is_empty());
    assert_eq!(v.mode, Mode::Normal);
}

#[test]
fn insert_mode_chars() {
    let mut v = VimInput { mode: Mode::Insert };
    assert_eq!(kinds(&v.receive_char('x')), vec!["insert x"]);
    assert_eq!(kinds(&v.receive_char('\r')), vec!["newline"]);
    assert_eq!(kinds(&v.receive_char('\x08')), vec!["delete_left"]);
    assert!(kinds(&v.receive_char('\x01')).is_empty());
    assert_eq!(v.mode, Mode::Insert);
    assert!(kinds(&v.receive_char('\x1B')).is_empty());
    assert_eq!(v.mode, Mode::Normal);
}

#[test]
fn visual_mode_keys() {
    let mut v = VimInput { mode: Mode::Visual };
    assert_eq!(kinds(&v.receive_char('y')), vec!["copy"]);
    assert_eq!(v.mode, Mode::Normal);
    let mut v = VimInput { mode: Mode::Visual };
    assert_eq!(kinds(&v.receive_char('d')), vec!["cut"]);
    assert_eq!(v.mode, Mode::Normal);
    let mut v = VimInput { mode: Mode::Visual };
    assert!(kinds(&v.receive_char('q')).is_empty());
    assert_eq!(v.mode, Mode::Visual);
}

#[test]
fn law_escape_returns_to_normal() {
    for mode in [Mode::Normal, Mode::Insert, Mode::Visual] {
        let mut v = VimInput { mode };
        let r = v.receive_char('\x1B');
        assert_eq!(v.mode, Mode::Normal);
        if mode == Mode::Visual {
            assert_eq!(kinds(&r), vec!["end"]);
        } else {
            assert!(kinds(&r).is_empty());
        }
    }
}

#[test]
fn mode_names() {
    assert_eq!(Mode::Normal.to_string(), "Normal");
    assert_eq!(Mode::Insert.to_string(), "Insert");
    assert_eq!(Mode::Visual.to_string(), "Visual");
}
