use std::collections::HashMap;

use rex::frontend::KeyPress;
use rex::split_vec::SplitVec;
use rex::view::{EditOperation, HexEdit, PathRequest};

/// Files that path prompts read from and write to.
struct Files {
    files: HashMap<String, Vec<u8>>,
}

impl Files {
    fn new() -> Files {
        Files { files: HashMap::new() }
    }

    fn handle(&mut self, edit: &mut HexEdit, request: Option<PathRequest>) {
        match request {
            Some(PathRequest::Open(path)) => {
                let data = self.files.get(&path).cloned().unwrap_or_default();
                edit.open(path, data);
            }
            Some(PathRequest::Save(path)) => {
                self.files.insert(path.clone(), contents(edit.get_buffer()));
                edit.save(path);
            }
            None => {}
        }
    }

    fn run_keys(&mut self, edit: &mut HexEdit, keys: Vec<KeyPress>) {
        for key in keys {
            let request = edit.input(key);
            self.handle(edit, request);
        }
    }

    fn run_str(&mut self, edit: &mut HexEdit, s: &str) {
        for c in s.chars() {
            let request = edit.input(KeyPress::Key(c));
            self.handle(edit, request);
        }
    }
}

fn contents(buffer: &SplitVec) -> Vec<u8> {
    let mut out = Vec::new();
    let mut slices = buffer.iter_slices();
    while let Some(block) = slices.next() {
        out.extend_from_slice(block);
    }
    out
}

fn generate_vec(size: usize) -> Vec<u8> {
    (0..size).map(|x| (x & 0xff) as u8).collect()
}

fn simple_init_with_vec(vec: Vec<u8>) -> (HexEdit, Files) {
    let mut edit = HexEdit::new();
    edit.open_vec(vec);
    edit.resize(100, 100);
    (edit, Files::new())
}

fn simple_init(size: usize) -> (HexEdit, Files) {
    simple_init_with_vec(generate_vec(size))
}

fn simple_init_empty() -> (HexEdit, Files) {
    let mut edit = HexEdit::new();
    edit.resize(100, 100);
    (edit, Files::new())
}

fn top_cutoff() {
    let (mut edit, mut frontend) = simple_init(0x1000);

    assert_eq!(edit.get_position(), 0);

    frontend.run_keys(&mut edit, vec![KeyPress::Right, KeyPress::Up, KeyPress::Left]);
    assert_eq!(edit.get_position(), 0);

    frontend.run_keys(&mut edit, vec![KeyPress::Down, KeyPress::Left, KeyPress::Up]);
    assert_eq!(edit.get_position(), 0);

    frontend.run_keys(&mut edit, vec![KeyPress::Down, KeyPress::Right, KeyPress::Up, KeyPress::Up]);
    assert_eq!(edit.get_position(), 0);

    frontend.run_keys(&mut edit, vec![KeyPress::PageDown, KeyPress::PageUp, KeyPress::PageUp]);
    assert_eq!(edit.get_position(), 0);

    frontend.run_keys(
        &mut edit,
        vec![KeyPress::PageDown, KeyPress::Right, KeyPress::PageUp, KeyPress::PageUp],
    );
    assert_eq!(edit.get_position(), 0);
}

fn bottom_cutoff() {
    let size: isize = 0x1000;
    let (mut edit, mut frontend) = simple_init(size as usize);

    assert_eq!(edit.get_position(), 0);

    frontend.run_keys(&mut edit, vec![KeyPress::Shortcut('g')]);
    frontend.run_str(&mut edit, "4100");
    frontend.run_keys(&mut edit, vec![KeyPress::Enter]);
    assert_eq!(edit.get_position(), size);

    frontend.run_keys(&mut edit, vec![KeyPress::Left, KeyPress::Down, KeyPress::Right]);
    assert_eq!(edit.get_position(), size);

    frontend.run_keys(&mut edit, vec![KeyPress::Up, KeyPress::Right, KeyPress::Down]);
    assert_eq!(edit.get_position(), size);

    frontend.run_keys(&mut edit, vec![KeyPress::Up, KeyPress::Left, KeyPress::Down, KeyPress::Down]);
    assert_eq!(edit.get_position(), size);

    frontend.run_keys(&mut edit, vec![KeyPress::PageUp, KeyPress::PageDown, KeyPress::PageDown]);
    assert_eq!(edit.get_position(), size);

    frontend.run_keys(
        &mut edit,
        vec![KeyPress::PageUp, KeyPress::Left, KeyPress::PageDown, KeyPress::PageDown],
    );
    assert_eq!(edit.get_position(), size);
}

#[test]
fn basic_test_top_cutoff() {
    top_cutoff();
}

#[test]
fn basic_test_bottom_cutoff() {
    bottom_cutoff();
}

#[test]
fn movement_test_top_cutoff() {
    top_cutoff();
}

#[test]
fn movement_test_bottom_cutoff() {
    bottom_cutoff();
}

#[test]
fn test_goto() {
    let size: isize = 0x1000;
    let (mut edit, mut frontend) = simple_init(size as usize);
    let pedit = &mut edit;

    assert_eq!(pedit.get_position(), 0);

    // Default is decimal
    frontend.run_keys(pedit, vec![KeyPress::Shortcut('g')]);
    frontend.run_str(pedit, "100");
    frontend.run_keys(pedit, vec![KeyPress::Enter]);
    assert_eq!(pedit.get_position(), 100);

    // Then comes hex
    frontend.run_keys(pedit, vec![KeyPress::Shortcut('g')]);
    frontend.run_keys(pedit, vec![KeyPress::Shortcut('h')]);
    frontend.run_str(pedit, "100");
    frontend.run_keys(pedit, vec![KeyPress::Enter]);
    assert_eq!(pedit.get_position(), 0x100);

    // Then comes octal
    frontend.run_keys(pedit, vec![KeyPress::Shortcut('g')]);
    frontend.run_keys(pedit, vec![KeyPress::Shortcut('o')]);
    frontend.run_str(pedit, "100");
    frontend.run_keys(pedit, vec![KeyPress::Enter]);
    assert_eq!(pedit.get_position(), 0o100);

    // And now just a bit of random til we come back to decimal
    frontend.run_keys(pedit, vec![KeyPress::Shortcut('g')]);
    frontend.run_keys(pedit, vec![KeyPress::Shortcut('o')]);
    frontend.run_keys(pedit, vec![KeyPress::Shortcut('h')]);
    frontend.run_keys(pedit, vec![KeyPress::Shortcut('d')]);
    frontend.run_str(pedit, "50");
    frontend.run_keys(pedit, vec![KeyPress::Enter]);
    assert_eq!(pedit.get_position(), 50);
}

#[test]
fn test_find() {
    let mut vec: Vec<u8> = std::iter::repeat(0).take(100).collect();
    vec.append(&mut vec![0x78, 0x78, 0x78, 0x78]);
    vec.append(&mut std::iter::repeat(0).take(100).collect());
    let (mut edit, mut frontend) = simple_init_with_vec(vec);
    let pedit = &mut edit;

    // Try Ascii
    frontend.run_keys(pedit, vec![KeyPress::Shortcut('f')]);
    frontend.run_keys(pedit, vec![KeyPress::Shortcut('a')]);
    frontend.run_str(pedit, "xxxx");
    frontend.run_keys(pedit, vec![KeyPress::Enter]);
    assert_eq!(pedit.get_position(), 100);

    // Reset position
    frontend.run_keys(pedit, vec![KeyPress::PageUp, KeyPress::PageUp]);

    // Try Hex
    frontend.run_keys(pedit, vec![KeyPress::Shortcut('f')]);
    frontend.run_keys(pedit, vec![KeyPress::Shortcut('h')]);
    frontend.run_str(pedit, "78787878");
    frontend.run_keys(pedit, vec![KeyPress::Enter]);
    assert_eq!(pedit.get_position(), 100);
}

#[test]
fn test_edit_overwrite() {
    let v: Vec<u8> = (0..0xff).into_iter().collect();
    let mut result = v.clone();

    let (mut edit, mut frontend) = simple_init_with_vec(v);

    // Overwrite with some junk data in the begining
    frontend.run_str(&mut edit, "AABBCCDDEE");
    result.splice(0..5, vec![0xAA, 0xBB, 0xCC, 0xDD, 0xEE]);

    // Overwrite some junk in the middle
    frontend.run_keys(&mut edit, vec![KeyPress::Shortcut('g')]);
    frontend.run_str(&mut edit, "50");
    frontend.run_keys(&mut edit, vec![KeyPress::Enter]);
    frontend.run_str(&mut edit, "AABBCCDDEE");
    assert_eq!(edit.get_position(), 55);
    result.splice(50..55, vec![0xAA, 0xBB, 0xCC, 0xDD, 0xEE]);

    // Overwrite it in the end (where it should append)
    frontend.run_keys(&mut edit, vec![KeyPress::PageDown, KeyPress::PageDown, KeyPress::PageDown]);
    frontend.run_str(&mut edit, "AABBCCDDEE");
    let len = result.len();
    result.splice(len.., vec![0xAA, 0xBB, 0xCC, 0xDD, 0xEE]);

    assert_eq!(contents(edit.get_buffer()), result);
}

#[test]
fn test_edit_insert() {
    let v: Vec<u8> = (0..0xff).into_iter().collect();
    let mut result = v.clone();

    let (mut edit, mut frontend) = simple_init_with_vec(v);

    // Insert with some junk data in the begining
    frontend.run_keys(&mut edit, vec![KeyPress::Insert]);
    frontend.run_str(&mut edit, "AABBCCDDEE");
    result.splice(..0, vec![0xAA, 0xBB, 0xCC, 0xDD, 0xEE]);

    // Insert some junk in the middle
    frontend.run_keys(&mut edit, vec![KeyPress::Shortcut('g')]);
    frontend.run_str(&mut edit, "50");
    frontend.run_keys(&mut edit, vec![KeyPress::Enter]);
    frontend.run_str(&mut edit, "AABBCCDDEE");
    assert_eq!(edit.get_position(), 55);
    result.splice(50..50, vec![0xAA, 0xBB, 0xCC, 0xDD, 0xEE]);

    // Insert it in the end (where it should append)
    frontend.run_keys(&mut edit, vec![KeyPress::PageDown, KeyPress::PageDown, KeyPress::PageDown]);
    frontend.run_str(&mut edit, "AABBCCDDEE");
    let len = result.len();
    result.splice(len.., vec![0xAA, 0xBB, 0xCC, 0xDD, 0xEE]);

    assert_eq!(contents(edit.get_buffer()), result);
}

#[test]
fn test_edit_delete_and_bksp() {
    let v: Vec<u8> = (0..0xff).into_iter().collect();
    let mut result = v.clone();

    let (mut edit, mut frontend) = simple_init_with_vec(v);

    // Delete some chars in the begining (where the bksp key should be a no-op)
    frontend.run_keys(&mut edit, vec![KeyPress::Backspace, KeyPress::Backspace]);
    assert_eq!(edit.get_position(), 0);
    // And actually delete some chars
    frontend.run_keys(
        &mut edit,
        vec![
            KeyPress::Right,
            KeyPress::Right,
            KeyPress::Right,
            KeyPress::Right,
            KeyPress::Backspace,
            KeyPress::Backspace,
        ],
    );
    assert_eq!(edit.get_position(), 0);
    frontend.run_keys(&mut edit, vec![KeyPress::Delete, KeyPress::Delete]);
    assert_eq!(edit.get_position(), 0);
    result.splice(0..4, vec![]);

    // Delete some chars in the middle
    frontend.run_keys(&mut edit, vec![KeyPress::Shortcut('g')]);
    frontend.run_str(&mut edit, "50");
    frontend.run_keys(&mut edit, vec![KeyPress::Enter]);
    frontend.run_keys(&mut edit, vec![KeyPress::Delete, KeyPress::Delete]);
    assert_eq!(edit.get_position(), 50);
    frontend.run_keys(&mut edit, vec![KeyPress::Backspace, KeyPress::Backspace]);
    assert_eq!(edit.get_position(), 48);
    result.splice(48..52, vec![]);

    // Delete in the end (where the delete key should be a no-op)
    let mut len = result.len();
    frontend.run_keys(&mut edit, vec![KeyPress::PageDown, KeyPress::PageDown, KeyPress::PageDown]);
    frontend.run_keys(&mut edit, vec![KeyPress::Delete, KeyPress::Delete]);
    assert_eq!(edit.get_position(), len as isize);
    // And actually delete some chars
    frontend.run_keys(
        &mut edit,
        vec![
            KeyPress::Left,
            KeyPress::Left,
            KeyPress::Left,
            KeyPress::Left,
            KeyPress::Delete,
            KeyPress::Delete,
        ],
    );
    frontend.run_keys(&mut edit, vec![KeyPress::Backspace, KeyPress::Backspace]);
    result.splice((len - 4).., vec![]);
    len = result.len();
    assert_eq!(edit.get_position(), len as isize);

    println!("result = {:?}", result);

    assert_eq!(contents(edit.get_buffer()), result);
}

#[test]
fn test_undo_insert() {
    let v: Vec<u8> = (0..0xff).into_iter().collect();
    let result = v.clone();

    let (mut edit, mut frontend) = simple_init_with_vec(v);

    frontend.run_str(&mut edit, "AA");
    assert_eq!(edit.get_position(), 1);

    frontend.run_keys(&mut edit, vec![KeyPress::Shortcut('z'), KeyPress::Shortcut('z')]);
    assert_eq!(edit.get_position(), 0);

    assert_eq!(contents(edit.get_buffer()), result);
}

#[test]
fn test_undo_delete() {
    let v: Vec<u8> = (0..0xff).into_iter().collect();
    let result = v.clone();

    let (mut edit, mut frontend) = simple_init_with_vec(v);

    frontend.run_keys(&mut edit, vec![KeyPress::Delete]);

    frontend.run_keys(&mut edit, vec![KeyPress::Shortcut('z')]);
    assert_eq!(edit.get_position(), 0);

    assert_eq!(contents(edit.get_buffer()), result);
}

#[test]
fn test_insert_copy_paste() {
    let v: Vec<u8> = (0..0xff).into_iter().collect();
    let mut v_copy = v.clone();

    let (mut edit, mut frontend) = simple_init_with_vec(v);

    // Add some junk data in the begining
    frontend.run_keys(&mut edit, vec![KeyPress::Insert]);
    frontend.run_str(&mut edit, "AABBCCDDEE");
    v_copy.splice(..0, vec![0xAA, 0xBB, 0xCC, 0xDD, 0xEE]);

    // Copy it
    frontend.run_keys(
        &mut edit,
        vec![KeyPress::Left, KeyPress::Shortcut(' '), KeyPress::Home, KeyPress::Shortcut('c')],
    );

    // Paste it in the middle
    frontend.run_keys(&mut edit, vec![KeyPress::Shortcut('g')]);
    frontend.run_str(&mut edit, "50");
    frontend.run_keys(&mut edit, vec![KeyPress::Enter, KeyPress::Shortcut('v')]);
    assert_eq!(edit.get_position(), 55);
    v_copy.splice(50..50, vec![0xAA, 0xBB, 0xCC, 0xDD, 0xEE]);

    // Paste it in the end
    frontend.run_keys(
        &mut edit,
        vec![KeyPress::PageDown, KeyPress::PageDown, KeyPress::PageDown, KeyPress::Shortcut('v')],
    );
    let l = v_copy.len();
    v_copy.splice(l.., vec![0xAA, 0xBB, 0xCC, 0xDD, 0xEE]);

    println!("v_copy = {:?}", v_copy);

    assert_eq!(contents(edit.get_buffer()), v_copy);
}

#[test]
fn test_overwrite_copy_paste() {
    let v: Vec<u8> = (0..0xff).into_iter().collect();
    let mut v_copy = v.clone();

    let (mut edit, mut frontend) = simple_init_with_vec(v);

    // Add some junk data in the begining
    frontend.run_str(&mut edit, "AABBCCDDEE");
    v_copy.splice(..5, vec![0xAA, 0xBB, 0xCC, 0xDD, 0xEE]);

    // Copy it
    frontend.run_keys(
        &mut edit,
        vec![KeyPress::Left, KeyPress::Shortcut(' '), KeyPress::Home, KeyPress::Shortcut('c')],
    );

    // Paste it in the middle
    frontend.run_keys(&mut edit, vec![KeyPress::Shortcut('g')]);
    frontend.run_str(&mut edit, "50");
    frontend.run_keys(&mut edit, vec![KeyPress::Enter, KeyPress::Shortcut('v')]);
    assert_eq!(edit.get_position(), 55);
    v_copy.splice(50..55, vec![0xAA, 0xBB, 0xCC, 0xDD, 0xEE]);

    // Paste it in the end - in overwrite mode, pasting past the end does an insert
    frontend.run_keys(
        &mut edit,
        vec![KeyPress::PageDown, KeyPress::PageDown, KeyPress::PageDown, KeyPress::Shortcut('v')],
    );
    let l = v_copy.len();
    v_copy.splice(l.., vec![0xAA, 0xBB, 0xCC, 0xDD, 0xEE]);

    println!("v_copy = {:?}", v_copy);

    assert_eq!(contents(edit.get_buffer()), v_copy);
}

#[test]
fn test_cut_paste() {
    let v: Vec<u8> = (0..0xff).into_iter().collect();
    let mut v_copy = v.clone();

    let (mut edit, mut frontend) = simple_init_with_vec(v);

    // Add some junk data in the begining
    frontend.run_keys(&mut edit, vec![KeyPress::Insert]);
    frontend.run_str(&mut edit, "AABBCCDDEE");

    // Cut it
    frontend.run_keys(
        &mut edit,
        vec![KeyPress::Left, KeyPress::Shortcut(' '), KeyPress::Home, KeyPress::Shortcut('x')],
    );

    // Paste it in the end
    frontend.run_keys(
        &mut edit,
        vec![KeyPress::PageDown, KeyPress::PageDown, KeyPress::PageDown, KeyPress::Shortcut('v')],
    );
    let l = v_copy.len();
    v_copy.splice(l.., vec![0xAA, 0xBB, 0xCC, 0xDD, 0xEE]);

    println!("v_copy = {:?}", v_copy);

    assert_eq!(contents(edit.get_buffer()), v_copy);
}

#[test]
fn test_basic_open() {
    // Create a vec with a marker in the end
    let mut v = vec![0; 1000];
    let len = v.len();
    v[len - 1] = 0xAA;

    let (mut edit, mut frontend) = simple_init_empty();
    let pedit = &mut edit;

    frontend.files.insert("test_basic_open".to_string(), v);

    // Open file with the marker
    frontend.run_keys(pedit, vec![KeyPress::Shortcut('o')]);
    frontend.run_str(pedit, "test_basic_open");
    frontend.run_keys(pedit, vec![KeyPress::Enter]);

    // Find the marker
    frontend.run_keys(pedit, vec![KeyPress::Shortcut('f')]);
    frontend.run_keys(pedit, vec![KeyPress::Shortcut('h')]);
    frontend.run_str(pedit, "AA");
    frontend.run_keys(pedit, vec![KeyPress::Enter]);

    // Make sure the opened file name is correct
    assert_eq!(Some("test_basic_open"), pedit.get_file_path());

    // And make sure it is in the right place
    assert_eq!(pedit.get_position(), (len - 1) as isize);
}

#[test]
fn test_basic_save() {
    // Create a view over a generic vector
    let v = generate_vec(1000);
    let (mut edit, mut frontend) = simple_init_with_vec(v.clone());
    let pedit = &mut edit;

    // Save it to a file
    frontend.run_keys(pedit, vec![KeyPress::Shortcut('s')]);
    frontend.run_str(pedit, "test_basic_save");
    frontend.run_keys(pedit, vec![KeyPress::Enter]);

    // Make sure they are equal
    assert_eq!(Some(&v), frontend.files.get("test_basic_save"));
    assert_eq!(Some("test_basic_save"), pedit.get_file_path());
}

#[test]
fn undo_restores_content_and_start() {
    let v: Vec<u8> = (0..40).collect();
    let (mut edit, _files) = simple_init_with_vec(v.clone());
    let applied = edit.edit_buffer(EditOperation::delete(5..12), true);
    assert_eq!(applied, Some((5, 5)));
    assert_eq!(contents(edit.get_buffer()).len(), 33);
    assert_eq!(edit.undo(), Some(5));
    assert_eq!(contents(edit.get_buffer()), v);
    assert_eq!(edit.get_position(), 5);
    assert_eq!(edit.undo(), None);
}

#[test]
fn two_overwrites_undone_restore_content() {
    let v: Vec<u8> = (0..40).collect();
    let (mut edit, _files) = simple_init_with_vec(v.clone());
    edit.edit_buffer(EditOperation::write(3, vec![9, 9, 9]), true);
    assert_eq!(edit.undo(), Some(3));
    edit.edit_buffer(EditOperation::write(38, vec![7, 7, 7, 7]), true);
    assert_eq!(contents(edit.get_buffer()).len(), 42);
    assert_eq!(edit.undo(), Some(38));
    assert_eq!(contents(edit.get_buffer()), v);
}

#[test]
fn insert_operation_and_undo() {
    let v: Vec<u8> = vec![1, 2, 3];
    let (mut edit, _files) = simple_init_with_vec(v.clone());
    assert_eq!(edit.edit_buffer(EditOperation::insert(3, vec![4, 5]), true), Some((3, 5)));
    assert_eq!(contents(edit.get_buffer()), vec![1, 2, 3, 4, 5]);
    assert_eq!(edit.edit_buffer(EditOperation::insert(9, vec![4]), true), None);
    assert_eq!(edit.undo(), Some(3));
    assert_eq!(contents(edit.get_buffer()), v);
}

#[test]
fn bad_goto_and_bad_hex_close_the_prompt() {
    let (mut edit, mut files) = simple_init(100);
    files.run_keys(&mut edit, vec![KeyPress::Shortcut('g'), KeyPress::Enter]);
    assert_eq!(edit.get_position(), 0);
    files.run_keys(&mut edit, vec![KeyPress::Shortcut('f'), KeyPress::Shortcut('h')]);
    files.run_str(&mut edit, "7");
    files.run_keys(&mut edit, vec![KeyPress::Enter]);
    assert_eq!(edit.get_status_log().last().map(|s| s.as_str()), Some("Bad hex value"));
    files.run_keys(&mut edit, vec![KeyPress::Right, KeyPress::Right]);
    assert_eq!(edit.get_position(), 1);
}

#[test]
fn find_wraps_to_the_start() {
    let mut data = vec![0u8; 50];
    data[10] = 0x41;
    data[40] = 0x41;
    let (mut edit, mut files) = simple_init_with_vec(data);
    files.run_keys(&mut edit, vec![KeyPress::Shortcut('g')]);
    files.run_str(&mut edit, "20");
    files.run_keys(&mut edit, vec![KeyPress::Enter]);
    files.run_keys(&mut edit, vec![KeyPress::Shortcut('f')]);
    files.run_str(&mut edit, "A");
    files.run_keys(&mut edit, vec![KeyPress::Enter]);
    assert_eq!(edit.get_position(), 40);
    files.run_keys(&mut edit, vec![KeyPress::Right, KeyPress::Right]);
    files.run_keys(&mut edit, vec![KeyPress::Shortcut('f')]);
    files.run_str(&mut edit, "A");
    files.run_keys(&mut edit, vec![KeyPress::Enter]);
    assert_eq!(edit.get_position(), 10);
    files.run_keys(&mut edit, vec![KeyPress::Shortcut('f')]);
    files.run_str(&mut edit, "B");
    files.run_keys(&mut edit, vec![KeyPress::Enter]);
    assert_eq!(edit.get_position(), 10);
    assert_eq!(edit.get_status_log().last().map(|s| s.as_str()), Some("Nothing found!"));
}

#[test]
fn failed_save_keeps_path_and_reports() {
    let (mut edit, _files) = simple_init_with_vec(vec![1, 2, 3]);
    edit.save("first".to_string());
    edit.save_failed("ERROR: disk full");
    assert_eq!(edit.get_file_path(), Some("first"));
    assert_eq!(edit.get_status_log().last().map(|s| s.as_str()), Some("ERROR: disk full"));
}
