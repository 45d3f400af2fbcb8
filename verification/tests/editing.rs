use reflection_doc::document::Document;
use reflection_doc::document_id::{DocumentId, HexError};
use reflection_doc::editor::{loop_step, EditKey, Editor, InputOutcome, LoopAction, LoopEvent};
use reflection_doc::id_file::{resolve_document_id, DocumentIdSource};
use reflection_doc::identity::PublicKey;
use reflection_doc::text::TextError;

fn new_doc() -> Document {
    Document::new(&PublicKey::from_bytes([1u8; 32]), &DocumentId::from([1u8; 32]))
}

#[test]
fn typing_and_moving() {
    let mut doc = new_doc();
    let mut editor = Editor::new(&doc);
    assert_eq!(editor.cursor(), 0);
    for c in "abc".chars() {
        assert_eq!(editor.handle_input(&mut doc, EditKey::Char(c)), InputOutcome::Handled);
    }
    assert_eq!(editor.text(), "abc");
    assert_eq!(editor.cursor(), 3);
    editor.handle_input(&mut doc, EditKey::Left);
    editor.handle_input(&mut doc, EditKey::Left);
    editor.handle_input(&mut doc, EditKey::Enter);
    assert_eq!(doc.text(), "a\nbc");
    assert_eq!(editor.cursor(), 2);
    editor.handle_input(&mut doc, EditKey::Backspace);
    assert_eq!(doc.text(), "abc");
    assert_eq!(editor.cursor(), 1);
    editor.handle_input(&mut doc, EditKey::Right);
    editor.handle_input(&mut doc, EditKey::Right);
    editor.handle_input(&mut doc, EditKey::Right);
    assert_eq!(editor.cursor(), 3);
    editor.handle_input(&mut doc, EditKey::Other);
    assert_eq!(editor.cursor(), 3);
}

#[test]
fn edges_of_the_text() {
    let mut doc = new_doc();
    let mut editor = Editor::new(&doc);
    assert_eq!(editor.handle_input(&mut doc, EditKey::Backspace), InputOutcome::Handled);
    editor.handle_input(&mut doc, EditKey::Left);
    assert_eq!(editor.cursor(), 0);
    editor.handle_input(&mut doc, EditKey::Right);
    assert_eq!(editor.cursor(), 0);
}

#[test]
fn the_cursor_counts_bytes_but_the_document_counts_characters() {
    let mut doc = new_doc();
    let mut editor = Editor::new(&doc);
    editor.handle_input(&mut doc, EditKey::Char('é'));
    assert_eq!(editor.cursor(), 2);
    // Byte offset 2 lies beyond the one-character text: the write is refused.
    assert!(matches!(
        editor.handle_input(&mut doc, EditKey::Char('x')),
        InputOutcome::WriteFailed(TextError::OutOfBound { pos: 2, len: 1, .. })
    ));
    assert_eq!(editor.cursor(), 2);
    assert!(matches!(
        editor.handle_input(&mut doc, EditKey::Backspace),
        InputOutcome::DeleteFailed(TextError::OutOfBound { pos: 2, len: 1, .. })
    ));
    assert_eq!(doc.text(), "é");
}

#[test]
fn refreshing_clamps_the_cursor() {
    let mut doc = new_doc();
    doc.insert_text(0, "hello").unwrap();
    let mut editor = Editor::new(&doc);
    assert_eq!(editor.cursor(), 5);
    doc.delete_range(1, 5).unwrap();
    editor.refresh_from_doc(&doc);
    assert_eq!(editor.text(), "h");
    assert_eq!(editor.cursor(), 1);
    doc.insert_text(1, "ey").unwrap();
    editor.refresh_from_doc(&doc);
    assert_eq!(editor.text(), "hey");
    assert_eq!(editor.cursor(), 1);
}

#[test]
fn resolving_the_document_id_file() {
    let (_, source) = resolve_document_id("").unwrap();
    assert_eq!(source, DocumentIdSource::Created);
    let (_, source) = resolve_document_id(" \n\t ").unwrap();
    assert_eq!(source, DocumentIdSource::Created);
    let hex = "0f".repeat(32);
    let (id, source) = resolve_document_id(&format!("  {hex}\n")).unwrap();
    assert_eq!(source, DocumentIdSource::Read);
    assert_eq!(id.bytes, [0x0fu8; 32]);
    assert_eq!(resolve_document_id("xyz\n"), Err(HexError::OddLength));
    assert_eq!(resolve_document_id(" ab "), Err(HexError::InvalidStringLength));
}

#[test]
fn the_loop_quits_on_escape_and_q() {
    assert_eq!(loop_step(LoopEvent::Escape), LoopAction::Quit);
    assert_eq!(loop_step(LoopEvent::Key(EditKey::Char('q'))), LoopAction::Quit);
    assert_eq!(
        loop_step(LoopEvent::Key(EditKey::Char('Q'))),
        LoopAction::Edit(EditKey::Char('Q'))
    );
    assert_eq!(loop_step(LoopEvent::Key(EditKey::Enter)), LoopAction::Edit(EditKey::Enter));
    assert_eq!(loop_step(LoopEvent::Tick), LoopAction::Refresh);
    assert_eq!(loop_step(LoopEvent::Ignored), LoopAction::Wait);
}

#[test]
fn resolving_the_written_id_again_reads_the_same_id() {
    let (id, source) = resolve_document_id("\n").unwrap();
    assert_eq!(source, DocumentIdSource::Created);
    let written = id.to_hex();
    let (again, source) = resolve_document_id(&written).unwrap();
    assert_eq!(source, DocumentIdSource::Read);
    assert_eq!(again, id);
}
