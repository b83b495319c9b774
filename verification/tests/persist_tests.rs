use pomimi::persist::{
    default_doc, load_doc, parse_doc, write_doc, PersistDoc, TodoItem, TodoList,
};

fn doc_with_lists() -> PersistDoc {
    PersistDoc {
        todo_lists: vec![
            TodoList {
                name: b"Main".to_vec(),
                items: vec![
                    TodoItem { text: b"water the plants".to_vec(), done: false },
                    TodoItem { text: b"say \"hi\"".to_vec(), done: true },
                ],
            },
            TodoList {
                name: b"Work".to_vec(),
                items: vec![TodoItem { text: b"back\\slash".to_vec(), done: false }],
            },
        ],
        cli_mode_default: true,
        gui_always_on_top: false,
        run_in_mini_mode: true,
    }
}

fn assert_docs_equal(a: &PersistDoc, b: &PersistDoc) {
    assert_eq!(a.cli_mode_default, b.cli_mode_default);
    assert_eq!(a.gui_always_on_top, b.gui_always_on_top);
    assert_eq!(a.run_in_mini_mode, b.run_in_mini_mode);
    assert_eq!(a.todo_lists.len(), b.todo_lists.len());
    for (la, lb) in a.todo_lists.iter().zip(b.todo_lists.iter()) {
        assert_eq!(la.name, lb.name);
        assert_eq!(la.items.len(), lb.items.len());
        for (ia, ib) in la.items.iter().zip(lb.items.iter()) {
            assert_eq!(ia.text, ib.text);
            assert_eq!(ia.done, ib.done);
        }
    }
}

#[test]
fn round_trip_reproduces_the_lists() {
    let doc = doc_with_lists();
    let bytes = write_doc(&doc);
    let back = parse_doc(&bytes).expect("canonical form must parse");
    assert_docs_equal(&doc, &back);
}

#[test]
fn round_trip_of_the_default_document() {
    let doc = default_doc();
    let bytes = write_doc(&doc);
    let back = parse_doc(&bytes).expect("canonical form must parse");
    assert_docs_equal(&doc, &back);
}

#[test]
fn the_written_form_is_plain_json() {
    let bytes = write_doc(&default_doc());
    let expected = r#"{"todo_lists":[{"name":"Main","items":[]}],"cli_mode_default":false,"gui_always_on_top":false,"run_in_mini_mode":false}"#;
    assert_eq!(bytes, expected.as_bytes());
}

#[test]
fn quotes_and_backslashes_are_escaped() {
    let doc = PersistDoc {
        todo_lists: vec![TodoList {
            name: b"a\"b\\c".to_vec(),
            items: vec![],
        }],
        cli_mode_default: false,
        gui_always_on_top: false,
        run_in_mini_mode: false,
    };
    let bytes = write_doc(&doc);
    let text = String::from_utf8(bytes.clone()).unwrap();
    assert!(text.contains(r#""name":"a\"b\\c""#));
    let back = parse_doc(&bytes).unwrap();
    assert_eq!(back.todo_lists[0].name, b"a\"b\\c".to_vec());
}

#[test]
fn default_document_has_one_empty_main_list() {
    let doc = default_doc();
    assert_eq!(doc.todo_lists.len(), 1);
    assert_eq!(doc.todo_lists[0].name, b"Main".to_vec());
    assert!(doc.todo_lists[0].items.is_empty());
    assert!(!doc.cli_mode_default);
    assert!(!doc.gui_always_on_top);
    assert!(!doc.run_in_mini_mode);
}

#[test]
fn a_missing_file_falls_back_to_the_default() {
    let doc = load_doc(None);
    assert_docs_equal(&doc, &default_doc());
}

#[test]
fn an_unparsable_file_falls_back_to_the_default() {
    let garbage = b"{\"oops\": 12".to_vec();
    let doc = load_doc(Some(&garbage));
    assert_docs_equal(&doc, &default_doc());
    let truncated = write_doc(&doc_with_lists())[..10].to_vec();
    let doc = load_doc(Some(&truncated));
    assert_docs_equal(&doc, &default_doc());
}

#[test]
fn a_good_file_loads_as_written() {
    let doc = doc_with_lists();
    let bytes = write_doc(&doc);
    let back = load_doc(Some(&bytes));
    assert_docs_equal(&doc, &back);
}

#[test]
fn trailing_bytes_are_rejected() {
    let mut bytes = write_doc(&default_doc());
    bytes.push(b' ');
    assert!(parse_doc(&bytes).is_none());
}

#[test]
fn control_bytes_in_text_do_not_parse() {
    let doc = PersistDoc {
        todo_lists: vec![TodoList {
            name: b"line\nbreak".to_vec(),
            items: vec![],
        }],
        cli_mode_default: false,
        gui_always_on_top: false,
        run_in_mini_mode: false,
    };
    // A raw control byte makes the written form invalid, so reading it
    // back falls to the default document instead of round-tripping.
    let bytes = write_doc(&doc);
    assert!(parse_doc(&bytes).is_none());
}
