//! The lightweight persistence document: a single JSON file holding
//! the todo lists and a few front-end preferences, read wholesale at
//! startup and rewritten wholesale on every mutation.
//!
//! The codec works on bytes. The writer emits one canonical JSON form;
//! the reader is a strict recursive-descent parser for that form, and
//! reading back what was written reproduces the document exactly
//! (`lemma_doc_round_trip`). A missing or unparsable file falls back
//! to the default document: one empty list named "Main".

use vstd::prelude::*;

verus! {

/// One entry of a todo list. `text` holds the title's bytes (UTF-8 in
/// practice; any bytes from 0x20 up round-trip).
#[derive(Clone, Debug)]
pub struct TodoItem {
    pub text: Vec<u8>,
    pub done: bool,
}

/// A named todo list.
#[derive(Clone, Debug)]
pub struct TodoList {
    pub name: Vec<u8>,
    pub items: Vec<TodoItem>,
}

/// The whole persisted document.
#[derive(Clone, Debug)]
pub struct PersistDoc {
    pub todo_lists: Vec<TodoList>,
    pub cli_mode_default: bool,
    pub gui_always_on_top: bool,
    pub run_in_mini_mode: bool,
}

/// Mathematical model of a `TodoItem`.
pub struct TodoItemModel {
    pub text: Seq<u8>,
    pub done: bool,
}

/// Mathematical model of a `TodoList`.
pub struct TodoListModel {
    pub name: Seq<u8>,
    pub items: Seq<TodoItemModel>,
}

/// Mathematical model of a `PersistDoc`.
pub struct PersistDocModel {
    pub todo_lists: Seq<TodoListModel>,
    pub cli_mode_default: bool,
    pub gui_always_on_top: bool,
    pub run_in_mini_mode: bool,
}

impl View for TodoItem {
    type V = TodoItemModel;

    open spec fn view(&self) -> TodoItemModel {
        TodoItemModel { text: self.text@, done: self.done }
    }
}

/// The models of a sequence of items.
pub open spec fn spec_items_view(v: Seq<TodoItem>) -> Seq<TodoItemModel> {
    v.map_values(|it: TodoItem| it@)
}

impl View for TodoList {
    type V = TodoListModel;

    open spec fn view(&self) -> TodoListModel {
        TodoListModel { name: self.name@, items: spec_items_view(self.items@) }
    }
}

/// The models of a sequence of lists.
pub open spec fn spec_lists_view(v: Seq<TodoList>) -> Seq<TodoListModel> {
    v.map_values(|l: TodoList| l@)
}

impl View for PersistDoc {
    type V = PersistDocModel;

    open spec fn view(&self) -> PersistDocModel {
        PersistDocModel {
            todo_lists: spec_lists_view(self.todo_lists@),
            cli_mode_default: self.cli_mode_default,
            gui_always_on_top: self.gui_always_on_top,
            run_in_mini_mode: self.run_in_mini_mode,
        }
    }
}

/// Text that the document can carry faithfully: no control bytes.
/// (Quotes and backslashes are escaped by the writer.)
pub open spec fn spec_text_ok(s: Seq<u8>) -> bool {
    forall|i: int| 0 <= i < s.len() ==> #[trigger] s[i] >= 32
}

pub open spec fn spec_item_ok(it: TodoItemModel) -> bool {
    spec_text_ok(it.text)
}

pub open spec fn spec_list_ok(l: TodoListModel) -> bool {
    &&& spec_text_ok(l.name)
    &&& forall|i: int| 0 <= i < l.items.len() ==> spec_item_ok(#[trigger] l.items[i])
}

pub open spec fn spec_doc_ok(d: PersistDocModel) -> bool {
    forall|i: int| 0 <= i < d.todo_lists.len() ==> spec_list_ok(#[trigger] d.todo_lists[i])
}

// The fixed byte strings of the canonical form.
pub open spec fn spec_lit_doc_head() -> Seq<u8> {
    seq![123u8, 34u8, 116u8, 111u8, 100u8, 111u8, 95u8, 108u8, 105u8, 115u8, 116u8, 115u8, 34u8, 58u8, 91u8]
}

pub open spec fn spec_lit_cli_key() -> Seq<u8> {
    seq![44u8, 34u8, 99u8, 108u8, 105u8, 95u8, 109u8, 111u8, 100u8, 101u8, 95u8, 100u8, 101u8, 102u8, 97u8, 117u8, 108u8, 116u8, 34u8, 58u8]
}

pub open spec fn spec_lit_gui_key() -> Seq<u8> {
    seq![44u8, 34u8, 103u8, 117u8, 105u8, 95u8, 97u8, 108u8, 119u8, 97u8, 121u8, 115u8, 95u8, 111u8, 110u8, 95u8, 116u8, 111u8, 112u8, 34u8, 58u8]
}

pub open spec fn spec_lit_mini_key() -> Seq<u8> {
    seq![44u8, 34u8, 114u8, 117u8, 110u8, 95u8, 105u8, 110u8, 95u8, 109u8, 105u8, 110u8, 105u8, 95u8, 109u8, 111u8, 100u8, 101u8, 34u8, 58u8]
}

pub open spec fn spec_lit_list_head() -> Seq<u8> {
    seq![123u8, 34u8, 110u8, 97u8, 109u8, 101u8, 34u8, 58u8]
}

pub open spec fn spec_lit_items_key() -> Seq<u8> {
    seq![44u8, 34u8, 105u8, 116u8, 101u8, 109u8, 115u8, 34u8, 58u8, 91u8]
}

pub open spec fn spec_lit_item_head() -> Seq<u8> {
    seq![123u8, 34u8, 116u8, 101u8, 120u8, 116u8, 34u8, 58u8]
}

pub open spec fn spec_lit_done_key() -> Seq<u8> {
    seq![44u8, 34u8, 100u8, 111u8, 110u8, 101u8, 34u8, 58u8]
}

pub open spec fn spec_lit_true() -> Seq<u8> {
    seq![116u8, 114u8, 117u8, 101u8]
}

pub open spec fn spec_lit_false() -> Seq<u8> {
    seq![102u8, 97u8, 108u8, 115u8, 101u8]
}

/// The name of the default document's single list, "Main".
pub open spec fn spec_main_name() -> Seq<u8> {
    seq![77u8, 97u8, 105u8, 110u8]
}

// ---------------------------------------------------------------
// The canonical encoding.
// ---------------------------------------------------------------

pub open spec fn spec_enc_bool(b: bool) -> Seq<u8> {
    if b {
        spec_lit_true()
    } else {
        spec_lit_false()
    }
}

/// A text byte as it appears inside a JSON string: quotes and
/// backslashes get a backslash escape, everything else stands as is.
pub open spec fn spec_esc_byte(c: u8) -> Seq<u8> {
    if c == 34 || c == 92 {
        seq![92u8, c]
    } else {
        seq![c]
    }
}

pub open spec fn spec_enc_text(s: Seq<u8>) -> Seq<u8>
    decreases s.len(),
{
    if s.len() == 0 {
        Seq::empty()
    } else {
        spec_esc_byte(s[0]) + spec_enc_text(s.drop_first())
    }
}

/// A quoted, escaped JSON string.
pub open spec fn spec_enc_string(s: Seq<u8>) -> Seq<u8> {
    seq![34u8] + spec_enc_text(s) + seq![34u8]
}

pub open spec fn spec_enc_item(it: TodoItemModel) -> Seq<u8> {
    spec_lit_item_head() + spec_enc_string(it.text) + spec_lit_done_key() + spec_enc_bool(it.done)
        + seq![125u8]
}

/// The items of a list, comma-separated, without the brackets.
pub open spec fn spec_enc_items(items: Seq<TodoItemModel>) -> Seq<u8>
    decreases items.len(),
{
    if items.len() == 0 {
        Seq::empty()
    } else if items.len() == 1 {
        spec_enc_item(items[0])
    } else {
        spec_enc_item(items[0]) + seq![44u8] + spec_enc_items(items.drop_first())
    }
}

pub open spec fn spec_enc_list(l: TodoListModel) -> Seq<u8> {
    spec_lit_list_head() + spec_enc_string(l.name) + spec_lit_items_key() + spec_enc_items(l.items)
        + seq![93u8, 125u8]
}

/// The lists of the document, comma-separated, without the brackets.
pub open spec fn spec_enc_lists(ls: Seq<TodoListModel>) -> Seq<u8>
    decreases ls.len(),
{
    if ls.len() == 0 {
        Seq::empty()
    } else if ls.len() == 1 {
        spec_enc_list(ls[0])
    } else {
        spec_enc_list(ls[0]) + seq![44u8] + spec_enc_lists(ls.drop_first())
    }
}

/// The canonical byte form of the whole document.
pub open spec fn spec_enc_doc(d: PersistDocModel) -> Seq<u8> {
    spec_lit_doc_head() + spec_enc_lists(d.todo_lists) + seq![93u8] + spec_lit_cli_key()
        + spec_enc_bool(d.cli_mode_default) + spec_lit_gui_key() + spec_enc_bool(
        d.gui_always_on_top,
    ) + spec_lit_mini_key() + spec_enc_bool(d.run_in_mini_mode) + seq![125u8]
}

// ---------------------------------------------------------------
// The decoder, as total functions from input to value and rest.
// ---------------------------------------------------------------

/// Strips `lit` off the front of `s`, or fails.
pub open spec fn spec_dec_lit(s: Seq<u8>, lit: Seq<u8>) -> Option<Seq<u8>> {
    if lit.len() <= s.len() && s.subrange(0, lit.len() as int) == lit {
        Some(s.subrange(lit.len() as int, s.len() as int))
    } else {
        None
    }
}

/// Reads an escaped string body up to its closing quote.
pub open spec fn spec_dec_text(s: Seq<u8>) -> Option<(Seq<u8>, Seq<u8>)>
    decreases s.len(),
{
    if s.len() == 0 {
        None
    } else if s[0] == 34 {
        Some((Seq::empty(), s.drop_first()))
    } else if s[0] == 92 {
        if s.len() >= 2 && (s[1] == 34 || s[1] == 92) {
            match spec_dec_text(s.subrange(2, s.len() as int)) {
                Some(tr) => Some((seq![s[1]] + tr.0, tr.1)),
                None => None,
            }
        } else {
            None
        }
    } else if s[0] >= 32 {
        match spec_dec_text(s.drop_first()) {
            Some(tr) => Some((seq![s[0]] + tr.0, tr.1)),
            None => None,
        }
    } else {
        None
    }
}

/// Reads a quoted string.
pub open spec fn spec_dec_string(s: Seq<u8>) -> Option<(Seq<u8>, Seq<u8>)> {
    match spec_dec_lit(s, seq![34u8]) {
        Some(r) => spec_dec_text(r),
        None => None,
    }
}

/// Reads a boolean literal.
pub open spec fn spec_dec_bool(s: Seq<u8>) -> Option<(bool, Seq<u8>)> {
    match spec_dec_lit(s, spec_lit_true()) {
        Some(r) => Some((true, r)),
        None => match spec_dec_lit(s, spec_lit_false()) {
            Some(r) => Some((false, r)),
            None => None,
        },
    }
}

/// Reads one item object.
pub open spec fn spec_dec_item(s: Seq<u8>) -> Option<(TodoItemModel, Seq<u8>)> {
    match spec_dec_lit(s, spec_lit_item_head()) {
        Some(r1) => match spec_dec_string(r1) {
            Some(sr) => match spec_dec_lit(sr.1, spec_lit_done_key()) {
                Some(r3) => match spec_dec_bool(r3) {
                    Some(br) => match spec_dec_lit(br.1, seq![125u8]) {
                        Some(r5) => Some((TodoItemModel { text: sr.0, done: br.0 }, r5)),
                        None => None,
                    },
                    None => None,
                },
                None => None,
            },
            None => None,
        },
        None => None,
    }
}

/// Reads the items of a list up to and including the closing bracket.
pub open spec fn spec_dec_items(s: Seq<u8>) -> Option<(Seq<TodoItemModel>, Seq<u8>)>
    decreases s.len(),
{
    if s.len() == 0 {
        None
    } else if s[0] == 93 {
        Some((Seq::empty(), s.drop_first()))
    } else {
        match spec_dec_item(s) {
            Some(ir) => {
                let rest = ir.1;
                if rest.len() < s.len() {
                    if rest.len() > 0 && rest[0] == 44 {
                        match spec_dec_items(rest.drop_first()) {
                            Some(lr) => Some((seq![ir.0] + lr.0, lr.1)),
                            None => None,
                        }
                    } else if rest.len() > 0 && rest[0] == 93 {
                        Some((seq![ir.0], rest.drop_first()))
                    } else {
                        None
                    }
                } else {
                    None
                }
            },
            None => None,
        }
    }
}

/// Reads one list object.
pub open spec fn spec_dec_list(s: Seq<u8>) -> Option<(TodoListModel, Seq<u8>)> {
    match spec_dec_lit(s, spec_lit_list_head()) {
        Some(r1) => match spec_dec_string(r1) {
            Some(nr) => match spec_dec_lit(nr.1, spec_lit_items_key()) {
                Some(r3) => match spec_dec_items(r3) {
                    Some(ir) => match spec_dec_lit(ir.1, seq![125u8]) {
                        Some(r5) => Some((TodoListModel { name: nr.0, items: ir.0 }, r5)),
                        None => None,
                    },
                    None => None,
                },
                None => None,
            },
            None => None,
        },
        None => None,
    }
}

/// Reads the document's lists up to and including the closing bracket.
pub open spec fn spec_dec_lists(s: Seq<u8>) -> Option<(Seq<TodoListModel>, Seq<u8>)>
    decreases s.len(),
{
    if s.len() == 0 {
        None
    } else if s[0] == 93 {
        Some((Seq::empty(), s.drop_first()))
    } else {
        match spec_dec_list(s) {
            Some(lr) => {
                let rest = lr.1;
                if rest.len() < s.len() {
                    if rest.len() > 0 && rest[0] == 44 {
                        match spec_dec_lists(rest.drop_first()) {
                            Some(mr) => Some((seq![lr.0] + mr.0, mr.1)),
                            None => None,
                        }
                    } else if rest.len() > 0 && rest[0] == 93 {
                        Some((seq![lr.0], rest.drop_first()))
                    } else {
                        None
                    }
                } else {
                    None
                }
            },
            None => None,
        }
    }
}

/// Reads a whole document; the input must be consumed exactly.
pub open spec fn spec_dec_doc(s: Seq<u8>) -> Option<PersistDocModel> {
    match spec_dec_lit(s, spec_lit_doc_head()) {
        Some(r1) => match spec_dec_lists(r1) {
            Some(lr) => match spec_dec_lit(lr.1, spec_lit_cli_key()) {
                Some(r2) => match spec_dec_bool(r2) {
                    Some(cb) => match spec_dec_lit(cb.1, spec_lit_gui_key()) {
                        Some(r3) => match spec_dec_bool(r3) {
                            Some(gb) => match spec_dec_lit(gb.1, spec_lit_mini_key()) {
                                Some(r4) => match spec_dec_bool(r4) {
                                    Some(mb) => match spec_dec_lit(mb.1, seq![125u8]) {
                                        Some(r5) => if r5.len() == 0 {
                                            Some(PersistDocModel {
                                                todo_lists: lr.0,
                                                cli_mode_default: cb.0,
                                                gui_always_on_top: gb.0,
                                                run_in_mini_mode: mb.0,
                                            })
                                        } else {
                                            None
                                        },
                                        None => None,
                                    },
                                    None => None,
                                },
                                None => None,
                            },
                            None => None,
                        },
                        None => None,
                    },
                    None => None,
                },
                None => None,
            },
            None => None,
        },
        None => None,
    }
}

// ---------------------------------------------------------------
// Round trip: reading back the canonical form gives the document.
// ---------------------------------------------------------------

proof fn lemma_dec_lit_prefix(lit: Seq<u8>, rest: Seq<u8>)
    ensures
        spec_dec_lit(lit + rest, lit) == Some(rest),
{
    let s = lit + rest;
    assert(s.subrange(0, lit.len() as int) =~= lit);
    assert(s.subrange(lit.len() as int, s.len() as int) =~= rest);
}

proof fn lemma_enc_text_dec(s: Seq<u8>, rest: Seq<u8>)
    requires
        spec_text_ok(s),
    ensures
        spec_dec_text(spec_enc_text(s) + seq![34u8] + rest) == Some((s, rest)),
    decreases s.len(),
{
    let input = spec_enc_text(s) + seq![34u8] + rest;
    if s.len() == 0 {
        assert(input =~= seq![34u8] + rest);
        assert(input[0] == 34);
        assert(input.drop_first() =~= rest);
    } else {
        let c = s[0];
        let tail = s.drop_first();
        assert forall|i: int| 0 <= i < tail.len() implies #[trigger] tail[i] >= 32 by {
            assert(tail[i] == s[i + 1]);
        }
        lemma_enc_text_dec(tail, rest);
        let sub = spec_enc_text(tail) + seq![34u8] + rest;
        if c == 34 || c == 92 {
            assert(input =~= seq![92u8, c] + sub);
            assert(input[0] == 92);
            assert(input[1] == c);
            assert(input.subrange(2, input.len() as int) =~= sub);
            assert(seq![c] + tail =~= s);
        } else {
            assert(input =~= seq![c] + sub);
            assert(input[0] == c);
            assert(input.drop_first() =~= sub);
            assert(seq![c] + tail =~= s);
        }
    }
}

proof fn lemma_enc_string_dec(s: Seq<u8>, rest: Seq<u8>)
    requires
        spec_text_ok(s),
    ensures
        spec_dec_string(spec_enc_string(s) + rest) == Some((s, rest)),
{
    let input = spec_enc_string(s) + rest;
    let body = spec_enc_text(s) + seq![34u8] + rest;
    assert(input =~= seq![34u8] + body);
    lemma_dec_lit_prefix(seq![34u8], body);
    lemma_enc_text_dec(s, rest);
}

proof fn lemma_enc_bool_dec(b: bool, rest: Seq<u8>)
    ensures
        spec_dec_bool(spec_enc_bool(b) + rest) == Some((b, rest)),
{
    let input = spec_enc_bool(b) + rest;
    if b {
        lemma_dec_lit_prefix(spec_lit_true(), rest);
    } else {
        assert(input[0] == 102);
        if spec_lit_true().len() <= input.len() {
            assert(input.subrange(0, 4)[0] == input[0]);
            assert(spec_lit_true()[0] == 116);
        }
        lemma_dec_lit_prefix(spec_lit_false(), rest);
    }
}

proof fn lemma_enc_item_dec(it: TodoItemModel, rest: Seq<u8>)
    requires
        spec_item_ok(it),
    ensures
        spec_dec_item(spec_enc_item(it) + rest) == Some((it, rest)),
{
    let input = spec_enc_item(it) + rest;
    let rest_after_string = spec_lit_done_key() + spec_enc_bool(it.done) + seq![125u8] + rest;
    let after_head = spec_enc_string(it.text) + rest_after_string;
    assert(input =~= spec_lit_item_head() + after_head);
    lemma_dec_lit_prefix(spec_lit_item_head(), after_head);
    assert(after_head =~= spec_enc_string(it.text) + rest_after_string);
    lemma_enc_string_dec(it.text, rest_after_string);
    let after_key = spec_enc_bool(it.done) + (seq![125u8] + rest);
    assert(rest_after_string =~= spec_lit_done_key() + after_key);
    lemma_dec_lit_prefix(spec_lit_done_key(), after_key);
    lemma_enc_bool_dec(it.done, seq![125u8] + rest);
    lemma_dec_lit_prefix(seq![125u8], rest);
    assert((TodoItemModel { text: it.text, done: it.done }) == it);
}

proof fn lemma_enc_item_shape(it: TodoItemModel)
    ensures
        spec_enc_item(it).len() >= 1,
        spec_enc_item(it)[0] == 123,
{
    assert(spec_enc_item(it)[0] == spec_lit_item_head()[0]);
}

proof fn lemma_enc_items_dec(items: Seq<TodoItemModel>, rest: Seq<u8>)
    requires
        forall|i: int| 0 <= i < items.len() ==> spec_item_ok(#[trigger] items[i]),
    ensures
        spec_dec_items(spec_enc_items(items) + seq![93u8] + rest) == Some((items, rest)),
    decreases items.len(),
{
    let input = spec_enc_items(items) + seq![93u8] + rest;
    if items.len() == 0 {
        assert(input =~= seq![93u8] + rest);
        assert(input[0] == 93);
        assert(input.drop_first() =~= rest);
        assert(Seq::<TodoItemModel>::empty() =~= items);
    } else if items.len() == 1 {
        let it = items[0];
        let rest1 = seq![93u8] + rest;
        assert(input =~= spec_enc_item(it) + rest1);
        lemma_enc_item_dec(it, rest1);
        lemma_enc_item_shape(it);
        assert(input[0] == spec_enc_item(it)[0]);
        assert(rest1.len() < input.len());
        assert(rest1[0] == 93);
        assert(rest1.drop_first() =~= rest);
        assert(seq![it] =~= items);
    } else {
        let it = items[0];
        let tail = items.drop_first();
        assert forall|i: int| 0 <= i < tail.len() implies spec_item_ok(#[trigger] tail[i]) by {
            assert(tail[i] == items[i + 1]);
        }
        let sub = spec_enc_items(tail) + seq![93u8] + rest;
        let rest1 = seq![44u8] + sub;
        assert(input =~= spec_enc_item(it) + rest1);
        lemma_enc_item_dec(it, rest1);
        lemma_enc_item_shape(it);
        assert(input[0] == spec_enc_item(it)[0]);
        assert(rest1.len() < input.len());
        assert(rest1[0] == 44);
        assert(rest1.drop_first() =~= sub);
        lemma_enc_items_dec(tail, rest);
        assert(seq![it] + tail =~= items);
    }
}

proof fn lemma_enc_list_dec(l: TodoListModel, rest: Seq<u8>)
    requires
        spec_list_ok(l),
    ensures
        spec_dec_list(spec_enc_list(l) + rest) == Some((l, rest)),
{
    let input = spec_enc_list(l) + rest;
    let rest_after_items = seq![125u8] + rest;
    let after_key = spec_enc_items(l.items) + seq![93u8] + rest_after_items;
    let rest_after_name = spec_lit_items_key() + after_key;
    let after_head = spec_enc_string(l.name) + rest_after_name;
    assert(input =~= spec_lit_list_head() + after_head);
    lemma_dec_lit_prefix(spec_lit_list_head(), after_head);
    lemma_enc_string_dec(l.name, rest_after_name);
    assert(rest_after_name =~= spec_lit_items_key() + after_key);
    lemma_dec_lit_prefix(spec_lit_items_key(), after_key);
    lemma_enc_items_dec(l.items, rest_after_items);
    lemma_dec_lit_prefix(seq![125u8], rest);
    assert((TodoListModel { name: l.name, items: l.items }) == l);
}

proof fn lemma_enc_list_shape(l: TodoListModel)
    ensures
        spec_enc_list(l).len() >= 1,
        spec_enc_list(l)[0] == 123,
{
    assert(spec_enc_list(l)[0] == spec_lit_list_head()[0]);
}

#[verifier::rlimit(100)]
proof fn lemma_enc_lists_dec(ls: Seq<TodoListModel>, rest: Seq<u8>)
    requires
        forall|i: int| 0 <= i < ls.len() ==> spec_list_ok(#[trigger] ls[i]),
    ensures
        spec_dec_lists(spec_enc_lists(ls) + seq![93u8] + rest) == Some((ls, rest)),
    decreases ls.len(),
{
    let input = spec_enc_lists(ls) + seq![93u8] + rest;
    if ls.len() == 0 {
        assert(input =~= seq![93u8] + rest);
        assert(input[0] == 93);
        assert(input.drop_first() =~= rest);
        assert(Seq::<TodoListModel>::empty() =~= ls);
    } else if ls.len() == 1 {
        let l = ls[0];
        let rest1 = seq![93u8] + rest;
        assert(input =~= spec_enc_list(l) + rest1);
        lemma_enc_list_dec(l, rest1);
        lemma_enc_list_shape(l);
        assert(input[0] == spec_enc_list(l)[0]);
        assert(rest1.len() < input.len());
        assert(rest1[0] == 93);
        assert(rest1.drop_first() =~= rest);
        assert(seq![l] =~= ls);
    } else {
        let l = ls[0];
        let tail = ls.drop_first();
        assert forall|i: int| 0 <= i < tail.len() implies spec_list_ok(#[trigger] tail[i]) by {
            assert(tail[i] == ls[i + 1]);
        }
        let sub = spec_enc_lists(tail) + seq![93u8] + rest;
        let rest1 = seq![44u8] + sub;
        assert(input =~= spec_enc_list(l) + rest1);
        lemma_enc_list_dec(l, rest1);
        lemma_enc_list_shape(l);
        assert(input[0] == spec_enc_list(l)[0]);
        assert(rest1.len() < input.len());
        assert(rest1[0] == 44);
        assert(rest1.drop_first() =~= sub);
        lemma_enc_lists_dec(tail, rest);
        assert(seq![l] + tail =~= ls);
    }
}

/// Law: writing the document in its canonical byte form and reading it
/// back reproduces the document exactly — every list, every item, and
/// all three preference flags.
#[verifier::rlimit(100)]
pub proof fn lemma_doc_round_trip(d: PersistDocModel)
    requires
        spec_doc_ok(d),
    ensures
        spec_dec_doc(spec_enc_doc(d)) == Some(d),
{
    let a = spec_lit_doc_head();
    let b = spec_enc_lists(d.todo_lists);
    let close = seq![93u8];
    let k1 = spec_lit_cli_key();
    let v1 = spec_enc_bool(d.cli_mode_default);
    let k2 = spec_lit_gui_key();
    let v2 = spec_enc_bool(d.gui_always_on_top);
    let k3 = spec_lit_mini_key();
    let v3 = spec_enc_bool(d.run_in_mini_mode);
    let brace = seq![125u8];
    let rest_f = brace;
    let rest_e = v3 + rest_f;
    let rest_d = k3 + rest_e;
    let rest_c = v2 + rest_d;
    let rest_b = k2 + rest_c;
    let rest_a = v1 + rest_b;
    let after_lists = k1 + rest_a;
    let after_head = b + close + after_lists;
    // Reassociate the flat definition of the encoding into the nested
    // shape the decoder strips off step by step.
    vstd::seq_lib::lemma_concat_associative(a, b + close, after_lists);
    vstd::seq_lib::lemma_concat_associative(a, b, close);
    vstd::seq_lib::lemma_concat_associative(a + b + close, k1, rest_a);
    vstd::seq_lib::lemma_concat_associative(a + b + close + k1, v1, rest_b);
    vstd::seq_lib::lemma_concat_associative(a + b + close + k1 + v1, k2, rest_c);
    vstd::seq_lib::lemma_concat_associative(a + b + close + k1 + v1 + k2, v2, rest_d);
    vstd::seq_lib::lemma_concat_associative(a + b + close + k1 + v1 + k2 + v2, k3, rest_e);
    vstd::seq_lib::lemma_concat_associative(a + b + close + k1 + v1 + k2 + v2 + k3, v3, rest_f);
    assert(spec_enc_doc(d) == a + after_head);
    lemma_dec_lit_prefix(a, after_head);
    lemma_enc_lists_dec(d.todo_lists, after_lists);
    lemma_dec_lit_prefix(k1, rest_a);
    lemma_enc_bool_dec(d.cli_mode_default, rest_b);
    lemma_dec_lit_prefix(k2, rest_c);
    lemma_enc_bool_dec(d.gui_always_on_top, rest_d);
    lemma_dec_lit_prefix(k3, rest_e);
    lemma_enc_bool_dec(d.run_in_mini_mode, rest_f);
    assert(rest_f =~= brace + Seq::<u8>::empty());
    lemma_dec_lit_prefix(brace, Seq::<u8>::empty());
    assert((PersistDocModel {
        todo_lists: d.todo_lists,
        cli_mode_default: d.cli_mode_default,
        gui_always_on_top: d.gui_always_on_top,
        run_in_mini_mode: d.run_in_mini_mode,
    }) == d);
}

// ---------------------------------------------------------------
// The writer.
// ---------------------------------------------------------------

proof fn lemma_enc_text_app(a: Seq<u8>, b: Seq<u8>)
    ensures
        spec_enc_text(a + b) == spec_enc_text(a) + spec_enc_text(b),
    decreases a.len(),
{
    if a.len() == 0 {
        assert(a + b =~= b);
        assert(spec_enc_text(a) + spec_enc_text(b) =~= spec_enc_text(b));
    } else {
        assert((a + b).drop_first() =~= a.drop_first() + b);
        lemma_enc_text_app(a.drop_first(), b);
        assert((a + b)[0] == a[0]);
        assert(spec_esc_byte(a[0]) + (spec_enc_text(a.drop_first()) + spec_enc_text(b)) =~= (
        spec_esc_byte(a[0]) + spec_enc_text(a.drop_first())) + spec_enc_text(b));
    }
}

proof fn lemma_enc_text_snoc(s: Seq<u8>, i: int)
    requires
        0 <= i < s.len(),
    ensures
        spec_enc_text(s.subrange(0, i + 1)) == spec_enc_text(s.subrange(0, i)) + spec_esc_byte(
            s[i],
        ),
{
    assert(s.subrange(0, i + 1) =~= s.subrange(0, i) + seq![s[i]]);
    lemma_enc_text_app(s.subrange(0, i), seq![s[i]]);
    assert(seq![s[i]].drop_first() =~= Seq::<u8>::empty());
    assert(spec_enc_text(Seq::<u8>::empty()) =~= Seq::<u8>::empty());
    assert(spec_enc_text(seq![s[i]]) =~= spec_esc_byte(s[i]));
}

proof fn lemma_enc_items_snoc(items: Seq<TodoItemModel>, i: int)
    requires
        0 <= i < items.len(),
    ensures
        spec_enc_items(items.subrange(0, i + 1)) == if i == 0 {
            spec_enc_item(items[0])
        } else {
            spec_enc_items(items.subrange(0, i)) + seq![44u8] + spec_enc_item(items[i])
        },
    decreases i,
{
    if i == 0 {
        assert(items.subrange(0, 1) =~= seq![items[0]]);
    } else {
        let pre = items.subrange(0, i + 1);
        assert(pre.len() >= 2);
        assert(pre[0] == items[0]);
        assert(pre.drop_first() =~= items.subrange(1, i + 1));
        let shifted = items.drop_first();
        assert(items.subrange(1, i + 1) =~= shifted.subrange(0, i));
        lemma_enc_items_snoc(shifted, i - 1);
        assert(shifted.subrange(0, i - 1 + 1) =~= shifted.subrange(0, i));
        assert(shifted[i - 1] == items[i]);
        if i == 1 {
            assert(items.subrange(0, 1) =~= seq![items[0]]);
            assert(shifted.subrange(0, 0) =~= Seq::<TodoItemModel>::empty());
            assert(spec_enc_items(pre) =~= spec_enc_items(items.subrange(0, i)) + seq![44u8]
                + spec_enc_item(items[i]));
        } else {
            assert(items.subrange(0, i)[0] == items[0]);
            assert(items.subrange(0, i).drop_first() =~= shifted.subrange(0, i - 1));
            assert(spec_enc_items(pre) == spec_enc_item(items[0]) + seq![44u8] + spec_enc_items(
                shifted.subrange(0, i),
            ));
            assert(spec_enc_items(items.subrange(0, i)) == spec_enc_item(items[0]) + seq![44u8]
                + spec_enc_items(shifted.subrange(0, i - 1)));
            assert(spec_enc_items(pre) =~= spec_enc_items(items.subrange(0, i)) + seq![44u8]
                + spec_enc_item(items[i]));
        }
    }
}

proof fn lemma_enc_lists_snoc(ls: Seq<TodoListModel>, i: int)
    requires
        0 <= i < ls.len(),
    ensures
        spec_enc_lists(ls.subrange(0, i + 1)) == if i == 0 {
            spec_enc_list(ls[0])
        } else {
            spec_enc_lists(ls.subrange(0, i)) + seq![44u8] + spec_enc_list(ls[i])
        },
    decreases i,
{
    if i == 0 {
        assert(ls.subrange(0, 1) =~= seq![ls[0]]);
    } else {
        let pre = ls.subrange(0, i + 1);
        assert(pre.len() >= 2);
        assert(pre[0] == ls[0]);
        assert(pre.drop_first() =~= ls.subrange(1, i + 1));
        let shifted = ls.drop_first();
        assert(ls.subrange(1, i + 1) =~= shifted.subrange(0, i));
        lemma_enc_lists_snoc(shifted, i - 1);
        assert(shifted.subrange(0, i - 1 + 1) =~= shifted.subrange(0, i));
        assert(shifted[i - 1] == ls[i]);
        if i == 1 {
            assert(ls.subrange(0, 1) =~= seq![ls[0]]);
            assert(shifted.subrange(0, 0) =~= Seq::<TodoListModel>::empty());
            assert(spec_enc_lists(pre) =~= spec_enc_lists(ls.subrange(0, i)) + seq![44u8]
                + spec_enc_list(ls[i]));
        } else {
            assert(ls.subrange(0, i)[0] == ls[0]);
            assert(ls.subrange(0, i).drop_first() =~= shifted.subrange(0, i - 1));
            assert(spec_enc_lists(pre) == spec_enc_list(ls[0]) + seq![44u8] + spec_enc_lists(
                shifted.subrange(0, i),
            ));
            assert(spec_enc_lists(ls.subrange(0, i)) == spec_enc_list(ls[0]) + seq![44u8]
                + spec_enc_lists(shifted.subrange(0, i - 1)));
            assert(spec_enc_lists(pre) =~= spec_enc_lists(ls.subrange(0, i)) + seq![44u8]
                + spec_enc_list(ls[i]));
        }
    }
}

fn push_doc_head(out: &mut Vec<u8>)
    ensures
        final(out)@ == old(out)@ + spec_lit_doc_head(),
{
    out.push(123);
    out.push(34);
    out.push(116);
    out.push(111);
    out.push(100);
    out.push(111);
    out.push(95);
    out.push(108);
    out.push(105);
    out.push(115);
    out.push(116);
    out.push(115);
    out.push(34);
    out.push(58);
    out.push(91);
    proof {
        assert(final(out)@ =~= old(out)@ + spec_lit_doc_head());
    }
}

fn push_cli_key(out: &mut Vec<u8>)
    ensures
        final(out)@ == old(out)@ + spec_lit_cli_key(),
{
    out.push(44);
    out.push(34);
    out.push(99);
    out.push(108);
    out.push(105);
    out.push(95);
    out.push(109);
    out.push(111);
    out.push(100);
    out.push(101);
    out.push(95);
    out.push(100);
    out.push(101);
    out.push(102);
    out.push(97);
    out.push(117);
    out.push(108);
    out.push(116);
    out.push(34);
    out.push(58);
    proof {
        assert(final(out)@ =~= old(out)@ + spec_lit_cli_key());
    }
}

fn push_gui_key(out: &mut Vec<u8>)
    ensures
        final(out)@ == old(out)@ + spec_lit_gui_key(),
{
    out.push(44);
    out.push(34);
    out.push(103);
    out.push(117);
    out.push(105);
    out.push(95);
    out.push(97);
    out.push(108);
    out.push(119);
    out.push(97);
    out.push(121);
    out.push(115);
    out.push(95);
    out.push(111);
    out.push(110);
    out.push(95);
    out.push(116);
    out.push(111);
    out.push(112);
    out.push(34);
    out.push(58);
    proof {
        assert(final(out)@ =~= old(out)@ + spec_lit_gui_key());
    }
}

fn push_mini_key(out: &mut Vec<u8>)
    ensures
        final(out)@ == old(out)@ + spec_lit_mini_key(),
{
    out.push(44);
    out.push(34);
    out.push(114);
    out.push(117);
    out.push(110);
    out.push(95);
    out.push(105);
    out.push(110);
    out.push(95);
    out.push(109);
    out.push(105);
    out.push(110);
    out.push(105);
    out.push(95);
    out.push(109);
    out.push(111);
    out.push(100);
    out.push(101);
    out.push(34);
    out.push(58);
    proof {
        assert(final(out)@ =~= old(out)@ + spec_lit_mini_key());
    }
}

fn push_list_head(out: &mut Vec<u8>)
    ensures
        final(out)@ == old(out)@ + spec_lit_list_head(),
{
    out.push(123);
    out.push(34);
    out.push(110);
    out.push(97);
    out.push(109);
    out.push(101);
    out.push(34);
    out.push(58);
    proof {
        assert(final(out)@ =~= old(out)@ + spec_lit_list_head());
    }
}

fn push_items_key(out: &mut Vec<u8>)
    ensures
        final(out)@ == old(out)@ + spec_lit_items_key(),
{
    out.push(44);
    out.push(34);
    out.push(105);
    out.push(116);
    out.push(101);
    out.push(109);
    out.push(115);
    out.push(34);
    out.push(58);
    out.push(91);
    proof {
        assert(final(out)@ =~= old(out)@ + spec_lit_items_key());
    }
}

fn push_item_head(out: &mut Vec<u8>)
    ensures
        final(out)@ == old(out)@ + spec_lit_item_head(),
{
    out.push(123);
    out.push(34);
    out.push(116);
    out.push(101);
    out.push(120);
    out.push(116);
    out.push(34);
    out.push(58);
    proof {
        assert(final(out)@ =~= old(out)@ + spec_lit_item_head());
    }
}

fn push_done_key(out: &mut Vec<u8>)
    ensures
        final(out)@ == old(out)@ + spec_lit_done_key(),
{
    out.push(44);
    out.push(34);
    out.push(100);
    out.push(111);
    out.push(110);
    out.push(101);
    out.push(34);
    out.push(58);
    proof {
        assert(final(out)@ =~= old(out)@ + spec_lit_done_key());
    }
}

fn write_bool(out: &mut Vec<u8>, b: bool)
    ensures
        final(out)@ == old(out)@ + spec_enc_bool(b),
{
    if b {
        out.push(116);
        out.push(114);
        out.push(117);
        out.push(101);
        proof {
            assert(final(out)@ =~= old(out)@ + spec_lit_true());
        }
    } else {
        out.push(102);
        out.push(97);
        out.push(108);
        out.push(115);
        out.push(101);
        proof {
            assert(final(out)@ =~= old(out)@ + spec_lit_false());
        }
    }
}

fn write_text(out: &mut Vec<u8>, text: &Vec<u8>)
    ensures
        final(out)@ == old(out)@ + spec_enc_text(text@),
{
    let mut i: usize = 0;
    proof {
        assert(text@.subrange(0, 0) =~= Seq::<u8>::empty());
    }
    while i < text.len()
        invariant
            i <= text@.len(),
            out@ == old(out)@ + spec_enc_text(text@.subrange(0, i as int)),
        decreases text@.len() - i,
    {
        let c = text[i];
        if c == 34 || c == 92 {
            out.push(92);
            out.push(c);
        } else {
            out.push(c);
        }
        proof {
            lemma_enc_text_snoc(text@, i as int);
            assert(out@ =~= old(out)@ + spec_enc_text(text@.subrange(0, i as int))
                + spec_esc_byte(text@[i as int]));
        }
        i = i + 1;
    }
    proof {
        assert(text@.subrange(0, text@.len() as int) =~= text@);
    }
}

fn write_string(out: &mut Vec<u8>, text: &Vec<u8>)
    ensures
        final(out)@ == old(out)@ + spec_enc_string(text@),
{
    out.push(34);
    write_text(out, text);
    out.push(34);
    proof {
        assert(final(out)@ =~= old(out)@ + spec_enc_string(text@));
    }
}

fn write_item(out: &mut Vec<u8>, it: &TodoItem)
    ensures
        final(out)@ == old(out)@ + spec_enc_item(it@),
{
    push_item_head(out);
    write_string(out, &it.text);
    push_done_key(out);
    write_bool(out, it.done);
    out.push(125);
    proof {
        assert(final(out)@ =~= old(out)@ + spec_enc_item(it@));
    }
}

fn write_items(out: &mut Vec<u8>, items: &Vec<TodoItem>)
    ensures
        final(out)@ == old(out)@ + spec_enc_items(spec_items_view(items@)),
{
    let ghost models = spec_items_view(items@);
    proof {
        assert(models.subrange(0, 0) =~= Seq::<TodoItemModel>::empty());
    }
    let mut i: usize = 0;
    while i < items.len()
        invariant
            i <= items@.len(),
            models == spec_items_view(items@),
            out@ == old(out)@ + spec_enc_items(models.subrange(0, i as int)),
        decreases items@.len() - i,
    {
        if i > 0 {
            out.push(44);
        }
        write_item(out, &items[i]);
        proof {
            lemma_enc_items_snoc(models, i as int);
            assert(models[i as int] == items@[i as int]@);
        }
        i = i + 1;
    }
    proof {
        assert(models.subrange(0, models.len() as int) =~= models);
    }
}

fn write_list(out: &mut Vec<u8>, l: &TodoList)
    ensures
        final(out)@ == old(out)@ + spec_enc_list(l@),
{
    push_list_head(out);
    write_string(out, &l.name);
    push_items_key(out);
    write_items(out, &l.items);
    out.push(93);
    out.push(125);
    proof {
        assert(final(out)@ =~= old(out)@ + spec_enc_list(l@));
    }
}

fn write_lists(out: &mut Vec<u8>, ls: &Vec<TodoList>)
    ensures
        final(out)@ == old(out)@ + spec_enc_lists(spec_lists_view(ls@)),
{
    let ghost models = spec_lists_view(ls@);
    proof {
        assert(models.subrange(0, 0) =~= Seq::<TodoListModel>::empty());
    }
    let mut i: usize = 0;
    while i < ls.len()
        invariant
            i <= ls@.len(),
            models == spec_lists_view(ls@),
            out@ == old(out)@ + spec_enc_lists(models.subrange(0, i as int)),
        decreases ls@.len() - i,
    {
        if i > 0 {
            out.push(44);
        }
        write_list(out, &ls[i]);
        proof {
            lemma_enc_lists_snoc(models, i as int);
            assert(models[i as int] == ls@[i as int]@);
        }
        i = i + 1;
    }
    proof {
        assert(models.subrange(0, models.len() as int) =~= models);
    }
}

/// Writes the document in its canonical byte form.
#[verifier::rlimit(50)]
pub fn write_doc(doc: &PersistDoc) -> (out: Vec<u8>)
    ensures
        out@ == spec_enc_doc(doc@),
{
    let mut out: Vec<u8> = Vec::new();
    push_doc_head(&mut out);
    write_lists(&mut out, &doc.todo_lists);
    out.push(93);
    push_cli_key(&mut out);
    write_bool(&mut out, doc.cli_mode_default);
    push_gui_key(&mut out);
    write_bool(&mut out, doc.gui_always_on_top);
    push_mini_key(&mut out);
    write_bool(&mut out, doc.run_in_mini_mode);
    out.push(125);
    proof {
        assert(out@ =~= spec_enc_doc(doc@));
    }
    out
}

// ---------------------------------------------------------------
// The reader.
// ---------------------------------------------------------------

/// The suffix of `s` from position `i`.
pub open spec fn spec_suffix(s: Seq<u8>, i: int) -> Seq<u8> {
    s.subrange(i, s.len() as int)
}

fn lit_vec_doc_head() -> (v: Vec<u8>)
    ensures
        v@ == spec_lit_doc_head(),
{
    let mut v: Vec<u8> = Vec::new();
    push_doc_head(&mut v);
    proof {
        assert(Seq::<u8>::empty() + spec_lit_doc_head() =~= spec_lit_doc_head());
    }
    v
}

fn lit_vec_cli_key() -> (v: Vec<u8>)
    ensures
        v@ == spec_lit_cli_key(),
{
    let mut v: Vec<u8> = Vec::new();
    push_cli_key(&mut v);
    proof {
        assert(Seq::<u8>::empty() + spec_lit_cli_key() =~= spec_lit_cli_key());
    }
    v
}

fn lit_vec_gui_key() -> (v: Vec<u8>)
    ensures
        v@ == spec_lit_gui_key(),
{
    let mut v: Vec<u8> = Vec::new();
    push_gui_key(&mut v);
    proof {
        assert(Seq::<u8>::empty() + spec_lit_gui_key() =~= spec_lit_gui_key());
    }
    v
}

fn lit_vec_mini_key() -> (v: Vec<u8>)
    ensures
        v@ == spec_lit_mini_key(),
{
    let mut v: Vec<u8> = Vec::new();
    push_mini_key(&mut v);
    proof {
        assert(Seq::<u8>::empty() + spec_lit_mini_key() =~= spec_lit_mini_key());
    }
    v
}

fn lit_vec_list_head() -> (v: Vec<u8>)
    ensures
        v@ == spec_lit_list_head(),
{
    let mut v: Vec<u8> = Vec::new();
    push_list_head(&mut v);
    proof {
        assert(Seq::<u8>::empty() + spec_lit_list_head() =~= spec_lit_list_head());
    }
    v
}

fn lit_vec_items_key() -> (v: Vec<u8>)
    ensures
        v@ == spec_lit_items_key(),
{
    let mut v: Vec<u8> = Vec::new();
    push_items_key(&mut v);
    proof {
        assert(Seq::<u8>::empty() + spec_lit_items_key() =~= spec_lit_items_key());
    }
    v
}

fn lit_vec_item_head() -> (v: Vec<u8>)
    ensures
        v@ == spec_lit_item_head(),
{
    let mut v: Vec<u8> = Vec::new();
    push_item_head(&mut v);
    proof {
        assert(Seq::<u8>::empty() + spec_lit_item_head() =~= spec_lit_item_head());
    }
    v
}

fn lit_vec_done_key() -> (v: Vec<u8>)
    ensures
        v@ == spec_lit_done_key(),
{
    let mut v: Vec<u8> = Vec::new();
    push_done_key(&mut v);
    proof {
        assert(Seq::<u8>::empty() + spec_lit_done_key() =~= spec_lit_done_key());
    }
    v
}

fn lit_vec_true() -> (v: Vec<u8>)
    ensures
        v@ == spec_lit_true(),
{
    let mut v: Vec<u8> = Vec::new();
    v.push(116);
    v.push(114);
    v.push(117);
    v.push(101);
    proof {
        assert(v@ =~= spec_lit_true());
    }
    v
}

fn lit_vec_false() -> (v: Vec<u8>)
    ensures
        v@ == spec_lit_false(),
{
    let mut v: Vec<u8> = Vec::new();
    v.push(102);
    v.push(97);
    v.push(108);
    v.push(115);
    v.push(101);
    proof {
        assert(v@ =~= spec_lit_false());
    }
    v
}

fn lit_vec_brace() -> (v: Vec<u8>)
    ensures
        v@ == seq![125u8],
{
    let mut v: Vec<u8> = Vec::new();
    v.push(125);
    proof {
        assert(v@ =~= seq![125u8]);
    }
    v
}

/// Consumes the exact bytes of `lit` at position `i`.
fn eat_lit(s: &Vec<u8>, i: usize, lit: &Vec<u8>) -> (r: Option<usize>)
    requires
        i <= s@.len(),
    ensures
        r matches Some(j) ==> {
            &&& i <= j <= s@.len()
            &&& j == i + lit@.len()
            &&& spec_dec_lit(spec_suffix(s@, i as int), lit@) == Some(spec_suffix(s@, j as int))
        },
        r is None ==> spec_dec_lit(spec_suffix(s@, i as int), lit@) is None,
{
    if lit.len() > s.len() - i {
        return None;
    }
    let mut k: usize = 0;
    while k < lit.len()
        invariant
            i + lit@.len() <= s@.len() <= usize::MAX,
            k <= lit@.len(),
            forall|t: int| 0 <= t < k ==> s@[i + t] == lit@[t],
        decreases lit@.len() - k,
    {
        if s[i + k] != lit[k] {
            proof {
                let sub = spec_suffix(s@, i as int);
                assert(sub.subrange(0, lit@.len() as int)[k as int] == s@[i + k]);
            }
            return None;
        }
        k = k + 1;
    }
    proof {
        let sub = spec_suffix(s@, i as int);
        assert(sub.subrange(0, lit@.len() as int) =~= lit@);
        assert(sub.subrange(lit@.len() as int, sub.len() as int) =~= spec_suffix(
            s@,
            i + lit@.len(),
        ));
    }
    Some(i + lit.len())
}

/// Reads an escaped string body up to its closing quote.
fn parse_text(s: &Vec<u8>, i: usize) -> (r: Option<(Vec<u8>, usize)>)
    requires
        i <= s@.len(),
    ensures
        r matches Some(p) ==> {
            &&& i < p.1 <= s@.len()
            &&& spec_dec_text(spec_suffix(s@, i as int)) == Some(
                (p.0@, spec_suffix(s@, p.1 as int)),
            )
        },
        r is None ==> spec_dec_text(spec_suffix(s@, i as int)) is None,
{
    let mut out: Vec<u8> = Vec::new();
    let mut j: usize = i;
    loop
        invariant
            i <= j <= s@.len(),
            spec_dec_text(spec_suffix(s@, i as int)) is Some <==> spec_dec_text(
                spec_suffix(s@, j as int),
            ) is Some,
            spec_dec_text(spec_suffix(s@, j as int)) matches Some(tr) ==> spec_dec_text(
                spec_suffix(s@, i as int),
            ) == Some((out@ + tr.0, tr.1)),
        decreases s@.len() - j,
    {
        if j == s.len() {
            proof {
                assert(spec_suffix(s@, j as int).len() == 0);
            }
            return None;
        }
        let c = s[j];
        proof {
            assert(spec_suffix(s@, j as int)[0] == s@[j as int]);
            assert(spec_suffix(s@, j as int).drop_first() =~= spec_suffix(s@, j + 1));
        }
        if c == 34 {
            proof {
                assert(out@ + Seq::<u8>::empty() =~= out@);
            }
            return Some((out, j + 1));
        } else if c == 92 {
            if j + 1 < s.len() {
                let c2 = s[j + 1];
                if c2 == 34 || c2 == 92 {
                    let ghost out0 = out@;
                    proof {
                        let sj = spec_suffix(s@, j as int);
                        assert(sj[1] == s@[j + 1]);
                        assert(sj.subrange(2, sj.len() as int) =~= spec_suffix(s@, j + 2));
                        match spec_dec_text(spec_suffix(s@, j + 2)) {
                            Some(tr) => {
                                assert(spec_dec_text(sj) == Some((seq![c2] + tr.0, tr.1)));
                                assert(out0 + (seq![c2] + tr.0) =~= (out0 + seq![c2]) + tr.0);
                            },
                            None => {},
                        }
                    }
                    out.push(c2);
                    j = j + 2;
                } else {
                    return None;
                }
            } else {
                proof {
                    assert(spec_suffix(s@, j as int).len() < 2);
                }
                return None;
            }
        } else if c >= 32 {
            let ghost out0 = out@;
            proof {
                let sj = spec_suffix(s@, j as int);
                match spec_dec_text(spec_suffix(s@, j + 1)) {
                    Some(tr) => {
                        assert(spec_dec_text(sj) == Some((seq![c] + tr.0, tr.1)));
                        assert(out0 + (seq![c] + tr.0) =~= (out0 + seq![c]) + tr.0);
                    },
                    None => {},
                }
            }
            out.push(c);
            j = j + 1;
        } else {
            return None;
        }
    }
}

/// Reads a quoted string.
fn parse_string(s: &Vec<u8>, i: usize) -> (r: Option<(Vec<u8>, usize)>)
    requires
        i <= s@.len(),
    ensures
        r matches Some(p) ==> {
            &&& i < p.1 <= s@.len()
            &&& spec_dec_string(spec_suffix(s@, i as int)) == Some(
                (p.0@, spec_suffix(s@, p.1 as int)),
            )
        },
        r is None ==> spec_dec_string(spec_suffix(s@, i as int)) is None,
{
    if i < s.len() && s[i] == 34 {
        proof {
            let si = spec_suffix(s@, i as int);
            assert(si[0] == s@[i as int]);
            assert(si.subrange(0, 1) =~= seq![34u8]);
            assert(si.subrange(1, si.len() as int) =~= spec_suffix(s@, i + 1));
        }
        parse_text(s, i + 1)
    } else {
        proof {
            let si = spec_suffix(s@, i as int);
            if si.len() >= 1 {
                assert(si[0] == s@[i as int]);
                assert(si.subrange(0, 1)[0] == si[0]);
            }
        }
        None
    }
}

/// Reads a boolean literal.
fn parse_bool(s: &Vec<u8>, i: usize) -> (r: Option<(bool, usize)>)
    requires
        i <= s@.len(),
    ensures
        r matches Some(p) ==> {
            &&& i < p.1 <= s@.len()
            &&& spec_dec_bool(spec_suffix(s@, i as int)) == Some(
                (p.0, spec_suffix(s@, p.1 as int)),
            )
        },
        r is None ==> spec_dec_bool(spec_suffix(s@, i as int)) is None,
{
    let t = lit_vec_true();
    match eat_lit(s, i, &t) {
        Some(j) => Some((true, j)),
        None => {
            let f = lit_vec_false();
            match eat_lit(s, i, &f) {
                Some(j) => Some((false, j)),
                None => None,
            }
        },
    }
}

/// Reads one item object.
fn parse_item(s: &Vec<u8>, i: usize) -> (r: Option<(TodoItem, usize)>)
    requires
        i <= s@.len(),
    ensures
        r matches Some(p) ==> {
            &&& i < p.1 <= s@.len()
            &&& spec_dec_item(spec_suffix(s@, i as int)) == Some(
                (p.0@, spec_suffix(s@, p.1 as int)),
            )
        },
        r is None ==> spec_dec_item(spec_suffix(s@, i as int)) is None,
{
    let head = lit_vec_item_head();
    let j1 = match eat_lit(s, i, &head) {
        Some(j) => j,
        None => {
            return None;
        },
    };
    let (text, j2) = match parse_string(s, j1) {
        Some(p) => p,
        None => {
            return None;
        },
    };
    let dkey = lit_vec_done_key();
    let j3 = match eat_lit(s, j2, &dkey) {
        Some(j) => j,
        None => {
            return None;
        },
    };
    let (done, j4) = match parse_bool(s, j3) {
        Some(p) => p,
        None => {
            return None;
        },
    };
    let brace = lit_vec_brace();
    let j5 = match eat_lit(s, j4, &brace) {
        Some(j) => j,
        None => {
            return None;
        },
    };
    Some((TodoItem { text, done }, j5))
}

/// Reads the items of a list up to and including the closing bracket.
fn parse_items(s: &Vec<u8>, i: usize) -> (r: Option<(Vec<TodoItem>, usize)>)
    requires
        i <= s@.len(),
    ensures
        r matches Some(p) ==> {
            &&& i < p.1 <= s@.len()
            &&& spec_dec_items(spec_suffix(s@, i as int)) == Some(
                (spec_items_view(p.0@), spec_suffix(s@, p.1 as int)),
            )
        },
        r is None ==> spec_dec_items(spec_suffix(s@, i as int)) is None,
{
    let mut out: Vec<TodoItem> = Vec::new();
    let mut j: usize = i;
    loop
        invariant
            i <= j <= s@.len(),
            spec_dec_items(spec_suffix(s@, i as int)) is Some <==> spec_dec_items(
                spec_suffix(s@, j as int),
            ) is Some,
            spec_dec_items(spec_suffix(s@, j as int)) matches Some(lr) ==> spec_dec_items(
                spec_suffix(s@, i as int),
            ) == Some((spec_items_view(out@) + lr.0, lr.1)),
        decreases s@.len() - j,
    {
        if j == s.len() {
            proof {
                assert(spec_suffix(s@, j as int).len() == 0);
            }
            return None;
        }
        proof {
            assert(spec_suffix(s@, j as int)[0] == s@[j as int]);
            assert(spec_suffix(s@, j as int).drop_first() =~= spec_suffix(s@, j + 1));
        }
        if s[j] == 93 {
            proof {
                assert(spec_items_view(out@) + Seq::<TodoItemModel>::empty() =~= spec_items_view(
                    out@,
                ));
            }
            return Some((out, j + 1));
        }
        let (it, j2) = match parse_item(s, j) {
            Some(p) => p,
            None => {
                return None;
            },
        };
        proof {
            assert(spec_suffix(s@, j2 as int).len() < spec_suffix(s@, j as int).len());
        }
        if j2 < s.len() && s[j2] == 44 {
            let ghost out0 = out@;
            proof {
                let rest = spec_suffix(s@, j2 as int);
                assert(rest[0] == s@[j2 as int]);
                assert(rest.drop_first() =~= spec_suffix(s@, j2 + 1));
                match spec_dec_items(spec_suffix(s@, j2 + 1)) {
                    Some(lr) => {
                        assert(spec_dec_items(spec_suffix(s@, j as int)) == Some(
                            (seq![it@] + lr.0, lr.1),
                        ));
                    },
                    None => {},
                }
            }
            out.push(it);
            proof {
                assert(spec_items_view(out@) =~= spec_items_view(out0) + seq![it@]);
                match spec_dec_items(spec_suffix(s@, j2 + 1)) {
                    Some(lr) => {
                        assert(spec_items_view(out0) + (seq![it@] + lr.0) =~= (spec_items_view(
                            out0,
                        ) + seq![it@]) + lr.0);
                    },
                    None => {},
                }
            }
            j = j2 + 1;
        } else if j2 < s.len() && s[j2] == 93 {
            let ghost out0 = out@;
            proof {
                let rest = spec_suffix(s@, j2 as int);
                assert(rest[0] == s@[j2 as int]);
                assert(rest.drop_first() =~= spec_suffix(s@, j2 + 1));
                assert(spec_dec_items(spec_suffix(s@, j as int)) == Some(
                    (seq![it@], spec_suffix(s@, j2 + 1)),
                ));
            }
            out.push(it);
            proof {
                assert(spec_items_view(out@) =~= spec_items_view(out0) + seq![it@]);
                assert(spec_items_view(out0) + seq![it@] =~= spec_items_view(out@));
            }
            return Some((out, j2 + 1));
        } else {
            proof {
                let rest = spec_suffix(s@, j2 as int);
                if rest.len() > 0 {
                    assert(rest[0] == s@[j2 as int]);
                }
            }
            return None;
        }
    }
}

/// Reads one list object.
fn parse_list(s: &Vec<u8>, i: usize) -> (r: Option<(TodoList, usize)>)
    requires
        i <= s@.len(),
    ensures
        r matches Some(p) ==> {
            &&& i < p.1 <= s@.len()
            &&& spec_dec_list(spec_suffix(s@, i as int)) == Some(
                (p.0@, spec_suffix(s@, p.1 as int)),
            )
        },
        r is None ==> spec_dec_list(spec_suffix(s@, i as int)) is None,
{
    let head = lit_vec_list_head();
    let j1 = match eat_lit(s, i, &head) {
        Some(j) => j,
        None => {
            return None;
        },
    };
    let (name, j2) = match parse_string(s, j1) {
        Some(p) => p,
        None => {
            return None;
        },
    };
    let ikey = lit_vec_items_key();
    let j3 = match eat_lit(s, j2, &ikey) {
        Some(j) => j,
        None => {
            return None;
        },
    };
    let (items, j4) = match parse_items(s, j3) {
        Some(p) => p,
        None => {
            return None;
        },
    };
    let brace = lit_vec_brace();
    let j5 = match eat_lit(s, j4, &brace) {
        Some(j) => j,
        None => {
            return None;
        },
    };
    Some((TodoList { name, items }, j5))
}

/// Reads the document's lists up to and including the closing bracket.
fn parse_lists(s: &Vec<u8>, i: usize) -> (r: Option<(Vec<TodoList>, usize)>)
    requires
        i <= s@.len(),
    ensures
        r matches Some(p) ==> {
            &&& i < p.1 <= s@.len()
            &&& spec_dec_lists(spec_suffix(s@, i as int)) == Some(
                (spec_lists_view(p.0@), spec_suffix(s@, p.1 as int)),
            )
        },
        r is None ==> spec_dec_lists(spec_suffix(s@, i as int)) is None,
{
    let mut out: Vec<TodoList> = Vec::new();
    let mut j: usize = i;
    loop
        invariant
            i <= j <= s@.len(),
            spec_dec_lists(spec_suffix(s@, i as int)) is Some <==> spec_dec_lists(
                spec_suffix(s@, j as int),
            ) is Some,
            spec_dec_lists(spec_suffix(s@, j as int)) matches Some(lr) ==> spec_dec_lists(
                spec_suffix(s@, i as int),
            ) == Some((spec_lists_view(out@) + lr.0, lr.1)),
        decreases s@.len() - j,
    {
        if j == s.len() {
            proof {
                assert(spec_suffix(s@, j as int).len() == 0);
            }
            return None;
        }
        proof {
            assert(spec_suffix(s@, j as int)[0] == s@[j as int]);
            assert(spec_suffix(s@, j as int).drop_first() =~= spec_suffix(s@, j + 1));
        }
        if s[j] == 93 {
            proof {
                assert(spec_lists_view(out@) + Seq::<TodoListModel>::empty() =~= spec_lists_view(
                    out@,
                ));
            }
            return Some((out, j + 1));
        }
        let (l, j2) = match parse_list(s, j) {
            Some(p) => p,
            None => {
                return None;
            },
        };
        proof {
            assert(spec_suffix(s@, j2 as int).len() < spec_suffix(s@, j as int).len());
        }
        if j2 < s.len() && s[j2] == 44 {
            let ghost out0 = out@;
            proof {
                let rest = spec_suffix(s@, j2 as int);
                assert(rest[0] == s@[j2 as int]);
                assert(rest.drop_first() =~= spec_suffix(s@, j2 + 1));
                match spec_dec_lists(spec_suffix(s@, j2 + 1)) {
                    Some(lr) => {
                        assert(spec_dec_lists(spec_suffix(s@, j as int)) == Some(
                            (seq![l@] + lr.0, lr.1),
                        ));
                    },
                    None => {},
                }
            }
            out.push(l);
            proof {
                assert(spec_lists_view(out@) =~= spec_lists_view(out0) + seq![l@]);
                match spec_dec_lists(spec_suffix(s@, j2 + 1)) {
                    Some(lr) => {
                        assert(spec_lists_view(out0) + (seq![l@] + lr.0) =~= (spec_lists_view(out0)
                            + seq![l@]) + lr.0);
                    },
                    None => {},
                }
            }
            j = j2 + 1;
        } else if j2 < s.len() && s[j2] == 93 {
            let ghost out0 = out@;
            proof {
                let rest = spec_suffix(s@, j2 as int);
                assert(rest[0] == s@[j2 as int]);
                assert(rest.drop_first() =~= spec_suffix(s@, j2 + 1));
                assert(spec_dec_lists(spec_suffix(s@, j as int)) == Some(
                    (seq![l@], spec_suffix(s@, j2 + 1)),
                ));
            }
            out.push(l);
            proof {
                assert(spec_lists_view(out@) =~= spec_lists_view(out0) + seq![l@]);
            }
            return Some((out, j2 + 1));
        } else {
            proof {
                let rest = spec_suffix(s@, j2 as int);
                if rest.len() > 0 {
                    assert(rest[0] == s@[j2 as int]);
                }
            }
            return None;
        }
    }
}

/// Reads a whole document from its canonical byte form; anything else
/// is rejected.
pub fn parse_doc(bytes: &Vec<u8>) -> (r: Option<PersistDoc>)
    ensures
        r matches Some(doc) ==> spec_dec_doc(bytes@) == Some(doc@),
        r is None ==> spec_dec_doc(bytes@) is None,
{
    proof {
        assert(spec_suffix(bytes@, 0) =~= bytes@);
    }
    let head = lit_vec_doc_head();
    let j1 = match eat_lit(bytes, 0, &head) {
        Some(j) => j,
        None => {
            return None;
        },
    };
    let (lists, j2) = match parse_lists(bytes, j1) {
        Some(p) => p,
        None => {
            return None;
        },
    };
    let ckey = lit_vec_cli_key();
    let j3 = match eat_lit(bytes, j2, &ckey) {
        Some(j) => j,
        None => {
            return None;
        },
    };
    let (cli_mode_default, j4) = match parse_bool(bytes, j3) {
        Some(p) => p,
        None => {
            return None;
        },
    };
    let gkey = lit_vec_gui_key();
    let j5 = match eat_lit(bytes, j4, &gkey) {
        Some(j) => j,
        None => {
            return None;
        },
    };
    let (gui_always_on_top, j6) = match parse_bool(bytes, j5) {
        Some(p) => p,
        None => {
            return None;
        },
    };
    let mkey = lit_vec_mini_key();
    let j7 = match eat_lit(bytes, j6, &mkey) {
        Some(j) => j,
        None => {
            return None;
        },
    };
    let (run_in_mini_mode, j8) = match parse_bool(bytes, j7) {
        Some(p) => p,
        None => {
            return None;
        },
    };
    let brace = lit_vec_brace();
    let j9 = match eat_lit(bytes, j8, &brace) {
        Some(j) => j,
        None => {
            return None;
        },
    };
    if j9 != bytes.len() {
        return None;
    }
    Some(PersistDoc { todo_lists: lists, cli_mode_default, gui_always_on_top, run_in_mini_mode })
}

/// The fallback document: one empty list named "Main", all flags off.
pub open spec fn spec_is_default_doc(d: PersistDocModel) -> bool {
    &&& d.todo_lists.len() == 1
    &&& d.todo_lists[0].name == spec_main_name()
    &&& d.todo_lists[0].items.len() == 0
    &&& !d.cli_mode_default
    &&& !d.gui_always_on_top
    &&& !d.run_in_mini_mode
}

/// Builds the fallback document.
pub fn default_doc() -> (d: PersistDoc)
    ensures
        spec_is_default_doc(d@),
{
    let mut name: Vec<u8> = Vec::new();
    name.push(77);
    name.push(97);
    name.push(105);
    name.push(110);
    proof {
        assert(name@ =~= spec_main_name());
    }
    let list = TodoList { name, items: Vec::new() };
    let mut lists: Vec<TodoList> = Vec::new();
    lists.push(list);
    PersistDoc {
        todo_lists: lists,
        cli_mode_default: false,
        gui_always_on_top: false,
        run_in_mini_mode: false,
    }
}

/// Loads the startup document from the file's bytes, if the file was
/// there: a document that reads back is taken as is; a missing or
/// unparsable file falls back to the default document.
pub fn load_doc(bytes: Option<&Vec<u8>>) -> (d: PersistDoc)
    ensures
        (bytes matches Some(b) && spec_dec_doc(b@) is Some) ==> Some(d@) == spec_dec_doc(
            bytes.unwrap()@,
        ),
        !(bytes matches Some(b) && spec_dec_doc(b@) is Some) ==> spec_is_default_doc(d@),
{
    match bytes {
        Some(b) => match parse_doc(b) {
            Some(doc) => doc,
            None => default_doc(),
        },
        None => default_doc(),
    }
}

} // verus!
