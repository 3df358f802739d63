//! What holds of the editor whatever its state: of the line operators
//! (deleting, yanking and pasting lines), of the modes and of the focus.

use vstd::prelude::*;
use vstd::utf8::*;
use crate::app::Mode;
use crate::chars::{
    lemma_boundary_after_ascii, lemma_boundary_concat, lemma_boundary_zero, lemma_char_start,
    lemma_char_start_any, lemma_char_start_le, on_boundary,
};
use crate::edit::{lemma_splice, spec_insert_line_after, spec_remove_line, splice};
use crate::input::{spec_handle_key_event, Key};
use crate::lines::{
    lemma_lines_around, lemma_lines_at, lemma_lines_concat, lemma_lines_of_one,
    lemma_single_line, lines_before, lines_behind, lines_of, one_line,
};
use crate::model::AppModel;
use crate::motion::lemma_line_finish_boundary;
use crate::panel::Panel;
use crate::text::{
    breaks_before, lemma_line_begin, lemma_line_finish, lemma_line_finish_is,
    lemma_no_breaks_between, line_begin, line_count, line_finish, spec_offset_to_line_col,
    LINE_BREAK,
};

verus! {

/// Deleting the only line of a text leaves the empty text, with the cursor at
/// its beginning.
pub proof fn law_delete_only_line(s: AppModel)
    requires
        s.active_panel.spec_editable(),
        line_count(s.focus_text()) == 1,
    ensures
        s.delete_line().focus_text() == Seq::<u8>::empty(),
        s.delete_line().cursor() == 0,
{
    let b = s.focus_text();
    let c = s.caret();
    lemma_char_start_le(b, s.cursor() as int);
    lemma_single_line(b);
    lemma_line_begin(b, c);
    lemma_line_finish(b, c);
}

/// Yanking a line changes no text and no cursor, and the yank register then
/// holds the line of the cursor, byte for byte: the entry of the lines of the
/// text at the line number of the cursor.
pub proof fn law_yank_line_keeps_text(s: AppModel)
    ensures
        forall|p: Panel| s.yank_line().text_of(p) == s.text_of(p),
        s.yank_line().cursors == s.cursors,
        spec_offset_to_line_col(s.focus_text(), s.caret()).0 < lines_of(s.focus_text()).len(),
        s.yank_line().yank_register == Some(
            lines_of(s.focus_text())[spec_offset_to_line_col(s.focus_text(), s.caret()).0 as int],
        ),
{
    let b = s.focus_text();
    lemma_char_start_le(b, s.cursor() as int);
    lemma_lines_at(b, s.caret());
}

/// Deleting a line of a text of several lines takes that line out of the
/// sequence of its lines and leaves the others as they were, in their order.
pub proof fn law_delete_line_removes_it(b: Seq<u8>, c: int)
    requires
        0 <= c <= b.len(),
        line_count(b) > 1,
    ensures
        breaks_before(b, c) < lines_of(b).len(),
        lines_of(spec_remove_line(b, c)) == lines_of(b).remove(breaks_before(b, c) as int),
{
    let a = line_begin(b, c);
    let e = line_finish(b, c);
    let n = b.len() as int;
    lemma_lines_at(b, c);
    lemma_line_begin(b, c);
    lemma_line_finish(b, c);
    let r = spec_remove_line(b, c);
    if e < n {
        assert(r =~= b.subrange(0, a) + b.subrange(e + 1, n));
        if a > 0 {
            assert(r =~= b.subrange(0, a - 1) + seq![LINE_BREAK] + b.subrange(e + 1, n));
            lemma_lines_concat(b.subrange(0, a - 1), b.subrange(e + 1, n));
        } else {
            assert(r =~= b.subrange(e + 1, n));
        }
    } else if a == 0 {
        lemma_no_breaks_between(b, 0, n);
    }
    assert(lines_of(r) =~= lines_of(b).remove(breaks_before(b, c) as int));
}

/// Deleting from the cursor to the end of the line shortens that line to what
/// stands before the cursor and leaves the other lines as they were.
pub proof fn law_delete_to_line_end_shortens_it(b: Seq<u8>, c: int)
    requires
        0 <= c <= b.len(),
    ensures
        breaks_before(b, c) < lines_of(b).len(),
        lines_of(splice(b, c, line_finish(b, c), Seq::empty())) == lines_of(b).update(
            breaks_before(b, c) as int,
            lines_of(b)[breaks_before(b, c) as int].subrange(0, c - line_begin(b, c)),
        ),
{
    let a = line_begin(b, c);
    let e = line_finish(b, c);
    let n = b.len() as int;
    lemma_lines_at(b, c);
    lemma_line_begin(b, c);
    lemma_line_finish(b, c);
    let kept = b.subrange(a, c);
    assert(one_line(kept)) by {
        assert forall|j: int| 0 <= j < kept.len() implies kept[j] != LINE_BREAK by {
            assert(kept[j] == b[a + j]);
        }
    }
    lemma_lines_around(b, a, e, kept);
    let r = splice(b, c, e, Seq::empty());
    assert(r =~= b.subrange(0, a) + kept + b.subrange(e, n));
    assert(kept =~= b.subrange(a, e).subrange(0, c - a));
    assert(lines_of(r) =~= lines_of(b).update(breaks_before(b, c) as int, kept));
}

/// Pasting one line into a text that is not empty puts it into the sequence
/// of lines right behind the line of the cursor and leaves the other lines as
/// they were.
pub proof fn law_paste_inserts_a_line(b: Seq<u8>, c: int, line: Seq<u8>)
    requires
        0 <= c <= b.len(),
        b.len() > 0,
        one_line(line),
    ensures
        breaks_before(b, c) < lines_of(b).len(),
        lines_of(spec_insert_line_after(b, c, line)) == lines_of(b).insert(
            breaks_before(b, c) as int + 1,
            line,
        ),
{
    let a = line_begin(b, c);
    let e = line_finish(b, c);
    let n = b.len() as int;
    lemma_lines_at(b, c);
    lemma_line_begin(b, c);
    lemma_line_finish(b, c);
    let mid = b.subrange(a, e);
    let r = spec_insert_line_after(b, c, line);
    let front = b.subrange(0, e);
    let back = line + b.subrange(e, n);
    assert(r =~= front + seq![LINE_BREAK] + back);
    lemma_lines_concat(front, back);
    // the lines up to the line of the cursor
    lemma_lines_around(front, a, e, mid);
    assert(front =~= front.subrange(0, a) + mid + front.subrange(e, e));
    if a > 0 {
        assert(front.subrange(0, a - 1) =~= b.subrange(0, a - 1));
    }
    assert(lines_of(front) =~= lines_before(b, a) + seq![mid]);
    // the new line and the lines behind it
    lemma_lines_of_one(line);
    if e < n {
        assert(back =~= line + seq![LINE_BREAK] + b.subrange(e + 1, n));
        lemma_lines_concat(line, b.subrange(e + 1, n));
    } else {
        assert(back =~= line);
    }
    assert(lines_of(back) =~= seq![line] + lines_behind(b, e));
    assert(lines_of(r) =~= lines_of(b).insert(breaks_before(b, c) as int + 1, line));
}

/// Pasting reads the yank register and leaves in it what it held, however
/// often it is done.
pub proof fn law_paste_keeps_register(s: AppModel)
    ensures
        s.paste().yank_register == s.yank_register,
        s.paste().paste().yank_register == s.yank_register,
{
}

/// The second of two pastes puts in what the first one put in: the text of the
/// yank register, behind the line on which the cursor then stands.
pub proof fn law_paste_again(s: AppModel, line: Seq<u8>)
    requires
        s.active_panel.spec_editable(),
        s.yank_register == Some(line),
    ensures
        s.paste().focus_text() == spec_insert_line_after(s.focus_text(), s.caret(), line),
        s.paste().paste().focus_text() == spec_insert_line_after(
            s.paste().focus_text(),
            s.paste().caret(),
            line,
        ),
{
}

/// Pasting a register of one line twice puts that line into the text twice,
/// one copy behind the other, both behind the line on which the cursor stood.
/// The text must be UTF-8 and, with both copies, of a length that fits the
/// machine. Where the register and the text are both empty, pasting leaves the
/// text empty, and this law does not speak of it.
pub proof fn law_paste_twice(s: AppModel, line: Seq<u8>)
    requires
        s.active_panel.spec_editable(),
        s.yank_register == Some(line),
        valid_utf8(s.focus_text()),
        valid_utf8(line),
        one_line(line),
        s.focus_text().len() + 2 * line.len() + 2 <= usize::MAX,
        s.focus_text().len() > 0 || line.len() > 0,
    ensures
        ({
            let b = s.focus_text();
            let e = line_finish(b, s.caret());
            s.paste().paste().focus_text() == if b.len() == 0 {
                line + seq![LINE_BREAK] + line
            } else {
                splice(b, e, e, seq![LINE_BREAK] + line + seq![LINE_BREAK] + line)
            }
        }),
{
    let b = s.focus_text();
    let c = s.caret();
    let p = s.active_panel;
    let once = s.paste();
    let put = seq![LINE_BREAK] + line;
    lemma_char_start_any(b, s.cursor() as int);
    assert(valid_utf8(seq![LINE_BREAK])) by {
        reveal_with_fuel(valid_utf8, 2);
        let one = seq![LINE_BREAK];
        assert(pop_first_scalar(one) =~= Seq::<u8>::empty());
    }
    lemma_boundary_concat(seq![LINE_BREAK], line);
    if b.len() == 0 {
        let t = once.focus_text();
        assert(t == line);
        assert(once.cursor() == 0);
        lemma_boundary_zero(t);
        lemma_char_start(t, 0);
        lemma_line_finish_is(t, 0, t.len() as int);
        assert(once.paste().focus_text() =~= line + seq![LINE_BREAK] + line);
    } else {
        lemma_line_finish(b, c);
        lemma_line_finish_boundary(b, c);
        let e = line_finish(b, c);
        let t = once.focus_text();
        assert(t == splice(b, e, e, put));
        lemma_splice(b, e, e, put);
        assert(once.cursor() == e + 1);
        lemma_boundary_after_ascii(put, 0);
        assert(on_boundary(t, e + 1));
        lemma_char_start(t, e + 1);
        let f = e + 1 + line.len();
        assert forall|j: int| e + 1 <= j < f implies t[j] != LINE_BREAK by {
            assert(t[j] == line[j - e - 1]);
        }
        if f < t.len() {
            assert(t[f] == b[e]);
        }
        lemma_line_finish_is(t, e + 1, f);
        assert(once.paste().focus_text() =~= splice(
            b,
            e,
            e,
            seq![LINE_BREAK] + line + seq![LINE_BREAK] + line,
        ));
    }
}

/// In a state whose cursors stand at character boundaries inside their texts,
/// the cursor of the focused panel is taken as it is: no operation has to move
/// it before it begins.
pub proof fn law_cursor_is_taken_as_kept(s: AppModel)
    requires
        s.wf(),
        valid_utf8(s.focus_text()),
    ensures
        s.caret() == s.cursor(),
{
    lemma_char_start(s.focus_text(), s.cursor() as int);
}

/// From the command mode a key leads to the command mode or to the normal
/// mode, and from the visual mode to the visual mode or to the normal mode: no
/// other mode is reached from either.
pub proof fn law_modes_return_to_normal(s: AppModel, key: Key)
    ensures
        s.mode == Mode::Command ==> spec_handle_key_event(s, key).0.mode == Mode::Command
            || spec_handle_key_event(s, key).0.mode == Mode::Normal,
        s.mode == Mode::Visual ==> spec_handle_key_event(s, key).0.mode == Mode::Visual
            || spec_handle_key_event(s, key).0.mode == Mode::Normal,
{
}

/// A key in visual mode changes no text.
pub proof fn law_visual_keeps_texts(s: AppModel, key: Key)
    requires
        s.mode == Mode::Visual,
    ensures
        forall|p: Panel| spec_handle_key_event(s, key).0.text_of(p) == s.text_of(p),
{
}

/// The focus goes through all five panels and comes back: forward and
/// backward undo each other, and five steps forward end where they began.
pub proof fn law_focus_cycle(p: Panel)
    ensures
        p.spec_next().spec_previous() == p,
        p.spec_previous().spec_next() == p,
        p.spec_next().spec_next().spec_next().spec_next().spec_next() == p,
        p.spec_next() != p,
{
}

} // verus!
