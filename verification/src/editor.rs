//! The line editor's key handling: an in-progress buffer with a clamped
//! cursor, history recall with wraparound, and tab completion — longest
//! common prefix first, the full sorted match list on a second consecutive
//! tab. The raw-mode terminal loop lives outside; it feeds keys in and
//! performs the returned effect.

use vstd::prelude::*;
use vstd::string::StrSliceExecFns;

use crate::order::sort_strings;
use crate::order::sorted_lex;
use crate::text::chars_to_string;
use crate::text::is_prefix_of;
use crate::text::starts_with_chars;
use crate::text::str_to_chars;

verus! {

/// A key the editor reacts to.
pub enum KeyInput {
    /// A printable character.
    Character(char),
    /// The left arrow.
    Left,
    /// The right arrow.
    Right,
    /// Backspace.
    Backspace,
    /// The up arrow: history recall.
    Up,
    /// Tab: completion.
    Tab,
}

/// What the caller must do after a key.
pub enum EditorEffect {
    /// Redraw the prompt and buffer.
    Redraw,
    /// Ring the bell, then redraw.
    Bell,
    /// Print this sorted match list below the prompt, then redraw.
    ShowMatches(Vec<String>),
    /// Nothing changed and nothing is shown.
    Silent,
}

/// `p` is a prefix of every name.
pub open spec fn common_prefix_of_all(p: Seq<char>, names: Seq<Seq<char>>) -> bool {
    forall|i: int| 0 <= i < names.len() ==> is_prefix_of(p, #[trigger] names[i])
}

/// The names that start with `p`, in their given order.
pub open spec fn prefix_filtered(names: Seq<Seq<char>>, p: Seq<char>) -> Seq<Seq<char>>
    decreases names.len(),
{
    if names.len() == 0 {
        Seq::empty()
    } else {
        let rest = prefix_filtered(names.drop_last(), p);
        if is_prefix_of(p, names.last()) {
            rest.push(names.last())
        } else {
            rest
        }
    }
}

proof fn lemma_prefix_filtered_all(names: Seq<Seq<char>>, p: Seq<char>)
    ensures
        common_prefix_of_all(p, prefix_filtered(names, p)),
        prefix_filtered(names, p).len() <= names.len(),
    decreases names.len(),
{
    if names.len() > 0 {
        lemma_prefix_filtered_all(names.drop_last(), p);
        let rest = prefix_filtered(names.drop_last(), p);
        if is_prefix_of(p, names.last()) {
            assert forall|i: int|
                0 <= i < rest.push(names.last()).len() implies is_prefix_of(
                p,
                #[trigger] rest.push(names.last())[i],
            ) by {
                if i < rest.len() {
                    assert(rest.push(names.last())[i] == rest[i]);
                }
            }
        }
    }
}

/// The names of `names` that start with the characters of `p`.
pub fn prefix_matches(names: &Vec<String>, p: &Vec<char>) -> (r: Vec<String>)
    ensures
        r.deep_view() == prefix_filtered(names.deep_view(), p@),
{
    let mut r: Vec<String> = Vec::new();
    let mut i: usize = 0;
    proof {
        assert(names.deep_view().take(0) =~= Seq::<Seq<char>>::empty());
        assert(r.deep_view() =~= prefix_filtered(names.deep_view().take(0), p@));
    }
    while i < names.len()
        invariant
            i <= names@.len(),
            r.deep_view() == prefix_filtered(names.deep_view().take(i as int), p@),
        decreases names.len() - i,
    {
        let ghost dv = names.deep_view();
        proof {
            assert(dv.take(i + 1).drop_last() =~= dv.take(i as int));
            assert(dv.take(i + 1).last() == dv[i as int]);
        }
        if starts_with_chars(names[i].as_str(), p) {
            let ghost pre = r.deep_view();
            r.push(names[i].clone());
            proof {
                assert(r.deep_view() =~= pre.push(dv[i as int]));
            }
        }
        i = i + 1;
    }
    proof {
        assert(names.deep_view().take(names@.len() as int) =~= names.deep_view());
    }
    r
}

/// The longest common prefix of the names, which all start with
/// `user_input`: every name starts with the result, the result starts with
/// `user_input`, and no longer text is a prefix of every name.
pub fn build_lcp(names: &Vec<String>, user_input: &String) -> (r: String)
    requires
        names@.len() > 0,
        common_prefix_of_all(user_input@, names.deep_view()),
    ensures
        common_prefix_of_all(r@, names.deep_view()),
        is_prefix_of(user_input@, r@),
        forall|q: Seq<char>| common_prefix_of_all(q, names.deep_view()) ==> q.len() <= r@.len(),
{
    let ghost dv = names.deep_view();
    let fc = str_to_chars(names[0].as_str());
    let mut len = fc.len();
    let mut j: usize = 1;
    proof {
        assert(fc@.take(len as int) =~= fc@);
        assert(is_prefix_of(fc@.take(len as int), dv[0]));
    }
    while j < names.len()
        invariant
            1 <= j <= names@.len(),
            dv == names.deep_view(),
            fc@ == dv[0],
            len <= fc@.len(),
            forall|t: int| 0 <= t < j ==> is_prefix_of(fc@.take(len as int), #[trigger] dv[t]),
            len < fc@.len() ==> exists|t: int|
                0 <= t < j && (#[trigger] dv[t].len() == len || (len < dv[t].len() && dv[t][
                    len as int
                ] != fc@[len as int])),
        decreases names.len() - j,
    {
        let nc = str_to_chars(names[j].as_str());
        let mut m: usize = 0;
        while m < len && m < nc.len() && fc[m] == nc[m]
            invariant
                m <= len <= fc@.len(),
                m <= nc@.len(),
                nc@ == dv[j as int],
                fc@ == dv[0],
                dv == names.deep_view(),
                forall|t: int| 0 <= t < m ==> fc@[t] == nc@[t],
            decreases len - m,
        {
            m = m + 1;
        }
        proof {
            assert(fc@.take(m as int) =~= nc@.take(m as int));
        }
        if m < len {
            proof {
                assert(dv[j as int].len() == m || (m < dv[j as int].len() && dv[j as int][
                    m as int
                ] != fc@[m as int]));
                assert forall|t: int| 0 <= t < j + 1 implies is_prefix_of(
                    fc@.take(m as int),
                    #[trigger] dv[t],
                ) by {
                    if t < j {
                        assert(is_prefix_of(fc@.take(len as int), dv[t]));
                        assert(fc@.take(len as int).take(m as int) =~= fc@.take(m as int));
                        assert(dv[t].take(len as int).take(m as int) =~= dv[t].take(m as int));
                        assert(fc@.take(m as int) =~= dv[t].take(m as int));
                    } else {
                        assert(m <= nc@.len());
                        assert(fc@.take(m as int) =~= dv[t].take(m as int));
                    }
                }
            }
            len = m;
        } else {
            proof {
                assert(is_prefix_of(fc@.take(len as int), dv[j as int])) by {
                    assert(m == len);
                    assert(len <= nc@.len());
                    assert(fc@.take(len as int) =~= dv[j as int].take(len as int));
                }
            }
        }
        j = j + 1;
    }
    let mut out: Vec<char> = Vec::new();
    let mut k: usize = 0;
    while k < len
        invariant
            k <= len <= fc@.len(),
            out@ == fc@.take(len as int).take(k as int),
        decreases len - k,
    {
        out.push(fc[k]);
        k = k + 1;
        proof {
            assert(fc@.take(len as int).take(k as int) =~= fc@.take(len as int).take(
                k - 1 as int,
            ).push(fc@[k - 1]));
        }
    }
    proof {
        assert(fc@.take(len as int).take(len as int) =~= fc@.take(len as int));
    }
    let r = chars_to_string(&out);
    proof {
        assert forall|q: Seq<char>| common_prefix_of_all(q, dv) implies q.len() <= r@.len() by {
            if q.len() > len {
                assert(is_prefix_of(q, dv[0]));
                assert(q.len() <= fc@.len());
                assert(len < fc@.len());
                let t = choose|t: int|
                    0 <= t < names@.len() && (#[trigger] dv[t].len() == len || (len < dv[t].len()
                        && dv[t][len as int] != fc@[len as int]));
                assert(is_prefix_of(q, dv[t]));
                if dv[t].len() == len {
                    assert(q.len() <= dv[t].len());
                } else {
                    assert(q == dv[0].take(q.len() as int));
                    assert(q[len as int] == fc@[len as int]);
                    assert(q == dv[t].take(q.len() as int));
                    assert(q[len as int] == dv[t][len as int]);
                }
            }
        }
        assert(is_prefix_of(user_input@, r@)) by {
            assert(is_prefix_of(user_input@, dv[0]));
            assert(user_input@.len() <= len);
            assert(user_input@ =~= dv[0].take(user_input@.len() as int));
            assert(r@.take(user_input@.len() as int) =~= dv[0].take(user_input@.len() as int));
        }
    }
    r
}

/// The line editor's state while one line is being typed.
pub struct Editor {
    buffer: Vec<char>,
    cursor: usize,
    history_len: usize,
    history_pos: usize,
    tab_pending: bool,
}

impl Editor {
    /// The buffer's characters.
    pub closed spec fn buffer_view(&self) -> Seq<char> {
        self.buffer@
    }

    /// The logical cursor offset, a character index into the buffer.
    pub closed spec fn cursor_spec(&self) -> int {
        self.cursor as int
    }

    /// How long the history was when this editor started.
    pub closed spec fn history_len_spec(&self) -> int {
        self.history_len as int
    }

    /// The history-recall position the next up arrow uses.
    pub closed spec fn history_pos_spec(&self) -> int {
        self.history_pos as int
    }

    /// A tab that showed a longest common prefix was the last key pressed.
    pub closed spec fn tab_pending_spec(&self) -> bool {
        self.tab_pending
    }

    /// The cursor stays inside the buffer and the recall position inside
    /// the history.
    pub closed spec fn wf(&self) -> bool {
        &&& self.cursor <= self.buffer@.len()
        &&& (self.history_len == 0 ==> self.history_pos == 0)
        &&& (self.history_len > 0 ==> self.history_pos < self.history_len)
    }

    /// A fresh editor over an empty buffer; history recall starts at the
    /// newest entry.
    pub fn new(history_len: usize) -> (r: Editor)
        ensures
            r.wf(),
            r.buffer_view() == Seq::<char>::empty(),
            r.cursor_spec() == 0,
            r.history_len_spec() == history_len as int,
            r.history_pos_spec() == if history_len == 0 {
                0int
            } else {
                history_len - 1
            },
            !r.tab_pending_spec(),
    {
        Editor {
            buffer: Vec::new(),
            cursor: 0,
            history_len,
            history_pos: if history_len == 0 {
                0
            } else {
                history_len - 1
            },
            tab_pending: false,
        }
    }

    /// The buffer as text, for drawing and for submission.
    pub fn line(&self) -> (r: String)
        ensures
            r@ == self.buffer_view(),
    {
        chars_to_string(&self.buffer)
    }

    /// The cursor offset, for placing the terminal cursor.
    pub fn cursor(&self) -> (r: usize)
        ensures
            r as int == self.cursor_spec(),
    {
        self.cursor
    }

    /// Reacts to one key, as the key contract says: insertion at the
    /// cursor, clamped cursor moves, deletion before the cursor, history
    /// recall with wraparound, and tab completion.
    pub fn handle_key(
        &mut self,
        key: KeyInput,
        know_commands: &Vec<String>,
        command_history: &Vec<String>,
    ) -> (eff: EditorEffect)
        requires
            old(self).wf(),
            command_history@.len() == old(self).history_len_spec(),
        ensures
            final(self).wf(),
            final(self).history_len_spec() == old(self).history_len_spec(),
            match key {
                KeyInput::Character(c) => {
                    &&& final(self).buffer_view() == old(self).buffer_view().insert(
                        old(self).cursor_spec(),
                        c,
                    )
                    &&& final(self).cursor_spec() == old(self).cursor_spec() + 1
                    &&& !final(self).tab_pending_spec()
                    &&& final(self).history_pos_spec() == old(self).history_pos_spec()
                    &&& eff is Redraw
                },
                KeyInput::Left => {
                    &&& final(self).buffer_view() == old(self).buffer_view()
                    &&& final(self).cursor_spec() == if old(self).cursor_spec() > 0 {
                        old(self).cursor_spec() - 1
                    } else {
                        0int
                    }
                    &&& !final(self).tab_pending_spec()
                    &&& final(self).history_pos_spec() == old(self).history_pos_spec()
                    &&& eff is Redraw
                },
                KeyInput::Right => {
                    &&& final(self).buffer_view() == old(self).buffer_view()
                    &&& final(self).cursor_spec() == if old(self).cursor_spec() < old(
                        self,
                    ).buffer_view().len() {
                        old(self).cursor_spec() + 1
                    } else {
                        old(self).cursor_spec()
                    }
                    &&& !final(self).tab_pending_spec()
                    &&& final(self).history_pos_spec() == old(self).history_pos_spec()
                    &&& eff is Redraw
                },
                KeyInput::Backspace => {
                    &&& final(self).buffer_view() == if old(self).cursor_spec() > 0 {
                        old(self).buffer_view().remove(old(self).cursor_spec() - 1)
                    } else {
                        old(self).buffer_view()
                    }
                    &&& final(self).cursor_spec() == if old(self).cursor_spec() > 0 {
                        old(self).cursor_spec() - 1
                    } else {
                        0int
                    }
                    &&& !final(self).tab_pending_spec()
                    &&& final(self).history_pos_spec() == old(self).history_pos_spec()
                    &&& eff is Redraw
                },
                KeyInput::Up => {
                    if old(self).history_len_spec() > 0 {
                        &&& final(self).buffer_view() == command_history.deep_view()[old(
                            self,
                        ).history_pos_spec()]
                        &&& final(self).cursor_spec() == final(self).buffer_view().len()
                        &&& final(self).history_pos_spec() == if old(self).history_pos_spec()
                            == 0 {
                            old(self).history_len_spec() - 1
                        } else {
                            old(self).history_pos_spec() - 1
                        }
                        &&& !final(self).tab_pending_spec()
                        &&& eff is Redraw
                    } else {
                        &&& *final(self) == *old(self)
                        &&& eff is Silent
                    }
                },
                KeyInput::Tab => {
                    let ms = prefix_filtered(know_commands.deep_view(), old(self).buffer_view());
                    if ms.len() == 0 {
                        &&& final(self).buffer_view() == old(self).buffer_view()
                        &&& final(self).cursor_spec() == old(self).cursor_spec()
                        &&& final(self).tab_pending_spec() == old(self).tab_pending_spec()
                        &&& final(self).history_pos_spec() == old(self).history_pos_spec()
                        &&& eff is Bell
                    } else if ms.len() == 1 {
                        &&& final(self).buffer_view() == ms[0].push(' ')
                        &&& final(self).cursor_spec() == final(self).buffer_view().len()
                        &&& !final(self).tab_pending_spec()
                        &&& final(self).history_pos_spec() == old(self).history_pos_spec()
                        &&& eff is Redraw
                    } else if !old(self).tab_pending_spec() {
                        &&& common_prefix_of_all(final(self).buffer_view(), ms)
                        &&& is_prefix_of(old(self).buffer_view(), final(self).buffer_view())
                        &&& (forall|q: Seq<char>|
                            common_prefix_of_all(q, ms) ==> q.len() <= final(
                                self).buffer_view().len())
                        &&& final(self).cursor_spec() == final(self).buffer_view().len()
                        &&& final(self).tab_pending_spec()
                        &&& final(self).history_pos_spec() == old(self).history_pos_spec()
                        &&& eff is Bell
                    } else {
                        &&& final(self).buffer_view() == old(self).buffer_view()
                        &&& final(self).cursor_spec() == old(self).cursor_spec()
                        &&& !final(self).tab_pending_spec()
                        &&& final(self).history_pos_spec() == old(self).history_pos_spec()
                        &&& (eff matches EditorEffect::ShowMatches(v) && sorted_lex(v.deep_view())
                            && v.deep_view().to_multiset() == ms.to_multiset())
                    }
                },
            },
    {
        match key {
            KeyInput::Character(c) => {
                self.buffer.insert(self.cursor, c);
                let n = self.buffer.len();
                proof {
                    assert(self.cursor < n);
                }
                self.cursor = self.cursor + 1;
                self.tab_pending = false;
                EditorEffect::Redraw
            },
            KeyInput::Left => {
                if self.cursor > 0 {
                    self.cursor = self.cursor - 1;
                }
                self.tab_pending = false;
                EditorEffect::Redraw
            },
            KeyInput::Right => {
                if self.cursor < self.buffer.len() {
                    self.cursor = self.cursor + 1;
                }
                self.tab_pending = false;
                EditorEffect::Redraw
            },
            KeyInput::Backspace => {
                if self.cursor > 0 {
                    self.cursor = self.cursor - 1;
                    let _ = self.buffer.remove(self.cursor);
                }
                self.tab_pending = false;
                EditorEffect::Redraw
            },
            KeyInput::Up => {
                if self.history_len > 0 {
                    self.buffer = str_to_chars(command_history[self.history_pos].as_str());
                    self.cursor = self.buffer.len();
                    if self.history_pos == 0 {
                        self.history_pos = self.history_len - 1;
                    } else {
                        self.history_pos = self.history_pos - 1;
                    }
                    self.tab_pending = false;
                    EditorEffect::Redraw
                } else {
                    EditorEffect::Silent
                }
            },
            KeyInput::Tab => {
                let matches = prefix_matches(know_commands, &self.buffer);
                proof {
                    lemma_prefix_filtered_all(know_commands.deep_view(), self.buffer@);
                }
                if matches.len() == 0 {
                    EditorEffect::Bell
                } else if matches.len() == 1 {
                    let mut nb = str_to_chars(matches[0].as_str());
                    nb.push(' ');
                    proof {
                        assert(nb@ =~= matches.deep_view()[0].push(' '));
                    }
                    self.buffer = nb;
                    self.cursor = self.buffer.len();
                    self.tab_pending = false;
                    EditorEffect::Redraw
                } else if !self.tab_pending {
                    let current = chars_to_string(&self.buffer);
                    let lcp = build_lcp(&matches, &current);
                    self.buffer = str_to_chars(lcp.as_str());
                    self.cursor = self.buffer.len();
                    self.tab_pending = true;
                    EditorEffect::Bell
                } else {
                    self.tab_pending = false;
                    EditorEffect::ShowMatches(sort_strings(&matches))
                }
            },
        }
    }

    /// Inserts a pasted block at the cursor: every character in order, with
    /// carriage returns and newlines dropped, and one redraw at the end.
    pub fn handle_paste(&mut self, text: &str)
        requires
            old(self).wf(),
        ensures
            final(self).wf(),
            final(self).buffer_view() == old(self).buffer_view().take(old(self).cursor_spec())
                + pasted_chars(text@) + old(self).buffer_view().skip(old(self).cursor_spec()),
            final(self).cursor_spec() == old(self).cursor_spec() + pasted_chars(text@).len(),
            final(self).history_len_spec() == old(self).history_len_spec(),
            final(self).history_pos_spec() == old(self).history_pos_spec(),
            !final(self).tab_pending_spec(),
    {
        let chars = str_to_chars(text);
        let ghost s = text@;
        let ghost base = self.buffer@;
        let ghost at = self.cursor as int;
        let mut i: usize = 0;
        proof {
            assert(pasted_chars(s.take(0)) =~= Seq::<char>::empty());
            assert(self.buffer@ =~= base.take(at) + pasted_chars(s.take(0)) + base.skip(at));
        }
        while i < chars.len()
            invariant
                i <= chars@.len(),
                chars@ == s,
                base.take(at) + base.skip(at) =~= base,
                0 <= at <= base.len(),
                self.cursor as int == at + pasted_chars(s.take(i as int)).len(),
                self.buffer@ == base.take(at) + pasted_chars(s.take(i as int)) + base.skip(at),
                self.history_len == old(self).history_len,
                self.history_pos == old(self).history_pos,
            decreases chars.len() - i,
        {
            let c = chars[i];
            proof {
                assert(s.take(i + 1).drop_last() =~= s.take(i as int));
                assert(s.take(i + 1).last() == s[i as int]);
            }
            if c != '\n' && c != '\r' {
                let ghost pre = self.buffer@;
                proof {
                    assert(self.cursor <= self.buffer@.len());
                }
                self.buffer.insert(self.cursor, c);
                let n = self.buffer.len();
                proof {
                    assert(self.cursor < n);
                }
                self.cursor = self.cursor + 1;
                proof {
                    assert(self.buffer@ =~= base.take(at) + pasted_chars(s.take(i + 1))
                        + base.skip(at)) by {
                        assert(pasted_chars(s.take(i + 1)) =~= pasted_chars(s.take(i as int)).push(
                            s[i as int],
                        ));
                        assert(pre.insert(at + pasted_chars(s.take(i as int)).len(), c)
                            =~= base.take(at) + pasted_chars(s.take(i as int)).push(s[i as int])
                            + base.skip(at));
                    }
                }
            }
            i = i + 1;
        }
        proof {
            assert(s.take(s.len() as int) =~= s);
        }
        self.tab_pending = false;
    }
}

/// The characters a pasted block contributes: everything but carriage
/// returns and newlines, in order.
pub open spec fn pasted_chars(s: Seq<char>) -> Seq<char>
    decreases s.len(),
{
    if s.len() == 0 {
        Seq::empty()
    } else {
        let rest = pasted_chars(s.drop_last());
        if s.last() == '\n' || s.last() == '\r' {
            rest
        } else {
            rest.push(s.last())
        }
    }
}

} // verus!
