//! The history store: an append-only log of submitted lines, a numbered
//! listing view, and the three file-backed operations — load wholesale,
//! save wholesale, and incremental append past a flush mark. The file
//! reads and writes themselves happen outside; the store renders and
//! parses the contents.

use vstd::prelude::*;
use vstd::string::StrSliceExecFns;

use crate::text::chars_to_string;
use crate::text::push_char;
use crate::text::str_to_chars;

verus! {

/// A decimal digit.
pub open spec fn is_dec_digit(c: char) -> bool {
    '0' as u32 <= c as u32 && c as u32 <= '9' as u32
}

/// Every character is a decimal digit.
pub open spec fn all_dec_digits(s: Seq<char>) -> bool {
    forall|i: int| 0 <= i < s.len() ==> is_dec_digit(#[trigger] s[i])
}

/// The character for digit `d`.
pub open spec fn digit_char(d: int) -> char {
    ((d + 48) as u8) as char
}

/// The decimal numeral of `n`, most significant digit first.
pub open spec fn spec_dec(n: int) -> Seq<char>
    decreases n,
{
    if n < 10 {
        seq![digit_char(n)]
    } else {
        spec_dec(n / 10).push(digit_char(n % 10))
    }
}

/// The value of a decimal numeral.
pub open spec fn dec_val(s: Seq<char>) -> int
    decreases s.len(),
{
    if s.len() == 0 {
        0
    } else {
        dec_val(s.drop_last()) * 10 + (s.last() as u32 - '0' as u32)
    }
}

proof fn lemma_dec_val_nonneg(s: Seq<char>)
    requires
        all_dec_digits(s),
    ensures
        dec_val(s) >= 0,
    decreases s.len(),
{
    if s.len() > 0 {
        assert(all_dec_digits(s.drop_last())) by {
            assert forall|i: int| 0 <= i < s.len() - 1 implies is_dec_digit(
                #[trigger] s.drop_last()[i],
            ) by {
                assert(s.drop_last()[i] == s[i]);
            }
        }
        lemma_dec_val_nonneg(s.drop_last());
    }
}

proof fn lemma_dec_val_take_le(s: Seq<char>, j: int)
    requires
        all_dec_digits(s),
        0 <= j <= s.len(),
    ensures
        dec_val(s.take(j)) <= dec_val(s),
    decreases s.len() - j,
{
    if j == s.len() {
        assert(s.take(j) =~= s);
    } else {
        lemma_dec_val_take_le(s, j + 1);
        assert(s.take(j + 1).drop_last() =~= s.take(j));
        assert(s.take(j + 1).last() == s[j]);
        assert(all_dec_digits(s.take(j))) by {
            assert forall|i: int| 0 <= i < j implies is_dec_digit(#[trigger] s.take(j)[i]) by {
                assert(s.take(j)[i] == s[i]);
            }
        }
        lemma_dec_val_nonneg(s.take(j));
    }
}

/// The executable digit character for `d`.
fn digit_char_exec(d: u8) -> (r: char)
    requires
        d <= 9,
    ensures
        r == digit_char(d as int),
{
    ((d + 48) as u8) as char
}

/// Formats `n` in decimal, as [`spec_dec`] says.
pub fn fmt_usize(n: usize) -> (r: String)
    ensures
        r@ == spec_dec(n as int),
{
    let mut rev: Vec<char> = Vec::new();
    let mut m = n;
    rev.push(digit_char_exec((m % 10) as u8));
    m = m / 10;
    proof {
        assert(rev@.reverse() =~= seq![digit_char(n as int % 10)]);
        if n < 10 {
            assert(spec_dec(n as int) =~= rev@.reverse());
        } else {
            assert(spec_dec(n as int) =~= spec_dec(m as int) + rev@.reverse());
        }
    }
    while m > 0
        invariant
            m > 0 ==> spec_dec(n as int) == spec_dec(m as int) + rev@.reverse(),
            m == 0 ==> spec_dec(n as int) == rev@.reverse(),
        decreases m,
    {
        let ghost pre = rev@;
        let ghost pre_m = m as int;
        rev.push(digit_char_exec((m % 10) as u8));
        m = m / 10;
        proof {
            assert(rev@.reverse() =~= seq![digit_char(pre_m % 10)] + pre.reverse());
            if pre_m < 10 {
                assert(spec_dec(pre_m) =~= seq![digit_char(pre_m)]);
                assert(spec_dec(n as int) =~= rev@.reverse());
            } else {
                assert(spec_dec(pre_m) =~= spec_dec(pre_m / 10).push(digit_char(pre_m % 10)));
                assert(spec_dec(pre_m / 10) + seq![digit_char(pre_m % 10)] =~= spec_dec(pre_m));
                assert(spec_dec(m as int) + rev@.reverse() =~= spec_dec(pre_m) + pre.reverse());
            }
        }
    }
    let mut out: Vec<char> = Vec::new();
    let mut k = rev.len();
    while k > 0
        invariant
            k <= rev@.len(),
            out@ == rev@.reverse().take(rev@.len() - k),
        decreases k,
    {
        k = k - 1;
        out.push(rev[k]);
        proof {
            assert(rev@.reverse()[rev@.len() - k - 1] == rev@[k as int]);
            assert(rev@.reverse().take(rev@.len() - k) =~= rev@.reverse().take(
                rev@.len() - k - 1,
            ).push(rev@[k as int]));
        }
    }
    proof {
        assert(rev@.reverse().take(rev@.len() as int) =~= rev@.reverse());
    }
    chars_to_string(&out)
}

/// Parses a decimal numeral: the number it denotes, when the text is
/// nonempty, all digits, and the value fits.
pub fn parse_usize(s: &String) -> (r: Option<usize>)
    ensures
        (r is Some) == (s@.len() > 0 && all_dec_digits(s@) && dec_val(s@) <= usize::MAX),
        r matches Some(v) ==> v as int == dec_val(s@),
{
    let chars = str_to_chars(s.as_str());
    if chars.len() == 0 {
        return None;
    }
    let mut acc: usize = 0;
    let mut i: usize = 0;
    proof {
        assert(s@.take(0) =~= Seq::<char>::empty());
    }
    while i < chars.len()
        invariant
            i <= chars@.len(),
            chars@ == s@,
            forall|t: int| 0 <= t < i ==> is_dec_digit(#[trigger] s@[t]),
            acc as int == dec_val(s@.take(i as int)),
        decreases chars.len() - i,
    {
        let c = chars[i];
        let u = c as u32;
        if !(u >= 48 && u <= 57) {
            proof {
                assert(!is_dec_digit(s@[i as int]));
            }
            return None;
        }
        let d = (u - 48) as usize;
        proof {
            assert(s@.take(i + 1).drop_last() =~= s@.take(i as int));
            assert(s@.take(i + 1).last() == s@[i as int]);
        }
        if acc > (usize::MAX - d) / 10 {
            proof {
                assert(all_dec_digits(s@.take(i + 1))) by {
                    assert forall|t: int| 0 <= t < i + 1 implies is_dec_digit(
                        #[trigger] s@.take(i + 1)[t],
                    ) by {
                        assert(s@.take(i + 1)[t] == s@[t]);
                    }
                }
                assert(10 * ((usize::MAX - d) / 10) + 9 >= usize::MAX - d);
                assert(dec_val(s@.take(i + 1)) > usize::MAX);
                if all_dec_digits(s@) {
                    lemma_dec_val_take_le(s@, i + 1);
                }
            }
            return None;
        }
        proof {
            assert(10 * ((usize::MAX - d) / 10) <= usize::MAX - d);
        }
        acc = acc * 10 + d;
        i = i + 1;
    }
    proof {
        assert(s@.take(s@.len() as int) =~= s@);
    }
    Some(acc)
}

/// The file rendering of entries: each followed by one newline.
pub open spec fn spec_render_lines(es: Seq<Seq<char>>) -> Seq<char>
    decreases es.len(),
{
    if es.len() == 0 {
        Seq::empty()
    } else {
        spec_render_lines(es.drop_last()) + es.last() + seq!['\n']
    }
}

/// One line of a piece of file text: a trailing carriage return is
/// dropped.
pub open spec fn finish_line(cur: Seq<char>) -> Seq<char> {
    if cur.len() > 0 && cur.last() == '\r' {
        cur.drop_last()
    } else {
        cur
    }
}

/// Splits file text into its non-empty lines, from position `i` on.
pub open spec fn lines_run(s: Seq<char>, i: int, cur: Seq<char>, acc: Seq<Seq<char>>) -> Seq<
    Seq<char>,
>
    decreases s.len() - i,
{
    if i < 0 || i >= s.len() {
        if finish_line(cur).len() > 0 {
            acc.push(finish_line(cur))
        } else {
            acc
        }
    } else if s[i] == '\n' {
        lines_run(s, i + 1, Seq::empty(), if finish_line(cur).len() > 0 {
            acc.push(finish_line(cur))
        } else {
            acc
        })
    } else {
        lines_run(s, i + 1, cur.push(s[i]), acc)
    }
}

/// The non-empty lines of file text, in order.
pub open spec fn spec_lines(s: Seq<char>) -> Seq<Seq<char>> {
    lines_run(s, 0, Seq::empty(), Seq::empty())
}

/// The numbered listing of the entries from index `i` on, one line each:
/// the one-based position, a space, the entry, a newline.
pub open spec fn spec_listing_from(es: Seq<Seq<char>>, i: int) -> Seq<char>
    decreases es.len() - i,
{
    if i < 0 || i >= es.len() {
        Seq::empty()
    } else {
        spec_dec(i + 1) + seq![' '] + es[i] + seq!['\n'] + spec_listing_from(es, i + 1)
    }
}

/// Where a listing of the last `count` entries starts.
pub open spec fn listing_start(len: int, count: Option<int>) -> int {
    match count {
        None => 0,
        Some(n) => if len - n > 0 {
            len - n
        } else {
            0
        },
    }
}

/// The session's command history: the ordered log of submitted lines and
/// the index up to which it has been flushed to the history file.
pub struct HistoryStore {
    entries: Vec<String>,
    last_flushed: usize,
}

impl HistoryStore {
    /// The log's entries, oldest first.
    pub closed spec fn entries_view(&self) -> Seq<Seq<char>> {
        self.entries.deep_view()
    }

    /// How many entries have been flushed to the history file.
    pub closed spec fn flushed(&self) -> int {
        self.last_flushed as int
    }

    /// The flush mark never passes the end of the log.
    pub closed spec fn wf(&self) -> bool {
        self.last_flushed <= self.entries@.len()
    }

    /// An empty history.
    pub fn new() -> (r: HistoryStore)
        ensures
            r.wf(),
            r.entries_view() == Seq::<Seq<char>>::empty(),
            r.flushed() == 0,
    {
        let r = HistoryStore { entries: Vec::new(), last_flushed: 0 };
        proof {
            assert(r.entries_view() =~= Seq::<Seq<char>>::empty());
        }
        r
    }

    /// Appends one submitted line to the log.
    pub fn push(&mut self, line: String)
        requires
            old(self).wf(),
        ensures
            final(self).wf(),
            final(self).entries_view() == old(self).entries_view().push(line@),
            final(self).flushed() == old(self).flushed(),
    {
        let ghost pre = self.entries.deep_view();
        let ghost l = line@;
        self.entries.push(line);
        proof {
            assert(self.entries.deep_view() =~= pre.push(l));
        }
    }

    /// How many lines the log holds.
    pub fn len(&self) -> (r: usize)
        ensures
            r == self.entries_view().len(),
    {
        self.entries.len()
    }

    /// The log's entries.
    pub fn entries(&self) -> (r: &Vec<String>)
        ensures
            r.deep_view() == self.entries_view(),
    {
        &self.entries
    }

    /// Replaces the log wholesale with the non-empty lines of a history
    /// file's text; nothing of the new content counts as flushed.
    pub fn load(&mut self, content: &str)
        ensures
            final(self).wf(),
            final(self).entries_view() == spec_lines(content@),
            final(self).flushed() == 0,
    {
        let chars = str_to_chars(content);
        let ghost s = content@;
        let mut cur: Vec<char> = Vec::new();
        let mut acc: Vec<String> = Vec::new();
        let mut i: usize = 0;
        proof {
            assert(acc.deep_view() =~= Seq::<Seq<char>>::empty());
        }
        while i < chars.len()
            invariant
                i <= chars@.len(),
                chars@ == s,
                spec_lines(s) == lines_run(s, i as int, cur@, acc.deep_view()),
            decreases chars.len() - i,
        {
            let c = chars[i];
            let ghost pre_cur = cur@;
            let ghost pre_acc = acc.deep_view();
            if c == '\n' {
                let line = finish_line_exec(cur);
                if line.len() != 0 {
                    let text = chars_to_string(&line);
                    acc.push(text);
                    proof {
                        assert(acc.deep_view() =~= pre_acc.push(finish_line(pre_cur)));
                    }
                }
                cur = Vec::new();
            } else {
                cur.push(c);
            }
            i = i + 1;
        }
        let line = finish_line_exec(cur);
        if line.len() != 0 {
            let ghost pre_acc = acc.deep_view();
            let text = chars_to_string(&line);
            acc.push(text);
            proof {
                assert(acc.deep_view() =~= pre_acc.push(line@));
            }
        }
        self.entries = acc;
        self.last_flushed = 0;
    }

    /// The whole log rendered for a save: one entry per line, each with a
    /// single trailing newline.
    pub fn save_content(&self) -> (r: String)
        ensures
            r@ == spec_render_lines(self.entries_view()),
    {
        render_lines(&self.entries)
    }

    /// The not-yet-flushed tail rendered for an incremental append, and the
    /// flush mark advanced to the end of the log.
    pub fn append_content(&mut self) -> (r: String)
        requires
            old(self).wf(),
        ensures
            final(self).wf(),
            final(self).entries_view() == old(self).entries_view(),
            final(self).flushed() == old(self).entries_view().len(),
            r@ == spec_render_lines(old(self).entries_view().skip(old(self).flushed())),
    {
        let mut tail: Vec<String> = Vec::new();
        let mut i = self.last_flushed;
        let ghost from = self.last_flushed as int;
        proof {
            assert(tail.deep_view() =~= self.entries.deep_view().subrange(from, from));
        }
        while i < self.entries.len()
            invariant
                from <= i <= self.entries@.len(),
                self.last_flushed == from,
                tail.deep_view() == self.entries.deep_view().subrange(from, i as int),
            decreases self.entries.len() - i,
        {
            let ghost pre = tail.deep_view();
            tail.push(self.entries[i].clone());
            proof {
                assert(tail.deep_view() =~= pre.push(self.entries.deep_view()[i as int]));
                assert(self.entries.deep_view().subrange(from, i + 1) =~= self.entries.deep_view()
                    .subrange(from, i as int).push(self.entries.deep_view()[i as int]));
            }
            i = i + 1;
        }
        proof {
            assert(self.entries.deep_view().subrange(from, self.entries@.len() as int)
                =~= self.entries.deep_view().skip(from));
        }
        self.last_flushed = self.entries.len();
        render_lines(&tail)
    }

    /// The numbered listing the `history` builtin prints: the whole log, or
    /// its last `count` entries, numbering continuing from the absolute
    /// one-based position.
    pub fn listing(&self, count: Option<usize>) -> (r: String)
        ensures
            r@ == spec_listing_from(
                self.entries_view(),
                listing_start(
                    self.entries_view().len() as int,
                    match count {
                        None => None,
                        Some(n) => Some(n as int),
                    },
                ),
            ),
    {
        let start: usize = match count {
            None => 0,
            Some(n) => if self.entries.len() > n {
                self.entries.len() - n
            } else {
                0
            },
        };
        let mut out = String::new();
        let mut i = start;
        let ghost es = self.entries_view();
        proof {
            assert(out@ + spec_listing_from(es, start as int) =~= spec_listing_from(
                es,
                start as int,
            ));
        }
        while i < self.entries.len()
            invariant
                start <= i <= self.entries@.len(),
                es == self.entries_view(),
                spec_listing_from(es, start as int) == out@ + spec_listing_from(es, i as int),
            decreases self.entries.len() - i,
        {
            let ghost pre = out@;
            let number = fmt_usize(i + 1);
            out.append(number.as_str());
            push_char(&mut out, ' ');
            out.append(self.entries[i].as_str());
            push_char(&mut out, '\n');
            proof {
                assert(out@ =~= pre + (spec_dec(i + 1) + seq![' '] + es[i as int] + seq!['\n']));
                assert(pre + (spec_dec(i + 1) + seq![' '] + es[i as int] + seq!['\n'])
                    + spec_listing_from(es, i + 1) =~= pre + spec_listing_from(es, i as int));
            }
            i = i + 1;
        }
        proof {
            assert(out@ + spec_listing_from(es, es.len() as int) =~= out@);
        }
        out
    }
}

/// Executable mirror of [`finish_line`].
fn finish_line_exec(cur: Vec<char>) -> (r: Vec<char>)
    ensures
        r@ == finish_line(cur@),
{
    let mut cur = cur;
    if cur.len() > 0 && cur[cur.len() - 1] == '\r' {
        let _ = cur.pop();
        proof {
            assert(cur@ =~= finish_line(cur@.push('\r')));
        }
    }
    cur
}

/// Renders entries one per line, each with a trailing newline.
fn render_lines(entries: &Vec<String>) -> (r: String)
    ensures
        r@ == spec_render_lines(entries.deep_view()),
{
    let mut out = String::new();
    let mut i: usize = 0;
    proof {
        assert(entries.deep_view().take(0) =~= Seq::<Seq<char>>::empty());
    }
    while i < entries.len()
        invariant
            i <= entries@.len(),
            out@ == spec_render_lines(entries.deep_view().take(i as int)),
        decreases entries.len() - i,
    {
        let ghost pre = out@;
        out.append(entries[i].as_str());
        push_char(&mut out, '\n');
        proof {
            let dv = entries.deep_view();
            assert(dv.take(i + 1).drop_last() =~= dv.take(i as int));
            assert(dv.take(i + 1).last() == dv[i as int]);
            assert(out@ =~= spec_render_lines(dv.take(i as int)) + dv[i as int] + seq!['\n']);
        }
        i = i + 1;
    }
    proof {
        assert(entries.deep_view().take(entries@.len() as int) =~= entries.deep_view());
    }
    out
}

/// What a `history` invocation asks for.
pub enum HistoryRequest {
    /// Print the listing, of the whole log or its last so-many entries.
    List(Option<usize>),
    /// Replace the log from the file at this path.
    Load(String),
    /// Write the whole log to the file at this path.
    Save(String),
    /// Append the unflushed tail to the file at this path.
    Append(String),
    /// The arguments are unusable; report this message.
    Rejected(String),
}

/// Reads a `history` invocation's arguments: `-r`, `-w` and `-a` take a
/// file path for load, save and incremental append; a bare number limits
/// the listing; nothing lists everything.
pub fn history_request(arguments: &Vec<String>) -> (r: HistoryRequest)
    ensures
        arguments@.len() == 0 ==> (r matches HistoryRequest::List(n) && n is None),
        arguments@.len() > 0 ==> {
            let a0 = arguments.deep_view()[0];
            let path = if arguments@.len() > 1 {
                arguments.deep_view()[1]
            } else {
                Seq::<char>::empty()
            };
            if a0 == "-r"@ {
                r matches HistoryRequest::Load(p) && p@ == path
            } else if a0 == "-w"@ {
                r matches HistoryRequest::Save(p) && p@ == path
            } else if a0 == "-a"@ {
                if arguments@.len() > 1 {
                    r matches HistoryRequest::Append(p) && p@ == path
                } else {
                    r matches HistoryRequest::Rejected(m) && m@ == "Missing history append path"@
                }
            } else if a0.len() > 0 && all_dec_digits(a0) && dec_val(a0) <= usize::MAX {
                r matches HistoryRequest::List(n) && n matches Some(v) && v as int == dec_val(a0)
            } else {
                r matches HistoryRequest::Rejected(m) && m@ == "Failed to parse history argument: "@
                    + a0
            }
        },
{
    if arguments.len() == 0 {
        return HistoryRequest::List(None);
    }
    let read_flag = "-r".to_owned();
    let write_flag = "-w".to_owned();
    let append_flag = "-a".to_owned();
    let first = &arguments[0];
    if first.eq(&read_flag) || first.eq(&write_flag) || first.eq(&append_flag) {
        let path = if arguments.len() > 1 {
            arguments[1].clone()
        } else {
            String::new()
        };
        if first.eq(&read_flag) {
            HistoryRequest::Load(path)
        } else if first.eq(&write_flag) {
            HistoryRequest::Save(path)
        } else if arguments.len() > 1 {
            HistoryRequest::Append(path)
        } else {
            HistoryRequest::Rejected("Missing history append path".to_owned())
        }
    } else {
        match parse_usize(first) {
            Some(v) => HistoryRequest::List(Some(v)),
            None => HistoryRequest::Rejected(
                crate::text::concat_str("Failed to parse history argument: ", first.as_str()),
            ),
        }
    }
}

} // verus!
