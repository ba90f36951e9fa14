//! Projectile's reviewable project-wide search and replace: the matches
//! gathered into a buffer where each can be toggled, the selection moved by
//! match or by file, and what the search tool printed read back as matches.
//! Running the search, visiting files and writing them back is the caller's
//! part: a review marks itself stale when its matches no longer answer its
//! switches, and is handed the new matches.

use vstd::prelude::*;
use vstd::string::StrSliceExecFns;
use vstd::string::StringExecFns;

use crate::keys::Key;
use crate::merge::{line_end, line_end_bounds, line_tokens, views};
use crate::text::{decimal, decimal_string, pad_left, push_padded, trim_end, trim_end_text};

verus! {

/// One match: where it is and the line it sits on.
pub struct Match {
    pub file: String,
    pub line: usize,
    pub text: String,
    /// Whether applying will rewrite this one.
    pub enabled: bool,
}

/// A review over the matches of `pattern` under `root`.
pub struct Review {
    pub root: String,
    pub pattern: String,
    /// `None` for a read-only search review.
    pub replacement: Option<String>,
    pub regexp: bool,
    pub case_sensitive: bool,
    pub word: bool,
    pub matches: Vec<Match>,
    pub selected: usize,
    pub scroll: usize,
    pub status: String,
    /// The matches no longer answer the switches: a search is owed.
    pub stale: bool,
    /// The mini-prompt open in the buffer, and what was typed into it.
    pub asking: Option<(Asking, String)>,
}

/// What the mini-prompt inside the buffer asks for.
#[derive(Clone, Copy, PartialEq, Eq, Debug, Structural)]
pub enum Asking {
    Replacement,
    KeepMatches,
    FlushMatches,
    KeepFiles,
    FlushFiles,
}

/// The files of the matches.
pub open spec fn files(ms: Seq<Match>) -> Seq<Seq<char>> {
    ms.map_values(|m: Match| m.file@)
}

/// How many of the matches are enabled.
pub open spec fn enabled_in(ms: Seq<Match>) -> nat
    decreases ms.len(),
{
    if ms.len() == 0 {
        0
    } else {
        enabled_in(ms.drop_last()) + if ms.last().enabled { 1nat } else { 0nat }
    }
}

/// `h` is `g` with the selection moved `delta` matches, held on the list.
pub open spec fn selection_moved(g: Review, delta: isize, h: Review) -> bool {
    &&& h.matches == g.matches
    &&& h.selected == (if g.matches@.len() == 0 {
            g.selected as int
        } else if delta < 0 {
            if g.selected + delta < 0 { 0 } else { g.selected + delta }
        } else if g.selected + delta < g.matches@.len() - 1 {
            g.selected + delta
        } else {
            g.matches@.len() - 1
        })
}

impl Review {
    /// A replace review over `pattern` → `replacement`, its search owed.
    pub fn replace(root: String, pattern: String, replacement: String, regexp: bool) -> (r: Self)
        ensures
            r.root@ == root@ && r.pattern@ == pattern@ && r.regexp == regexp,
            r.replacement matches Some(s) && s@ == replacement@,
            r.case_sensitive && !r.word && r.stale,
            r.matches@.len() == 0 && r.selected == 0 && r.scroll == 0 && r.status@.len() == 0,
            r.asking is None,
    {
        Review {
            root,
            pattern,
            replacement: Some(replacement),
            regexp,
            case_sensitive: true,
            word: false,
            matches: Vec::new(),
            selected: 0,
            scroll: 0,
            status: String::new(),
            stale: true,
            asking: None,
        }
    }

    /// A read-only search review: the same buffer without the write-back.
    pub fn search(root: String, pattern: String, regexp: bool) -> (r: Self)
        ensures
            r.root@ == root@ && r.pattern@ == pattern@ && r.regexp == regexp,
            r.replacement is None,
            r.case_sensitive && !r.word && r.stale,
            r.matches@.len() == 0 && r.selected == 0 && r.scroll == 0 && r.status@.len() == 0,
            r.asking is None,
    {
        Review {
            root,
            pattern,
            replacement: None,
            regexp,
            case_sensitive: true,
            word: false,
            matches: Vec::new(),
            selected: 0,
            scroll: 0,
            status: String::new(),
            stale: true,
            asking: None,
        }
    }

    /// Take the matches a search found: the selection and scroll go back to
    /// the top and the status line counts them.
    pub fn found(&mut self, matches: Vec<Match>)
        requires
            matches@.len() <= u64::MAX,
        ensures
            final(self).matches@ == matches@,
            final(self).selected == 0 && final(self).scroll == 0 && !final(self).stale,
            final(self).status@ == decimal(matches@.len()) + " match(es)"@,
            final(self).root == old(self).root && final(self).pattern == old(self).pattern,
            final(self).replacement == old(self).replacement,
            final(self).regexp == old(self).regexp && final(self).case_sensitive == old(self).case_sensitive,
            final(self).word == old(self).word,
    {
        let n = matches.len();
        self.matches = matches;
        self.selected = 0;
        self.scroll = 0;
        let mut s = decimal_string(n as u64);
        s.append(" match(es)");
        self.status = s;
        self.stale = false;
    }

    /// Set the case switch; a change owes a new search.
    pub fn set_case_sensitive(&mut self, on: bool)
        ensures
            final(self).case_sensitive == on,
            final(self).stale == (old(self).stale || old(self).case_sensitive != on),
            final(self).matches == old(self).matches && final(self).selected == old(self).selected,
            final(self).regexp == old(self).regexp && final(self).word == old(self).word,
            final(self).status == old(self).status,
            old(self).case_sensitive == on ==> *final(self) == *old(self),
            *final(self) == (Review { case_sensitive: final(self).case_sensitive, stale: final(self).stale, ..*old(self) }),
    {
        if self.case_sensitive != on {
            self.case_sensitive = on;
            self.stale = true;
        }
    }

    /// How many matches applying would rewrite.
    pub fn enabled_count(&self) -> (n: usize)
        ensures
            n == enabled_in(self.matches@),
    {
        let mut n: usize = 0;
        let mut i: usize = 0;
        while i < self.matches.len()
            invariant
                i <= self.matches@.len(),
                n == enabled_in(self.matches@.take(i as int)),
                n <= i,
            decreases self.matches@.len() - i,
        {
            assert(self.matches@.take(i as int + 1).drop_last() =~= self.matches@.take(i as int));
            if self.matches[i].enabled {
                n = n + 1;
            }
            i = i + 1;
        }
        assert(self.matches@.take(self.matches@.len() as int) =~= self.matches@);
        n
    }

    /// Move the selection by `delta` matches, kept on the list.
    pub fn move_selection(&mut self, delta: isize)
        ensures
            selection_moved(*old(self), delta, *final(self)),
    {
        if self.matches.len() == 0 {
            return;
        }
        let last = self.matches.len() - 1;
        if delta < 0 {
            let back: usize = if delta == isize::MIN { (isize::MAX as usize) + 1 } else { (-delta) as usize };
            self.selected = if self.selected >= back { self.selected - back } else { 0 };
        } else {
            let fwd = delta as usize;
            self.selected = if self.selected < last && fwd < last - self.selected { self.selected + fwd } else { last };
        }
    }

    /// Flip whether the selected match will be rewritten.
    pub fn toggle_selected(&mut self)
        ensures
            final(self).matches@ == flip_at(old(self).matches@, old(self).selected as int),
            final(self).selected == old(self).selected,
            final(self).replacement == old(self).replacement,
            final(self).root == old(self).root,
    {
        if self.selected < self.matches.len() {
            let i = self.selected;
            let on = self.matches[i].enabled;
            let mut ms: Vec<Match> = Vec::new();
            std::mem::swap(&mut ms, &mut self.matches);
            let mut m = ms.remove(i);
            m.enabled = !on;
            ms.insert(i, m);
            self.matches = ms;
            assert(self.matches@ =~= flip_at(old(self).matches@, i as int));
        } else {
            assert(self.matches@ =~= flip_at(old(self).matches@, self.selected as int));
        }
    }
}

/// The matches with the one at `i`, if there is one, flipped between
/// enabled and disabled.
pub open spec fn flip_at(ms: Seq<Match>, i: int) -> Seq<Match> {
    if 0 <= i < ms.len() {
        ms.update(i, Match { enabled: !ms[i].enabled, ..ms[i] })
    } else {
        ms
    }
}

/// Toggling the same match twice leaves the matches as they were.
pub proof fn toggling_twice_restores(ms: Seq<Match>, i: int)
    ensures
        flip_at(flip_at(ms, i), i) == ms,
{
    if 0 <= i < ms.len() {
        assert(flip_at(flip_at(ms, i), i) =~= ms);
    }
}

/// The first match from `k` on whose file is not `here`, or the end.
pub open spec fn next_other(fs: Seq<Seq<char>>, here: Seq<char>, k: int) -> int
    decreases fs.len() - k,
{
    if k < 0 || k >= fs.len() {
        fs.len() as int
    } else if fs[k] != here {
        k
    } else {
        next_other(fs, here, k + 1)
    }
}

/// The last match before `k` whose file is not `here`, or -1.
pub open spec fn prev_other(fs: Seq<Seq<char>>, here: Seq<char>, k: int) -> int
    decreases k,
{
    if k <= 0 || k > fs.len() {
        -1
    } else if fs[k - 1] != here {
        k - 1
    } else {
        prev_other(fs, here, k - 1)
    }
}

/// The first match from `k` on in file `f`, or the end.
pub open spec fn first_in(fs: Seq<Seq<char>>, f: Seq<char>, k: int) -> int
    decreases fs.len() - k,
{
    if k < 0 || k >= fs.len() {
        fs.len() as int
    } else if fs[k] == f {
        k
    } else {
        first_in(fs, f, k + 1)
    }
}

/// Where stepping to the next (or previous) file leaves the selection: on
/// the first later match in another file, or back on the first match of the
/// nearest earlier other file; where there is none it stays.
pub open spec fn file_step(fs: Seq<Seq<char>>, selected: int, forward: bool) -> int {
    if selected < 0 || selected >= fs.len() {
        selected
    } else if forward {
        let n = next_other(fs, fs[selected], selected + 1);
        if n < fs.len() { n } else { selected }
    } else {
        let p = prev_other(fs, fs[selected], selected);
        if p >= 0 { first_in(fs, fs[p], 0) } else { selected }
    }
}

/// Where a run of matches from `k` on starts again: `first_in` finds a file
/// no later than a known match of it.
pub proof fn first_in_bound(fs: Seq<Seq<char>>, f: Seq<char>, k: int, at: int)
    requires
        0 <= k <= at < fs.len(),
        fs[at] == f,
    ensures
        k <= first_in(fs, f, k) <= at,
        fs[first_in(fs, f, k)] == f,
    decreases at - k,
{
    if fs[k] != f {
        first_in_bound(fs, f, k + 1, at);
    }
}

/// `prev_other` lies before `k`, in another file.
pub proof fn prev_other_bound(fs: Seq<Seq<char>>, here: Seq<char>, k: int)
    requires
        0 <= k <= fs.len(),
    ensures
        -1 <= prev_other(fs, here, k) < k,
        prev_other(fs, here, k) >= 0 ==> fs[prev_other(fs, here, k)] != here,
    decreases k,
{
    if k > 0 && fs[k - 1] == here {
        prev_other_bound(fs, here, k - 1);
    }
}

/// `h` is `g` with every match in the selected match's file switched on,
/// or off when all of them were on.
pub open spec fn file_toggled(g: Review, h: Review) -> bool {
    &&& h.matches@.len() == g.matches@.len()
    &&& h.selected == g.selected
    &&& g.selected < g.matches@.len() ==> forall|k: int| 0 <= k < g.matches@.len() ==> {
            let (o, n) = (g.matches@[k], #[trigger] h.matches@[k]);
            let f = g.matches@[g.selected as int].file@;
            let all_on = forall|j: int| 0 <= j < g.matches@.len() && g.matches@[j].file@ == f
                ==> g.matches@[j].enabled;
            n.file == o.file && n.line == o.line && n.text == o.text
                && n.enabled == (if o.file@ == f { !all_on } else { o.enabled })
        }
    &&& g.selected >= g.matches@.len() ==> h.matches == g.matches
}

impl Review {
    /// Step to the first match of the next (or previous) file.
    pub fn move_file(&mut self, forward: bool)
        ensures
            final(self).matches == old(self).matches,
            final(self).selected == file_step(files(old(self).matches@), old(self).selected as int, forward),
    {
        let ghost fs = files(self.matches@);
        let n = self.matches.len();
        if self.selected >= n {
            return;
        }
        let sel = self.selected;
        assert(fs[sel as int] == self.matches@[sel as int].file@);
        if forward {
            let mut k = sel + 1;
            while k < n && self.matches[k].file == self.matches[sel].file
                invariant
                    sel < k <= n,
                    n == self.matches@.len(),
                    fs == files(self.matches@),
                    next_other(fs, fs[sel as int], k as int) == next_other(fs, fs[sel as int], sel + 1),
                decreases n - k,
            {
                k = k + 1;
            }
            if k < n {
                self.selected = k;
            }
        } else {
            let mut k = sel;
            while k > 0 && self.matches[k - 1].file == self.matches[sel].file
                invariant
                    k <= sel < n,
                    n == self.matches@.len(),
                    fs == files(self.matches@),
                    prev_other(fs, fs[sel as int], k as int) == prev_other(fs, fs[sel as int], sel as int),
                decreases k,
            {
                k = k - 1;
            }
            if k > 0 {
                let p = k - 1;
                proof {
                    first_in_bound(fs, fs[p as int], 0, p as int);
                }
                let mut j: usize = 0;
                while self.matches[j].file != self.matches[p].file
                    invariant
                        j <= p < n,
                        n == self.matches@.len(),
                        fs == files(self.matches@),
                        first_in(fs, fs[p as int], j as int) == first_in(fs, fs[p as int], 0),
                        j <= first_in(fs, fs[p as int], 0) <= p,
                    decreases p - j,
                {
                    assert(fs[j as int] != fs[p as int]);
                    proof {
                        first_in_bound(fs, fs[p as int], j as int + 1, p as int);
                    }
                    j = j + 1;
                }
                self.selected = j;
            }
        }
    }

    /// Flip every match of the selected one's file: all enabled become all
    /// disabled, anything else all enabled.
    pub fn toggle_file(&mut self)
        ensures
            file_toggled(*old(self), *final(self)),
    {
        let n = self.matches.len();
        if self.selected >= n {
            return;
        }
        let file = self.matches[self.selected].file.clone();
        let mut on = true;
        let mut i: usize = 0;
        while i < n
            invariant
                i <= n,
                n == self.matches@.len(),
                file@ == self.matches@[self.selected as int].file@,
                on == forall|j: int| 0 <= j < i && self.matches@[j].file@ == file@ ==> self.matches@[j].enabled,
            decreases n - i,
        {
            if self.matches[i].file == file && !self.matches[i].enabled {
                on = false;
            }
            i = i + 1;
        }
        let ghost before = self.matches@;
        let mut ms: Vec<Match> = Vec::new();
        std::mem::swap(&mut ms, &mut self.matches);
        let mut out: Vec<Match> = Vec::new();
        let mut k: usize = 0;
        while k < n
            invariant
                k <= n,
                ms@ == before.skip(k as int),
                n == before.len(),
                out@.len() == k,
                forall|j: int| 0 <= j < k ==> {
                    let (o, m) = (before[j], #[trigger] out@[j]);
                    m.file == o.file && m.line == o.line && m.text == o.text
                        && m.enabled == (if o.file@ == file@ { !on } else { o.enabled })
                },
            decreases n - k,
        {
            let mut m = ms.remove(0);
            if m.file == file {
                m.enabled = !on;
            }
            out.push(m);
            k = k + 1;
            assert(ms@ =~= before.skip(k as int));
        }
        self.matches = out;
    }
}

/// A line of text as std's `str::lines` gives it: without its `\n`, and
/// then without a `\r` that stood before that `\n`.
pub open spec fn std_line(l: Seq<char>) -> Seq<char> {
    if l.len() > 0 && l.last() == '\n' {
        let a = l.drop_last();
        if a.len() > 0 && a.last() == '\r' { a.drop_last() } else { a }
    } else {
        l
    }
}

/// Where the first line from `from` on ends, in a text seen from `s` on, is
/// where it ends in the whole text, less `s`.
pub proof fn line_end_skip(t: Seq<char>, s: int, from: int)
    requires
        0 <= s <= from,
        s <= t.len(),
    ensures
        line_end(t.skip(s), from - s) == line_end(t, from) - s,
    decreases t.len() - from,
{
    if from < t.len() {
        assert(t.skip(s)[from - s] == t[from]);
        if t[from] != '\n' {
            line_end_skip(t, s, from + 1);
        }
    }
}

/// `line_end` is the first `\n` from `from` on, plus one, or the end.
pub proof fn line_end_scan(t: Seq<char>, from: int, k: int)
    requires
        0 <= from <= k <= t.len(),
        forall|j: int| from <= j < k ==> t[j] != '\n',
    ensures
        line_end(t, from) == line_end(t, k),
    decreases k - from,
{
    if from < k {
        line_end_scan(t, from + 1, k);
    }
}

/// Split `t` into its line tokens, each with its `\n`.
fn split_tokens(t: &str) -> (r: Vec<String>)
    ensures
        views(r@) == line_tokens(t@),
{
    let n = t.unicode_len();
    let mut out: Vec<String> = Vec::new();
    let mut start: usize = 0;
    assert(t@.skip(0) =~= t@);
    assert(views(out@) =~= Seq::<Seq<char>>::empty());
    while start < n
        invariant
            start <= n,
            n == t@.len(),
            views(out@) + line_tokens(t@.skip(start as int)) == line_tokens(t@),
        decreases n - start,
    {
        let mut e = start;
        while e < n && t.get_char(e) != '\n'
            invariant
                start <= e <= n,
                n == t@.len(),
                forall|j: int| start <= j < e ==> t@[j] != '\n',
            decreases n - e,
        {
            e = e + 1;
        }
        proof {
            line_end_scan(t@, start as int, e as int);
        }
        if e < n {
            e = e + 1;
        }
        let piece = String::from_str(t.substring_char(start, e));
        let ghost rest = t@.skip(start as int);
        proof {
            line_end_skip(t@, start as int, start as int);
            line_end_bounds(rest, 0);
            assert(rest.take(line_end(rest, 0)) =~= t@.subrange(start as int, e as int));
            assert(rest.skip(line_end(rest, 0)) =~= t@.skip(e as int));
        }
        let ghost before = views(out@);
        out.push(piece);
        assert(views(out@) =~= before.push(t@.subrange(start as int, e as int)));
        assert(views(out@) + line_tokens(t@.skip(e as int)) =~= before + line_tokens(rest));
        start = e;
    }
    assert(t@.skip(n as int) =~= Seq::<char>::empty());
    assert(views(out@) =~= line_tokens(t@));
    out
}

/// The value of a run of decimal digits.
pub open spec fn digits_value(d: Seq<char>) -> nat
    decreases d.len(),
{
    if d.len() == 0 {
        0
    } else {
        digits_value(d.drop_last()) * 10 + (d.last() as int - '0' as int) as nat
    }
}

/// Whether every character of `d` is a decimal digit.
pub open spec fn all_digits(d: Seq<char>) -> bool {
    forall|k: int| 0 <= k < d.len() ==> '0' <= #[trigger] d[k] <= '9'
}

/// What std's `usize::from_str` reads from `s`: an optional `+`, then one
/// or more decimal digits whose value fits a `usize`.
pub open spec fn parsed_usize(s: Seq<char>) -> Option<nat> {
    let d = if s.len() > 0 && s[0] == '+' { s.skip(1) } else { s };
    if d.len() > 0 && all_digits(d) && digits_value(d) <= usize::MAX {
        Some(digits_value(d))
    } else {
        None
    }
}

/// A longer run of digits is worth at least as much as its prefix.
pub proof fn digits_value_grows(d: Seq<char>, i: int)
    requires
        0 <= i <= d.len(),
        all_digits(d),
    ensures
        digits_value(d.take(i)) <= digits_value(d),
    decreases d.len() - i,
{
    if i < d.len() {
        digits_value_grows(d, i + 1);
        assert(d.take(i + 1).drop_last() =~= d.take(i));
        assert('0' <= d[i] <= '9');
    } else {
        assert(d.take(i) =~= d);
    }
}

/// Read a `usize` the way std's `str::parse::<usize>` does.
fn parse_usize(s: &str) -> (r: Option<usize>)
    ensures
        match r {
            Some(v) => parsed_usize(s@) == Some(v as nat),
            None => parsed_usize(s@) is None,
        },
{
    let n = s.unicode_len();
    let mut i: usize = 0;
    if n > 0 && s.get_char(0) == '+' {
        i = 1;
    }
    let start = i;
    let ghost d = if s@.len() > 0 && s@[0] == '+' { s@.skip(1) } else { s@ };
    assert(d =~= s@.skip(start as int));
    if i >= n {
        return None;
    }
    let mut v: usize = 0;
    while i < n
        invariant
            start <= i <= n,
            n == s@.len(),
            d == s@.skip(start as int),
            d == (if s@.len() > 0 && s@[0] == '+' { s@.skip(1) } else { s@ }),
            start < n,
            all_digits(d.take(i - start)),
            v == digits_value(d.take(i - start)),
        decreases n - i,
    {
        let c = s.get_char(i);
        assert(d[i - start] == c);
        if c < '0' || c > '9' {
            assert(!all_digits(d));
            return None;
        }
        let dg = (c as u32 - '0' as u32) as usize;
        let wide: u128 = (v as u128) * 10 + (dg as u128);
        assert(d.take(i - start + 1).drop_last() =~= d.take(i - start));
        assert(all_digits(d.take(i - start + 1)));
        if wide > usize::MAX as u128 {
            proof {
                if all_digits(d) {
                    digits_value_grows(d, i - start + 1);
                }
            }
            return None;
        }
        v = wide as usize;
        i = i + 1;
    }
    assert(d.take(n - start) =~= d);
    Some(v)
}

/// The first `c` in `l` from `k` on, or the end of `l`.
pub open spec fn find_from(l: Seq<char>, c: char, k: int) -> int
    decreases l.len() - k,
{
    if k < 0 || k >= l.len() {
        l.len() as int
    } else if l[k] == c {
        k
    } else {
        find_from(l, c, k + 1)
    }
}

/// `file` under `root` as std's `Path::join` puts it: an absolute `file`
/// stands alone, and otherwise a `/` goes between a non-empty `root` not
/// already ending in one and `file`.
pub open spec fn joined_path(root: Seq<char>, file: Seq<char>) -> Seq<char> {
    if file.len() > 0 && file[0] == '/' {
        file
    } else if root.len() == 0 || root.last() == '/' {
        root + file
    } else {
        root + seq!['/'] + file
    }
}

/// One line of the search tool's `file:line:text` output read as a match,
/// when it has two colons and a number between them.
pub open spec fn parsed_line(root: Seq<char>, l: Seq<char>) -> Option<(Seq<char>, nat, Seq<char>)> {
    let c1 = find_from(l, ':', 0);
    if c1 >= l.len() {
        None
    } else {
        let rest = l.skip(c1 + 1);
        let c2 = find_from(rest, ':', 0);
        if c2 >= rest.len() {
            None
        } else {
            match parsed_usize(rest.take(c2)) {
                Some(n) => Some((joined_path(root, l.take(c1)), n, rest.skip(c2 + 1))),
                None => None,
            }
        }
    }
}

/// The matches read from the output's lines, in order, lines that do not
/// read as a match left out.
pub open spec fn parsed_lines(root: Seq<char>, ls: Seq<Seq<char>>) -> Seq<(Seq<char>, nat, Seq<char>)>
    decreases ls.len(),
{
    if ls.len() == 0 {
        Seq::empty()
    } else {
        parsed_lines(root, ls.drop_last()) + match parsed_line(root, std_line(ls.last())) {
            Some(t) => seq![t],
            None => Seq::empty(),
        }
    }
}

/// A match by its file, line and text.
pub open spec fn match_view(m: Match) -> (Seq<char>, nat, Seq<char>) {
    (m.file@, m.line as nat, m.text@)
}

/// Where the first `c` of `s` stands, or the length of `s`.
fn find_char(s: &str, c: char) -> (k: usize)
    ensures
        k == find_from(s@, c, 0),
{
    let n = s.unicode_len();
    let mut k: usize = 0;
    while k < n && s.get_char(k) != c
        invariant
            k <= n,
            n == s@.len(),
            find_from(s@, c, k as int) == find_from(s@, c, 0),
        decreases n - k,
    {
        k = k + 1;
    }
    k
}

/// `file` joined under `root`.
fn join_path(root: &str, file: &str) -> (r: String)
    ensures
        r@ == joined_path(root@, file@),
{
    proof {
        reveal_strlit("/");
    }
    let fl = file.unicode_len();
    if fl > 0 && file.get_char(0) == '/' {
        return String::from_str(file);
    }
    let rl = root.unicode_len();
    let mut s = String::from_str(root);
    if !(rl == 0 || root.get_char(rl - 1) == '/') {
        s.append("/");
    }
    s.append(file);
    s
}

/// A line of output without its line ending, as `str::lines` gives it.
fn std_line_of(l: &str) -> (r: String)
    ensures
        r@ == std_line(l@),
{
    let n = l.unicode_len();
    if n > 0 && l.get_char(n - 1) == '\n' {
        if n > 1 && l.get_char(n - 2) == '\r' {
            let t = l.substring_char(0, n - 2);
            assert(t@ =~= std_line(l@));
            String::from_str(t)
        } else {
            let t = l.substring_char(0, n - 1);
            assert(t@ =~= std_line(l@));
            String::from_str(t)
        }
    } else {
        String::from_str(l)
    }
}

/// Read one `file:line:text` line as a match.
fn parse_line(root: &str, l: &str) -> (r: Option<Match>)
    ensures
        match r {
            Some(m) => parsed_line(root@, l@) == Some(match_view(m)) && m.enabled,
            None => parsed_line(root@, l@) is None,
        },
{
    let n = l.unicode_len();
    let c1 = find_char(l, ':');
    if c1 >= n {
        return None;
    }
    let rest = l.substring_char(c1 + 1, n);
    assert(rest@ =~= l@.skip(c1 + 1));
    let rn = rest.unicode_len();
    let c2 = find_char(rest, ':');
    if c2 >= rn {
        return None;
    }
    let number = rest.substring_char(0, c2);
    assert(number@ =~= rest@.take(c2 as int));
    match parse_usize(number) {
        Some(line) => {
            let file = l.substring_char(0, c1);
            assert(file@ =~= l@.take(c1 as int));
            let text = rest.substring_char(c2 + 1, rn);
            assert(text@ =~= rest@.skip(c2 + 1));
            Some(Match { file: join_path(root, file), line, text: String::from_str(text), enabled: true })
        },
        None => None,
    }
}

/// The matches in the search tool's `file:line:text` output, each under
/// `root` and enabled, in order; lines that do not read as a match are left
/// out.
pub fn parse_rg_output(root: &str, out: &str) -> (ms: Vec<Match>)
    ensures
        ms@.map_values(|m: Match| match_view(m)) == parsed_lines(root@, line_tokens(out@)),
        forall|k: int| 0 <= k < ms@.len() ==> (#[trigger] ms@[k]).enabled,
{
    let tokens = split_tokens(out);
    let ghost ls = line_tokens(out@);
    let mut ms: Vec<Match> = Vec::new();
    let mut i: usize = 0;
    assert(ms@.map_values(|m: Match| match_view(m)) =~= parsed_lines(root@, ls.take(0)));
    while i < tokens.len()
        invariant
            i <= tokens@.len(),
            views(tokens@) == ls,
            ms@.map_values(|m: Match| match_view(m)) == parsed_lines(root@, ls.take(i as int)),
            forall|k: int| 0 <= k < ms@.len() ==> (#[trigger] ms@[k]).enabled,
        decreases tokens@.len() - i,
    {
        let line = std_line_of(tokens[i].as_str());
        assert(ls[i as int] == tokens@[i as int]@);
        assert(ls.take(i as int + 1).drop_last() =~= ls.take(i as int));
        let ghost before = ms@;
        match parse_line(root, line.as_str()) {
            Some(m) => {
                ms.push(m);
                assert(ms@.map_values(|m: Match| match_view(m)) =~= before.map_values(|m: Match| match_view(m)).push(match_view(ms@[before.len() as int])));
            },
            None => {},
        }
        i = i + 1;
    }
    assert(ls.take(tokens@.len() as int) =~= ls);
    ms
}

/// What the caller is to do after a key.
#[derive(Clone, PartialEq, Eq, Debug)]
pub enum Action {
    /// Nothing beyond redrawing.
    Nothing,
    /// Close the buffer.
    Quit,
    /// Run the search again and hand the matches to `found`.
    Search,
    /// Open `file` at `line`, closing the buffer.
    Visit(String, usize),
    /// Write every enabled match back and report.
    Apply,
    /// Show this text: the enabled matches, closing the buffer.
    Export(String),
}

/// `h` is `g` once the mini-prompt asking `what` is answered with
/// `answer`: a replacement is set, or the matches whose text (or file) the
/// regexp finds are kept or flushed; an invalid regexp is reported and
/// changes nothing.
pub open spec fn asking_finished(what: Asking, answer: Seq<char>, g: Review, h: Review) -> bool {
    &&& h.asking is None
    &&& if what == Asking::Replacement {
        h.matches == g.matches && (h.replacement matches Some(r) && r@ == answer) && h.status@ == "Replacement set"@
    } else if regex_builds(answer, false) {
        h.matches@ == kept(
            g.matches@,
            filter_hits(g.matches@, g.root@, answer, what == Asking::KeepFiles || what == Asking::FlushFiles),
            what == Asking::KeepMatches || what == Asking::KeepFiles,
        )
    } else {
        h.matches == g.matches && h.status@ == "Invalid regexp: "@ + answer
    }
}

impl Review {
    /// Answer the open mini-prompt with `answer`: set the replacement, or
    /// keep (or flush) the matches whose text, or whose file shown under the
    /// root, the regexp `answer` finds; an invalid regexp is reported and
    /// changes nothing.
    pub fn finish_asking(&mut self, answer: String)
        ensures
            final(self).asking is None,
            match old(self).asking {
                None => final(self).matches == old(self).matches,
                Some((Asking::Replacement, _)) => final(self).matches == old(self).matches
                    && (final(self).replacement matches Some(r) && r@ == answer@)
                    && final(self).status@ == "Replacement set"@,
                Some((what, _)) => if regex_builds(answer@, false) {
                    final(self).matches@ == kept(
                        old(self).matches@,
                        filter_hits(old(self).matches@, old(self).root@, answer@,
                            what == Asking::KeepFiles || what == Asking::FlushFiles),
                        what == Asking::KeepMatches || what == Asking::KeepFiles,
                    )
                } else {
                    final(self).matches == old(self).matches
                        && final(self).status@ == "Invalid regexp: "@ + answer@
                },
            },
            old(self).asking matches Some((w, _)) ==> asking_finished(w, answer@, *old(self), *final(self)),
    {
        let mut asked: Option<(Asking, String)> = None;
        std::mem::swap(&mut asked, &mut self.asking);
        match asked {
            None => {},
            Some((what, _)) => {
                if what == Asking::Replacement {
                    self.replacement = Some(answer);
                    self.status = String::from_str("Replacement set");
                } else {
                    let keep = what == Asking::KeepMatches || what == Asking::KeepFiles;
                    let files = what == Asking::KeepFiles || what == Asking::FlushFiles;
                    match build_regex(answer.as_str(), false) {
                        None => {
                            let mut s = String::from_str("Invalid regexp: ");
                            s.append(answer.as_str());
                            self.status = s;
                        },
                        Some(re) => {
                            let hits = self.hits(&re, files);
                            self.filter(&hits, keep);
                        },
                    }
                }
            },
        }
    }

    /// Test each match against `re`: its text, or with `files` its file as
    /// shown under the root.
    fn hits(&self, re: &Compiled, files: bool) -> (h: Vec<bool>)
        requires
            !re.ci,
        ensures
            h@ == filter_hits(self.matches@, self.root@, re.source@, files),
    {
        let mut h: Vec<bool> = Vec::new();
        let mut k: usize = 0;
        while k < self.matches.len()
            invariant
                k <= self.matches@.len(),
                !re.ci,
                h@ == filter_hits(self.matches@, self.root@, re.source@, files).take(k as int),
            decreases self.matches@.len() - k,
        {
            let hit = if files {
                let shown = shown_path(self.matches[k].file.as_str(), self.root.as_str());
                is_match(re, shown.as_str())
            } else {
                is_match(re, self.matches[k].text.as_str())
            };
            h.push(hit);
            k = k + 1;
            assert(h@ =~= filter_hits(self.matches@, self.root@, re.source@, files).take(k as int));
        }
        assert(filter_hits(self.matches@, self.root@, re.source@, files).take(k as int)
            =~= filter_hits(self.matches@, self.root@, re.source@, files));
        h
    }

    /// Keep (or drop) the matches whose test came out true: `hits[k]` says
    /// whether match `k` matched the filter. The selection stays on the list
    /// and the status line counts what was removed.
    pub fn filter(&mut self, hits: &Vec<bool>, keep: bool)
        requires
            hits@.len() == old(self).matches@.len(),
        ensures
            final(self).matches@ == kept(old(self).matches@, hits@, keep),
            final(self).matches@.len() == kept_count(hits@, keep),
            final(self).selected == (if old(self).selected < final(self).matches@.len() {
                old(self).selected as int
            } else if final(self).matches@.len() > 0 {
                final(self).matches@.len() - 1
            } else {
                0
            }),
            final(self).status@ == decimal((old(self).matches@.len() - final(self).matches@.len()) as nat) + " match(es) removed"@,
            final(self).asking == old(self).asking && final(self).root == old(self).root,
            final(self).replacement == old(self).replacement,
    {
        let n = self.matches.len();
        let ghost before = self.matches@;
        let mut ms: Vec<Match> = Vec::new();
        std::mem::swap(&mut ms, &mut self.matches);
        let mut out: Vec<Match> = Vec::new();
        let mut k: usize = 0;
        assert(hits@.take(0) =~= Seq::<bool>::empty());
        while k < n
            invariant
                k <= n,
                n == before.len(),
                hits@.len() == n,
                ms@ == before.skip(k as int),
                out@.len() == kept_count(hits@.take(k as int), keep),
                out@.len() <= k,
                out@ == kept(before.take(k as int), hits@.take(k as int), keep),
            decreases n - k,
        {
            let m = ms.remove(0);
            assert(hits@.take(k as int + 1).drop_last() =~= hits@.take(k as int));
            assert(before.take(k as int + 1).drop_last() =~= before.take(k as int));
            assert(m == before[k as int]);
            if hits[k] == keep {
                out.push(m);
            }
            k = k + 1;
            assert(ms@ =~= before.skip(k as int));
        }
        assert(hits@.take(n as int) =~= hits@);
        assert(before.take(n as int) =~= before);
        let left = out.len();
        self.matches = out;
        if self.selected >= left {
            self.selected = if left > 0 { left - 1 } else { 0 };
        }
        let mut s = decimal_string((n - left) as u64);
        s.append(" match(es) removed");
        self.status = s;
    }
}

/// The matches whose test came out as `keep`, in order.
pub open spec fn kept(ms: Seq<Match>, hits: Seq<bool>, keep: bool) -> Seq<Match>
    decreases ms.len(),
{
    if ms.len() == 0 || hits.len() == 0 {
        Seq::empty()
    } else {
        kept(ms.drop_last(), hits.drop_last(), keep) + if hits.last() == keep { seq![ms.last()] } else { Seq::empty() }
    }
}

/// How many of the tests came out as `keep`.
pub open spec fn kept_count(hits: Seq<bool>, keep: bool) -> nat
    decreases hits.len(),
{
    if hits.len() == 0 {
        0
    } else {
        kept_count(hits.drop_last(), keep) + if hits.last() == keep { 1nat } else { 0nat }
    }
}

/// `h` and `act` are what a key does to the open mini-prompt of `g`.
pub open spec fn prompt_answered(g: Review, key: Key, act: Action, h: Review) -> bool {
    &&& key != Key::Enter ==> h.matches == g.matches
    &&& key == Key::Esc ==> h.asking is None && act == Action::Nothing
    &&& key matches Key::Char(c) ==> act == Action::Nothing && (g.asking matches Some((w0, t0))
            && h.asking matches Some((w, t)) && w == w0 && t@ =~= t0@.push(c))
}

impl Review {
    /// Read one key with the mini-prompt open: Esc closes it, Enter answers
    /// it, Backspace drops the last character typed, and a character is
    /// typed.
    fn prompt_key(&mut self, key: Key) -> (act: Action)
        requires
            old(self).asking is Some,
        ensures
            prompt_answered(*old(self), key, act, *final(self)),
            key == Key::Enter ==> act == Action::Nothing
                && (old(self).asking matches Some((w, t)) ==> asking_finished(w, t@, *old(self), *final(self))),
            key == Key::Backspace ==> act == Action::Nothing && (old(self).asking matches Some((w0, t0))
                ==> (final(self).asking matches Some((w, t)) && w == w0
                    && t@ == (if t0@.len() > 0 { t0@.drop_last() } else { t0@ }))),
    {
        let mut asked: Option<(Asking, String)> = None;
        std::mem::swap(&mut asked, &mut self.asking);
        let (what, mut typed) = match asked {
            Some(pair) => pair,
            None => {
                return Action::Nothing;
            },
        };
        match key {
            Key::Esc => Action::Nothing,
            Key::Enter => {
                self.asking = Some((what, String::new()));
                self.finish_asking(typed);
                Action::Nothing
            },
            Key::Backspace => {
                let n = typed.as_str().unicode_len();
                if n > 0 {
                    typed = String::from_str(typed.as_str().substring_char(0, n - 1));
                }
                self.asking = Some((what, typed));
                Action::Nothing
            },
            Key::Char(c) => {
                typed.append(crate::text::char_text(c).as_str());
                self.asking = Some((what, typed));
                Action::Nothing
            },
            _ => {
                self.asking = Some((what, typed));
                Action::Nothing
            },
        }
    }

    /// Open the mini-prompt for `what`, with nothing typed yet.
    fn ask(&mut self, what: Asking)
        ensures
            final(self).asking matches Some((w, t)) && w == what && t@.len() == 0,
            final(self).matches == old(self).matches && final(self).selected == old(self).selected,
            final(self).stale == old(self).stale,
    {
        self.asking = Some((what, String::new()));
    }

    /// Read one key: move by match or by file, toggle matches or their file,
    /// flip the case, regexp and word switches (each owing a new search),
    /// open the replacement and filter prompts, visit, export or apply.
    pub fn handle_key(&mut self, key: Key) -> (act: Action)
        ensures
            old(self).asking is None ==> {
                &&& (key == Key::Char('q') || key == Key::Esc) ==> act == Action::Quit && final(self).matches == old(self).matches
                &&& key == Key::Alt('n') ==> final(self).selected == file_step(files(old(self).matches@), old(self).selected as int, true)
                &&& key == Key::Alt('p') ==> final(self).selected == file_step(files(old(self).matches@), old(self).selected as int, false)
                &&& key == Key::Char('c') ==> final(self).case_sensitive == !old(self).case_sensitive && final(self).stale && act == Action::Search
                &&& key == Key::Char('x') ==> final(self).regexp == !old(self).regexp && final(self).stale && act == Action::Search
                &&& key == Key::Char('w') ==> final(self).word == !old(self).word && final(self).stale && act == Action::Search
                &&& key == Key::Char('g') ==> final(self).stale && act == Action::Search
                &&& key == Key::Char('e') ==> {
                    let body = export_upto(old(self).matches@, old(self).root@, old(self).matches@.len() as int);
                    if body.len() == 0 {
                        act == Action::Nothing && final(self).status@ == "Nothing to export"@
                    } else {
                        act matches Action::Export(t) && t@ == body
                    }
                }
                &&& key == Key::Char('!') ==> (act == Action::Apply <==> (old(self).replacement is Some && enabled_in(old(self).matches@) > 0))
                &&& key == Key::Enter ==> (match act {
                    Action::Visit(f, l) => old(self).selected < old(self).matches@.len()
                        && f@ == old(self).matches@[old(self).selected as int].file@
                        && l == old(self).matches@[old(self).selected as int].line,
                    _ => act == Action::Nothing && old(self).selected >= old(self).matches@.len(),
                })
                &&& (key == Key::Char('n') || key == Key::Down) ==> selection_moved(*old(self), 1, *final(self))
                    && act == Action::Nothing
                &&& (key == Key::Char('p') || key == Key::Up) ==> selection_moved(*old(self), -1isize, *final(self))
                    && act == Action::Nothing
                &&& (key == Key::Char('t') || key == Key::Char(' ')) ==> final(self).matches@ == flip_at(
                    old(self).matches@,
                    old(self).selected as int,
                ) && final(self).selected == old(self).selected && act == Action::Nothing
                &&& key == Key::Char('f') ==> file_toggled(*old(self), *final(self)) && act == Action::Nothing
                &&& key == Key::Char('r') ==> act == Action::Nothing && if old(self).replacement is Some {
                    final(self).asking matches Some((w, t)) && w == Asking::Replacement && t@.len() == 0
                } else {
                    final(self).asking is None
                }
                &&& key == Key::Char('k') ==> act == Action::Nothing
                    && (final(self).asking matches Some((w, t)) && w == Asking::KeepMatches && t@.len() == 0)
                &&& key == Key::Char('d') ==> act == Action::Nothing
                    && (final(self).asking matches Some((w, t)) && w == Asking::FlushMatches && t@.len() == 0)
                &&& key == Key::Char('K') ==> act == Action::Nothing
                    && (final(self).asking matches Some((w, t)) && w == Asking::KeepFiles && t@.len() == 0)
                &&& key == Key::Char('D') ==> act == Action::Nothing
                    && (final(self).asking matches Some((w, t)) && w == Asking::FlushFiles && t@.len() == 0)
            },
            old(self).asking is Some ==> prompt_answered(*old(self), key, act, *final(self)),
            key == Key::Enter ==> (old(self).asking matches Some((w, t)) ==> act == Action::Nothing
                && asking_finished(w, t@, *old(self), *final(self))),
    {
        if self.asking.is_some() {
            return self.prompt_key(key);
        }
        match key {
            Key::Char('q') | Key::Esc => Action::Quit,
            Key::Alt('n') => {
                self.move_file(true);
                Action::Nothing
            },
            Key::Alt('p') => {
                self.move_file(false);
                Action::Nothing
            },
            Key::Char('n') | Key::Down => {
                self.move_selection(1);
                Action::Nothing
            },
            Key::Char('p') | Key::Up => {
                self.move_selection(-1);
                Action::Nothing
            },
            Key::Char('t') | Key::Char(' ') => {
                self.toggle_selected();
                Action::Nothing
            },
            Key::Char('f') => {
                self.toggle_file();
                Action::Nothing
            },
            Key::Char('r') => {
                if self.replacement.is_some() {
                    self.ask(Asking::Replacement);
                }
                Action::Nothing
            },
            Key::Char('c') => {
                self.case_sensitive = !self.case_sensitive;
                self.stale = true;
                Action::Search
            },
            Key::Char('x') => {
                self.regexp = !self.regexp;
                self.stale = true;
                Action::Search
            },
            Key::Char('w') => {
                self.word = !self.word;
                self.stale = true;
                Action::Search
            },
            Key::Char('k') => {
                self.ask(Asking::KeepMatches);
                Action::Nothing
            },
            Key::Char('d') => {
                self.ask(Asking::FlushMatches);
                Action::Nothing
            },
            Key::Char('K') => {
                self.ask(Asking::KeepFiles);
                Action::Nothing
            },
            Key::Char('D') => {
                self.ask(Asking::FlushFiles);
                Action::Nothing
            },
            Key::Char('g') => {
                self.stale = true;
                Action::Search
            },
            Key::Char('e') => {
                let body = self.export_text();
                if body.as_str().unicode_len() == 0 {
                    self.status = String::from_str("Nothing to export");
                    Action::Nothing
                } else {
                    Action::Export(body)
                }
            },
            Key::Enter => {
                if self.selected < self.matches.len() {
                    let m = &self.matches[self.selected];
                    Action::Visit(m.file.clone(), m.line)
                } else {
                    Action::Nothing
                }
            },
            Key::Char('!') => {
                if self.replacement.is_none() {
                    self.status = String::from_str("This is a read-only search review");
                    Action::Nothing
                } else if self.enabled_count() == 0 {
                    self.status = String::from_str("No matches are enabled");
                    Action::Nothing
                } else {
                    Action::Apply
                }
            },
            _ => Action::Nothing,
        }
    }
}

#[verifier::external_type_specification]
#[verifier::external_body]
pub struct ExRegex(regex::Regex);

/// A regexp built from `source`, case-insensitively when `ci`.
pub struct Compiled {
    source: String,
    ci: bool,
    re: regex::Regex,
}

/// Whether regex's `RegexBuilder` builds `pattern` (case-insensitively when
/// `ci`): its syntax is valid and it stays within the size limits.
pub uninterp spec fn regex_builds(pattern: Seq<char>, ci: bool) -> bool;

/// Whether the regexp built from `pattern` finds a match anywhere in `hay`.
pub uninterp spec fn regex_is_match(pattern: Seq<char>, ci: bool, hay: Seq<char>) -> bool;

/// How many non-overlapping matches the regexp built from `pattern` finds in
/// `hay`.
pub uninterp spec fn regex_count(pattern: Seq<char>, ci: bool, hay: Seq<char>) -> nat;

/// `hay` with every non-overlapping match of the regexp built from `pattern`
/// replaced by `rep`, its `$` references expanded.
pub uninterp spec fn regex_replaced(pattern: Seq<char>, ci: bool, hay: Seq<char>, rep: Seq<char>) -> Seq<char>;

/// What std's `Path::strip_prefix` leaves of `file` under `root`, shown as
/// text (`file` itself when `root` is not a prefix of its components).
pub uninterp spec fn path_shown(file: Seq<char>, root: Seq<char>) -> Seq<char>;

/// Build `source` with regex's `RegexBuilder` (case-insensitively when
/// `ci`): `Some` exactly when it builds, carrying its source and flag.
#[verifier::external_body]
fn build_regex(source: &str, ci: bool) -> (r: Option<Compiled>)
    ensures
        r is Some == regex_builds(source@, ci),
        r matches Some(c) ==> c.source@ == source@ && c.ci == ci,
{
    match regex::RegexBuilder::new(source).case_insensitive(ci).build() {
        Ok(re) => Some(Compiled { source: source.to_string(), ci, re }),
        Err(_) => None,
    }
}

/// regex's `Regex::is_match` on `hay`.
#[verifier::external_body]
fn is_match(c: &Compiled, hay: &str) -> (r: bool)
    ensures
        r == regex_is_match(c.source@, c.ci, hay@),
{
    c.re.is_match(hay)
}

/// The number of matches regex's `Regex::find_iter` yields on `hay`: at
/// least one exactly when `Regex::is_match` finds one, the iterator starting
/// with the match that `find` reports.
#[verifier::external_body]
fn count_matches(c: &Compiled, hay: &str) -> (n: usize)
    ensures
        n == regex_count(c.source@, c.ci, hay@),
        (n > 0) == regex_is_match(c.source@, c.ci, hay@),
{
    c.re.find_iter(hay).count()
}

/// regex's `Regex::replace_all` of every match in `hay` by `rep`; with no
/// match, the haystack comes back unchanged, as its documentation says.
#[verifier::external_body]
fn replace_all(c: &Compiled, hay: &str, rep: &str) -> (r: String)
    ensures
        r@ == regex_replaced(c.source@, c.ci, hay@, rep@),
        !regex_is_match(c.source@, c.ci, hay@) ==> r@ == hay@,
{
    c.re.replace_all(hay, rep).into_owned()
}

/// The characters regex's `escape` puts a backslash before.
pub open spec fn is_meta(c: char) -> bool {
    c == '\\' || c == '.' || c == '+' || c == '*' || c == '?' || c == '(' || c == ')' || c == '|' || c == '['
        || c == ']' || c == '{' || c == '}' || c == '^' || c == '$' || c == '#' || c == '&' || c == '-'
        || c == '~'
}

/// `s` with a backslash before each meta character: a literal regexp for
/// `s`.
pub open spec fn escaped(s: Seq<char>) -> Seq<char>
    decreases s.len(),
{
    if s.len() == 0 {
        Seq::empty()
    } else {
        escaped(s.drop_last()) + if is_meta(s.last()) { seq!['\\', s.last()] } else { seq![s.last()] }
    }
}

/// regex's `escape`: every meta character of `s` gets a backslash before
/// it, each character in turn.
#[verifier::external_body]
fn regex_escape(s: &str) -> (r: String)
    ensures
        r@ == escaped(s@),
{
    regex::escape(s)
}

/// `file` shown under `root`, by std's `Path::strip_prefix`.
#[verifier::external_body]
fn shown_path(file: &str, root: &str) -> (r: String)
    ensures
        r@ == path_shown(file@, root@),
{
    let path = std::path::Path::new(file);
    path.strip_prefix(root).unwrap_or(path).to_string_lossy().into_owned()
}

/// Per match, whether the regexp from `pattern` finds its text, or with
/// `files` its file shown under `root`.
pub open spec fn filter_hits(ms: Seq<Match>, root: Seq<char>, pattern: Seq<char>, files: bool) -> Seq<bool> {
    Seq::new(ms.len(), |k: int| if files {
        regex_is_match(pattern, false, path_shown(ms[k].file@, root))
    } else {
        regex_is_match(pattern, false, ms[k].text@)
    })
}

/// The regexp a review searches with: the pattern as written, or escaped to
/// a literal, and with the word switch held between word boundaries.
pub open spec fn regex_source_of(pattern: Seq<char>, regexp: bool, word: bool) -> Seq<char> {
    let body = if regexp { pattern } else { escaped(pattern) };
    if word { "\\b(?:"@ + body + ")\\b"@ } else { body }
}

/// The file rewritten: each of its lines (as `str::lines` gives them) whose
/// 1-based number is listed has every match replaced, every line ends in a
/// newline, and the last newline goes when the file did not end in one.
pub open spec fn rewritten(src: Seq<char>, ci: bool, content: Seq<char>, lines: Seq<usize>, rep: Seq<char>) -> Seq<char> {
    let ls = line_tokens(content);
    let out = joined_lines(src, ci, ls, lines, rep, ls.len() as int);
    if content.len() > 0 && content.last() == '\n' { out } else if out.len() > 0 { out.drop_last() } else { out }
}

/// The first `n` lines rewritten, each followed by a newline.
pub open spec fn joined_lines(src: Seq<char>, ci: bool, ls: Seq<Seq<char>>, lines: Seq<usize>, rep: Seq<char>, n: int) -> Seq<char>
    decreases n,
{
    if n <= 0 {
        Seq::empty()
    } else {
        let l = std_line(ls[n - 1]);
        joined_lines(src, ci, ls, lines, rep, n - 1) + (if lines.contains(n as usize) {
            regex_replaced(src, ci, l, rep)
        } else {
            l
        }) + seq!['\n']
    }
}

/// How many matches the listed lines hold, of the first `n`.
pub open spec fn replaced_count(src: Seq<char>, ci: bool, ls: Seq<Seq<char>>, lines: Seq<usize>, n: int) -> int
    decreases n,
{
    if n <= 0 {
        0
    } else {
        replaced_count(src, ci, ls, lines, n - 1) + if lines.contains(n as usize) {
            regex_count(src, ci, std_line(ls[n - 1])) as int
        } else {
            0
        }
    }
}

/// Whether `v` holds `x`.
fn holds(v: &Vec<usize>, x: usize) -> (r: bool)
    ensures
        r == v@.contains(x),
{
    let mut i: usize = 0;
    while i < v.len()
        invariant
            i <= v@.len(),
            forall|j: int| 0 <= j < i ==> v@[j] != x,
        decreases v@.len() - i,
    {
        if v[i] == x {
            assert(v@[i as int] == x);
            return true;
        }
        i = i + 1;
    }
    false
}

impl Review {
    /// The regexp this review searches with.
    pub fn regex_source(&self) -> (r: String)
        ensures
            r@ == regex_source_of(self.pattern@, self.regexp, self.word),
    {
        proof {
            reveal_strlit("\\b(?:");
            reveal_strlit(")\\b");
        }
        let body = if self.regexp { self.pattern.clone() } else { regex_escape(self.pattern.as_str()) };
        if self.word {
            let mut s = String::from_str("\\b(?:");
            s.append(body.as_str());
            s.append(")\\b");
            s
        } else {
            body
        }
    }

    /// Rewrite one file's `content`: in each listed line (1-based) every
    /// match of the review's regexp is replaced by the replacement. `None`
    /// for a read-only review or a regexp that does not build; otherwise the
    /// new text and how many matches were replaced.
    pub fn rewrite_file(&self, content: &str, lines: &Vec<usize>) -> (r: Option<(String, usize)>)
        ensures
            match r {
                None => self.replacement is None
                    || !regex_builds(regex_source_of(self.pattern@, self.regexp, self.word), !self.case_sensitive),
                Some((text, n)) => self.replacement matches Some(rep) && ({
                    let src = regex_source_of(self.pattern@, self.regexp, self.word);
                    let ci = !self.case_sensitive;
                    let count = replaced_count(src, ci, line_tokens(content@), lines@, line_tokens(content@).len() as int);
                    &&& regex_builds(src, ci)
                    &&& text@ == rewritten(src, ci, content@, lines@, rep@)
                    &&& n == (if count > usize::MAX { usize::MAX as int } else { count })
                }),
            },
    {
        let rep = match &self.replacement {
            Some(r) => r,
            None => {
                return None;
            },
        };
        let source = self.regex_source();
        let ci = !self.case_sensitive;
        let re = match build_regex(source.as_str(), ci) {
            Some(re) => re,
            None => {
                return None;
            },
        };
        proof {
            reveal_strlit("\n");
        }
        let tokens = split_tokens(content);
        let ghost ls = line_tokens(content@);
        let ghost src = source@;
        let mut out = String::new();
        let mut total: u64 = 0;
        let mut i: usize = 0;
        while i < tokens.len()
            invariant
                i <= tokens@.len(),
                views(tokens@) == ls,
                re.source@ == src && re.ci == ci,
                out@ == joined_lines(src, ci, ls, lines@, rep@, i as int),
                total == (if replaced_count(src, ci, ls, lines@, i as int) > u64::MAX {
                    u64::MAX as int
                } else {
                    replaced_count(src, ci, ls, lines@, i as int)
                }),
            decreases tokens@.len() - i,
        {
            proof {
                reveal_strlit("\n");
            }
            let line = std_line_of(tokens[i].as_str());
            assert(ls[i as int] == tokens@[i as int]@);
            if holds(lines, i + 1) {
                let n = count_matches(&re, line.as_str());
                total = if total <= u64::MAX - (n as u64) { total + n as u64 } else { u64::MAX };
                let new = replace_all(&re, line.as_str(), rep.as_str());
                out.append(new.as_str());
            } else {
                out.append(line.as_str());
            }
            out.append("\n");
            i = i + 1;
        }
        let n = content.unicode_len();
        let ends = n > 0 && content.get_char(n - 1) == '\n';
        if !ends {
            let m = out.as_str().unicode_len();
            if m > 0 {
                out = String::from_str(out.as_str().substring_char(0, m - 1));
                assert(out@ =~= joined_lines(src, ci, ls, lines@, rep@, ls.len() as int).drop_last());
            }
        }
        let count: usize = if total <= usize::MAX as u64 { total as usize } else { usize::MAX };
        assert(ls.len() == tokens@.len());
        Some((out, count))
    }
}

/// The mark a match row shows: `x` on an enabled match of a replace review.
pub open spec fn mark_of(replace: bool, enabled: bool) -> char {
    if replace && enabled { 'x' } else { ' ' }
}

/// The row a match shows: `  [`, its mark, `] `, its line number
/// right-aligned in five columns, `: ` and its text without trailing white
/// space.
pub open spec fn match_row(m: Match, replace: bool) -> Seq<char> {
    seq![' ', ' ', '[', mark_of(replace, m.enabled), ']', ' '] + pad_left(decimal(m.line as nat), 5) + seq![':', ' ']
        + trim_end(m.text@)
}

/// The rows the buffer shows for the first `n` matches: before a match whose
/// file differs from the previous match's, a header row with the file shown
/// under `root`; then the match's own row, carrying its index.
pub open spec fn rows_upto(ms: Seq<Match>, root: Seq<char>, replace: bool, n: int) -> Seq<(Seq<char>, Option<usize>)>
    decreases n,
{
    if n <= 0 {
        Seq::empty()
    } else {
        let i = n - 1;
        let m = ms[i];
        let head = if i == 0 || ms[i - 1].file@ != m.file@ {
            seq![(path_shown(m.file@, root), None::<usize>)]
        } else {
            Seq::empty()
        };
        rows_upto(ms, root, replace, i) + head + seq![(match_row(m, replace), Some(i as usize))]
    }
}

/// Rows as text and the match each stands for.
pub open spec fn row_views(rows: Seq<(String, Option<usize>)>) -> Seq<(Seq<char>, Option<usize>)> {
    rows.map_values(|r: (String, Option<usize>)| (r.0@, r.1))
}

/// An enabled match as exported: its file shown under `root`, `:`, its line
/// number, `: `, its text without trailing white space, and a newline.
pub open spec fn export_line(m: Match, root: Seq<char>) -> Seq<char> {
    path_shown(m.file@, root) + seq![':'] + decimal(m.line as nat) + seq![':', ' '] + trim_end(m.text@) + seq!['\n']
}

/// The export of the first `n` matches: the enabled ones' lines in order.
pub open spec fn export_upto(ms: Seq<Match>, root: Seq<char>, n: int) -> Seq<char>
    decreases n,
{
    if n <= 0 {
        Seq::empty()
    } else {
        export_upto(ms, root, n - 1) + if ms[n - 1].enabled { export_line(ms[n - 1], root) } else { Seq::empty() }
    }
}

/// The row text of one match.
fn match_row_text(m: &Match, replace: bool) -> (r: String)
    ensures
        r@ == match_row(*m, replace),
{
    proof {
        reveal_strlit("  [x] ");
        reveal_strlit("  [ ] ");
        reveal_strlit(": ");
    }
    let mut s = if replace && m.enabled { String::from_str("  [x] ") } else { String::from_str("  [ ] ") };
    let num = decimal_string(m.line as u64);
    push_padded(&mut s, num.as_str(), 5);
    s.append(": ");
    let t = trim_end_text(m.text.as_str());
    s.append(t.as_str());
    assert(s@ =~= match_row(*m, replace));
    s
}

/// The exported line of one match.
fn export_line_text(m: &Match, root: &str) -> (r: String)
    ensures
        r@ == export_line(*m, root@),
{
    proof {
        reveal_strlit(":");
        reveal_strlit(": ");
        reveal_strlit("\n");
    }
    let mut s = shown_path(m.file.as_str(), root);
    s.append(":");
    let num = decimal_string(m.line as u64);
    s.append(num.as_str());
    s.append(": ");
    let t = trim_end_text(m.text.as_str());
    s.append(t.as_str());
    s.append("\n");
    assert(s@ =~= export_line(*m, root@));
    s
}

impl Review {
    /// The rows the buffer shows: a header row per run of matches in one
    /// file, then a row per match.
    pub fn rows(&self) -> (rows: Vec<(String, Option<usize>)>)
        ensures
            row_views(rows@) == rows_upto(self.matches@, self.root@, self.replacement is Some, self.matches@.len() as int),
    {
        let replace = self.replacement.is_some();
        let mut rows: Vec<(String, Option<usize>)> = Vec::new();
        let mut i: usize = 0;
        assert(row_views(rows@) =~= rows_upto(self.matches@, self.root@, replace, 0));
        while i < self.matches.len()
            invariant
                i <= self.matches@.len(),
                replace == self.replacement is Some,
                row_views(rows@) == rows_upto(self.matches@, self.root@, replace, i as int),
            decreases self.matches@.len() - i,
        {
            let ghost before = rows@;
            let m = &self.matches[i];
            let fresh = i == 0 || self.matches[i - 1].file != m.file;
            if fresh {
                rows.push((shown_path(m.file.as_str(), self.root.as_str()), None));
            }
            let ghost mid = rows@;
            rows.push((match_row_text(m, replace), Some(i)));
            proof {
                let ms = self.matches@;
                let head = if i == 0 || ms[i - 1].file@ != ms[i as int].file@ {
                    seq![(path_shown(ms[i as int].file@, self.root@), None::<usize>)]
                } else {
                    Seq::empty()
                };
                assert(row_views(mid) =~= row_views(before) + head);
                assert(row_views(rows@) =~= row_views(mid).push((match_row(ms[i as int], replace), Some(i))));
            }
            i = i + 1;
        }
        rows
    }

    /// The enabled matches as text, one line each.
    pub fn export_text(&self) -> (r: String)
        ensures
            r@ == export_upto(self.matches@, self.root@, self.matches@.len() as int),
    {
        let mut out = String::new();
        let mut i: usize = 0;
        while i < self.matches.len()
            invariant
                i <= self.matches@.len(),
                out@ == export_upto(self.matches@, self.root@, i as int),
            decreases self.matches@.len() - i,
        {
            let m = &self.matches[i];
            if m.enabled {
                let line = export_line_text(m, self.root.as_str());
                out.append(line.as_str());
            } else {
                assert(out@ =~= out@ + Seq::<char>::empty());
            }
            i = i + 1;
        }
        out
    }
}

} // verus!
