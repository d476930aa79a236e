use vstd::prelude::*;
use vstd::std_specs::iter::IteratorSpec;

use crate::disk_cache::{age_spec, age_secs, decimal, push_decimal};
use crate::html::{has_tag_at, tag_at};

verus! {

broadcast use vstd::string::axiom_spec_iter, vstd::string::next_postcondition;

/// The characters of a string, in order.
pub fn chars_of(s: &str) -> (r: Vec<char>)
    ensures
        r@ == s@,
{
    let mut out: Vec<char> = Vec::new();
    let mut it = s.chars();
    loop
        invariant
            out@ + it.remaining() == s@,
            it.decrease() is Some,
        ensures
            out@ == s@,
        decreases it.decrease()->0,
    {
        match it.next() {
            Some(c) => {
                out.push(c);
            },
            None => {
                assert(out@ + it.remaining() =~= out@);
                break;
            },
        }
    }
    out
}

/// Relies on `String: FromIterator<char>`: the string made of these characters.
#[verifier::external_body]
pub fn string_of(chars: &Vec<char>) -> (r: String)
    ensures
        r@ == chars@,
{
    chars.iter().collect()
}

/// The Unicode `White_Space` property.
pub open spec fn is_space_spec(c: char) -> bool {
    ('\u{9}' <= c && c <= '\u{d}') || c == ' ' || c == '\u{85}' || c == '\u{a0}' || c
        == '\u{1680}' || ('\u{2000}' <= c && c <= '\u{200a}') || c == '\u{2028}' || c
        == '\u{2029}' || c == '\u{202f}' || c == '\u{205f}' || c == '\u{3000}'
}

pub fn is_space(c: char) -> (r: bool)
    ensures
        r == is_space_spec(c),
{
    ('\u{9}' <= c && c <= '\u{d}') || c == ' ' || c == '\u{85}' || c == '\u{a0}' || c
        == '\u{1680}' || ('\u{2000}' <= c && c <= '\u{200a}') || c == '\u{2028}' || c
        == '\u{2029}' || c == '\u{202f}' || c == '\u{205f}' || c == '\u{3000}'
}

/// A text is blank when it holds whitespace only.
pub open spec fn is_blank_spec(s: Seq<char>) -> bool {
    forall|i: int| 0 <= i < s.len() ==> is_space_spec(#[trigger] s[i])
}

pub fn is_blank_text(s: &Vec<char>) -> (r: bool)
    ensures
        r == is_blank_spec(s@),
{
    let mut i: usize = 0;
    while i < s.len()
        invariant
            i <= s@.len(),
            forall|j: int| 0 <= j < i ==> is_space_spec(#[trigger] s@[j]),
        decreases s@.len() - i,
    {
        if !is_space(s[i]) {
            return false;
        }
        i = i + 1;
    }
    true
}

/// Each run of whitespace replaced by one space; `prev_space` tells whether
/// the text so far ended in whitespace.
pub open spec fn collapse_from(s: Seq<char>, prev_space: bool) -> Seq<char>
    decreases s.len(),
{
    if s.len() == 0 {
        Seq::empty()
    } else if is_space_spec(s[0]) {
        (if prev_space { Seq::empty() } else { seq![' '] }) + collapse_from(s.drop_first(), true)
    } else {
        seq![s[0]] + collapse_from(s.drop_first(), false)
    }
}

/// Replaces each run of whitespace by a single space.
pub fn collapse_spaces(s: &str) -> (r: String)
    ensures
        r@ == collapse_from(s@, false),
{
    let chars = chars_of(s);
    let n = chars.len();
    let mut out: Vec<char> = Vec::new();
    let mut prev_space = false;
    let mut i: usize = 0;
    assert(s@.subrange(0, n as int) =~= s@);
    assert(out@ + s@ =~= s@);
    while i < n
        invariant
            n == chars@.len(),
            chars@ == s@,
            i <= n,
            out@ + collapse_from(s@.subrange(i as int, n as int), prev_space) == collapse_from(s@, false),
        decreases n - i,
    {
        let ghost rest = s@.subrange(i as int, n as int);
        assert(rest.drop_first() =~= s@.subrange(i + 1, n as int));
        let c = chars[i];
        if is_space(c) {
            if !prev_space {
                out.push(' ');
            }
            prev_space = true;
        } else {
            prev_space = false;
            out.push(c);
        }
        proof {
            assert(rest[0] == c);
        }
        i = i + 1;
        assert(out@ + collapse_from(s@.subrange(i as int, n as int), prev_space) =~= collapse_from(s@, false));
    }
    assert(s@.subrange(n as int, n as int) =~= Seq::<char>::empty());
    assert(out@ =~= out@ + collapse_from(s@.subrange(n as int, n as int), prev_space));
    string_of(&out)
}

/// Compact age: seconds under a minute, minutes under an hour, hours under
/// two days, days under a year, else years.
pub open spec fn format_age_spec(item_time: i64, now: i64) -> Seq<char> {
    let diff = age_spec(item_time, now);
    if diff < 60 {
        decimal(diff as nat) + seq!['s']
    } else if diff / 60 < 60 {
        decimal((diff / 60) as nat) + seq!['m']
    } else if diff / 3600 < 48 {
        decimal((diff / 3600) as nat) + seq!['h']
    } else if diff / 86400 < 365 {
        decimal((diff / 86400) as nat) + seq!['d']
    } else {
        decimal((diff / 86400 / 365) as nat) + seq!['y']
    }
}

pub fn format_age(item_time: i64, now: i64) -> (r: String)
    ensures
        r@ == format_age_spec(item_time, now),
{
    let diff = age_secs(item_time, now);
    let mut out: Vec<char> = Vec::new();
    if diff < 60 {
        push_decimal(diff as u128, &mut out);
        out.push('s');
    } else if diff / 60 < 60 {
        push_decimal((diff / 60) as u128, &mut out);
        out.push('m');
    } else if diff / 60 / 60 < 48 {
        assert(diff / 60 / 60 == diff / 3600) by (nonlinear_arith);
        push_decimal((diff / 60 / 60) as u128, &mut out);
        out.push('h');
    } else if diff / 60 / 60 / 24 < 365 {
        assert(diff / 60 / 60 == diff / 3600) by (nonlinear_arith);
        assert(diff / 60 / 60 / 24 == diff / 86400) by (nonlinear_arith);
        push_decimal((diff / 60 / 60 / 24) as u128, &mut out);
        out.push('d');
    } else {
        assert(diff / 60 / 60 == diff / 3600) by (nonlinear_arith);
        assert(diff / 60 / 60 / 24 == diff / 86400) by (nonlinear_arith);
        push_decimal((diff / 60 / 60 / 24 / 365) as u128, &mut out);
        out.push('y');
    }
    string_of(&out)
}


/// First position at or after `from` where `pat` occurs.
pub open spec fn find_from(s: Seq<char>, pat: Seq<char>, from: int) -> Option<int>
    decreases s.len() + 1 - from,
{
    if from < 0 || from + pat.len() > s.len() {
        None
    } else if tag_at(s, from, pat) {
        Some(from)
    } else {
        find_from(s, pat, from + 1)
    }
}

/// Position of the last `c` among the first `k` characters.
pub open spec fn find_last(s: Seq<char>, c: char, k: int) -> Option<int>
    decreases k,
{
    if k <= 0 {
        None
    } else if s[k - 1] == c {
        Some(k - 1)
    } else {
        find_last(s, c, k - 1)
    }
}

pub open spec fn scheme_sep() -> Seq<char> {
    seq![':', '/', '/']
}

pub open spec fn www_prefix() -> Seq<char> {
    seq!['w', 'w', 'w', '.']
}

/// The text between the first `://` and the next one, or the whole URL
/// when it has none.
pub open spec fn after_scheme(url: Seq<char>) -> Seq<char> {
    match find_from(url, scheme_sep(), 0) {
        None => url,
        Some(p) => match find_from(url, scheme_sep(), p + 3) {
            None => url.subrange(p + 3, url.len() as int),
            Some(q) => url.subrange(p + 3, q),
        },
    }
}

/// The text before the first `/`.
pub open spec fn before_slash(s: Seq<char>) -> Seq<char> {
    match find_from(s, seq!['/'], 0) {
        None => s,
        Some(k) => s.subrange(0, k),
    }
}

/// The text after the last `@`.
pub open spec fn after_at(s: Seq<char>) -> Seq<char> {
    match find_last(s, '@', s.len() as int) {
        None => s,
        Some(k) => s.subrange(k + 1, s.len() as int),
    }
}

/// The text without any number of leading `www.`.
pub open spec fn strip_www(s: Seq<char>) -> Seq<char>
    decreases s.len(),
{
    if tag_at(s, 0, www_prefix()) {
        strip_www(s.subrange(4, s.len() as int))
    } else {
        s
    }
}

pub open spec fn domain_spec(url: Seq<char>) -> Seq<char> {
    strip_www(after_at(before_slash(after_scheme(url))))
}

fn find_pattern(s: &Vec<char>, pat: &Vec<char>, from: usize) -> (r: Option<usize>)
    requires
        from <= s@.len(),
    ensures
        r matches Some(i) ==> find_from(s@, pat@, from as int) == Some(i as int),
        r is None ==> find_from(s@, pat@, from as int) is None,
        r matches Some(i) ==> from <= i && i + pat@.len() <= s@.len(),
{
    if pat.len() == 0 {
        assert(s@.subrange(from as int, from as int) =~= pat@);
        return Some(from);
    }
    let mut i = from;
    while pat.len() <= s.len() - i
        invariant
            from <= i <= s@.len(),
            pat@.len() > 0,
            s@.len() == s.len(),
            find_from(s@, pat@, from as int) == find_from(s@, pat@, i as int),
        decreases s@.len() + 1 - i,
    {
        if has_tag_at(s, i, pat) {
            return Some(i);
        }
        i = i + 1;
    }
    None
}

fn find_last_char(s: &Vec<char>, c: char) -> (r: Option<usize>)
    ensures
        r matches Some(i) ==> find_last(s@, c, s@.len() as int) == Some(i as int),
        r is None ==> find_last(s@, c, s@.len() as int) is None,
        r matches Some(i) ==> i < s@.len(),
{
    let mut k = s.len();
    while k > 0
        invariant
            k <= s@.len(),
            find_last(s@, c, s@.len() as int) == find_last(s@, c, k as int),
        decreases k,
    {
        if s[k - 1] == c {
            return Some(k - 1);
        }
        k = k - 1;
    }
    None
}

fn slice_chars(s: &Vec<char>, from: usize, to: usize) -> (r: Vec<char>)
    requires
        from <= to <= s@.len(),
    ensures
        r@ == s@.subrange(from as int, to as int),
{
    let mut out: Vec<char> = Vec::new();
    let mut k = from;
    while k < to
        invariant
            from <= k <= to,
            to <= s@.len(),
            out@ == s@.subrange(from as int, k as int),
        decreases to - k,
    {
        out.push(s[k]);
        assert(s@.subrange(from as int, k as int).push(s@[k as int]) =~= s@.subrange(from as int, k + 1));
        k = k + 1;
    }
    out
}

/// The host a story links to: scheme, path, credentials and leading
/// `www.` removed.
pub fn domain_from_url(url: &str) -> (r: Option<String>)
    ensures
        r matches Some(d) && d@ == domain_spec(url@),
{
    let s = chars_of(url);
    let sep = vec![':', '/', '/'];
    let slash = vec!['/'];
    let www = vec!['w', 'w', 'w', '.'];
    assert(sep@ == scheme_sep());
    assert(sep@.len() == 3);
    assert(slash@ == seq!['/']);
    assert(www@ == www_prefix());
    let first = find_pattern(&s, &sep, 0);
    let without_scheme = match first {
        None => s,
        Some(p) => {
            assert(p + sep@.len() <= s@.len() && s@.len() == s.len());
            let start = p + 3;
            match find_pattern(&s, &sep, start) {
                None => slice_chars(&s, start, s.len()),
                Some(q) => slice_chars(&s, start, q),
            }
        },
    };
    assert(without_scheme@ == after_scheme(url@));
    let host_port = match find_pattern(&without_scheme, &slash, 0) {
        None => without_scheme,
        Some(k) => slice_chars(&without_scheme, 0, k),
    };
    assert(host_port@ == before_slash(after_scheme(url@)));
    let host = match find_last_char(&host_port, '@') {
        None => host_port,
        Some(k) => slice_chars(&host_port, k + 1, host_port.len()),
    };
    assert(host@ == after_at(before_slash(after_scheme(url@))));
    let mut rest = host;
    while has_tag_at(&rest, 0, &www)
        invariant
            www@ == www_prefix(),
            strip_www(rest@) == domain_spec(url@),
        decreases rest@.len(),
    {
        rest = slice_chars(&rest, 4, rest.len());
    }
    Some(string_of(&rest))
}


/// A unit of text layout: a word, or the end of an input line.
pub enum Token {
    Word(Seq<char>),
    LineEnd,
}

/// Tokens of the text read so far, and the word being read.
pub open spec fn scan_state(s: Seq<char>) -> (Seq<Token>, Seq<char>)
    decreases s.len(),
{
    if s.len() == 0 {
        (Seq::empty(), Seq::empty())
    } else {
        let (toks, w) = scan_state(s.drop_last());
        let c = s.last();
        let flushed = if w.len() > 0 { toks.push(Token::Word(w)) } else { toks };
        if c == '\n' {
            (flushed.push(Token::LineEnd), Seq::empty())
        } else if is_space_spec(c) {
            (flushed, Seq::empty())
        } else {
            (toks, w.push(c))
        }
    }
}

/// The words of each line of the text, each line closed by `LineEnd`.
pub open spec fn tokens_of(s: Seq<char>) -> Seq<Token> {
    let (toks, w) = scan_state(s);
    (if w.len() > 0 { toks.push(Token::Word(w)) } else { toks }).push(Token::LineEnd)
}

/// Layout state: finished lines, the line being filled, and whether the
/// line limit was reached.
pub struct WrapState {
    pub lines: Seq<Seq<char>>,
    pub current: Seq<char>,
    pub stopped: bool,
}

pub open spec fn width_for(lines: Seq<Seq<char>>, first_width: usize, next_width: usize) -> int {
    let w = if lines.len() == 0 { first_width } else { next_width };
    if w == 0 { 1 } else { w as int }
}

/// One token laid out: a word joins the current line when it fits in the
/// width (the first line's width for the first line), else it starts a new
/// line; a line end closes a non-empty current line.
pub open spec fn wrap_step(st: WrapState, t: Token, first_width: usize, next_width: usize, max_lines: usize) -> WrapState {
    if st.stopped {
        st
    } else {
        match t {
            Token::Word(w) => if st.current.len() == 0 {
                WrapState { current: w, ..st }
            } else if st.current.len() + 1 + w.len() <= width_for(st.lines, first_width, next_width) {
                WrapState { current: st.current + seq![' '] + w, ..st }
            } else {
                let lines = st.lines.push(st.current);
                WrapState { lines, current: w, stopped: lines.len() >= max_lines }
            },
            Token::LineEnd => if st.current.len() == 0 {
                st
            } else {
                let lines = st.lines.push(st.current);
                WrapState { lines, current: Seq::empty(), stopped: lines.len() >= max_lines }
            },
        }
    }
}

pub open spec fn wrap_tokens(toks: Seq<Token>, first_width: usize, next_width: usize, max_lines: usize) -> WrapState
    decreases toks.len(),
{
    if toks.len() == 0 {
        WrapState { lines: Seq::empty(), current: Seq::empty(), stopped: false }
    } else {
        wrap_step(
            wrap_tokens(toks.drop_last(), first_width, next_width, max_lines),
            toks.last(),
            first_width,
            next_width,
            max_lines,
        )
    }
}

/// Lines of the word-wrapped text: at most `max_lines`, never none.
pub open spec fn wrap_spec(s: Seq<char>, first_width: usize, next_width: usize, max_lines: usize) -> Seq<Seq<char>> {
    if max_lines == 0 {
        seq![Seq::empty()]
    } else {
        let lines = wrap_tokens(tokens_of(s), first_width, next_width, max_lines).lines;
        if lines.len() == 0 { seq![Seq::empty()] } else { lines }
    }
}

/// Width of line `i` of a wrapped text: the first line's width for the
/// first, the next width after it, and at least one column.
pub open spec fn line_width(i: int, first_width: usize, next_width: usize) -> int {
    let w = if i == 0 { first_width } else { next_width };
    if w == 0 { 1 } else { w as int }
}

/// A line fits when it is within its width, or when it is a single word
/// (a word longer than the width stands alone).
pub open spec fn line_fits(l: Seq<char>, i: int, first_width: usize, next_width: usize) -> bool {
    l.len() <= line_width(i, first_width, next_width) || !l.contains(' ')
}

spec fn words_ok(toks: Seq<Token>) -> bool {
    forall|i: int| 0 <= i < toks.len() ==> (#[trigger] toks[i] matches Token::Word(w) ==> w.len() > 0 && !w.contains(' '))
}

spec fn wrap_ok(st: WrapState, first_width: usize, next_width: usize, max_lines: usize) -> bool {
    &&& st.lines.len() <= max_lines
    &&& !st.stopped ==> st.lines.len() < max_lines
    &&& forall|i: int| 0 <= i < st.lines.len() ==> line_fits(#[trigger] st.lines[i], i, first_width, next_width)
    &&& line_fits(st.current, st.lines.len() as int, first_width, next_width)
}

proof fn lemma_scan_words(s: Seq<char>)
    ensures
        words_ok(scan_state(s).0),
        !scan_state(s).1.contains(' '),
    decreases s.len(),
{
    if s.len() > 0 {
        lemma_scan_words(s.drop_last());
        let (toks, w) = scan_state(s.drop_last());
        let c = s.last();
        if w.len() > 0 {
            assert(words_ok(toks.push(Token::Word(w)))) by {
                assert forall|i: int| 0 <= i < toks.push(Token::Word(w)).len() implies (#[trigger] toks.push(
                    Token::Word(w),
                )[i] matches Token::Word(v) ==> v.len() > 0 && !v.contains(' ')) by {
                    if i < toks.len() {
                        assert(toks.push(Token::Word(w))[i] == toks[i]);
                    }
                }
            }
            if c == '\n' {
                let f = toks.push(Token::Word(w));
                assert forall|i: int| 0 <= i < f.push(Token::LineEnd).len() implies (#[trigger] f.push(
                    Token::LineEnd,
                )[i] matches Token::Word(v) ==> v.len() > 0 && !v.contains(' ')) by {
                    if i < f.len() {
                        assert(f.push(Token::LineEnd)[i] == f[i]);
                    }
                }
            }
        } else if c == '\n' {
            assert forall|i: int| 0 <= i < toks.push(Token::LineEnd).len() implies (#[trigger] toks.push(
                Token::LineEnd,
            )[i] matches Token::Word(v) ==> v.len() > 0 && !v.contains(' ')) by {
                if i < toks.len() {
                    assert(toks.push(Token::LineEnd)[i] == toks[i]);
                }
            }
        }
        if c != '\n' && !is_space_spec(c) {
            assert(c != ' ');
            assert forall|j: int| 0 <= j < w.push(c).len() implies w.push(c)[j] != ' ' by {
                if j < w.len() {
                    assert(w.push(c)[j] == w[j]);
                }
            }
        }
    }
}

proof fn lemma_tokens_words(s: Seq<char>)
    ensures
        words_ok(tokens_of(s)),
{
    lemma_scan_words(s);
    let (toks, w) = scan_state(s);
    let f = if w.len() > 0 { toks.push(Token::Word(w)) } else { toks };
    assert(words_ok(f)) by {
        assert forall|i: int| 0 <= i < f.len() implies (#[trigger] f[i] matches Token::Word(v) ==> v.len() > 0
            && !v.contains(' ')) by {
            if i < toks.len() {
                assert(f[i] == toks[i]);
            }
        }
    }
    assert forall|i: int| 0 <= i < f.push(Token::LineEnd).len() implies (#[trigger] f.push(Token::LineEnd)[i] matches Token::Word(
        v,
    ) ==> v.len() > 0 && !v.contains(' ')) by {
        if i < f.len() {
            assert(f.push(Token::LineEnd)[i] == f[i]);
        }
    }
}

proof fn lemma_wrap_tokens_ok(toks: Seq<Token>, first_width: usize, next_width: usize, max_lines: usize)
    requires
        max_lines > 0,
        words_ok(toks),
    ensures
        wrap_ok(wrap_tokens(toks, first_width, next_width, max_lines), first_width, next_width, max_lines),
    decreases toks.len(),
{
    if toks.len() > 0 {
        let prev = toks.drop_last();
        assert(words_ok(prev)) by {
            assert forall|i: int| 0 <= i < prev.len() implies (#[trigger] prev[i] matches Token::Word(v) ==> v.len()
                > 0 && !v.contains(' ')) by {
                assert(prev[i] == toks[i]);
            }
        }
        lemma_wrap_tokens_ok(prev, first_width, next_width, max_lines);
        let st = wrap_tokens(prev, first_width, next_width, max_lines);
        let t = toks.last();
        assert(toks[toks.len() - 1] == t);
        if !st.stopped {
            let lines = st.lines.push(st.current);
            assert forall|i: int| 0 <= i < lines.len() implies line_fits(#[trigger] lines[i], i, first_width, next_width) by {
                if i < st.lines.len() {
                    assert(lines[i] == st.lines[i]);
                }
            }
            assert(line_width(st.lines.len() as int, first_width, next_width) == width_for(
                st.lines,
                first_width,
                next_width,
            ));
        }
    }
}

/// Laws of word wrapping: there is at least one line and at most
/// `max_lines` (one when it is zero), and every line fits its width unless
/// it is a single word longer than that width.
pub proof fn lemma_wrap_laws(s: Seq<char>, first_width: usize, next_width: usize, max_lines: usize)
    ensures
        1 <= wrap_spec(s, first_width, next_width, max_lines).len(),
        wrap_spec(s, first_width, next_width, max_lines).len() <= (if max_lines == 0 { 1 } else { max_lines as int }),
        forall|i: int|
            0 <= i < wrap_spec(s, first_width, next_width, max_lines).len() ==> line_fits(
                #[trigger] wrap_spec(s, first_width, next_width, max_lines)[i],
                i,
                first_width,
                next_width,
            ),
{
    let r = wrap_spec(s, first_width, next_width, max_lines);
    if max_lines == 0 || wrap_tokens(tokens_of(s), first_width, next_width, max_lines).lines.len() == 0 {
        assert(r =~= seq![Seq::<char>::empty()]);
        assert(!Seq::<char>::empty().contains(' '));
    } else {
        lemma_tokens_words(s);
        lemma_wrap_tokens_ok(tokens_of(s), first_width, next_width, max_lines);
    }
}

struct Wrapper {
    lines: Vec<Vec<char>>,
    current: Vec<char>,
    stopped: bool,
}

impl Wrapper {
    closed spec fn state(&self) -> WrapState {
        WrapState { lines: self.lines@.map_values(|l: Vec<char>| l@), current: self.current@, stopped: self.stopped }
    }
}

fn wrap_word(st: &mut Wrapper, w: Vec<char>, first_width: usize, next_width: usize, max_lines: usize)
    ensures
        final(st).state() == wrap_step(old(st).state(), Token::Word(w@), first_width, next_width, max_lines),
{
    if st.stopped {
        return;
    }
    let width = if st.lines.len() == 0 { first_width } else { next_width };
    let width = if width == 0 { 1 } else { width };
    proof {
        assert(st.lines@.map_values(|l: Vec<char>| l@).len() == st.lines@.len());
    }
    if st.current.len() == 0 {
        st.current = w;
        return;
    }
    let fits = st.current.len() < width && w.len() <= width - st.current.len() - 1;
    if fits {
        let ghost before = st.current@;
        st.current.push(' ');
        let mut k: usize = 0;
        while k < w.len()
            invariant
                k <= w@.len(),
                st.lines == old(st).lines,
                st.stopped == old(st).stopped,
                st.current@ == before + seq![' '] + w@.subrange(0, k as int),
            decreases w@.len() - k,
        {
            st.current.push(w[k]);
            assert(before + seq![' '] + w@.subrange(0, k as int) + seq![w@[k as int]] =~= before + seq![' ']
                + w@.subrange(0, k + 1));
            k = k + 1;
        }
        assert(w@.subrange(0, w@.len() as int) =~= w@);
        return;
    }
    let mut done = w;
    std::mem::swap(&mut st.current, &mut done);
    let ghost old_lines = st.lines@;
    st.lines.push(done);
    assert(st.lines@.map_values(|l: Vec<char>| l@) =~= old_lines.map_values(|l: Vec<char>| l@).push(done@));
    st.stopped = st.lines.len() >= max_lines;
}

fn end_line(st: &mut Wrapper, max_lines: usize)
    ensures
        forall|fw: usize, nw: usize| #![auto] final(st).state() == wrap_step(old(st).state(), Token::LineEnd, fw, nw, max_lines),
{
    if st.stopped || st.current.len() == 0 {
        return;
    }
    let mut done: Vec<char> = Vec::new();
    std::mem::swap(&mut st.current, &mut done);
    let ghost old_lines = st.lines@;
    st.lines.push(done);
    assert(st.lines@.map_values(|l: Vec<char>| l@) =~= old_lines.map_values(|l: Vec<char>| l@).push(done@));
    assert(st.current@ =~= Seq::<char>::empty());
    st.stopped = st.lines.len() >= max_lines;
}

proof fn lemma_wrap_push(toks: Seq<Token>, t: Token, fw: usize, nw: usize, max_lines: usize)
    ensures
        wrap_tokens(toks.push(t), fw, nw, max_lines) == wrap_step(wrap_tokens(toks, fw, nw, max_lines), t, fw, nw, max_lines),
{
    assert(toks.push(t).drop_last() =~= toks);
}

/// Word-wraps text to `first_width` columns on the first line and
/// `next_width` on the others, keeping at most `max_lines` lines.
pub fn wrap_plain(s: &str, first_width: usize, next_width: usize, max_lines: usize) -> (r: Vec<String>)
    ensures
        r@.map_values(|l: String| l@) == wrap_spec(s@, first_width, next_width, max_lines),
{
    if max_lines == 0 {
        let r = vec![String::new()];
        assert(r@.map_values(|l: String| l@) =~= seq![Seq::<char>::empty()]);
        return r;
    }
    let chars = chars_of(s);
    let n = chars.len();
    let mut st = Wrapper { lines: Vec::new(), current: Vec::new(), stopped: false };
    let mut word: Vec<char> = Vec::new();
    let ghost mut toks: Seq<Token> = Seq::empty();
    let mut i: usize = 0;
    assert(st.state().lines =~= Seq::<Seq<char>>::empty());
    while i < n
        invariant
            n == chars@.len(),
            chars@ == s@,
            i <= n,
            scan_state(s@.subrange(0, i as int)) == (toks, word@),
            st.state() == wrap_tokens(toks, first_width, next_width, max_lines),
        decreases n - i,
    {
        let c = chars[i];
        assert(s@.subrange(0, i + 1).drop_last() =~= s@.subrange(0, i as int));
        assert(s@.subrange(0, i + 1).last() == c);
        if c == '\n' || is_space(c) {
            if word.len() > 0 {
                let mut w: Vec<char> = Vec::new();
                std::mem::swap(&mut word, &mut w);
                proof {
                    lemma_wrap_push(toks, Token::Word(w@), first_width, next_width, max_lines);
                }
                wrap_word(&mut st, w, first_width, next_width, max_lines);
                proof {
                    toks = toks.push(Token::Word(w@));
                }
            }
            if c == '\n' {
                proof {
                    lemma_wrap_push(toks, Token::LineEnd, first_width, next_width, max_lines);
                }
                end_line(&mut st, max_lines);
                proof {
                    toks = toks.push(Token::LineEnd);
                }
            }
            word = Vec::new();
            assert(word@ =~= Seq::<char>::empty());
        } else {
            word.push(c);
        }
        i = i + 1;
    }
    assert(s@.subrange(0, n as int) =~= s@);
    if word.len() > 0 {
        let mut w: Vec<char> = Vec::new();
        std::mem::swap(&mut word, &mut w);
        proof {
            lemma_wrap_push(toks, Token::Word(w@), first_width, next_width, max_lines);
        }
        wrap_word(&mut st, w, first_width, next_width, max_lines);
        proof {
            toks = toks.push(Token::Word(w@));
        }
    }
    proof {
        lemma_wrap_push(toks, Token::LineEnd, first_width, next_width, max_lines);
    }
    end_line(&mut st, max_lines);
    proof {
        toks = toks.push(Token::LineEnd);
        assert(toks == tokens_of(s@));
    }
    let mut out: Vec<String> = Vec::new();
    let mut k: usize = 0;
    while k < st.lines.len()
        invariant
            k <= st.lines@.len(),
            out@.len() == k,
            forall|j: int| 0 <= j < k ==> (#[trigger] out@[j])@ == st.lines@[j]@,
        decreases st.lines@.len() - k,
    {
        out.push(string_of(&st.lines[k]));
        k = k + 1;
    }
    if out.len() == 0 {
        out.push(String::new());
        assert(out@.map_values(|l: String| l@) =~= seq![Seq::<char>::empty()]);
        return out;
    }
    assert(out@.map_values(|l: String| l@) =~= st.lines@.map_values(|l: Vec<char>| l@));
    out
}

} // verus!
