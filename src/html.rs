//! Comment bodies arrive as HTML fragments; these functions turn them into
//! plain text lines for display.
use vstd::prelude::*;

use crate::text::{chars_of, collapse_from, collapse_spaces, is_space, is_space_spec, string_of};

verus! {

/// The text with its HTML character references decoded.
pub uninterp spec fn entities_decoded(s: Seq<char>) -> Seq<char>;

/// Relies on `html_escape::decode_html_entities`: character references
/// decoded, the result a function of the input alone.
#[verifier::external_body]
fn decode_entities(s: &str) -> (r: String)
    ensures
        r@ == entities_decoded(s@),
{
    html_escape::decode_html_entities(s).into_owned()
}

pub open spec fn tag_at(s: Seq<char>, i: int, tag: Seq<char>) -> bool {
    0 <= i && i + tag.len() <= s.len() && s.subrange(i, i + tag.len()) == tag
}

pub open spec fn para_open() -> Seq<char> {
    seq!['<', 'p', '>']
}

pub open spec fn para_close() -> Seq<char> {
    seq!['<', '/', 'p', '>']
}

pub open spec fn break_plain() -> Seq<char> {
    seq!['<', 'b', 'r', '>']
}

pub open spec fn break_closed() -> Seq<char> {
    seq!['<', 'b', 'r', '/', '>']
}

pub open spec fn break_spaced() -> Seq<char> {
    seq!['<', 'b', 'r', ' ', '/', '>']
}

/// Markup removed from position `i` on: paragraph tags become a blank line,
/// line breaks a newline, every other tag disappears.
pub open spec fn strip_from(s: Seq<char>, i: int, in_tag: bool) -> Seq<char>
    decreases s.len() - i,
{
    if i < 0 || i >= s.len() {
        Seq::empty()
    } else if in_tag {
        strip_from(s, i + 1, s[i] != '>')
    } else if s[i] == '<' {
        if tag_at(s, i, para_open()) {
            seq!['\n', '\n'] + strip_from(s, i + 3, false)
        } else if tag_at(s, i, para_close()) {
            seq!['\n', '\n'] + strip_from(s, i + 4, false)
        } else if tag_at(s, i, break_plain()) {
            seq!['\n'] + strip_from(s, i + 4, false)
        } else if tag_at(s, i, break_closed()) {
            seq!['\n'] + strip_from(s, i + 5, false)
        } else if tag_at(s, i, break_spaced()) {
            seq!['\n'] + strip_from(s, i + 6, false)
        } else {
            strip_from(s, i + 1, true)
        }
    } else if s[i] == '>' {
        strip_from(s, i + 1, false)
    } else {
        seq![s[i]] + strip_from(s, i + 1, false)
    }
}

pub(crate) fn has_tag_at(s: &Vec<char>, i: usize, tag: &Vec<char>) -> (r: bool)
    requires
        i <= s@.len(),
    ensures
        r == tag_at(s@, i as int, tag@),
{
    if tag.len() > s.len() - i {
        return false;
    }
    let mut k: usize = 0;
    while k < tag.len()
        invariant
            k <= tag@.len(),
            i <= s@.len(),
            s@.len() == s.len(),
            i + tag@.len() <= s@.len(),
            forall|j: int| 0 <= j < k ==> s@[i + j] == tag@[j],
        decreases tag@.len() - k,
    {
        if s[i + k] != tag[k] {
            assert(s@.subrange(i as int, i + tag@.len())[k as int] != tag@[k as int]);
            return false;
        }
        k = k + 1;
    }
    assert(s@.subrange(i as int, i + tag@.len()) =~= tag@);
    true
}

/// Removes HTML markup: paragraph tags become a blank line, line breaks a
/// newline, and all other tags disappear.
pub fn strip_markup(html: &str) -> (r: String)
    ensures
        r@ == strip_from(html@, 0, false),
{
    let s = chars_of(html);
    let p_open = vec!['<', 'p', '>'];
    let p_close = vec!['<', '/', 'p', '>'];
    let br = vec!['<', 'b', 'r', '>'];
    let br_closed = vec!['<', 'b', 'r', '/', '>'];
    let br_spaced = vec!['<', 'b', 'r', ' ', '/', '>'];
    assert(p_open@ == para_open());
    assert(p_close@ == para_close());
    assert(br@ == break_plain());
    assert(br_closed@ == break_closed());
    assert(br_spaced@ == break_spaced());
    let n = s.len();
    let mut out: Vec<char> = Vec::new();
    let mut in_tag = false;
    let mut i: usize = 0;
    assert(out@ + strip_from(s@, 0, false) =~= strip_from(s@, 0, false));
    while i < n
        invariant
            n == s@.len(),
            s@ == html@,
            i <= n,
            p_open@ == para_open(),
            p_close@ == para_close(),
            br@ == break_plain(),
            br_closed@ == break_closed(),
            br_spaced@ == break_spaced(),
            out@ + strip_from(s@, i as int, in_tag) == strip_from(s@, 0, false),
        decreases n - i,
    {
        let c = s[i];
        if in_tag {
            in_tag = c != '>';
            i = i + 1;
        } else if c == '<' {
            if has_tag_at(&s, i, &p_open) {
                out.push('\n');
                out.push('\n');
                i = i + 3;
            } else if has_tag_at(&s, i, &p_close) {
                out.push('\n');
                out.push('\n');
                i = i + 4;
            } else if has_tag_at(&s, i, &br) {
                out.push('\n');
                i = i + 4;
            } else if has_tag_at(&s, i, &br_closed) {
                out.push('\n');
                i = i + 5;
            } else if has_tag_at(&s, i, &br_spaced) {
                out.push('\n');
                i = i + 6;
            } else {
                in_tag = true;
                i = i + 1;
            }
        } else if c == '>' {
            i = i + 1;
        } else {
            out.push(c);
            i = i + 1;
        }
        assert(out@ + strip_from(s@, i as int, in_tag) =~= strip_from(s@, 0, false));
    }
    assert(out@ + strip_from(s@, n as int, in_tag) =~= out@);
    string_of(&out)
}

/// The text without leading whitespace.
pub open spec fn trim_start(s: Seq<char>) -> Seq<char>
    decreases s.len(),
{
    if s.len() > 0 && is_space_spec(s[0]) {
        trim_start(s.drop_first())
    } else {
        s
    }
}

/// The text without trailing whitespace.
pub open spec fn trim_end(s: Seq<char>) -> Seq<char>
    decreases s.len(),
{
    if s.len() > 0 && is_space_spec(s.last()) {
        trim_end(s.drop_last())
    } else {
        s
    }
}

/// A displayed line: trimmed, inner whitespace runs collapsed.
pub open spec fn tidy(line: Seq<char>) -> Seq<char> {
    trim_end(trim_start(collapse_from(line, false)))
}

fn trim_chars(v: Vec<char>) -> (r: Vec<char>)
    ensures
        r@ == trim_end(trim_start(v@)),
{
    let mut start: usize = 0;
    assert(v@.subrange(0, v@.len() as int) =~= v@);
    while start < v.len() && is_space(v[start])
        invariant
            start <= v@.len(),
            trim_start(v@.subrange(start as int, v@.len() as int)) == trim_start(v@),
        decreases v@.len() - start,
    {
        assert(v@.subrange(start as int, v@.len() as int).drop_first() =~= v@.subrange(start + 1, v@.len() as int));
        start = start + 1;
    }
    let mut end: usize = v.len();
    while end > start && is_space(v[end - 1])
        invariant
            start <= end <= v@.len(),
            trim_start(v@) == v@.subrange(start as int, v@.len() as int) || start == v@.len(),
            trim_end(v@.subrange(start as int, end as int)) == trim_end(trim_start(v@)),
        decreases end,
    {
        assert(v@.subrange(start as int, end as int).drop_last() =~= v@.subrange(start as int, end - 1));
        end = end - 1;
    }
    let mut out: Vec<char> = Vec::new();
    let mut k = start;
    while k < end
        invariant
            start <= k <= end,
            end <= v@.len(),
            out@ == v@.subrange(start as int, k as int),
        decreases end - k,
    {
        out.push(v[k]);
        assert(v@.subrange(start as int, k as int).push(v@[k as int]) =~= v@.subrange(start as int, k + 1));
        k = k + 1;
    }
    proof {
        let rest = v@.subrange(start as int, end as int);
        assert(rest.len() == 0 || !is_space_spec(rest.last()));
        assert(trim_end(rest) == rest);
    }
    out
}

/// Lines of the text, split at each newline; the last line is the text after
/// the final newline (possibly empty).
pub open spec fn split_state(s: Seq<char>) -> (Seq<Seq<char>>, Seq<char>)
    decreases s.len(),
{
    if s.len() == 0 {
        (Seq::empty(), Seq::empty())
    } else {
        let (done, cur) = split_state(s.drop_last());
        if s.last() == '\n' {
            (done.push(cur), Seq::empty())
        } else {
            (done, cur.push(s.last()))
        }
    }
}

pub open spec fn lines_of(s: Seq<char>) -> Seq<Seq<char>> {
    split_state(s).0.push(split_state(s).1)
}

/// The non-empty tidied lines, joined by newlines.
pub open spec fn join_tidy(lines: Seq<Seq<char>>) -> Seq<char>
    decreases lines.len(),
{
    if lines.len() == 0 {
        Seq::empty()
    } else {
        let acc = join_tidy(lines.drop_last());
        let t = tidy(lines.last());
        if t.len() == 0 {
            acc
        } else if acc.len() == 0 {
            t
        } else {
            acc + seq!['\n'] + t
        }
    }
}

fn append_tidy(out: &mut Vec<char>, line: &Vec<char>)
    ensures
        ({
            let t = tidy(line@);
            final(out)@ == (if t.len() == 0 {
                old(out)@
            } else if old(out)@.len() == 0 {
                t
            } else {
                old(out)@ + seq!['\n'] + t
            })
        }),
{
    let text = string_of(line);
    let collapsed = collapse_spaces(text.as_str());
    let t = trim_chars(chars_of(collapsed.as_str()));
    if t.len() == 0 {
        return;
    }
    if out.len() > 0 {
        out.push('\n');
    }
    let ghost before = out@;
    let mut k: usize = 0;
    while k < t.len()
        invariant
            k <= t@.len(),
            t@ == tidy(line@),
            out@ == before + t@.subrange(0, k as int),
        decreases t@.len() - k,
    {
        out.push(t[k]);
        assert(before + t@.subrange(0, k as int) + seq![t@[k as int]] =~= before + t@.subrange(0, k + 1));
        k = k + 1;
    }
    assert(t@.subrange(0, t@.len() as int) =~= t@);
    assert(old(out)@.len() == 0 ==> before =~= Seq::<char>::empty());
}

/// Plain display text of decoded comment text: each line trimmed with
/// whitespace runs collapsed, empty lines dropped, joined by newlines.
pub fn plain_lines(decoded: &str) -> (r: String)
    ensures
        r@ == join_tidy(lines_of(decoded@)),
{
    let s = chars_of(decoded);
    let n = s.len();
    let mut out: Vec<char> = Vec::new();
    let mut cur: Vec<char> = Vec::new();
    let ghost mut done: Seq<Seq<char>> = Seq::empty();
    let mut i: usize = 0;
    while i < n
        invariant
            n == s@.len(),
            s@ == decoded@,
            i <= n,
            split_state(s@.subrange(0, i as int)) == (done, cur@),
            out@ == join_tidy(done),
        decreases n - i,
    {
        let c = s[i];
        assert(s@.subrange(0, i + 1).drop_last() =~= s@.subrange(0, i as int));
        if c == '\n' {
            proof {
                assert(done.push(cur@).drop_last() =~= done);
            }
            append_tidy(&mut out, &cur);
            proof {
                done = done.push(cur@);
            }
            cur = Vec::new();
            assert(cur@ =~= Seq::<char>::empty());
        } else {
            cur.push(c);
        }
        i = i + 1;
    }
    assert(s@.subrange(0, n as int) =~= s@);
    proof {
        assert(done.push(cur@).drop_last() =~= done);
    }
    append_tidy(&mut out, &cur);
    string_of(&out)
}

/// What comment HTML reads as: markup removed, character references
/// decoded, then tidied into non-empty lines.
pub open spec fn html_to_plain_spec(html: Seq<char>) -> Seq<char> {
    join_tidy(lines_of(entities_decoded(strip_from(html, 0, false))))
}

/// Converts a comment's HTML into plain display text.
pub fn hn_html_to_plain(html: &str) -> (r: String)
    ensures
        r@ == html_to_plain_spec(html@),
{
    let stripped = strip_markup(html);
    let decoded = decode_entities(stripped.as_str());
    plain_lines(decoded.as_str())
}

} // verus!
