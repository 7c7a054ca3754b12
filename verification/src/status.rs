//! Parsing of the version-control tool's status and diff-stat output, for
//! the supervisor's view of a jail: which files changed, and the summary
//! counts.

use vstd::prelude::*;

use crate::codec::{is_digit, munch_digits, sp_number};
use crate::strutil::{chars_to_string, lemma_deep_view_push, str_eq, str_to_chars};

verus! {

/// Horizontal whitespace, as trimmed from status fields.
pub open spec fn is_ws(c: char) -> bool {
    c == ' ' || c == '\t' || c == '\r'
}

/// The input without leading whitespace.
pub open spec fn trim_front_v(s: Seq<char>) -> Seq<char>
    decreases s.len(),
{
    if s.len() > 0 && is_ws(s[0]) {
        trim_front_v(s.drop_first())
    } else {
        s
    }
}

/// The input without trailing whitespace.
pub open spec fn trim_back_v(s: Seq<char>) -> Seq<char>
    decreases s.len(),
{
    if s.len() > 0 && is_ws(s.last()) {
        trim_back_v(s.drop_last())
    } else {
        s
    }
}

/// The input without leading or trailing whitespace.
pub open spec fn trim_v(s: Seq<char>) -> Seq<char> {
    trim_back_v(trim_front_v(s))
}

/// Skipping a whitespace prefix is what trimming the front does.
proof fn lemma_trim_front_at(s: Seq<char>, a: int)
    requires
        0 <= a <= s.len(),
        forall|j: int| 0 <= j < a ==> is_ws(s[j]),
        a == s.len() || !is_ws(s[a]),
    ensures
        trim_front_v(s) == s.skip(a),
    decreases a,
{
    if a == 0 {
        assert(s.skip(0) =~= s);
    } else {
        assert(is_ws(s[0]));
        lemma_trim_front_at(s.drop_first(), a - 1);
        assert(s.drop_first().skip(a - 1) =~= s.skip(a));
    }
}

/// Taking everything up to the last non-whitespace character is what
/// trimming the back does.
proof fn lemma_trim_back_at(s: Seq<char>, b: int)
    requires
        0 <= b <= s.len(),
        forall|j: int| b <= j < s.len() ==> is_ws(s[j]),
        b == 0 || !is_ws(s[b - 1]),
    ensures
        trim_back_v(s) == s.take(b),
    decreases s.len(),
{
    if b == s.len() {
        if s.len() > 0 {
            assert(!is_ws(s.last()));
        }
        assert(s.take(b) =~= s);
    } else {
        assert(is_ws(s.last()));
        lemma_trim_back_at(s.drop_last(), b);
        assert(s.drop_last().take(b) =~= s.take(b));
    }
}

/// The input without leading or trailing whitespace.
pub fn trim_chars(s: &str) -> (r: String)
    ensures
        r@ == trim_v(s@),
{
    let len = s.unicode_len();
    let mut a: usize = 0;
    while a < len && (s.get_char(a) == ' ' || s.get_char(a) == '\t' || s.get_char(a) == '\r')
        invariant
            a <= len,
            len == s@.len(),
            forall|j: int| 0 <= j < a ==> is_ws(s@[j]),
        decreases len - a,
    {
        a = a + 1;
    }
    proof {
        lemma_trim_front_at(s@, a as int);
    }
    if a == len {
        proof {
            assert(s@.skip(a as int) =~= Seq::<char>::empty());
            assert(trim_back_v(Seq::<char>::empty()) == Seq::<char>::empty());
        }
        return String::new();
    }
    let mut b: usize = len;
    while b > a && (s.get_char(b - 1) == ' ' || s.get_char(b - 1) == '\t' || s.get_char(b - 1)
        == '\r')
        invariant
            a <= b <= len,
            len == s@.len(),
            forall|j: int| b <= j < len ==> is_ws(s@[j]),
        decreases b,
    {
        b = b - 1;
    }
    proof {
        let t = s@.skip(a as int);
        assert(!is_ws(s@[a as int]));
        assert(b > a);
        assert forall|j: int| b - a <= j < t.len() implies is_ws(t[j]) by {
            assert(t[j] == s@[a + j]);
        }
        assert(t[b - a - 1] == s@[b - 1]);
        lemma_trim_back_at(t, b - a);
        assert(t.take(b - a) =~= s@.subrange(a as int, b as int));
    }
    let out = s.substring_char(a, b);
    out.to_owned()
}

/// The first line of the input and what follows its newline.
pub open spec fn split_first_line(s: Seq<char>) -> (Seq<char>, Seq<char>)
    decreases s.len(),
{
    if s.len() == 0 {
        (Seq::empty(), Seq::empty())
    } else if s[0] == '\n' {
        (Seq::empty(), s.drop_first())
    } else {
        let (l, r) = split_first_line(s.drop_first());
        (seq![s[0]] + l, r)
    }
}

/// What follows the first line is shorter than the input was.
proof fn lemma_split_first_line_consumes(s: Seq<char>)
    ensures
        s.len() > 0 ==> split_first_line(s).1.len() < s.len(),
    decreases s.len(),
{
    if s.len() > 0 && s[0] != '\n' {
        lemma_split_first_line_consumes(s.drop_first());
        if s.drop_first().len() == 0 {
            assert(split_first_line(s.drop_first()).1.len() == 0);
        }
    }
}

/// The input as a list of lines, the newline separators dropped.
pub open spec fn lines_v(s: Seq<char>) -> Seq<Seq<char>>
    decreases s.len(),
    via lines_v_dec
{
    if s.len() == 0 {
        Seq::empty()
    } else {
        seq![split_first_line(s).0] + lines_v(split_first_line(s).1)
    }
}

#[via_fn]
proof fn lines_v_dec(s: Seq<char>) {
    lemma_split_first_line_consumes(s);
}

/// Between two positions with no newline, ending at a newline or at the
/// end, the first line is exactly that stretch.
proof fn lemma_split_first_line_at(s: Seq<char>, e: int)
    requires
        0 <= e <= s.len(),
        forall|j: int| 0 <= j < e ==> s[j] != '\n',
        e == s.len() || s[e] == '\n',
    ensures
        split_first_line(s).0 == s.take(e),
        e == s.len() ==> split_first_line(s).1 == Seq::<char>::empty(),
        e < s.len() ==> split_first_line(s).1 == s.skip(e + 1),
    decreases e,
{
    if s.len() == 0 {
        assert(s.take(0) =~= Seq::<char>::empty());
    } else if e == 0 {
        assert(s.take(0) =~= Seq::<char>::empty());
    } else {
        assert(s[0] != '\n');
        lemma_split_first_line_at(s.drop_first(), e - 1);
        assert(seq![s[0]] + s.drop_first().take(e - 1) =~= s.take(e));
        if e < s.len() {
            assert(s.drop_first().skip(e) =~= s.skip(e + 1));
        }
    }
}

/// The tag for a file shown as modified.
pub const TAG_MODIFIED: u8 = 0;

/// The tag for a file shown as added.
pub const TAG_ADDED: u8 = 1;

/// The tag for a file shown as deleted.
pub const TAG_DELETED: u8 = 2;

/// Where `sub` first occurs in `s`.
pub open spec fn first_sub_index(s: Seq<char>, sub: Seq<char>) -> int {
    choose|i: int|
        0 <= i <= s.len() - sub.len() && sub.is_prefix_of(s.skip(i)) && (forall|k: int|
            0 <= k < i ==> !sub.is_prefix_of(s.skip(k)))
}

/// A match with none before it is the first one.
proof fn lemma_first_sub_index(s: Seq<char>, sub: Seq<char>, i: int)
    requires
        0 <= i <= s.len() - sub.len(),
        sub.is_prefix_of(s.skip(i)),
        forall|k: int| 0 <= k < i ==> !sub.is_prefix_of(s.skip(k)),
    ensures
        first_sub_index(s, sub) == i,
{
    let w = first_sub_index(s, sub);
    assert(0 <= w <= s.len() - sub.len() && sub.is_prefix_of(s.skip(w)) && (forall|k: int|
        0 <= k < w ==> !sub.is_prefix_of(s.skip(k))));
}

/// Where `sub` first occurs in `s`, if it occurs at all.
pub fn find_first(s: &str, sub: &str) -> (r: Option<usize>)
    requires
        sub@.len() > 0,
    ensures
        match r {
            None => !crate::jail::contains_sub(s@, sub@),
            Some(i) => i + sub@.len() <= s@.len() && sub@.is_prefix_of(s@.skip(i as int))
                && first_sub_index(s@, sub@) == i,
        },
{
    let sl = s.unicode_len();
    let bl = sub.unicode_len();
    if bl > sl {
        proof {
            assert(!crate::jail::contains_sub(s@, sub@)) by {
                if crate::jail::contains_sub(s@, sub@) {
                    let i = choose|i: int|
                        0 <= i <= s@.len() - sub@.len() && sub@.is_prefix_of(s@.skip(i));
                }
            }
        }
        return None;
    }
    let mut i: usize = 0;
    while i <= sl - bl
        invariant
            0 < bl <= sl,
            sl == s@.len(),
            bl == sub@.len(),
            i <= sl - bl + 1,
            forall|k: int| 0 <= k < i ==> !sub@.is_prefix_of(s@.skip(k)),
        decreases sl - bl + 1 - i,
    {
        let mut j: usize = 0;
        let mut matched = true;
        while j < bl
            invariant
                i + bl <= sl,
                sl == s@.len(),
                bl == sub@.len(),
                j <= bl,
                matched ==> forall|k: int| 0 <= k < j ==> s@[i + k] == sub@[k],
                !matched ==> !sub@.is_prefix_of(s@.skip(i as int)),
            decreases bl - j,
        {
            if s.get_char(i + j) != sub.get_char(j) {
                matched = false;
                proof {
                    assert(s@.skip(i as int)[j as int] == s@[i + j]);
                    assert(!sub@.is_prefix_of(s@.skip(i as int)));
                }
                j = bl;
            } else {
                j = j + 1;
            }
        }
        if matched {
            proof {
                assert forall|k: int| 0 <= k < bl implies sub@[k] == s@.skip(i as int)[k] by {
                    assert(s@[i + k] == sub@[k]);
                }
                assert(sub@ =~= s@.skip(i as int).subrange(0, bl as int));
                assert(sub@.is_prefix_of(s@.skip(i as int)));
                lemma_first_sub_index(s@, sub@, i as int);
            }
            return Some(i);
        }
        i = i + 1;
    }
    proof {
        assert(!crate::jail::contains_sub(s@, sub@)) by {
            if crate::jail::contains_sub(s@, sub@) {
                let k = choose|k: int|
                    0 <= k <= s@.len() - sub@.len() && sub@.is_prefix_of(s@.skip(k));
                assert(!sub@.is_prefix_of(s@.skip(k)));
            }
        }
    }
    None
}

/// A renamed entry names old and new path around an arrow; the new path
/// is what the listing shows.
pub open spec fn rename_target(f: Seq<char>) -> Seq<char> {
    if crate::jail::contains_sub(f, " -> "@) {
        f.skip(first_sub_index(f, " -> "@) + 4)
    } else {
        f
    }
}

/// How one status line is categorized: the file it names, tagged as
/// modified, added or deleted, or nothing for a line too short to carry a
/// code, or an unrecognized code with an empty file.
pub open spec fn cat_of_line(line: Seq<char>) -> Option<(int, Seq<char>)> {
    if line.len() < 3 {
        None
    } else {
        let code = trim_v(line.subrange(0, 2));
        let file = trim_v(line.skip(3));
        if code == "M"@ || code == "MM"@ || code == "AM"@ {
            Some((TAG_MODIFIED as int, file))
        } else if code == "A"@ || code == "??"@ {
            Some((TAG_ADDED as int, file))
        } else if code == "D"@ {
            Some((TAG_DELETED as int, file))
        } else if code == "R"@ {
            Some((TAG_MODIFIED as int, rename_target(file)))
        } else if file.len() > 0 {
            Some((TAG_MODIFIED as int, file))
        } else {
            None
        }
    }
}

/// The categorized listing for a sequence of lines, in input order:
/// modified, added and deleted files.
pub open spec fn cats_of(ls: Seq<Seq<char>>) -> (Seq<Seq<char>>, Seq<Seq<char>>, Seq<Seq<char>>)
    decreases ls.len(),
{
    if ls.len() == 0 {
        (Seq::empty(), Seq::empty(), Seq::empty())
    } else {
        let rest = cats_of(ls.drop_first());
        match cat_of_line(ls[0]) {
            None => rest,
            Some((t, f)) => if t == TAG_MODIFIED as int {
                (seq![f] + rest.0, rest.1, rest.2)
            } else if t == TAG_ADDED as int {
                (rest.0, seq![f] + rest.1, rest.2)
            } else {
                (rest.0, rest.1, seq![f] + rest.2)
            },
        }
    }
}

/// Categorizes one status line.
fn categorize_line(line: &str) -> (r: Option<(u8, String)>)
    ensures
        match r {
            None => cat_of_line(line@) is None,
            Some((t, f)) => cat_of_line(line@) == Some((t as int, f@)),
        },
{
    let len = line.unicode_len();
    if len < 3 {
        return None;
    }
    let code_raw = line.substring_char(0, 2);
    let code = trim_chars(code_raw);
    proof {
        assert(line@.subrange(0, 2) == code_raw@);
    }
    let file_raw = line.substring_char(3, len);
    let file = trim_chars(file_raw);
    proof {
        assert(line@.subrange(3, len as int) =~= line@.skip(3));
    }
    if str_eq(code.as_str(), "M") || str_eq(code.as_str(), "MM") || str_eq(code.as_str(), "AM") {
        Some((TAG_MODIFIED, file))
    } else if str_eq(code.as_str(), "A") || str_eq(code.as_str(), "??") {
        Some((TAG_ADDED, file))
    } else if str_eq(code.as_str(), "D") {
        Some((TAG_DELETED, file))
    } else if str_eq(code.as_str(), "R") {
        proof {
            reveal_strlit(" -> ");
        }
        let flen = file.as_str().unicode_len();
        match find_first(file.as_str(), " -> ") {
            Some(i) => {
                let target = file.as_str().substring_char(i + 4, flen);
                proof {
                    assert(file@.subrange(i + 4, file@.len() as int) =~= file@.skip(i + 4));
                }
                Some((TAG_MODIFIED, target.to_owned()))
            },
            None => Some((TAG_MODIFIED, file)),
        }
    } else if file.as_str().unicode_len() > 0 {
        Some((TAG_MODIFIED, file))
    } else {
        None
    }
}

/// Splits the status listing into the modified, added and deleted files,
/// in the order the tool printed them.
pub fn parse_porcelain(out: &str) -> (r: (Vec<String>, Vec<String>, Vec<String>))
    ensures
        r.0.deep_view() == cats_of(lines_v(out@)).0,
        r.1.deep_view() == cats_of(lines_v(out@)).1,
        r.2.deep_view() == cats_of(lines_v(out@)).2,
{
    let v = str_to_chars(out);
    let mut modified: Vec<String> = Vec::new();
    let mut added: Vec<String> = Vec::new();
    let mut deleted: Vec<String> = Vec::new();
    let mut p: usize = 0;
    proof {
        assert(out@.skip(0) =~= out@);
    }
    while p < v.len()
        invariant
            p <= v@.len(),
            v@ == out@,
            ({
                let whole = cats_of(lines_v(out@));
                let rest = cats_of(lines_v(out@.skip(p as int)));
                whole.0 == modified.deep_view() + rest.0 && whole.1 == added.deep_view() + rest.1
                    && whole.2 == deleted.deep_view() + rest.2
            }),
        decreases v@.len() - p,
    {
        let mut e: usize = p;
        while e < v.len() && v[e] != '\n'
            invariant
                p <= e <= v@.len(),
                v@ == out@,
                forall|j: int| p <= j < e ==> v@[j] != '\n',
            decreases v@.len() - e,
        {
            e = e + 1;
        }
        let ghost tail = out@.skip(p as int);
        proof {
            assert forall|j: int| 0 <= j < e - p implies tail[j] != '\n' by {
                assert(tail[j] == out@[p + j]);
            }
            if e < v@.len() {
                assert(tail[e - p] == out@[e as int]);
            }
            lemma_split_first_line_at(tail, e - p);
            assert(tail.take(e - p) =~= out@.subrange(p as int, e as int));
            if (e as int) < v@.len() {
                assert(tail.skip(e - p + 1) =~= out@.skip(e + 1));
            }
        }
        let line = chars_to_string_range(&v, p, e);
        let ghost line0 = tail.take(e - p);
        let ghost next = (if e >= v@.len() {
            Seq::<char>::empty()
        } else {
            out@.skip(e + 1)
        });
        proof {
            assert(line@ == line0);
            assert(split_first_line(tail).0 == line0);
            assert(split_first_line(tail).1 == next);
            assert(tail.len() > 0);
            assert(lines_v(tail) == seq![line0] + lines_v(next));
            assert((seq![line0] + lines_v(next))[0] == line0);
            assert((seq![line0] + lines_v(next)).drop_first() =~= lines_v(next));
        }
        let ghost rest_new = cats_of(lines_v(next));
        let ghost m_pre = modified;
        let ghost a_pre = added;
        let ghost d_pre = deleted;
        match categorize_line(line.as_str()) {
            None => {
                proof {
                    assert(cats_of(lines_v(tail)) == rest_new);
                }
            },
            Some((t, f)) => {
                let ghost fv = f@;
                if t == 0 {
                    modified.push(f);
                    proof {
                        lemma_deep_view_push(modified, m_pre, f);
                        assert(cats_of(lines_v(tail)).0 == seq![fv] + rest_new.0);
                        assert(cats_of(lines_v(tail)).1 == rest_new.1);
                        assert(cats_of(lines_v(tail)).2 == rest_new.2);
                        assert(m_pre.deep_view() + (seq![fv] + rest_new.0)
                            =~= modified.deep_view() + rest_new.0);
                    }
                } else if t == 1 {
                    added.push(f);
                    proof {
                        lemma_deep_view_push(added, a_pre, f);
                        assert(cats_of(lines_v(tail)).0 == rest_new.0);
                        assert(cats_of(lines_v(tail)).1 == seq![fv] + rest_new.1);
                        assert(cats_of(lines_v(tail)).2 == rest_new.2);
                        assert(a_pre.deep_view() + (seq![fv] + rest_new.1) =~= added.deep_view()
                            + rest_new.1);
                    }
                } else {
                    deleted.push(f);
                    proof {
                        lemma_deep_view_push(deleted, d_pre, f);
                        assert(cats_of(lines_v(tail)).0 == rest_new.0);
                        assert(cats_of(lines_v(tail)).1 == rest_new.1);
                        assert(cats_of(lines_v(tail)).2 == seq![fv] + rest_new.2);
                        assert(d_pre.deep_view() + (seq![fv] + rest_new.2) =~= deleted.deep_view()
                            + rest_new.2);
                    }
                }
            },
        }
        if e >= v.len() {
            p = v.len();
            proof {
                assert(out@.skip(p as int) =~= Seq::<char>::empty());
            }
        } else {
            p = e + 1;
        }
    }
    proof {
        assert(out@.skip(out@.len() as int) =~= Seq::<char>::empty());
        assert(modified.deep_view() + cats_of(lines_v(Seq::<char>::empty())).0
            =~= modified.deep_view());
        assert(added.deep_view() + cats_of(lines_v(Seq::<char>::empty())).1 =~= added.deep_view());
        assert(deleted.deep_view() + cats_of(lines_v(Seq::<char>::empty())).2
            =~= deleted.deep_view());
    }
    (modified, added, deleted)
}

/// The characters of `v` between two positions, as a string.
fn chars_to_string_range(v: &Vec<char>, from: usize, to: usize) -> (r: String)
    requires
        from <= to <= v@.len(),
    ensures
        r@ == v@.subrange(from as int, to as int),
{
    let mut out: Vec<char> = Vec::new();
    let mut i = from;
    while i < to
        invariant
            from <= i <= to <= v@.len(),
            out@ == v@.subrange(from as int, i as int),
        decreases to - i,
    {
        out.push(v[i]);
        i = i + 1;
        proof {
            assert(out@ =~= v@.subrange(from as int, i as int));
        }
    }
    chars_to_string(&out)
}

/// The last position in `p` holding the character `c`.
pub open spec fn last_char_index(p: Seq<char>, c: char) -> int {
    choose|i: int| 0 <= i < p.len() && p[i] == c && (forall|j: int| i < j < p.len() ==> p[j] != c)
}

/// An occurrence with none after it is the last one.
proof fn lemma_last_char_index(p: Seq<char>, c: char, i: int)
    requires
        0 <= i < p.len(),
        p[i] == c,
        forall|j: int| i < j < p.len() ==> p[j] != c,
    ensures
        last_char_index(p, c) == i,
{
    let w = last_char_index(p, c);
    assert(0 <= w < p.len() && p[w] == c && (forall|j: int| w < j < p.len() ==> p[j] != c));
    if w < i {
        assert(p[i] != c);
    }
    if w > i {
        assert(p[w] != c);
    }
}

/// The last whitespace-separated token of the input, or nothing, as the
/// empty sequence, when the input is blank.
pub open spec fn last_token_v(s: Seq<char>) -> Seq<char> {
    let t = trim_back_v(s);
    if t.len() == 0 {
        Seq::empty()
    } else if exists|i: int| 0 <= i < t.len() && is_ws(t[i]) {
        t.skip(last_char_index_ws(t) + 1)
    } else {
        t
    }
}

/// The last whitespace position of the input.
pub open spec fn last_char_index_ws(p: Seq<char>) -> int {
    choose|i: int| 0 <= i < p.len() && is_ws(p[i]) && (forall|j: int| i < j < p.len() ==> !is_ws(p[j]))
}

/// A whitespace position with none after it is the last one.
proof fn lemma_last_ws_index(p: Seq<char>, i: int)
    requires
        0 <= i < p.len(),
        is_ws(p[i]),
        forall|j: int| i < j < p.len() ==> !is_ws(p[j]),
    ensures
        last_char_index_ws(p) == i,
{
    let w = last_char_index_ws(p);
    assert(0 <= w < p.len() && is_ws(p[w]) && (forall|j: int| w < j < p.len() ==> !is_ws(p[j])));
    if w < i {
        assert(!is_ws(p[i]));
    }
    if w > i {
        assert(!is_ws(p[w]));
    }
}

/// The last whitespace-separated token of the input, or the empty string.
pub fn last_token(s: &str) -> (r: String)
    ensures
        r@ == last_token_v(s@),
{
    let len = s.unicode_len();
    let mut b: usize = len;
    while b > 0 && (s.get_char(b - 1) == ' ' || s.get_char(b - 1) == '\t' || s.get_char(b - 1)
        == '\r')
        invariant
            b <= len,
            len == s@.len(),
            forall|j: int| b <= j < len ==> is_ws(s@[j]),
        decreases b,
    {
        b = b - 1;
    }
    proof {
        lemma_trim_back_at(s@, b as int);
    }
    if b == 0 {
        proof {
            assert(s@.take(0) =~= Seq::<char>::empty());
        }
        return String::new();
    }
    let ghost t = s@.take(b as int);
    proof {
        assert(t.len() == b);
        assert(!is_ws(t[b - 1]));
    }
    let mut k: usize = b;
    while k > 0
        invariant
            k <= b <= len,
            len == s@.len(),
            t == s@.take(b as int),
            trim_back_v(s@) == t,
            b > 0,
            forall|j: int| k <= j < b ==> !is_ws(t[j]),
        decreases k,
    {
        k = k - 1;
        if s.get_char(k) == ' ' || s.get_char(k) == '\t' || s.get_char(k) == '\r' {
            proof {
                assert(t[k as int] == s@[k as int]);
                assert(is_ws(t[k as int]));
                assert(exists|i: int| 0 <= i < t.len() && is_ws(t[i]));
                lemma_last_ws_index(t, k as int);
                assert(t.skip(k + 1) =~= s@.subrange(k + 1, b as int));
            }
            proof {
                assert(trim_back_v(s@) == t);
                assert(t.len() != 0);
                assert(last_char_index_ws(t) == k as int);
                assert(last_token_v(s@) == t.skip(k + 1));
            }
            let tok = s.substring_char(k + 1, b);
            return tok.to_owned();
        }
        proof {
            assert(t[k as int] == s@[k as int]);
        }
    }
    proof {
        assert(forall|j: int| 0 <= j < t.len() ==> !is_ws(t[j]));
        assert(!(exists|i: int| 0 <= i < t.len() && is_ws(t[i])));
        assert(t =~= s@.subrange(0, b as int));
    }
    let tok = s.substring_char(0, b);
    tok.to_owned()
}

/// The numeric value of a token that is one run of digits fitting
/// thirty-two bits; anything else counts as zero.
pub open spec fn token_num(t: Seq<char>) -> u32 {
    if t.len() > 0 && is_digit(t[0]) && munch_digits(t, 0).1.len() == 0 && munch_digits(t, 0).0
        <= u32::MAX {
        munch_digits(t, 0).0 as u32
    } else {
        0
    }
}

/// Reads a token as a count.
pub fn parse_token_num(t: &str) -> (r: u32)
    ensures
        r == token_num(t@),
{
    let v = str_to_chars(t);
    proof {
        assert(v@.skip(0) =~= v@);
    }
    match crate::codec::parse_u64(&v, 0) {
        None => {
            proof {
                if v@.len() > 0 && is_digit(v@[0]) {
                    assert(sp_number(v@) == Some(munch_digits(v@, 0)));
                    assert(munch_digits(v@, 0).0 > u64::MAX);
                    assert(munch_digits(v@, 0).0 > u32::MAX);
                }
            }
            0
        },
        Some((x, j)) => {
            proof {
                assert(v@.skip(0) =~= v@);
            }
            if j == v.len() && x <= 0xffff_ffff {
                proof {
                    assert(sp_number(v@) == Some((x as nat, v@.skip(j as int))));
                    assert(v@.skip(j as int).len() == 0);
                    assert(u32::MAX == 0xffff_ffffu32);
                }
                x as u32
            } else {
                proof {
                    assert(sp_number(v@) == Some((x as nat, v@.skip(j as int))));
                    if j < v@.len() {
                        assert(v@.skip(j as int).len() != 0);
                    }
                }
                0
            }
        },
    }
}

/// The count standing before the first occurrence of `kw` in the summary
/// line, taken as the last token of what precedes it; zero when the
/// keyword is absent.
pub open spec fn count_before(sum: Seq<char>, kw: Seq<char>) -> u32 {
    if crate::jail::contains_sub(sum, kw) {
        token_num(last_token_v(sum.take(first_sub_index(sum, kw))))
    } else {
        0
    }
}

/// As `count_before`, but taken from what follows the last comma of the
/// preceding text, the way the deletions figure is listed.
pub open spec fn count_before_after_comma(sum: Seq<char>, kw: Seq<char>) -> u32 {
    if crate::jail::contains_sub(sum, kw) {
        let pre = sum.take(first_sub_index(sum, kw));
        let part = if exists|i: int| 0 <= i < pre.len() && pre[i] == ',' {
            pre.skip(last_char_index(pre, ',') + 1)
        } else {
            pre
        };
        token_num(last_token_v(part))
    } else {
        0
    }
}

/// The summary triple of a diff-stat listing: insertions, deletions and
/// files changed, read from its last line; a listing without one counts
/// nothing.
pub open spec fn diff_stats_v(out: Seq<char>) -> (u32, u32, u32) {
    let ls = lines_v(out);
    if ls.len() == 0 {
        (0, 0, 0)
    } else {
        let sum = ls.last();
        (
            count_before(sum, "insertion"@),
            count_before_after_comma(sum, "deletion"@),
            count_before(sum, "file"@),
        )
    }
}

/// The last line of the input, or nothing for an empty input.
fn last_line(out: &str) -> (r: Option<String>)
    ensures
        match r {
            None => lines_v(out@).len() == 0,
            Some(l) => lines_v(out@).len() > 0 && l@ == lines_v(out@).last(),
        },
{
    let v = str_to_chars(out);
    if v.len() == 0 {
        proof {
            assert(lines_v(out@).len() == 0);
        }
        return None;
    }
    let mut last = String::new();
    let ghost mut done: Seq<Seq<char>> = Seq::empty();
    let mut p: usize = 0;
    proof {
        assert(out@.skip(0) =~= out@);
        assert(done + lines_v(out@.skip(0)) =~= lines_v(out@));
    }
    while p < v.len()
        invariant
            p <= v@.len(),
            v@ == out@,
            lines_v(out@) == done + lines_v(out@.skip(p as int)),
            done.len() > 0 ==> last@ == done.last(),
            p < v@.len() || done.len() > 0,
            v@.len() > 0,
            done.len() == 0 ==> p == 0,
        decreases v@.len() - p,
    {
        let mut e: usize = p;
        while e < v.len() && v[e] != '\n'
            invariant
                p <= e <= v@.len(),
                v@ == out@,
                forall|j: int| p <= j < e ==> v@[j] != '\n',
            decreases v@.len() - e,
        {
            e = e + 1;
        }
        let ghost tail = out@.skip(p as int);
        proof {
            assert forall|j: int| 0 <= j < e - p implies tail[j] != '\n' by {
                assert(tail[j] == out@[p + j]);
            }
            if e < v@.len() {
                assert(tail[e - p] == out@[e as int]);
            }
            lemma_split_first_line_at(tail, e - p);
            assert(tail.take(e - p) =~= out@.subrange(p as int, e as int));
            if (e as int) < v@.len() {
                assert(tail.skip(e - p + 1) =~= out@.skip(e + 1));
            }
            assert(lines_v(tail) == seq![tail.take(e - p)] + lines_v(split_first_line(tail).1));
        }
        last = chars_to_string_range(&v, p, e);
        proof {
            done = done.push(tail.take(e - p));
            assert((seq![tail.take(e - p)] + lines_v(split_first_line(tail).1)).drop_first()
                =~= lines_v(split_first_line(tail).1));
            assert(done + lines_v(split_first_line(tail).1) =~= lines_v(out@));
        }
        if e >= v.len() {
            p = v.len();
            proof {
                assert(out@.skip(p as int) =~= Seq::<char>::empty());
                assert(lines_v(out@.skip(p as int)) =~= Seq::<Seq<char>>::empty());
                assert(done + lines_v(out@.skip(p as int)) =~= done);
                assert(done + lines_v(out@.skip(p as int)) =~= lines_v(out@));
            }
        } else {
            p = e + 1;
        }
    }
    proof {
        assert(out@.skip(v@.len() as int) =~= Seq::<char>::empty());
        assert(lines_v(out@) =~= done);
        assert(done.len() > 0);
    }
    Some(last)
}

/// Reads the summary triple — insertions, deletions, files changed — from
/// a diff-stat listing.
pub fn parse_diff_stats(output: &str) -> (r: (u32, u32, u32))
    ensures
        r == diff_stats_v(output@),
{
    proof {
        reveal_strlit("insertion");
        reveal_strlit("deletion");
        reveal_strlit("file");
    }
    let sum = match last_line(output) {
        None => {
            return (0, 0, 0);
        },
        Some(l) => l,
    };
    let insertions = stat_count(sum.as_str(), "insertion");
    let deletions = stat_count_after_comma(sum.as_str(), "deletion");
    let files = stat_count(sum.as_str(), "file");
    (insertions, deletions, files)
}

/// The count before the first occurrence of `kw`.
fn stat_count(sum: &str, kw: &str) -> (r: u32)
    requires
        kw@.len() > 0,
    ensures
        r == count_before(sum@, kw@),
{
    match find_first(sum, kw) {
        None => 0,
        Some(i) => {
            let pre = sum.substring_char(0, i);
            proof {
                assert(sum@.subrange(0, i as int) =~= sum@.take(i as int));
            }
            let tok = last_token(pre);
            parse_token_num(tok.as_str())
        },
    }
}

/// The count before the first occurrence of `kw`, read after the last
/// comma of the preceding text.
fn stat_count_after_comma(sum: &str, kw: &str) -> (r: u32)
    requires
        kw@.len() > 0,
    ensures
        r == count_before_after_comma(sum@, kw@),
{
    match find_first(sum, kw) {
        None => 0,
        Some(i) => {
            let pre = sum.substring_char(0, i);
            proof {
                assert(crate::jail::contains_sub(sum@, kw@));
                assert(sum@.subrange(0, i as int) =~= sum@.take(i as int));
            }
            let plen = pre.unicode_len();
            let mut k: usize = plen;
            while k > 0
                invariant
                    k <= plen,
                    plen == pre@.len(),
                    pre@ == sum@.take(first_sub_index(sum@, kw@)),
                    crate::jail::contains_sub(sum@, kw@),
                    forall|j: int| k <= j < plen ==> pre@[j] != ',',
                decreases k,
            {
                k = k - 1;
                if pre.get_char(k) == ',' {
                    proof {
                        assert(pre@[k as int] == ',');
                        assert(exists|i: int| 0 <= i < pre@.len() && pre@[i] == ',');
                        lemma_last_char_index(pre@, ',', k as int);
                        assert(pre@.subrange(k + 1, plen as int) =~= pre@.skip(k + 1));
                    }
                    let part = pre.substring_char(k + 1, plen);
                    let tok = last_token(part);
                    return parse_token_num(tok.as_str());
                }
            }
            proof {
                assert(forall|j: int| 0 <= j < pre@.len() ==> pre@[j] != ',');
            }
            let tok = last_token(pre);
            parse_token_num(tok.as_str())
        },
    }
}

} // verus!
