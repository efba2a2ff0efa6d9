//! Character-level text operations used throughout the library, each with
//! its mathematical meaning stated over `Seq<char>`.
use vstd::prelude::*;

verus! {

broadcast use vstd::string::group_string_axioms;

/// `String::push` appends one character at the end.
pub assume_specification[ String::push ](s: &mut String, ch: char)
    ensures
        final(s)@ == old(s)@.push(ch),
;

/// The characters of `s`, in order.
pub fn chars_of(s: &str) -> (r: Vec<char>)
    ensures
        r@ == s@,
{
    let mut out: Vec<char> = Vec::new();
    for c in iter: s.chars()
        invariant
            out@ == iter.seq().take(iter.index() as int),
            iter.seq() == s@,
    {
        out.push(c);
    }
    out
}

/// A `String` holding exactly the characters `cs[from..to]`.
pub fn string_from_range(cs: &[char], from: usize, to: usize) -> (r: String)
    requires
        from <= to <= cs@.len(),
    ensures
        r@ == cs@.subrange(from as int, to as int),
{
    let mut out = String::new();
    let mut i = from;
    while i < to
        invariant
            from <= i <= to <= cs@.len(),
            out@ == cs@.subrange(from as int, i as int),
        decreases to - i,
    {
        out.push(cs[i]);
        i = i + 1;
    }
    out
}

/// A `String` holding exactly the characters `cs`.
pub fn string_from_chars(cs: &[char]) -> (r: String)
    ensures
        r@ == cs@,
{
    let r = string_from_range(cs, 0, cs.len());
    assert(cs@.subrange(0, cs@.len() as int) == cs@);
    r
}

/// Appends the characters of `t` to `s`.
pub fn push_str(s: &mut String, t: &str)
    ensures
        final(s)@ == old(s)@ + t@,
{
    let cs = chars_of(t);
    let mut i: usize = 0;
    while i < cs.len()
        invariant
            i <= cs@.len(),
            cs@ == t@,
            s@ == old(s)@ + t@.take(i as int),
        decreases cs.len() - i,
    {
        s.push(cs[i]);
        i = i + 1;
        assert(t@.take(i as int) == t@.take(i - 1 as int).push(t@[i - 1]));
    }
    assert(t@.take(cs@.len() as int) == t@);
}

/// `s + t` as a new `String`.
pub fn concat(s: &str, t: &str) -> (r: String)
    ensures
        r@ == s@ + t@,
{
    let mut r = String::new();
    push_str(&mut r, s);
    push_str(&mut r, t);
    assert(r@ == Seq::<char>::empty() + s@ + t@);
    assert(Seq::<char>::empty() + s@ == s@);
    r
}

/// A copy of `s` as an owned `String`.
pub fn owned(s: &str) -> (r: String)
    ensures
        r@ == s@,
{
    let mut r = String::new();
    push_str(&mut r, s);
    assert(Seq::<char>::empty() + s@ == s@);
    r
}

// ---------------------------------------------------------------------------
// ASCII case folding
// ---------------------------------------------------------------------------

/// ASCII lower-casing of one character; other characters are unchanged.
pub open spec fn ascii_lower_char(c: char) -> char {
    if 'A' <= c && c <= 'Z' {
        ((c as u32) + 32) as char
    } else {
        c
    }
}

/// ASCII lower-casing of a whole text, as `str::to_ascii_lowercase` does.
pub open spec fn ascii_lower(s: Seq<char>) -> Seq<char> {
    s.map_values(|c: char| ascii_lower_char(c))
}

pub fn lower_char(c: char) -> (r: char)
    ensures
        r == ascii_lower_char(c),
{
    if 'A' <= c && c <= 'Z' {
        let code: u32 = c as u32;
        let lowered: u8 = (code + 32) as u8;
        lowered as char
    } else {
        c
    }
}

/// The characters of `s`, lower-cased in the ASCII range.
pub fn lower_chars(s: &str) -> (r: Vec<char>)
    ensures
        r@ == ascii_lower(s@),
{
    let cs = chars_of(s);
    let mut out: Vec<char> = Vec::new();
    let mut i: usize = 0;
    while i < cs.len()
        invariant
            i <= cs@.len(),
            cs@ == s@,
            out@ == ascii_lower(s@).take(i as int),
        decreases cs.len() - i,
    {
        out.push(lower_char(cs[i]));
        i = i + 1;
        assert(out@ =~= ascii_lower(s@).take(i as int));
    }
    assert(out@ =~= ascii_lower(s@));
    out
}

/// `str::to_ascii_lowercase`.
pub fn to_ascii_lowercase(s: &str) -> (r: String)
    ensures
        r@ == ascii_lower(s@),
{
    let cs = lower_chars(s);
    string_from_chars(cs.as_slice())
}


// ---------------------------------------------------------------------------
// Prefixes, suffixes and containment
// ---------------------------------------------------------------------------

/// `p` is a prefix of `s`.
pub open spec fn has_prefix(s: Seq<char>, p: Seq<char>) -> bool {
    p.len() <= s.len() && s.take(p.len() as int) == p
}

/// `p` is a suffix of `s`.
pub open spec fn has_suffix(s: Seq<char>, p: Seq<char>) -> bool {
    p.len() <= s.len() && s.skip(s.len() - p.len()) == p
}

/// `p` occurs in `s` starting at position `i`.
pub open spec fn occurs_at(s: Seq<char>, p: Seq<char>, i: int) -> bool {
    0 <= i && i + p.len() <= s.len() && s.subrange(i, i + p.len()) == p
}

/// `p` occurs somewhere in `s`.
pub open spec fn contains_seq(s: Seq<char>, p: Seq<char>) -> bool {
    exists|i: int| occurs_at(s, p, i)
}

/// Whether `p` occurs in `cs` at position `i`.
pub fn matches_at(cs: &[char], p: &[char], i: usize) -> (r: bool)
    ensures
        r == occurs_at(cs@, p@, i as int),
{
    if i > cs.len() || p.len() > cs.len() - i {
        return false;
    }
    let n = p.len();
    let mut k: usize = 0;
    while k < n
        invariant
            n == p@.len(),
            i + n <= cs.len(),
            cs.len() == cs@.len(),
            k <= p@.len(),
            forall|j: int| 0 <= j < k ==> cs@[i + j] == p@[j],
        decreases p.len() - k,
    {
        if cs[i + k] != p[k] {
            assert(cs@.subrange(i as int, i + p@.len())[k as int] != p@[k as int]);
            return false;
        }
        k = k + 1;
    }
    assert(cs@.subrange(i as int, i + p@.len()) =~= p@);
    true
}

/// Whether `cs` starts with `p`.
pub fn starts_with(cs: &[char], p: &str) -> (r: bool)
    ensures
        r == has_prefix(cs@, p@),
{
    let pc = chars_of(p);
    let r = matches_at(cs, pc.as_slice(), 0);
    assert(has_prefix(cs@, p@) <==> occurs_at(cs@, p@, 0)) by {
        if p@.len() <= cs@.len() {
            assert(cs@.take(p@.len() as int) == cs@.subrange(0, p@.len() as int));
        }
    }
    r
}

/// Whether `cs` ends with `p`.
pub fn ends_with(cs: &[char], p: &str) -> (r: bool)
    ensures
        r == has_suffix(cs@, p@),
{
    let pc = chars_of(p);
    if pc.len() > cs.len() {
        return false;
    }
    let start = cs.len() - pc.len();
    let r = matches_at(cs, pc.as_slice(), start);
    assert(cs@.skip(start as int) == cs@.subrange(start as int, start + p@.len()));
    r
}

/// Whether `p` occurs anywhere in `cs`.
pub fn contains(cs: &[char], p: &str) -> (r: bool)
    ensures
        r == contains_seq(cs@, p@),
{
    let pc = chars_of(p);
    if pc.len() > cs.len() {
        return false;
    }
    let last = cs.len() - pc.len();
    let mut i: usize = 0;
    while i < last
        invariant
            i <= last,
            last + p@.len() == cs@.len(),
            pc@ == p@,
            forall|j: int| 0 <= j < i ==> !occurs_at(cs@, p@, j),
        decreases last - i,
    {
        if matches_at(cs, pc.as_slice(), i) {
            return true;
        }
        i = i + 1;
    }
    if matches_at(cs, pc.as_slice(), last) {
        return true;
    }
    assert forall|j: int| !occurs_at(cs@, p@, j) by {
        if 0 <= j && j < i {
        }
    }
    false
}

// ---------------------------------------------------------------------------
// Whitespace and trimming
// ---------------------------------------------------------------------------

/// The Unicode `White_Space` property, which `char::is_whitespace` tests.
pub open spec fn is_whitespace(c: char) -> bool {
    let v = c as u32;
    (0x09 <= v && v <= 0x0D) || v == 0x20 || v == 0x85 || v == 0xA0 || v == 0x1680
        || (0x2000 <= v && v <= 0x200A) || v == 0x2028 || v == 0x2029 || v == 0x202F
        || v == 0x205F || v == 0x3000
}

pub fn whitespace(c: char) -> (r: bool)
    ensures
        r == is_whitespace(c),
{
    let v: u32 = c as u32;
    (0x09 <= v && v <= 0x0D) || v == 0x20 || v == 0x85 || v == 0xA0 || v == 0x1680
        || (0x2000 <= v && v <= 0x200A) || v == 0x2028 || v == 0x2029 || v == 0x202F
        || v == 0x205F || v == 0x3000
}

/// `s` without its leading whitespace.
pub open spec fn trim_start(s: Seq<char>) -> Seq<char>
    decreases s.len(),
{
    if s.len() > 0 && is_whitespace(s[0]) {
        trim_start(s.drop_first())
    } else {
        s
    }
}

/// `s` without its trailing whitespace.
pub open spec fn trim_end(s: Seq<char>) -> Seq<char>
    decreases s.len(),
{
    if s.len() > 0 && is_whitespace(s.last()) {
        trim_end(s.drop_last())
    } else {
        s
    }
}

/// `str::trim`: `s` without leading and trailing whitespace.
pub open spec fn trim(s: Seq<char>) -> Seq<char> {
    trim_end(trim_start(s))
}

/// Index of the first non-whitespace character of `cs[from..to]` (or `to`).
fn skip_leading_ws(cs: &[char], from: usize, to: usize) -> (r: usize)
    requires
        from <= to <= cs@.len(),
    ensures
        from <= r <= to,
        trim_start(cs@.subrange(from as int, to as int)) == cs@.subrange(r as int, to as int),
{
    let mut i = from;
    while i < to && whitespace(cs[i])
        invariant
            from <= i <= to <= cs@.len(),
            trim_start(cs@.subrange(from as int, to as int)) == trim_start(
                cs@.subrange(i as int, to as int),
            ),
        decreases to - i,
    {
        assert(cs@.subrange(i as int, to as int).drop_first() == cs@.subrange(i + 1, to as int));
        i = i + 1;
    }
    i
}

/// End index after dropping trailing whitespace of `cs[from..to]`.
fn skip_trailing_ws(cs: &[char], from: usize, to: usize) -> (r: usize)
    requires
        from <= to <= cs@.len(),
    ensures
        from <= r <= to,
        trim_end(cs@.subrange(from as int, to as int)) == cs@.subrange(from as int, r as int),
{
    let mut j = to;
    while j > from && whitespace(cs[j - 1])
        invariant
            from <= j <= to <= cs@.len(),
            trim_end(cs@.subrange(from as int, to as int)) == trim_end(
                cs@.subrange(from as int, j as int),
            ),
        decreases j - from,
    {
        assert(cs@.subrange(from as int, j as int).drop_last() == cs@.subrange(
            from as int,
            j - 1,
        ));
        j = j - 1;
    }
    j
}

/// `str::trim` on a character sequence, as a new `String`.
pub fn trim_chars(cs: &[char]) -> (r: String)
    ensures
        r@ == trim(cs@),
{
    let i = skip_leading_ws(cs, 0, cs.len());
    let j = skip_trailing_ws(cs, i, cs.len());
    assert(cs@.subrange(0, cs@.len() as int) == cs@);
    string_from_range(cs, i, j)
}

/// `str::trim`, as a new `String`.
pub fn trim_str(s: &str) -> (r: String)
    ensures
        r@ == trim(s@),
{
    let cs = chars_of(s);
    trim_chars(cs.as_slice())
}

/// `s` without every trailing `c`.
pub open spec fn strip_end_char(s: Seq<char>, c: char) -> Seq<char>
    decreases s.len(),
{
    if s.len() > 0 && s.last() == c {
        strip_end_char(s.drop_last(), c)
    } else {
        s
    }
}

/// `s` without every leading `c`.
pub open spec fn strip_start_char(s: Seq<char>, c: char) -> Seq<char>
    decreases s.len(),
{
    if s.len() > 0 && s[0] == c {
        strip_start_char(s.drop_first(), c)
    } else {
        s
    }
}

/// `str::trim_end_matches(c)` for one character, as a new `String`.
pub fn trim_end_char(s: &str, c: char) -> (r: String)
    ensures
        r@ == strip_end_char(s@, c),
{
    let cs = chars_of(s);
    let mut j = cs.len();
    assert(s@.subrange(0, s@.len() as int) == s@);
    while j > 0 && cs[j - 1] == c
        invariant
            j <= cs@.len(),
            cs@ == s@,
            strip_end_char(s@, c) == strip_end_char(s@.subrange(0, j as int), c),
        decreases j,
    {
        assert(s@.subrange(0, j as int).drop_last() == s@.subrange(0, j - 1));
        j = j - 1;
    }
    assert(s@.subrange(0, s@.len() as int) == s@);
    string_from_range(cs.as_slice(), 0, j)
}

/// `str::trim_start_matches(c)` for one character, as a new `String`.
pub fn trim_start_char(s: &str, c: char) -> (r: String)
    ensures
        r@ == strip_start_char(s@, c),
{
    let cs = chars_of(s);
    let mut i: usize = 0;
    assert(s@.subrange(0, s@.len() as int) == s@);
    while i < cs.len() && cs[i] == c
        invariant
            i <= cs@.len(),
            cs@ == s@,
            strip_start_char(s@, c) == strip_start_char(s@.subrange(i as int, s@.len() as int), c),
        decreases cs.len() - i,
    {
        assert(s@.subrange(i as int, s@.len() as int).drop_first() == s@.subrange(
            i + 1,
            s@.len() as int,
        ));
        i = i + 1;
    }
    assert(s@.subrange(0, s@.len() as int) == s@);
    string_from_range(cs.as_slice(), i, cs.len())
}


// ---------------------------------------------------------------------------
// Replacement
// ---------------------------------------------------------------------------

/// `str::replace` with an empty pattern: `r` before every character and at the end.
pub open spec fn replace_empty(s: Seq<char>, r: Seq<char>) -> Seq<char>
    decreases s.len(),
{
    if s.len() == 0 {
        r
    } else {
        r + seq![s[0]] + replace_empty(s.drop_first(), r)
    }
}

/// `str::replace(p, r)`: every non-overlapping occurrence of `p`, scanning left
/// to right, replaced by `r`.
pub open spec fn replace_all(s: Seq<char>, p: Seq<char>, r: Seq<char>) -> Seq<char>
    decreases s.len(),
{
    if p.len() == 0 {
        replace_empty(s, r)
    } else if s.len() == 0 {
        s
    } else if has_prefix(s, p) {
        r + replace_all(s.skip(p.len() as int), p, r)
    } else {
        seq![s[0]] + replace_all(s.drop_first(), p, r)
    }
}

fn replace_empty_chars(cs: &[char], r: &str) -> (out: String)
    ensures
        out@ == replace_empty(cs@, r@),
{
    let mut out = String::new();
    let mut i: usize = 0;
    assert(cs@.skip(0) == cs@);
    assert(out@ + replace_empty(cs@, r@) == replace_empty(cs@, r@));
    while i < cs.len()
        invariant
            i <= cs@.len(),
            replace_empty(cs@, r@) == out@ + replace_empty(cs@.skip(i as int), r@),
        decreases cs.len() - i,
    {
        assert(cs@.skip(i as int).drop_first() == cs@.skip(i + 1));
        assert(cs@.skip(i as int)[0] == cs@[i as int]);
        push_str(&mut out, r);
        out.push(cs[i]);
        i = i + 1;
    }
    push_str(&mut out, r);
    out
}

/// `str::replace(p, r)` on a character sequence, as a new `String`.
pub fn replace_chars(cs: &[char], p: &str, r: &str) -> (out: String)
    ensures
        out@ == replace_all(cs@, p@, r@),
{
    let pc = chars_of(p);
    if pc.len() == 0 {
        return replace_empty_chars(cs, r);
    }
    let mut out = String::new();
    let mut i: usize = 0;
    assert(cs@.skip(0) == cs@);
    while i < cs.len()
        invariant
            i <= cs@.len(),
            pc@ == p@,
            p@.len() > 0,
            replace_all(cs@, p@, r@) == out@ + replace_all(cs@.skip(i as int), p@, r@),
        decreases cs.len() - i,
    {
        let ghost rest = cs@.skip(i as int);
        if matches_at(cs, pc.as_slice(), i) {
            assert(rest.take(p@.len() as int) == cs@.subrange(i as int, i + p@.len()));
            assert(rest.skip(p@.len() as int) == cs@.skip(i + p@.len()));
            push_str(&mut out, r);
            i = i + pc.len();
        } else {
            assert(!has_prefix(rest, p@)) by {
                if has_prefix(rest, p@) {
                    assert(rest.take(p@.len() as int) == cs@.subrange(i as int, i + p@.len()));
                }
            }
            assert(rest.drop_first() == cs@.skip(i + 1));
            out.push(cs[i]);
            i = i + 1;
        }
    }
    out
}

/// `str::replace(p, r)`, as a new `String`.
pub fn replace_str(s: &str, p: &str, r: &str) -> (out: String)
    ensures
        out@ == replace_all(s@, p@, r@),
{
    let cs = chars_of(s);
    replace_chars(cs.as_slice(), p, r)
}

/// `c` occurs nowhere in `s`.
pub open spec fn lacks_char(s: Seq<char>, c: char) -> bool {
    forall|j: int| 0 <= j < s.len() ==> s[j] != c
}

/// Until the first character of the replacement shows up, the output of a
/// replacement is a copy of its input.
pub proof fn lemma_replace_all_copies_prefix(s: Seq<char>, p: Seq<char>, r: Seq<char>, k: int)
    requires
        p.len() > 0,
        r.len() > 0,
        0 <= k <= replace_all(s, p, r).len(),
        lacks_char(replace_all(s, p, r).take(k), r[0]),
    ensures
        k <= s.len(),
        replace_all(s, p, r).take(k) == s.take(k),
    decreases s.len(),
{
    let out = replace_all(s, p, r);
    if k == 0 || s.len() == 0 {
        assert(out.take(k) =~= s.take(k));
    } else if has_prefix(s, p) {
        assert(out[0] == r[0]);
        assert(out.take(k)[0] == out[0]);
    } else {
        let rest = replace_all(s.drop_first(), p, r);
        assert(out == seq![s[0]] + rest);
        assert forall|j: int| 0 <= j < k - 1 implies #[trigger] rest.take(k - 1)[j] != r[0] by {
            assert(rest.take(k - 1)[j] == out.take(k)[j + 1]);
        }
        lemma_replace_all_copies_prefix(s.drop_first(), p, r, k - 1);
        assert(out.take(k) =~= seq![s[0]] + rest.take(k - 1));
        assert(s.take(k) =~= seq![s[0]] + s.drop_first().take(k - 1));
    }
}

/// An occurrence of `q` in `r + t` lies inside `r` or inside `t`, when `q`
/// does not contain the last character of `r`.
proof fn lemma_occurrence_after_marker(r: Seq<char>, t: Seq<char>, q: Seq<char>, i: int)
    requires
        r.len() > 0,
        q.len() > 0,
        lacks_char(q, r.last()),
        occurs_at(r + t, q, i),
    ensures
        occurs_at(r, q, i) || occurs_at(t, q, i - r.len()),
{
    let u = r + t;
    if i + q.len() <= r.len() {
        assert(u.subrange(i, i + q.len()) =~= r.subrange(i, i + q.len()));
    } else if i < r.len() {
        let j = r.len() - 1 - i;
        assert(u.subrange(i, i + q.len())[j] == u[r.len() - 1]);
        assert(q[j] == r.last());
    } else {
        assert(u.subrange(i, i + q.len()) =~= t.subrange(i - r.len(), i - r.len() + q.len()));
    }
}

/// After every `p` is replaced by a marker `r`, no `p` is left, provided `p`
/// does not occur in `r` and contains neither the first nor the last
/// character of `r`.
pub proof fn lemma_replace_all_leaves_no_pattern(s: Seq<char>, p: Seq<char>, r: Seq<char>)
    requires
        p.len() > 0,
        r.len() > 0,
        !contains_seq(r, p),
        lacks_char(p, r[0]),
        lacks_char(p, r.last()),
    ensures
        !contains_seq(replace_all(s, p, r), p),
    decreases s.len(),
{
    let out = replace_all(s, p, r);
    if s.len() == 0 {
        assert forall|i: int| !occurs_at(out, p, i) by {}
    } else if has_prefix(s, p) {
        let rest = replace_all(s.skip(p.len() as int), p, r);
        lemma_replace_all_leaves_no_pattern(s.skip(p.len() as int), p, r);
        assert forall|i: int| !occurs_at(out, p, i) by {
            if occurs_at(out, p, i) {
                lemma_occurrence_after_marker(r, rest, p, i);
            }
        }
    } else {
        let t = s.drop_first();
        let rest = replace_all(t, p, r);
        assert(out == seq![s[0]] + rest);
        lemma_replace_all_leaves_no_pattern(t, p, r);
        assert forall|i: int| !occurs_at(out, p, i) by {
            if occurs_at(out, p, i) {
                if i >= 1 {
                    assert(out.subrange(i, i + p.len()) =~= rest.subrange(i - 1, i - 1 + p.len()));
                    assert(occurs_at(rest, p, i - 1));
                } else {
                    let k = p.len() - 1;
                    assert forall|j: int| 0 <= j < k implies #[trigger] rest.take(k)[j] != r[0] by {
                        assert(rest.take(k)[j] == out.subrange(0, p.len() as int)[j + 1]);
                    }
                    lemma_replace_all_copies_prefix(t, p, r, k);
                    assert(s.take(p.len() as int) =~= seq![s[0]] + t.take(k));
                    assert(out.subrange(0, p.len() as int) =~= seq![s[0]] + rest.take(k));
                }
            }
        }
    }
}

/// Replacing `p` by a marker `r` introduces no occurrence of a text `q`
/// that was absent, provided `q` does not occur in `r` and contains neither
/// the first nor the last character of `r`.
pub proof fn lemma_replace_all_keeps_absent(s: Seq<char>, p: Seq<char>, r: Seq<char>, q: Seq<char>)
    requires
        p.len() > 0,
        q.len() > 0,
        r.len() > 0,
        !contains_seq(s, q),
        !contains_seq(r, q),
        lacks_char(q, r[0]),
        lacks_char(q, r.last()),
    ensures
        !contains_seq(replace_all(s, p, r), q),
    decreases s.len(),
{
    let out = replace_all(s, p, r);
    if s.len() == 0 {
        assert forall|i: int| !occurs_at(out, q, i) by {}
    } else if has_prefix(s, p) {
        let t = s.skip(p.len() as int);
        let rest = replace_all(t, p, r);
        assert forall|i: int| !occurs_at(t, q, i) by {
            if occurs_at(t, q, i) {
                assert(s.subrange(i + p.len(), i + p.len() + q.len()) =~= t.subrange(i, i + q.len()));
                assert(occurs_at(s, q, i + p.len()));
            }
        }
        lemma_replace_all_keeps_absent(t, p, r, q);
        assert forall|i: int| !occurs_at(out, q, i) by {
            if occurs_at(out, q, i) {
                lemma_occurrence_after_marker(r, rest, q, i);
            }
        }
    } else {
        let t = s.drop_first();
        let rest = replace_all(t, p, r);
        assert(out == seq![s[0]] + rest);
        assert forall|i: int| !occurs_at(t, q, i) by {
            if occurs_at(t, q, i) {
                assert(s.subrange(i + 1, i + 1 + q.len()) =~= t.subrange(i, i + q.len()));
                assert(occurs_at(s, q, i + 1));
            }
        }
        lemma_replace_all_keeps_absent(t, p, r, q);
        assert forall|i: int| !occurs_at(out, q, i) by {
            if occurs_at(out, q, i) {
                if i >= 1 {
                    assert(out.subrange(i, i + q.len()) =~= rest.subrange(i - 1, i - 1 + q.len()));
                    assert(occurs_at(rest, q, i - 1));
                } else {
                    let k = q.len() - 1;
                    assert forall|j: int| 0 <= j < k implies #[trigger] rest.take(k)[j] != r[0] by {
                        assert(rest.take(k)[j] == out.subrange(0, q.len() as int)[j + 1]);
                    }
                    lemma_replace_all_copies_prefix(t, p, r, k);
                    assert(s.subrange(0, q.len() as int) =~= seq![s[0]] + t.take(k));
                    assert(out.subrange(0, q.len() as int) =~= seq![s[0]] + rest.take(k));
                    assert(occurs_at(s, q, 0));
                }
            }
        }
    }
}

// ---------------------------------------------------------------------------
// Decimal numbers
// ---------------------------------------------------------------------------

/// The ASCII digit for `d < 10`.
pub open spec fn digit_char(d: nat) -> char {
    ((d + 48) as u32) as char
}

/// The value of an ASCII digit.
pub open spec fn digit_value(c: char) -> nat {
    ((c as u32) - 48) as nat
}

pub open spec fn is_digit(c: char) -> bool {
    '0' <= c && c <= '9'
}

/// The decimal notation of `n`, without sign or leading zeros.
pub open spec fn decimal(n: nat) -> Seq<char>
    decreases n,
{
    if n < 10 {
        seq![digit_char(n)]
    } else {
        decimal(n / 10).push(digit_char(n % 10))
    }
}

/// The decimal notation of `n`, as `u64::to_string` writes it.
pub fn decimal_string(n: u64) -> (r: String)
    ensures
        r@ == decimal(n as nat),
    decreases n,
{
    let d: u8 = (n % 10) as u8;
    let c: char = (d + 48) as char;
    if n < 10 {
        let mut r = String::new();
        r.push(c);
        assert(r@ == seq![digit_char(n as nat)]);
        r
    } else {
        let mut r = decimal_string(n / 10);
        r.push(c);
        r
    }
}

/// The value of a non-empty run of ASCII digits.
pub open spec fn digits_value(s: Seq<char>) -> nat
    decreases s.len(),
{
    if s.len() == 0 {
        0
    } else {
        digits_value(s.drop_last()) * 10 + digit_value(s.last())
    }
}

pub open spec fn all_digits(s: Seq<char>) -> bool {
    forall|i: int| 0 <= i < s.len() ==> is_digit(#[trigger] s[i])
}

/// `str::parse::<usize>`: an optional `+`, then one or more ASCII digits whose
/// value fits in `usize`.
pub open spec fn parse_usize_spec(s: Seq<char>) -> Option<nat> {
    let d = if s.len() > 0 && s[0] == '+' {
        s.drop_first()
    } else {
        s
    };
    if d.len() > 0 && all_digits(d) && digits_value(d) <= usize::MAX {
        Some(digits_value(d))
    } else {
        None
    }
}

proof fn lemma_digits_value_grows(s: Seq<char>, i: int, j: int)
    requires
        0 <= i <= j <= s.len(),
    ensures
        digits_value(s.take(i)) <= digits_value(s.take(j)),
    decreases j - i,
{
    if i < j {
        lemma_digits_value_grows(s, i, j - 1);
        assert(s.take(j).drop_last() == s.take(j - 1));
    }
}

/// `str::parse::<usize>`, with `None` for every input it rejects.
pub fn parse_usize(s: &str) -> (r: Option<usize>)
    ensures
        r matches Some(v) ==> parse_usize_spec(s@) == Some(v as nat),
        r is None ==> parse_usize_spec(s@) is None,
{
    let cs = chars_of(s);
    let start: usize = if cs.len() > 0 && cs[0] == '+' {
        1
    } else {
        0
    };
    let ghost d = if s@.len() > 0 && s@[0] == '+' {
        s@.drop_first()
    } else {
        s@
    };
    assert(d == cs@.skip(start as int));
    if start == cs.len() {
        return None;
    }
    let mut acc: u128 = 0;
    let mut i = start;
    while i < cs.len()
        invariant
            start <= i <= cs@.len(),
            cs@ == s@,
            d == cs@.skip(start as int),
            d == (if s@.len() > 0 && s@[0] == '+' {
                s@.drop_first()
            } else {
                s@
            }),
            acc == digits_value(d.take(i - start)),
            acc <= usize::MAX,
            all_digits(d.take(i - start)),
        decreases cs.len() - i,
    {
        let c = cs[i];
        if !('0' <= c && c <= '9') {
            assert(d[i - start] == c);
            assert(!is_digit(d[i - start]));
            assert(!all_digits(d));
            return None;
        }
        let dv: u32 = (c as u32) - 48;
        assert(d.take(i - start + 1).drop_last() == d.take(i - start));
        assert(d.take(i - start + 1).last() == c);
        acc = acc * 10 + dv as u128;
        i = i + 1;
        assert(all_digits(d.take(i - start))) by {
            assert forall|k: int| 0 <= k < i - start implies is_digit(#[trigger] d.take(i - start)[k]) by {
                if k < i - start - 1 {
                    assert(d.take(i - start)[k] == d.take(i - start - 1)[k]);
                }
            }
        }
        if acc > usize::MAX as u128 {
            proof {
                lemma_digits_value_grows(d, i - start, d.len() as int);
                assert(d.take(d.len() as int) == d);
                assert(digits_value(d) > usize::MAX);
            }
            return None;
        }
    }
    assert(d.take(i - start) == d);
    Some(acc as usize)
}

/// `str::eq_ignore_ascii_case`.
pub open spec fn eq_ignore_case(a: Seq<char>, b: Seq<char>) -> bool {
    ascii_lower(a) == ascii_lower(b)
}

pub fn eq_ignore_ascii_case(a: &str, b: &str) -> (r: bool)
    ensures
        r == eq_ignore_case(a@, b@),
{
    let la = lower_chars(a);
    let lb = lower_chars(b);
    if la.len() != lb.len() {
        return false;
    }
    let mut i: usize = 0;
    while i < la.len()
        invariant
            i <= la@.len(),
            la@.len() == lb@.len(),
            la@ == ascii_lower(a@),
            lb@ == ascii_lower(b@),
            forall|k: int| 0 <= k < i ==> la@[k] == lb@[k],
        decreases la.len() - i,
    {
        if la[i] != lb[i] {
            return false;
        }
        i = i + 1;
    }
    assert(la@ =~= lb@);
    true
}


/// `trim_start(s)` is a suffix of `s` that does not start with whitespace.
pub proof fn lemma_trim_start_shape(s: Seq<char>)
    ensures
        trim_start(s).len() <= s.len(),
        trim_start(s) == s.skip(s.len() - trim_start(s).len()),
        trim_start(s).len() == 0 || !is_whitespace(trim_start(s)[0]),
    decreases s.len(),
{
    if s.len() > 0 && is_whitespace(s[0]) {
        lemma_trim_start_shape(s.drop_first());
        assert(s.drop_first().skip(s.drop_first().len() - trim_start(s).len()) == s.skip(
            s.len() - trim_start(s).len(),
        ));
    } else {
        assert(s.skip(0) == s);
    }
}

/// `trim_end(s)` is a prefix of `s` that does not end with whitespace.
pub proof fn lemma_trim_end_shape(s: Seq<char>)
    ensures
        trim_end(s).len() <= s.len(),
        trim_end(s) == s.take(trim_end(s).len() as int),
        trim_end(s).len() == 0 || !is_whitespace(trim_end(s).last()),
    decreases s.len(),
{
    if s.len() > 0 && is_whitespace(s.last()) {
        lemma_trim_end_shape(s.drop_last());
        assert(s.drop_last().take(trim_end(s).len() as int) == s.take(trim_end(s).len() as int));
    } else {
        assert(s.take(s.len() as int) == s);
    }
}

/// `trim(s)` neither starts nor ends with whitespace.
pub proof fn lemma_trim_shape(s: Seq<char>)
    ensures
        trim(s).len() == 0 || (!is_whitespace(trim(s)[0]) && !is_whitespace(trim(s).last())),
{
    let a = trim_start(s);
    lemma_trim_start_shape(s);
    lemma_trim_end_shape(a);
    if trim(s).len() > 0 {
        assert(trim(s)[0] == a[0]);
    }
}

/// A text that neither starts nor ends with whitespace is its own trim.
pub proof fn lemma_trim_fixed(s: Seq<char>)
    requires
        s.len() == 0 || (!is_whitespace(s[0]) && !is_whitespace(s.last())),
    ensures
        trim(s) == s,
{
}

/// Trimming twice is trimming once.
pub proof fn lemma_trim_idempotent(s: Seq<char>)
    ensures
        trim(trim(s)) == trim(s),
{
    lemma_trim_shape(s);
    lemma_trim_fixed(trim(s));
}


/// The UTF-8 encoding of a concatenation is the concatenation of the encodings.
pub proof fn lemma_encode_utf8_concat(a: Seq<char>, b: Seq<char>)
    ensures
        vstd::utf8::encode_utf8(a + b) == vstd::utf8::encode_utf8(a) + vstd::utf8::encode_utf8(b),
    decreases a.len(),
{
    if a.len() == 0 {
        assert(a + b =~= b);
    } else {
        lemma_encode_utf8_concat(a.drop_first(), b);
        assert((a + b).drop_first() =~= a.drop_first() + b);
        assert((a + b)[0] == a[0]);
    }
}


proof fn lemma_decimal_shape(n: nat)
    ensures
        decimal(n).len() > 0,
        all_digits(decimal(n)),
        digits_value(decimal(n)) == n,
    decreases n,
{
    if n >= 10 {
        lemma_decimal_shape(n / 10);
        let s = decimal(n / 10);
        let d = decimal(n);
        assert(d.drop_last() =~= s);
        assert(d.last() == digit_char(n % 10));
        assert(digit_value(digit_char(n % 10)) == n % 10);
        assert((n / 10) * 10 + n % 10 == n) by (nonlinear_arith);
        assert(digits_value(d) == digits_value(d.drop_last()) * 10 + digit_value(d.last()));
        assert forall|i: int| 0 <= i < d.len() implies is_digit(#[trigger] d[i]) by {
            if i < s.len() {
                assert(d[i] == s[i]);
            }
        }
    } else {
        let d = decimal(n);
        assert(d.drop_last() =~= Seq::<char>::empty());
        assert(digits_value(d.drop_last()) == 0);
        assert(digit_value(digit_char(n)) == n);
        assert(digits_value(d) == digits_value(d.drop_last()) * 10 + digit_value(d.last()));
        assert(d.last() == digit_char(n));
    }
}

/// Reading back a decimal number gives the number: `parse::<usize>` of the
/// text `to_string` writes.
pub proof fn lemma_parse_decimal(n: nat)
    requires
        n <= usize::MAX,
    ensures
        parse_usize_spec(decimal(n)) == Some(n),
{
    lemma_decimal_shape(n);
    let d = decimal(n);
    assert(is_digit(d[0]));
}


/// A decimal numeral is never empty.
pub proof fn lemma_decimal_nonempty(n: nat)
    ensures
        decimal(n).len() > 0,
{
    lemma_decimal_shape(n);
}

} // verus!
