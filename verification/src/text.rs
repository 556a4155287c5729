//! Character-level text utilities: line splitting, whitespace tokenizing,
//! joining, trimming, substring search and ASCII case folding.
//!
//! Both manifest encodings and the changeset file are line- and
//! token-oriented plain text, so everything here works on `Vec<char>`
//! buffers with `Seq<char>` specifications.

use vstd::prelude::*;

verus! {

/// ASCII whitespace, the only kind the supported interchange formats use.
pub open spec fn spec_is_space(c: char) -> bool {
    c == ' ' || c == '\t' || c == '\r' || c == '\n' || c == '\u{b}' || c == '\u{c}'
}

pub fn is_space(c: char) -> (r: bool)
    ensures
        r == spec_is_space(c),
{
    c == ' ' || c == '\t' || c == '\r' || c == '\n' || c == '\u{b}' || c == '\u{c}'
}

/// Lower-case image of one character; only ASCII letters are folded.
pub open spec fn spec_lower_char(c: char) -> char {
    if c == 'A' {
        'a'
    } else if c == 'B' {
        'b'
    } else if c == 'C' {
        'c'
    } else if c == 'D' {
        'd'
    } else if c == 'E' {
        'e'
    } else if c == 'F' {
        'f'
    } else if c == 'G' {
        'g'
    } else if c == 'H' {
        'h'
    } else if c == 'I' {
        'i'
    } else if c == 'J' {
        'j'
    } else if c == 'K' {
        'k'
    } else if c == 'L' {
        'l'
    } else if c == 'M' {
        'm'
    } else if c == 'N' {
        'n'
    } else if c == 'O' {
        'o'
    } else if c == 'P' {
        'p'
    } else if c == 'Q' {
        'q'
    } else if c == 'R' {
        'r'
    } else if c == 'S' {
        's'
    } else if c == 'T' {
        't'
    } else if c == 'U' {
        'u'
    } else if c == 'V' {
        'v'
    } else if c == 'W' {
        'w'
    } else if c == 'X' {
        'x'
    } else if c == 'Y' {
        'y'
    } else if c == 'Z' {
        'z'
    } else {
        c
    }
}

pub fn lower_char(c: char) -> (r: char)
    ensures
        r == spec_lower_char(c),
{
    match c {
        'A' => 'a',
        'B' => 'b',
        'C' => 'c',
        'D' => 'd',
        'E' => 'e',
        'F' => 'f',
        'G' => 'g',
        'H' => 'h',
        'I' => 'i',
        'J' => 'j',
        'K' => 'k',
        'L' => 'l',
        'M' => 'm',
        'N' => 'n',
        'O' => 'o',
        'P' => 'p',
        'Q' => 'q',
        'R' => 'r',
        'S' => 's',
        'T' => 't',
        'U' => 'u',
        'V' => 'v',
        'W' => 'w',
        'X' => 'x',
        'Y' => 'y',
        'Z' => 'z',
        _ => c,
    }
}

/// ASCII lower-case image of a whole string.
pub open spec fn spec_lower(s: Seq<char>) -> Seq<char> {
    s.map_values(|c: char| spec_lower_char(c))
}

pub fn lower_chars(s: &Vec<char>) -> (r: Vec<char>)
    ensures
        r@ == spec_lower(s@),
{
    let mut r: Vec<char> = Vec::new();
    let mut i: usize = 0;
    while i < s.len()
        invariant
            i <= s@.len(),
            r@ == spec_lower(s@.take(i as int)),
        decreases s@.len() - i,
    {
        r.push(lower_char(s[i]));
        proof {
            assert(s@.take(i + 1) =~= s@.take(i as int).push(s@[i as int]));
            assert(spec_lower(s@.take(i + 1)) =~= spec_lower(s@.take(i as int)).push(
                spec_lower_char(s@[i as int]),
            ));
        }
        i = i + 1;
    }
    proof {
        assert(s@.take(s@.len() as int) =~= s@);
    }
    r
}

/// Forward-slash image of a path: every backslash becomes a slash.
pub open spec fn spec_normalize(s: Seq<char>) -> Seq<char> {
    s.map_values(|c: char| if c == '\\' { '/' } else { c })
}

pub fn normalize_separators(s: &Vec<char>) -> (r: Vec<char>)
    ensures
        r@ == spec_normalize(s@),
{
    let mut r: Vec<char> = Vec::new();
    let mut i: usize = 0;
    while i < s.len()
        invariant
            i <= s@.len(),
            r@ == spec_normalize(s@.take(i as int)),
        decreases s@.len() - i,
    {
        if s[i] == '\\' {
            r.push('/');
        } else {
            r.push(s[i]);
        }
        proof {
            assert(s@.take(i + 1) =~= s@.take(i as int).push(s@[i as int]));
            assert(spec_normalize(s@.take(i + 1)) =~= spec_normalize(s@.take(i as int)).push(
                if s@[i as int] == '\\' {
                    '/'
                } else {
                    s@[i as int]
                },
            ));
        }
        i = i + 1;
    }
    proof {
        assert(s@.take(s@.len() as int) =~= s@);
    }
    r
}

/// The characters of `s`, in order.
pub fn chars_of(s: &str) -> (r: Vec<char>)
    ensures
        r@ == s@,
{
    let n: usize = s.unicode_len();
    let mut r: Vec<char> = Vec::new();
    let mut i: usize = 0;
    while i < n
        invariant
            i <= n,
            n == s@.len(),
            r@ == s@.take(i as int),
        decreases n - i,
    {
        r.push(s.get_char(i));
        proof {
            assert(s@.take(i + 1) =~= s@.take(i as int).push(s@[i as int]));
        }
        i = i + 1;
    }
    proof {
        assert(s@.take(n as int) =~= s@);
    }
    r
}

/// Relies on std's `String::push`: appends the given character to the end
/// of the string.
#[verifier::external_body]
fn push_char(s: &mut String, c: char)
    ensures
        final(s)@ == old(s)@.push(c),
{
    s.push(c);
}

/// A `String` holding exactly the characters of `v`.
pub fn string_of(v: &Vec<char>) -> (r: String)
    ensures
        r@ == v@,
{
    let mut r: String = String::new();
    let mut i: usize = 0;
    while i < v.len()
        invariant
            i <= v@.len(),
            r@ == v@.take(i as int),
        decreases v@.len() - i,
    {
        push_char(&mut r, v[i]);
        proof {
            assert(v@.take(i + 1) =~= v@.take(i as int).push(v@[i as int]));
        }
        i = i + 1;
    }
    proof {
        assert(v@.take(v@.len() as int) =~= v@);
    }
    r
}

pub fn eq_chars(a: &Vec<char>, b: &Vec<char>) -> (r: bool)
    ensures
        r == (a@ == b@),
{
    if a.len() != b.len() {
        return false;
    }
    let mut i: usize = 0;
    while i < a.len()
        invariant
            i <= a@.len(),
            a@.len() == b@.len(),
            forall|j: int| 0 <= j < i ==> a@[j] == b@[j],
        decreases a@.len() - i,
    {
        if a[i] != b[i] {
            return false;
        }
        i = i + 1;
    }
    proof {
        assert(a@ =~= b@);
    }
    true
}

pub fn eq_str(a: &Vec<char>, s: &str) -> (r: bool)
    ensures
        r == (a@ == s@),
{
    let t = chars_of(s);
    eq_chars(a, &t)
}

/// `n` occurs in `h` starting at position `i`.
pub open spec fn spec_contains_at(h: Seq<char>, n: Seq<char>, i: int) -> bool {
    0 <= i && i + n.len() <= h.len() && h.subrange(i, i + n.len()) == n
}

/// `n` occurs somewhere in `h`.
pub open spec fn spec_contains(h: Seq<char>, n: Seq<char>) -> bool {
    exists|i: int| spec_contains_at(h, n, i)
}

pub fn contains_sub(h: &Vec<char>, needle: &str) -> (r: bool)
    ensures
        r == spec_contains(h@, needle@),
{
    let n = chars_of(needle);
    if n.len() > h.len() {
        proof {
            assert(forall|i: int| !spec_contains_at(h@, n@, i));
        }
        return false;
    }
    let hlen: usize = h.len();
    let last: usize = hlen - n.len();
    let mut i: usize = 0;
    loop
        invariant
            i <= last + 1,
            hlen == h@.len(),
            last == h@.len() - n@.len(),
            n@ == needle@,
            forall|k: int| 0 <= k < i ==> !spec_contains_at(h@, n@, k),
        decreases last + 1 - i,
    {
        if i > last {
            proof {
                assert(forall|k: int| spec_contains_at(h@, n@, k) ==> 0 <= k <= last);
            }
            return false;
        }
        let mut j: usize = 0;
        let mut all_eq: bool = true;
        while j < n.len()
            invariant
                j <= n@.len(),
                hlen == h@.len(),
                i + n@.len() <= h@.len(),
                all_eq == (forall|t: int| 0 <= t < j ==> h@[i + t] == n@[t]),
            decreases n@.len() - j,
        {
            proof {
                assert(i + j < h@.len());
            }
            if h[i + j] != n[j] {
                all_eq = false;
                proof {
                    assert(!(forall|t: int| 0 <= t < j + 1 ==> h@[i + t] == n@[t]));
                }
                j = n.len();
            } else {
                proof {
                    if all_eq {
                        assert(forall|t: int| 0 <= t < j + 1 ==> h@[i + t] == n@[t]);
                    }
                }
                j = j + 1;
            }
        }
        if all_eq {
            proof {
                assert(h@.subrange(i as int, i + n@.len()) =~= n@);
                assert(spec_contains_at(h@, n@, i as int));
            }
            return true;
        }
        proof {
            if spec_contains_at(h@, n@, i as int) {
                assert(forall|t: int|
                    0 <= t < n@.len() ==> #[trigger] h@.subrange(i as int, i + n@.len())[t] == h@[
                        i + t
                    ]);
            }
            if n@.len() == 0 {
                assert(all_eq);
            }
            assert(last < h@.len());
        }
        i = i + 1;
    }
}

/// A line with its terminator's carriage return removed, as std's `lines`
/// does before a line feed.
pub open spec fn spec_strip_cr(l: Seq<char>) -> Seq<char> {
    if l.len() > 0 && l[l.len() - 1] == '\r' {
        l.drop_last()
    } else {
        l
    }
}

/// The lines of `cur + s`, where `cur` is an unterminated line already read:
/// split on line feeds, dropping a carriage return just before each line
/// feed, and keeping a final unterminated line only if it is non-empty.
pub open spec fn spec_lines_from(s: Seq<char>, cur: Seq<char>) -> Seq<Seq<char>>
    decreases s.len(),
{
    if s.len() == 0 {
        if cur.len() == 0 {
            Seq::empty()
        } else {
            seq![cur]
        }
    } else if s[0] == '\n' {
        seq![spec_strip_cr(cur)] + spec_lines_from(s.skip(1), Seq::empty())
    } else {
        spec_lines_from(s.skip(1), cur.push(s[0]))
    }
}

pub open spec fn spec_lines(s: Seq<char>) -> Seq<Seq<char>> {
    spec_lines_from(s, Seq::empty())
}

pub fn split_lines(s: &Vec<char>) -> (r: Vec<Vec<char>>)
    ensures
        r.deep_view() == spec_lines(s@),
{
    let mut r: Vec<Vec<char>> = Vec::new();
    let mut cur: Vec<char> = Vec::new();
    let mut i: usize = 0;
    proof {
        assert(s@.skip(0) =~= s@);
        assert(r.deep_view() =~= Seq::<Seq<char>>::empty());
        assert(r.deep_view() + spec_lines_from(s@, cur@) =~= spec_lines_from(s@, cur@));
    }
    while i < s.len()
        invariant
            i <= s@.len(),
            spec_lines(s@) == r.deep_view() + spec_lines_from(s@.skip(i as int), cur@),
        decreases s@.len() - i,
    {
        proof {
            assert(s@.skip(i as int).skip(1) =~= s@.skip(i + 1));
            assert(s@.skip(i as int)[0] == s@[i as int]);
        }
        let c = s[i];
        if c == '\n' {
            let ghost old_dv = r.deep_view();
            let ghost old_cur = cur@;
            let mut line = cur;
            cur = Vec::new();
            if line.len() > 0 && line[line.len() - 1] == '\r' {
                line.pop();
            }
            proof {
                assert(line@ == spec_strip_cr(old_cur));
            }
            r.push(line);
            proof {
                assert(line.deep_view() =~= line@);
                assert(r.deep_view() =~= old_dv.push(line@));
                assert(old_dv + (seq![spec_strip_cr(old_cur)] + spec_lines_from(
                    s@.skip(i + 1),
                    Seq::empty(),
                )) =~= r.deep_view() + spec_lines_from(s@.skip(i + 1), Seq::empty()));
            }
        } else {
            cur.push(c);
        }
        i = i + 1;
    }
    proof {
        assert(s@.skip(s@.len() as int) =~= Seq::<char>::empty());
    }
    if cur.len() > 0 {
        let ghost old_dv = r.deep_view();
        let ghost last_line = cur@;
        proof {
            assert(cur.deep_view() =~= cur@);
        }
        r.push(cur);
        proof {
            assert(r.deep_view() =~= old_dv.push(last_line));
            assert(old_dv + seq![last_line] =~= r.deep_view());
        }
    } else {
        proof {
            assert(r.deep_view() + Seq::<Seq<char>>::empty() =~= r.deep_view());
        }
    }
    r
}

/// The whitespace-delimited tokens of `cur + s`, where `cur` is a token
/// already begun: maximal runs of non-whitespace characters, in order.
pub open spec fn spec_tokens_from(s: Seq<char>, cur: Seq<char>) -> Seq<Seq<char>>
    decreases s.len(),
{
    if s.len() == 0 {
        if cur.len() == 0 {
            Seq::empty()
        } else {
            seq![cur]
        }
    } else if spec_is_space(s[0]) {
        if cur.len() == 0 {
            spec_tokens_from(s.skip(1), Seq::empty())
        } else {
            seq![cur] + spec_tokens_from(s.skip(1), Seq::empty())
        }
    } else {
        spec_tokens_from(s.skip(1), cur.push(s[0]))
    }
}

pub open spec fn spec_tokens(s: Seq<char>) -> Seq<Seq<char>> {
    spec_tokens_from(s, Seq::empty())
}

pub fn split_tokens(s: &Vec<char>) -> (r: Vec<Vec<char>>)
    ensures
        r.deep_view() == spec_tokens(s@),
{
    let mut r: Vec<Vec<char>> = Vec::new();
    let mut cur: Vec<char> = Vec::new();
    let mut i: usize = 0;
    proof {
        assert(s@.skip(0) =~= s@);
        assert(r.deep_view() =~= Seq::<Seq<char>>::empty());
        assert(r.deep_view() + spec_tokens_from(s@, cur@) =~= spec_tokens_from(s@, cur@));
    }
    while i < s.len()
        invariant
            i <= s@.len(),
            spec_tokens(s@) == r.deep_view() + spec_tokens_from(s@.skip(i as int), cur@),
        decreases s@.len() - i,
    {
        proof {
            assert(s@.skip(i as int).skip(1) =~= s@.skip(i + 1));
            assert(s@.skip(i as int)[0] == s@[i as int]);
        }
        let c = s[i];
        if is_space(c) {
            proof {
                if cur@.len() == 0 {
                    assert(cur@ =~= Seq::<char>::empty());
                }
            }
            if cur.len() > 0 {
                let ghost old_dv = r.deep_view();
                let ghost tok = cur@;
                proof {
                    assert(cur.deep_view() =~= cur@);
                }
                r.push(cur);
                cur = Vec::new();
                proof {
                    assert(r.deep_view() =~= old_dv.push(tok));
                    assert(old_dv + (seq![tok] + spec_tokens_from(s@.skip(i + 1), Seq::empty()))
                        =~= r.deep_view() + spec_tokens_from(s@.skip(i + 1), Seq::empty()));
                }
            }
        } else {
            cur.push(c);
        }
        i = i + 1;
    }
    proof {
        assert(s@.skip(s@.len() as int) =~= Seq::<char>::empty());
    }
    if cur.len() > 0 {
        let ghost old_dv = r.deep_view();
        let ghost tok = cur@;
        proof {
            assert(cur.deep_view() =~= cur@);
        }
        r.push(cur);
        proof {
            assert(r.deep_view() =~= old_dv.push(tok));
            assert(old_dv + seq![tok] =~= r.deep_view());
        }
    } else {
        proof {
            assert(r.deep_view() + Seq::<Seq<char>>::empty() =~= r.deep_view());
        }
    }
    r
}

/// The parts joined with `sep` between consecutive parts.
pub open spec fn spec_join(parts: Seq<Seq<char>>, sep: Seq<char>) -> Seq<char>
    decreases parts.len(),
{
    if parts.len() == 0 {
        Seq::empty()
    } else if parts.len() == 1 {
        parts[0]
    } else {
        parts[0] + sep + spec_join(parts.skip(1), sep)
    }
}

/// Joins `parts[from..]` with `sep`.
pub fn join_range(parts: &Vec<Vec<char>>, from: usize, sep: &Vec<char>) -> (r: Vec<char>)
    requires
        from <= parts@.len(),
    ensures
        r@ == spec_join(parts.deep_view().skip(from as int), sep@),
{
    let ghost dv = parts.deep_view();
    let n: usize = parts.len();
    proof {
        assert(dv.len() == parts@.len());
    }
    let mut r: Vec<char> = Vec::new();
    if from >= n {
        return r;
    }
    let mut piece = copy_chars(&parts[from]);
    r.append(&mut piece);
    proof {
        assert(r@ =~= dv[from as int]);
    }
    let mut i: usize = from + 1;
    proof {
        assert(dv.skip(from as int)[0] == dv[from as int]);
        if from + 1 < n {
            assert(dv.skip(from as int).skip(1) =~= dv.skip(from + 1));
            assert(spec_join(dv.skip(from as int), sep@) == dv[from as int] + sep@ + spec_join(
                dv.skip(from + 1),
                sep@,
            ));
            assert(dv[from as int] + (sep@ + spec_join(dv.skip(from + 1), sep@)) =~= dv[
                from as int
            ] + sep@ + spec_join(dv.skip(from + 1), sep@));
        } else {
            assert(dv.skip(from as int).len() == 1);
            assert(r@ + Seq::<char>::empty() =~= r@);
        }
    }
    while i < n
        invariant
            from < i <= n,
            n == dv.len(),
            dv == parts.deep_view(),
            spec_join(dv.skip(from as int), sep@) == r@ + (if i < n {
                sep@ + spec_join(dv.skip(i as int), sep@)
            } else {
                Seq::<char>::empty()
            }),
        decreases n - i,
    {
        let ghost old_r = r@;
        let mut sp = copy_chars(sep);
        r.append(&mut sp);
        let mut piece2 = copy_chars(&parts[i]);
        r.append(&mut piece2);
        proof {
            assert(dv.skip(i as int).skip(1) =~= dv.skip(i + 1));
            assert(dv.skip(i as int)[0] == dv[i as int]);
            assert(r@ =~= old_r + sep@ + dv[i as int]);
            if i + 1 < n {
                assert(spec_join(dv.skip(i as int), sep@) == dv[i as int] + sep@ + spec_join(
                    dv.skip(i + 1),
                    sep@,
                ));
                assert(old_r + (sep@ + spec_join(dv.skip(i as int), sep@)) =~= r@ + (sep@
                    + spec_join(dv.skip(i + 1), sep@)));
            } else {
                assert(dv.skip(i as int).len() == 1);
                assert(spec_join(dv.skip(i as int), sep@) == dv[i as int]);
                assert(old_r + (sep@ + spec_join(dv.skip(i as int), sep@)) =~= r@);
            }
        }
        i = i + 1;
    }
    r
}

/// A copy of the character buffer.
pub fn copy_chars(v: &Vec<char>) -> (r: Vec<char>)
    ensures
        r@ == v@,
{
    let mut r: Vec<char> = Vec::new();
    let mut i: usize = 0;
    while i < v.len()
        invariant
            i <= v@.len(),
            r@ == v@.take(i as int),
        decreases v@.len() - i,
    {
        r.push(v[i]);
        proof {
            assert(v@.take(i + 1) =~= v@.take(i as int).push(v@[i as int]));
        }
        i = i + 1;
    }
    proof {
        assert(v@.take(v@.len() as int) =~= v@);
    }
    r
}

/// `s` with every asterisk removed.
pub open spec fn spec_strip_stars(s: Seq<char>) -> Seq<char>
    decreases s.len(),
{
    if s.len() == 0 {
        Seq::empty()
    } else if s[0] == '*' {
        spec_strip_stars(s.skip(1))
    } else {
        seq![s[0]] + spec_strip_stars(s.skip(1))
    }
}

pub fn strip_stars(s: &Vec<char>) -> (r: Vec<char>)
    ensures
        r@ == spec_strip_stars(s@),
{
    let mut r: Vec<char> = Vec::new();
    let mut i: usize = 0;
    proof {
        assert(s@.skip(0) =~= s@);
        assert(r@ + spec_strip_stars(s@) =~= spec_strip_stars(s@));
    }
    while i < s.len()
        invariant
            i <= s@.len(),
            spec_strip_stars(s@) == r@ + spec_strip_stars(s@.skip(i as int)),
        decreases s@.len() - i,
    {
        proof {
            assert(s@.skip(i as int).skip(1) =~= s@.skip(i + 1));
            assert(s@.skip(i as int)[0] == s@[i as int]);
        }
        let ghost old_r = r@;
        let c = s[i];
        if c != '*' {
            r.push(c);
            proof {
                assert(old_r + (seq![s@[i as int]] + spec_strip_stars(s@.skip(i + 1))) =~= r@
                    + spec_strip_stars(s@.skip(i + 1)));
            }
        }
        i = i + 1;
    }
    proof {
        assert(s@.skip(s@.len() as int) =~= Seq::<char>::empty());
        assert(r@ + Seq::<char>::empty() =~= r@);
    }
    r
}

/// `s` without leading whitespace.
pub open spec fn spec_trim_front(s: Seq<char>) -> Seq<char>
    decreases s.len(),
{
    if s.len() > 0 && spec_is_space(s[0]) {
        spec_trim_front(s.skip(1))
    } else {
        s
    }
}

/// `s` without trailing whitespace.
pub open spec fn spec_trim_back(s: Seq<char>) -> Seq<char>
    decreases s.len(),
{
    if s.len() > 0 && spec_is_space(s[s.len() - 1]) {
        spec_trim_back(s.drop_last())
    } else {
        s
    }
}

/// `s` without leading or trailing whitespace.
pub open spec fn spec_trim(s: Seq<char>) -> Seq<char> {
    spec_trim_back(spec_trim_front(s))
}

pub fn trim_chars(s: &Vec<char>) -> (r: Vec<char>)
    ensures
        r@ == spec_trim(s@),
{
    let n: usize = s.len();
    let mut a: usize = 0;
    proof {
        assert(s@.skip(0) =~= s@);
    }
    while a < n && is_space(s[a])
        invariant
            a <= n,
            n == s@.len(),
            spec_trim_front(s@) == spec_trim_front(s@.skip(a as int)),
        decreases n - a,
    {
        proof {
            assert(s@.skip(a as int).skip(1) =~= s@.skip(a + 1));
            assert(s@.skip(a as int)[0] == s@[a as int]);
        }
        a = a + 1;
    }
    let ghost f = s@.skip(a as int);
    proof {
        if a < n {
            assert(!spec_is_space(f[0]));
        }
        assert(spec_trim_front(s@) == f);
    }
    let mut b: usize = n;
    proof {
        assert(f.take(n - a) =~= f);
    }
    while b > a && is_space(s[b - 1])
        invariant
            a <= b <= n,
            n == s@.len(),
            f == s@.skip(a as int),
            spec_trim_back(f) == spec_trim_back(f.take(b - a)),
        decreases b,
    {
        proof {
            let bf = b - a;
            assert(f.take(bf)[bf - 1] == s@[b - 1]);
            assert(f.take(bf).drop_last() =~= f.take(bf - 1));
        }
        b = b - 1;
    }
    proof {
        let bf = b - a;
        if b > a {
            assert(f.take(bf)[bf - 1] == s@[b - 1]);
            assert(!spec_is_space(f.take(bf)[bf - 1]));
            assert(spec_trim_back(f.take(bf)) == f.take(bf));
        } else {
            assert(f.take(0) =~= Seq::<char>::empty());
            assert(spec_trim_back(f.take(bf)) == f.take(bf));
        }
    }
    let mut r: Vec<char> = Vec::new();
    let mut i: usize = a;
    while i < b
        invariant
            a <= i <= b <= n,
            n == s@.len(),
            r@ == s@.subrange(a as int, i as int),
        decreases b - i,
    {
        r.push(s[i]);
        proof {
            assert(s@.subrange(a as int, i + 1) =~= s@.subrange(a as int, i as int).push(
                s@[i as int],
            ));
        }
        i = i + 1;
    }
    proof {
        assert(r@ =~= f.take(b - a));
    }
    r
}


/// Relies on std's `String::clone`: the copy holds the same characters.
#[verifier::external_body]
pub fn clone_string(s: &String) -> (r: String)
    ensures
        r@ == s@,
{
    s.clone()
}

} // verus!
