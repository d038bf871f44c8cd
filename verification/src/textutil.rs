//! Verified text utilities shared by the message entity and the operations:
//! line splitting and joining, transport line-ending normalisation, and
//! decimal rendering of counts.

use vstd::prelude::*;
use vstd::string::StrSliceExecFns;
use vstd::string::StringExecFns;

verus! {

/// Relies on `String::push`: appends exactly the one given character.
#[verifier::external_body]
pub fn push_char(s: &mut String, c: char)
    ensures
        final(s)@ == old(s)@.push(c),
{
    s.push(c);
}

/// The characters of `s`, one vector element per character.
pub fn str_to_chars(s: &str) -> (r: Vec<char>)
    ensures
        r@ == s@,
{
    let n = s.unicode_len();
    let mut r: Vec<char> = Vec::new();
    let mut i: usize = 0;
    while i < n
        invariant
            i <= n,
            n == s@.len(),
            r@ == s@.take(i as int),
        decreases n - i,
    {
        r.push(s.get_char(i));
        proof {
            assert(s@.take(i + 1 as int) =~= s@.take(i as int).push(s@[i as int]));
        }
        i = i + 1;
    }
    proof {
        assert(s@.take(n as int) =~= s@);
    }
    r
}

/// The string holding exactly the characters of `v`.
pub fn chars_to_string(v: &Vec<char>) -> (r: String)
    ensures
        r@ == v@,
{
    let mut r = String::new();
    let mut i: usize = 0;
    while i < v.len()
        invariant
            i <= v.len(),
            r@ == v@.take(i as int),
        decreases v.len() - i,
    {
        push_char(&mut r, v[i]);
        proof {
            assert(v@.take(i + 1 as int) =~= v@.take(i as int).push(v@[i as int]));
        }
        i = i + 1;
    }
    proof {
        assert(v@.take(v@.len() as int) =~= v@);
    }
    r
}

/// `parts` glued together with `sep` between consecutive parts and no
/// leading or trailing separator.
pub open spec fn spec_join(parts: Seq<Seq<char>>, sep: Seq<char>) -> Seq<char>
    decreases parts.len(),
{
    if parts.len() == 0 {
        Seq::empty()
    } else if parts.len() == 1 {
        parts[0]
    } else {
        spec_join(parts.drop_last(), sep) + sep + parts.last()
    }
}

/// Glue `parts` together with `sep` between consecutive parts.
pub fn join(parts: &Vec<String>, sep: &str) -> (r: String)
    ensures
        r@ == spec_join(parts.deep_view(), sep@),
{
    let mut r = String::new();
    let mut i: usize = 0;
    while i < parts.len()
        invariant
            i <= parts.len(),
            parts.deep_view().len() == parts@.len(),
            forall|j: int| 0 <= j < parts@.len() ==> parts.deep_view()[j] == #[trigger] parts@[j]@,
            r@ == spec_join(parts.deep_view().take(i as int), sep@),
        decreases parts.len() - i,
    {
        if i > 0 {
            r.append(sep);
        }
        r.append(parts[i].as_str());
        proof {
            let pv = parts.deep_view();
            assert(pv.take(i + 1 as int).drop_last() =~= pv.take(i as int));
            assert(pv.take(i + 1 as int).last() == pv[i as int]);
        }
        i = i + 1;
    }
    proof {
        assert(parts.deep_view().take(parts@.len() as int) =~= parts.deep_view());
    }
    r
}

/// `s` with every carriage return removed and every line feed replaced by a
/// carriage-return-line-feed pair: the transport form of literal text.
pub open spec fn spec_to_crlf(s: Seq<char>) -> Seq<char>
    decreases s.len(),
{
    if s.len() == 0 {
        Seq::empty()
    } else {
        spec_to_crlf(s.drop_last()) + (if s.last() == '\r' {
            Seq::<char>::empty()
        } else if s.last() == '\n' {
            seq!['\r', '\n']
        } else {
            seq![s.last()]
        })
    }
}

/// Normalise `s` to transport line endings.
pub fn to_crlf(s: &str) -> (r: String)
    ensures
        r@ == spec_to_crlf(s@),
{
    let n = s.unicode_len();
    let mut r = String::new();
    let mut i: usize = 0;
    while i < n
        invariant
            i <= n,
            n == s@.len(),
            r@ == spec_to_crlf(s@.take(i as int)),
        decreases n - i,
    {
        let c = s.get_char(i);
        if c == '\r' {
        } else if c == '\n' {
            r.append("\r\n");
            proof {
                reveal_strlit("\r\n");
                assert("\r\n"@ =~= seq!['\r', '\n']);
            }
        } else {
            push_char(&mut r, c);
        }
        proof {
            assert(s@.take(i + 1 as int).drop_last() =~= s@.take(i as int));
            assert(s@.take(i + 1 as int).last() == c);
            assert(r@ =~= spec_to_crlf(s@.take(i + 1 as int)));
        }
        i = i + 1;
    }
    proof {
        assert(s@.take(n as int) =~= s@);
    }
    r
}

/// `s` cut at every occurrence of `sep`; always at least one piece, and a
/// trailing separator yields a trailing empty piece.
pub open spec fn spec_split(s: Seq<char>, sep: char) -> Seq<Seq<char>>
    decreases s.len(),
{
    if s.len() == 0 {
        seq![Seq::<char>::empty()]
    } else if s.last() == sep {
        spec_split(s.drop_last(), sep).push(Seq::empty())
    } else {
        let parts = spec_split(s.drop_last(), sep);
        parts.update(parts.len() - 1, parts.last().push(s.last()))
    }
}

pub proof fn lemma_split_nonempty(s: Seq<char>, sep: char)
    ensures
        spec_split(s, sep).len() >= 1,
    decreases s.len(),
{
    if s.len() > 0 {
        lemma_split_nonempty(s.drop_last(), sep);
    }
}

/// A piece with its terminating carriage return removed, if it has one.
pub open spec fn spec_strip_tail_cr(p: Seq<char>) -> Seq<char> {
    if p.len() > 0 && p.last() == '\r' {
        p.drop_last()
    } else {
        p
    }
}

/// The lines of `s`: pieces between line feeds, each with a trailing
/// carriage return removed; a terminating line feed ends the last line
/// rather than opening an empty one, and empty text has no lines.
pub open spec fn spec_lines(s: Seq<char>) -> Seq<Seq<char>> {
    if s.len() == 0 {
        Seq::empty()
    } else if s.last() == '\n' {
        spec_split(s.drop_last(), '\n').map_values(|p: Seq<char>| spec_strip_tail_cr(p))
    } else {
        spec_split(s, '\n').map_values(|p: Seq<char>| spec_strip_tail_cr(p))
    }
}

/// Split `s` into its lines.
pub fn split_lines(s: &str) -> (r: Vec<String>)
    ensures
        r.deep_view() == spec_lines(s@),
{
    let n = s.unicode_len();
    let mut r: Vec<String> = Vec::new();
    let mut cur: Vec<char> = Vec::new();
    let mut i: usize = 0;
    if n == 0 {
        proof {
            assert(r.deep_view() =~= spec_lines(s@));
        }
        return r;
    }
    while i < n
        invariant
            i <= n,
            n == s@.len(),
            n > 0,
            spec_split(s@.take(i as int), '\n').len() == r@.len() + 1,
            r.deep_view() =~= spec_split(s@.take(i as int), '\n').drop_last().map_values(
                |p: Seq<char>| spec_strip_tail_cr(p),
            ),
            cur@ == spec_split(s@.take(i as int), '\n').last(),
        decreases n - i,
    {
        let ghost pre = s@.take(i as int);
        let ghost parts_pre = spec_split(pre, '\n');
        let c = s.get_char(i);
        proof {
            assert(s@.take(i + 1 as int).drop_last() =~= pre);
            assert(s@.take(i + 1 as int).last() == c);
        }
        if c == '\n' {
            let mut line = cur;
            if line.len() > 0 && line[line.len() - 1] == '\r' {
                line.pop();
                proof {
                    assert(line@ =~= spec_strip_tail_cr(parts_pre.last()));
                }
            }
            proof {
                assert(line@ == spec_strip_tail_cr(parts_pre.last()));
            }
            let line_s = chars_to_string(&line);
            let ghost rdv = r.deep_view();
            r.push(line_s);
            cur = Vec::new();
            proof {
                let parts_now = spec_split(s@.take(i + 1 as int), '\n');
                assert(parts_now =~= parts_pre.push(Seq::<char>::empty()));
                assert(parts_now.drop_last() =~= parts_pre);
                assert(r.deep_view() =~= rdv.push(line@));
                assert(parts_pre.map_values(|p: Seq<char>| spec_strip_tail_cr(p))
                    =~= parts_pre.drop_last().map_values(|p: Seq<char>| spec_strip_tail_cr(p)).push(
                    spec_strip_tail_cr(parts_pre.last()),
                ));
                assert(r.deep_view() =~= parts_now.drop_last().map_values(
                    |p: Seq<char>| spec_strip_tail_cr(p),
                ));
            }
        } else {
            cur.push(c);
            proof {
                let parts_now = spec_split(s@.take(i + 1 as int), '\n');
                assert(parts_now =~= parts_pre.update(
                    parts_pre.len() - 1,
                    parts_pre.last().push(c),
                ));
                assert(parts_now.drop_last() =~= parts_pre.drop_last());
                assert(r.deep_view() =~= parts_now.drop_last().map_values(
                    |p: Seq<char>| spec_strip_tail_cr(p),
                ));
            }
        }
        i = i + 1;
    }
    proof {
        assert(s@.take(n as int) =~= s@);
    }
    let last = s.get_char(n - 1);
    if last != '\n' {
        let mut line = cur;
        if line.len() > 0 && line[line.len() - 1] == '\r' {
            line.pop();
        }
        proof {
            assert(line@ == spec_strip_tail_cr(spec_split(s@, '\n').last()));
        }
        let line_s = chars_to_string(&line);
        let ghost rdv = r.deep_view();
        r.push(line_s);
        proof {
            let parts = spec_split(s@, '\n');
            assert(r.deep_view() =~= rdv.push(line@));
            assert(r.deep_view() =~= parts.drop_last().map_values(
                |p: Seq<char>| spec_strip_tail_cr(p),
            ).push(spec_strip_tail_cr(parts.last())));
            assert(parts.map_values(|p: Seq<char>| spec_strip_tail_cr(p)) =~= parts.drop_last().map_values(
                |p: Seq<char>| spec_strip_tail_cr(p),
            ).push(spec_strip_tail_cr(parts.last())));
        }
    } else {
        proof {
            assert(s@.drop_last() =~= s@.take(n - 1 as int));
            let parts = spec_split(s@.drop_last(), '\n');
            assert(spec_split(s@, '\n') =~= parts.push(Seq::<char>::empty()));
            assert(spec_split(s@, '\n').drop_last() =~= parts);
            assert(r.deep_view() =~= parts.map_values(|p: Seq<char>| spec_strip_tail_cr(p)));
        }
    }
    r
}

/// The index of the first occurrence of `c` in `s`, or the length of `s`
/// when `c` does not occur.
pub open spec fn spec_find_ch(s: Seq<char>, c: char) -> int
    decreases s.len(),
{
    if s.len() == 0 {
        0
    } else if s[0] == c {
        0
    } else {
        1 + spec_find_ch(s.drop_first(), c)
    }
}

/// Find the first occurrence of `c`.
pub fn find_ch(v: &Vec<char>, c: char) -> (r: usize)
    ensures
        r as int == spec_find_ch(v@, c),
        r <= v.len(),
        r < v.len() ==> v@[r as int] == c,
        forall|j: int| 0 <= j < r ==> v@[j] != c,
{
    let mut i: usize = 0;
    proof {
        assert(v@.skip(0) =~= v@);
    }
    while i < v.len()
        invariant
            i <= v.len(),
            spec_find_ch(v@, c) == i + spec_find_ch(v@.skip(i as int), c),
            forall|j: int| 0 <= j < i ==> v@[j] != c,
        decreases v.len() - i,
    {
        proof {
            assert(v@.skip(i as int).len() > 0);
            assert(v@.skip(i as int)[0] == v@[i as int]);
            assert(v@.skip(i as int).drop_first() =~= v@.skip(i + 1 as int));
        }
        if v[i] == c {
            return i;
        }
        i = i + 1;
    }
    proof {
        assert(v@.skip(v@.len() as int).len() == 0);
    }
    i
}

/// The elements of `v` from `a` (inclusive) to `b` (exclusive).
pub fn subchars(v: &Vec<char>, a: usize, b: usize) -> (r: Vec<char>)
    requires
        a <= b <= v@.len(),
    ensures
        r@ == v@.subrange(a as int, b as int),
{
    let mut r: Vec<char> = Vec::new();
    let mut i: usize = a;
    while i < b
        invariant
            a <= i <= b <= v@.len(),
            r@ == v@.subrange(a as int, i as int),
        decreases b - i,
    {
        r.push(v[i]);
        proof {
            assert(v@.subrange(a as int, i + 1 as int) =~= v@.subrange(a as int, i as int).push(
                v@[i as int],
            ));
        }
        i = i + 1;
    }
    r
}

/// Split `s` at every occurrence of `sep`.
pub fn split_ch(s: &str, sep: char) -> (r: Vec<String>)
    ensures
        r.deep_view() == spec_split(s@, sep),
{
    let n = s.unicode_len();
    let mut r: Vec<String> = Vec::new();
    let mut cur: Vec<char> = Vec::new();
    let mut i: usize = 0;
    while i < n
        invariant
            i <= n,
            n == s@.len(),
            spec_split(s@.take(i as int), sep).len() == r@.len() + 1,
            r.deep_view() =~= spec_split(s@.take(i as int), sep).drop_last(),
            cur@ == spec_split(s@.take(i as int), sep).last(),
        decreases n - i,
    {
        let ghost pre = s@.take(i as int);
        let ghost parts_pre = spec_split(pre, sep);
        let c = s.get_char(i);
        proof {
            assert(s@.take(i + 1 as int).drop_last() =~= pre);
            assert(s@.take(i + 1 as int).last() == c);
        }
        if c == sep {
            let line_s = chars_to_string(&cur);
            let ghost rdv = r.deep_view();
            r.push(line_s);
            cur = Vec::new();
            proof {
                let parts_now = spec_split(s@.take(i + 1 as int), sep);
                assert(parts_now =~= parts_pre.push(Seq::<char>::empty()));
                assert(parts_now.drop_last() =~= parts_pre);
                assert(r.deep_view() =~= rdv.push(parts_pre.last()));
                assert(r.deep_view() =~= parts_now.drop_last());
            }
        } else {
            cur.push(c);
            proof {
                let parts_now = spec_split(s@.take(i + 1 as int), sep);
                assert(parts_now =~= parts_pre.update(
                    parts_pre.len() - 1,
                    parts_pre.last().push(c),
                ));
                assert(parts_now.drop_last() =~= parts_pre.drop_last());
            }
        }
        i = i + 1;
    }
    let line_s = chars_to_string(&cur);
    let ghost rdv = r.deep_view();
    r.push(line_s);
    proof {
        assert(s@.take(n as int) =~= s@);
        assert(r.deep_view() =~= rdv.push(spec_split(s@, sep).last()));
        assert(r.deep_view() =~= spec_split(s@, sep).drop_last().push(spec_split(s@, sep).last()));
        assert(spec_split(s@, sep).drop_last().push(spec_split(s@, sep).last()) =~= spec_split(
            s@,
            sep,
        ));
    }
    r
}

/// `s` with every leading space removed.
pub open spec fn spec_strip_lead_sp(s: Seq<char>) -> Seq<char>
    decreases s.len(),
{
    if s.len() > 0 && s[0] == ' ' {
        spec_strip_lead_sp(s.drop_first())
    } else {
        s
    }
}

/// Remove every leading space.
pub fn strip_lead_sp(s: &str) -> (r: String)
    ensures
        r@ == spec_strip_lead_sp(s@),
{
    let n = s.unicode_len();
    let v = str_to_chars(s);
    let mut j: usize = 0;
    proof {
        assert(s@.skip(0) =~= s@);
    }
    while j < n && v[j] == ' '
        invariant
            j <= n,
            n == s@.len(),
            v@ == s@,
            spec_strip_lead_sp(s@) == spec_strip_lead_sp(s@.skip(j as int)),
        decreases n - j,
    {
        proof {
            assert(s@.skip(j as int).len() > 0);
            assert(s@.skip(j as int)[0] == ' ');
            assert(s@.skip(j as int).drop_first() =~= s@.skip(j + 1 as int));
        }
        j = j + 1;
    }
    proof {
        if j < n {
            assert(s@.skip(j as int)[0] == s@[j as int]);
            assert(spec_strip_lead_sp(s@.skip(j as int)) == s@.skip(j as int));
        } else {
            assert(s@.skip(j as int).len() == 0);
        }
        assert(s@.skip(j as int) =~= s@.subrange(j as int, n as int));
    }
    let out = subchars(&v, j, n);
    chars_to_string(&out)
}

/// The decimal digit character of `d`.
pub open spec fn spec_digit(d: int) -> char {
    if d == 0 {
        '0'
    } else if d == 1 {
        '1'
    } else if d == 2 {
        '2'
    } else if d == 3 {
        '3'
    } else if d == 4 {
        '4'
    } else if d == 5 {
        '5'
    } else if d == 6 {
        '6'
    } else if d == 7 {
        '7'
    } else if d == 8 {
        '8'
    } else {
        '9'
    }
}

/// The decimal rendering of `n`, most significant digit first.
pub open spec fn spec_decimal(n: int) -> Seq<char>
    decreases n,
{
    if n < 10 {
        seq![spec_digit(n)]
    } else {
        spec_decimal(n / 10).push(spec_digit(n % 10))
    }
}

/// Render `n` in decimal.
pub fn usize_to_string(n: usize) -> (r: String)
    ensures
        r@ == spec_decimal(n as int),
    decreases n,
{
    let d = n % 10;
    let c: char = if d == 0 {
        '0'
    } else if d == 1 {
        '1'
    } else if d == 2 {
        '2'
    } else if d == 3 {
        '3'
    } else if d == 4 {
        '4'
    } else if d == 5 {
        '5'
    } else if d == 6 {
        '6'
    } else if d == 7 {
        '7'
    } else if d == 8 {
        '8'
    } else {
        '9'
    };
    if n < 10 {
        let mut r = String::new();
        push_char(&mut r, c);
        proof {
            assert(r@ =~= seq![spec_digit(n as int)]);
        }
        r
    } else {
        let mut r = usize_to_string(n / 10);
        push_char(&mut r, c);
        r
    }
}

/// Whether `needle` occurs contiguously inside `hay`.
pub open spec fn spec_contains_sub(hay: Seq<char>, needle: Seq<char>) -> bool {
    exists|i: int|
        0 <= i && i + needle.len() <= hay.len() && #[trigger] hay.subrange(i, i + needle.len())
            == needle
}

/// Substring search.
pub fn contains_sub(hay: &str, needle: &str) -> (r: bool)
    ensures
        r == spec_contains_sub(hay@, needle@),
{
    let h = str_to_chars(hay);
    let d = str_to_chars(needle);
    if d.len() > h.len() {
        proof {
            assert(!spec_contains_sub(hay@, needle@));
        }
        return false;
    }
    let mut i: usize = 0;
    while i <= h.len() - d.len()
        invariant
            h@ == hay@,
            d@ == needle@,
            d.len() <= h.len(),
            i <= h.len() - d.len() + 1,
            forall|k: int|
                0 <= k < i ==> #[trigger] hay@.subrange(k, k + needle@.len() as int) != needle@,
        decreases h.len() - d.len() - i + 1,
    {
        let mut j: usize = 0;
        let mut matches = true;
        proof {
            assert(hay@.subrange(i as int, i as int) =~= needle@.take(0));
        }
        while j < d.len()
            invariant
                h@ == hay@,
                d@ == needle@,
                d.len() <= h.len(),
                i <= h.len() - d.len(),
                j <= d.len(),
                matches <==> hay@.subrange(i as int, i + j as int) == needle@.take(j as int),
            decreases d.len() - j,
        {
            let same = h[i + j] == d[j];
            proof {
                let a = hay@.subrange(i as int, i + j as int);
                let b = needle@.take(j as int);
                let a2 = hay@.subrange(i as int, i + j + 1 as int);
                let b2 = needle@.take(j + 1 as int);
                assert(a2 =~= a.push(hay@[i + j]));
                assert(b2 =~= b.push(needle@[j as int]));
                assert(a2.drop_last() =~= a);
                assert(b2.drop_last() =~= b);
                assert(a2.last() == hay@[i + j]);
                assert(b2.last() == needle@[j as int]);
                if matches && same {
                    assert(a2 =~= b2);
                }
                if a2 == b2 {
                    assert(a == b);
                    assert(hay@[i + j] == needle@[j as int]);
                }
            }
            matches = matches && same;
            j = j + 1;
        }
        proof {
            assert(needle@.take(needle@.len() as int) =~= needle@);
            assert(hay@.subrange(i as int, i + needle@.len() as int) == hay@.subrange(
                i as int,
                i + d@.len() as int,
            ));
        }
        if matches {
            return true;
        }
        i = i + 1;
    }
    proof {
        assert forall|k: int| 0 <= k && k + needle@.len() <= hay@.len() implies #[trigger] hay@.subrange(
            k,
            k + needle@.len() as int,
        ) != needle@ by {
            assert(k < i);
        }
    }
    false
}

} // verus!
