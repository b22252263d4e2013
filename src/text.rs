//! Character-level helpers shared by the command encoder and the report parsers.
//!
//! All text is handled as sequences of `char`; each helper is specified by a
//! spec function over `Seq<char>` that states what it computes.
use vstd::prelude::*;

verus! {

/// The view of a list of character vectors.
pub open spec fn views(v: Seq<Vec<char>>) -> Seq<Seq<char>> {
    v.map_values(|x: Vec<char>| x@)
}

/// Unicode White_Space, the set that `char::is_whitespace` and `str::trim` use.
pub open spec fn is_space(c: char) -> bool {
    let u: u32 = c as u32;
    (0x9 <= u <= 0xd) || u == 0x20 || u == 0x85 || u == 0xa0 || u == 0x1680 || (0x2000 <= u
        <= 0x200a) || u == 0x2028 || u == 0x2029 || u == 0x202f || u == 0x205f || u == 0x3000
}

pub open spec fn is_digit(c: char) -> bool {
    48 <= c as u32 <= 57
}

pub open spec fn digit_value(c: char) -> nat {
    (c as u32 - 48) as nat
}

pub open spec fn digit_char(d: nat) -> char {
    if d == 0 {
        '0'
    } else if d == 1 {
        '1'
    } else if d == 2 {
        '2'
    } else if d == 3 {
        '3'
    } else if d == 4 {
        '4'
    } else if d == 5 {
        '5'
    } else if d == 6 {
        '6'
    } else if d == 7 {
        '7'
    } else if d == 8 {
        '8'
    } else {
        '9'
    }
}

/// Decimal notation of `n`, without leading zeros.
pub open spec fn decimal(n: nat) -> Seq<char>
    decreases n,
{
    if n < 10 {
        seq![digit_char(n)]
    } else {
        decimal(n / 10).push(digit_char(n % 10))
    }
}

/// The number that a string of decimal digits denotes.
pub open spec fn digits_value(s: Seq<char>) -> nat
    decreases s.len(),
{
    if s.len() == 0 {
        0
    } else {
        digits_value(s.drop_last()) * 10 + digit_value(s.last())
    }
}

pub open spec fn all_digits(s: Seq<char>) -> bool {
    forall|i: int| 0 <= i < s.len() ==> #[trigger] is_digit(s[i])
}

/// The digits of an unsigned number: an optional leading `+` is dropped.
pub open spec fn unsigned_digits(s: Seq<char>) -> Seq<char> {
    if s.len() > 0 && s[0] == '+' {
        s.drop_first()
    } else {
        s
    }
}

/// What `str::parse::<u32>` accepts: an optional `+`, then one or more decimal
/// digits whose value fits in a `u32`.
pub open spec fn u32_value(s: Seq<char>) -> Option<u32> {
    let d = unsigned_digits(s);
    if d.len() > 0 && all_digits(d) && digits_value(d) <= u32::MAX {
        Some(digits_value(d) as u32)
    } else {
        None
    }
}

pub open spec fn trim_start(s: Seq<char>) -> Seq<char>
    decreases s.len(),
{
    if s.len() > 0 && is_space(s[0]) {
        trim_start(s.drop_first())
    } else {
        s
    }
}

pub open spec fn trim_end(s: Seq<char>) -> Seq<char>
    decreases s.len(),
{
    if s.len() > 0 && is_space(s.last()) {
        trim_end(s.drop_last())
    } else {
        s
    }
}

/// `s` without leading and trailing white space.
pub open spec fn trimmed(s: Seq<char>) -> Seq<char> {
    trim_end(trim_start(s))
}

/// The pieces of `s` between occurrences of `sep`, as `str::split` gives them.
pub open spec fn pieces(s: Seq<char>, sep: char) -> Seq<Seq<char>>
    decreases s.len(),
{
    if s.len() == 0 {
        seq![Seq::empty()]
    } else {
        let p = pieces(s.drop_last(), sep);
        if s.last() == sep {
            p.push(Seq::empty())
        } else {
            p.drop_last().push(p.last().push(s.last()))
        }
    }
}

/// The pieces of `s` between occurrences of two spaces, matched from the left
/// and without overlap, as `str::split("  ")` gives them.
pub open spec fn wide_pieces(s: Seq<char>) -> Seq<Seq<char>>
    decreases s.len(),
{
    if s.len() == 0 {
        seq![Seq::empty()]
    } else {
        let p = wide_pieces(s.drop_last());
        let cur = p.last();
        if s.last() == ' ' && cur.len() > 0 && cur.last() == ' ' {
            p.drop_last().push(cur.drop_last()).push(Seq::empty())
        } else {
            p.drop_last().push(cur.push(s.last()))
        }
    }
}

/// The trimmed pieces of `ps` that are not empty once trimmed, in order.
pub open spec fn kept_trimmed(ps: Seq<Seq<char>>) -> Seq<Seq<char>>
    decreases ps.len(),
{
    if ps.len() == 0 {
        Seq::empty()
    } else {
        let rest = kept_trimmed(ps.drop_last());
        if trimmed(ps.last()).len() > 0 {
            rest.push(trimmed(ps.last()))
        } else {
            rest
        }
    }
}

/// The fields of a line whose columns are set apart by two or more spaces.
pub open spec fn fields_of(s: Seq<char>) -> Seq<Seq<char>> {
    kept_trimmed(wide_pieces(s))
}

/// Index of the first `c` in `s` at or after `i`, or -1.
pub open spec fn index_of_from(s: Seq<char>, c: char, i: int) -> int
    decreases s.len() - i,
{
    if i < 0 || i >= s.len() {
        -1
    } else if s[i] == c {
        i
    } else {
        index_of_from(s, c, i + 1)
    }
}

/// Index of the first white-space character in `s` at or after `i`, or -1.
pub open spec fn space_index_from(s: Seq<char>, i: int) -> int
    decreases s.len() - i,
{
    if i < 0 || i >= s.len() {
        -1
    } else if is_space(s[i]) {
        i
    } else {
        space_index_from(s, i + 1)
    }
}

/// Index of the first `": "` in `s` at or after `i`, or -1.
pub open spec fn label_end_from(s: Seq<char>, i: int) -> int
    decreases s.len() - i,
{
    if i < 0 || i + 1 >= s.len() {
        -1
    } else if s[i] == ':' && s[i + 1] == ' ' {
        i
    } else {
        label_end_from(s, i + 1)
    }
}

/// What follows the first `": "` of a `Label: value` field.
pub open spec fn label_value(s: Seq<char>) -> Option<Seq<char>> {
    let k = label_end_from(s, 0);
    if k < 0 {
        None
    } else {
        Some(s.subrange(k + 2, s.len() as int))
    }
}

/// `p` occurs in `s`.
pub open spec fn occurs_in(p: Seq<char>, s: Seq<char>) -> bool {
    exists|i: int| 0 <= i && i + p.len() <= s.len() && #[trigger] s.subrange(i, i + p.len()) == p
}

pub proof fn lemma_pieces_nonempty(s: Seq<char>, sep: char)
    ensures
        pieces(s, sep).len() >= 1,
    decreases s.len(),
{
    if s.len() > 0 {
        lemma_pieces_nonempty(s.drop_last(), sep);
    }
}

pub proof fn lemma_wide_pieces_nonempty(s: Seq<char>)
    ensures
        wide_pieces(s).len() >= 1,
    decreases s.len(),
{
    if s.len() > 0 {
        lemma_wide_pieces_nonempty(s.drop_last());
    }
}

/// Splitting at a separator between two texts splits each of them.
pub proof fn lemma_pieces_append(a: Seq<char>, b: Seq<char>, sep: char)
    ensures
        pieces(a + seq![sep] + b, sep) == pieces(a, sep) + pieces(b, sep),
    decreases b.len(),
{
    let x = a + seq![sep];
    if b.len() == 0 {
        assert(x + b =~= x);
        assert(x.drop_last() =~= a);
        assert(pieces(a, sep) + pieces(b, sep) =~= pieces(a, sep).push(Seq::empty()));
    } else {
        lemma_pieces_append(a, b.drop_last(), sep);
        lemma_pieces_nonempty(b.drop_last(), sep);
        assert((x + b).drop_last() =~= x + b.drop_last());
        let p = pieces(a, sep) + pieces(b.drop_last(), sep);
        if b.last() == sep {
            assert(p.push(Seq::empty()) =~= pieces(a, sep) + pieces(b, sep));
        } else {
            assert(p.drop_last().push(p.last().push(b.last())) =~= pieces(a, sep) + pieces(
                b,
                sep,
            ));
        }
    }
}

proof fn lemma_views_push(v: Seq<Vec<char>>, x: Vec<char>)
    ensures
        views(v.push(x)) == views(v).push(x@),
{
    assert(views(v.push(x)) =~= views(v).push(x@));
}

proof fn lemma_digits_monotone(s: Seq<char>, k: int)
    requires
        0 <= k <= s.len(),
    ensures
        digits_value(s) >= digits_value(s.take(k)),
    decreases s.len(),
{
    if k < s.len() {
        lemma_digits_monotone(s.drop_last(), k);
        assert(s.drop_last().take(k) == s.take(k));
    } else {
        assert(s.take(k) == s);
    }
}

/// Copies the characters of `s` into a vector.
pub fn chars_of(s: &str) -> (r: Vec<char>)
    ensures
        r@ == s@,
{
    let mut out: Vec<char> = Vec::new();
    proof {
        broadcast use vstd::string::axiom_spec_iter;
    }
    for c in it: s.chars()
        invariant
            it.seq() == s@,
            out@ == it.seq().take(it.index()),
    {
        out.push(c);
        assert(out@ == it.seq().take(it.index() + 1));
    }
    out
}

/// Relies on `FromIterator<&char>` for `String`, through `Iterator::collect`: the string holds exactly the
/// given characters, in order.
#[verifier::external_body]
pub(crate) fn string_of(v: &Vec<char>) -> (r: String)
    ensures
        r@ == v@,
{
    v.iter().collect()
}

pub fn is_space_char(c: char) -> (r: bool)
    ensures
        r == is_space(c),
{
    let u: u32 = c as u32;
    (0x9 <= u && u <= 0xd) || u == 0x20 || u == 0x85 || u == 0xa0 || u == 0x1680 || (0x2000 <= u
        && u <= 0x200a) || u == 0x2028 || u == 0x2029 || u == 0x202f || u == 0x205f || u == 0x3000
}

pub fn copy_range(s: &Vec<char>, lo: usize, hi: usize) -> (r: Vec<char>)
    requires
        lo <= hi <= s.len(),
    ensures
        r@ == s@.subrange(lo as int, hi as int),
{
    let mut r: Vec<char> = Vec::new();
    let mut i: usize = lo;
    while i < hi
        invariant
            lo <= i <= hi,
            hi <= s.len(),
            r@ == s@.subrange(lo as int, i as int),
        decreases hi - i,
    {
        r.push(s[i]);
        i += 1;
        assert(r@ =~= s@.subrange(lo as int, i as int));
    }
    r
}

/// `s` without leading and trailing white space.
pub fn trim(s: &Vec<char>) -> (r: Vec<char>)
    ensures
        r@ == trimmed(s@),
{
    let mut a: usize = 0;
    assert(s@.subrange(0, s.len() as int) =~= s@);
    while a < s.len() && is_space_char(s[a])
        invariant
            a <= s.len(),
            trim_start(s@) == trim_start(s@.subrange(a as int, s.len() as int)),
        decreases s.len() - a,
    {
        assert(s@.subrange(a as int, s.len() as int).drop_first() =~= s@.subrange(
            a + 1,
            s.len() as int,
        ));
        a += 1;
    }
    let ghost t = s@.subrange(a as int, s.len() as int);
    assert(trim_start(t) == t);
    let mut b: usize = s.len();
    while b > a && is_space_char(s[b - 1])
        invariant
            a <= b <= s.len(),
            t == s@.subrange(a as int, s.len() as int),
            trim_end(t) == trim_end(s@.subrange(a as int, b as int)),
        decreases b,
    {
        assert(s@.subrange(a as int, b as int).drop_last() =~= s@.subrange(a as int, b - 1));
        b -= 1;
    }
    copy_range(s, a, b)
}

/// The pieces of `s` between occurrences of `sep`.
pub fn split_on(s: &Vec<char>, sep: char) -> (r: Vec<Vec<char>>)
    ensures
        views(r@) == pieces(s@, sep),
{
    let mut done: Vec<Vec<char>> = Vec::new();
    let mut cur: Vec<char> = Vec::new();
    let mut i: usize = 0;
    assert(s@.take(0) =~= Seq::<char>::empty());
    assert(views(done@).push(cur@) =~= seq![Seq::<char>::empty()]);
    while i < s.len()
        invariant
            i <= s.len(),
            views(done@).push(cur@) == pieces(s@.take(i as int), sep),
        decreases s.len() - i,
    {
        assert(s@.take(i + 1).drop_last() =~= s@.take(i as int));
        let c = s[i];
        let ghost p = views(done@).push(cur@);
        assert(p.drop_last() =~= views(done@));
        if c == sep {
            proof {
                lemma_views_push(done@, cur);
            }
            done.push(cur);
            cur = Vec::new();
        } else {
            cur.push(c);
        }
        i += 1;
    }
    assert(s@.take(s.len() as int) =~= s@);
    proof {
        lemma_views_push(done@, cur);
    }
    done.push(cur);
    done
}

/// The fields of a line whose columns are set apart by two or more spaces:
/// the line is split at each pair of spaces, each piece is trimmed, and the
/// pieces left empty are dropped.
pub fn fields(s: &Vec<char>) -> (r: Vec<Vec<char>>)
    ensures
        views(r@) == fields_of(s@),
{
    let mut out: Vec<Vec<char>> = Vec::new();
    let mut cur: Vec<char> = Vec::new();
    let mut i: usize = 0;
    assert(s@.take(0) =~= Seq::<char>::empty());
    assert(seq![Seq::<char>::empty()].drop_last() =~= Seq::<Seq<char>>::empty());
    while i < s.len()
        invariant
            i <= s.len(),
            wide_pieces(s@.take(i as int)).len() >= 1,
            views(out@) == kept_trimmed(wide_pieces(s@.take(i as int)).drop_last()),
            cur@ == wide_pieces(s@.take(i as int)).last(),
        decreases s.len() - i,
    {
        let ghost p = wide_pieces(s@.take(i as int));
        assert(s@.take(i + 1).drop_last() =~= s@.take(i as int));
        let c = s[i];
        if c == ' ' && cur.len() > 0 && cur[cur.len() - 1] == ' ' {
            cur.pop();
            let ghost q = p.drop_last().push(cur@);
            assert(q.drop_last() =~= p.drop_last());
            assert(q.push(Seq::<char>::empty()).drop_last() =~= q);
            let t = trim(&cur);
            if t.len() > 0 {
                proof {
                    lemma_views_push(out@, t);
                }
                out.push(t);
            }
            cur = Vec::new();
        } else {
            cur.push(c);
            assert(p.drop_last().push(cur@).drop_last() =~= p.drop_last());
        }
        i += 1;
    }
    assert(s@.take(s.len() as int) =~= s@);
    proof {
        lemma_wide_pieces_nonempty(s@);
    }
    let t = trim(&cur);
    if t.len() > 0 {
        proof {
            lemma_views_push(out@, t);
        }
        out.push(t);
    }
    out
}

/// Index of the first `c` in `s`.
pub fn index_of(s: &Vec<char>, c: char) -> (r: Option<usize>)
    ensures
        r is None <==> index_of_from(s@, c, 0) == -1,
        r matches Some(k) ==> k == index_of_from(s@, c, 0) && k < s.len() && s@[k as int] == c,
{
    proof {
        lemma_index_of_from_range(s@, c, 0);
    }
    let mut i: usize = 0;
    while i < s.len()
        invariant
            i <= s.len(),
            index_of_from(s@, c, 0) == index_of_from(s@, c, i as int),
        decreases s.len() - i,
    {
        if s[i] == c {
            return Some(i);
        }
        i += 1;
    }
    None
}

proof fn lemma_index_of_from_range(s: Seq<char>, c: char, i: int)
    ensures
        index_of_from(s, c, i) == -1 || (i <= index_of_from(s, c, i) < s.len() && s[index_of_from(
            s,
            c,
            i,
        )] == c),
    decreases s.len() - i,
{
    if 0 <= i < s.len() && s[i] != c {
        lemma_index_of_from_range(s, c, i + 1);
    }
}

/// Index of the first white-space character in `s`.
pub fn index_of_space(s: &Vec<char>) -> (r: Option<usize>)
    ensures
        r is None <==> space_index_from(s@, 0) == -1,
        r matches Some(k) ==> k == space_index_from(s@, 0) && k < s.len(),
{
    proof {
        lemma_space_index_from_range(s@, 0);
    }
    let mut i: usize = 0;
    while i < s.len()
        invariant
            i <= s.len(),
            space_index_from(s@, 0) == space_index_from(s@, i as int),
        decreases s.len() - i,
    {
        if is_space_char(s[i]) {
            return Some(i);
        }
        i += 1;
    }
    None
}

proof fn lemma_space_index_from_range(s: Seq<char>, i: int)
    ensures
        space_index_from(s, i) == -1 || i <= space_index_from(s, i) < s.len(),
    decreases s.len() - i,
{
    if 0 <= i < s.len() && !is_space(s[i]) {
        lemma_space_index_from_range(s, i + 1);
    }
}

/// What follows the first `": "` of `s`, if it holds one.
pub fn value_after_label(s: &Vec<char>) -> (r: Option<Vec<char>>)
    ensures
        r is None <==> label_value(s@) is None,
        r matches Some(v) ==> label_value(s@) == Some(v@),
{
    let mut i: usize = 0;
    while s.len() > 1 && i < s.len() - 1
        invariant
            i <= s.len(),
            label_end_from(s@, 0) == label_end_from(s@, i as int),
        decreases s.len() - i,
    {
        if s[i] == ':' && s[i + 1] == ' ' {
            return Some(copy_range(s, i + 2, s.len()));
        }
        i += 1;
    }
    None
}

proof fn lemma_digits_value_step(s: Seq<char>, k: int)
    requires
        0 <= k < s.len(),
    ensures
        digits_value(s.take(k + 1)) == digits_value(s.take(k)) * 10 + digit_value(s[k]),
{
    assert(s.take(k + 1).drop_last() =~= s.take(k));
}

/// Reads an unsigned number, with the syntax that `str::parse::<u32>` accepts.
pub fn parse_u32(s: &Vec<char>) -> (r: Option<u32>)
    ensures
        r == u32_value(s@),
{
    let ghost d = unsigned_digits(s@);
    let start: usize = if s.len() > 0 && s[0] == '+' {
        1
    } else {
        0
    };
    assert(d =~= s@.subrange(start as int, s.len() as int));
    if start >= s.len() {
        return None;
    }
    let mut val: u64 = 0;
    let mut i: usize = start;
    assert(d.take(0) =~= Seq::<char>::empty());
    while i < s.len()
        invariant
            start <= i <= s.len(),
            d == unsigned_digits(s@),
            d == s@.subrange(start as int, s.len() as int),
            val == digits_value(d.take(i - start)),
            val <= u32::MAX,
            forall|j: int| 0 <= j < i - start ==> #[trigger] is_digit(d[j]),
        decreases s.len() - i,
    {
        let u: u32 = s[i] as u32;
        if !(48 <= u && u <= 57) {
            assert(!is_digit(d[i - start]));
            return None;
        }
        proof {
            lemma_digits_value_step(d, i - start);
        }
        let next: u64 = val * 10 + (u - 48) as u64;
        if next > u32::MAX as u64 {
            proof {
                if all_digits(d) {
                    lemma_digits_monotone(d, i - start + 1);
                }
            }
            return None;
        }
        val = next;
        i += 1;
    }
    assert(d.take(d.len() as int) =~= d);
    Some(val as u32)
}

fn digit_to_char(d: u32) -> (r: char)
    requires
        d < 10,
    ensures
        r == digit_char(d as nat),
{
    if d == 0 {
        '0'
    } else if d == 1 {
        '1'
    } else if d == 2 {
        '2'
    } else if d == 3 {
        '3'
    } else if d == 4 {
        '4'
    } else if d == 5 {
        '5'
    } else if d == 6 {
        '6'
    } else if d == 7 {
        '7'
    } else if d == 8 {
        '8'
    } else {
        '9'
    }
}

/// Appends the decimal notation of `n`.
pub fn push_decimal(out: &mut Vec<char>, n: u32)
    ensures
        final(out)@ == old(out)@ + decimal(n as nat),
    decreases n,
{
    if n >= 10 {
        push_decimal(out, n / 10);
    }
    out.push(digit_to_char(n % 10));
    assert(old(out)@ + decimal(n as nat) =~= final(out)@);
}

/// Appends the characters of `s`.
pub fn push_str(out: &mut Vec<char>, s: &str)
    ensures
        final(out)@ == old(out)@ + s@,
{
    let mut cs = chars_of(s);
    out.append(&mut cs);
}

/// Whether `p` occurs in `s`.
pub fn contains(s: &Vec<char>, p: &Vec<char>) -> (r: bool)
    ensures
        r == occurs_in(p@, s@),
{
    if p.len() > s.len() {
        return false;
    }
    let mut i: usize = 0;
    while i <= s.len() - p.len()
        invariant
            p.len() <= s.len(),
            i <= s.len() - p.len() + 1,
            forall|k: int| 0 <= k < i ==> #[trigger] s@.subrange(k, k + p.len()) != p@,
        decreases s.len() - i,
    {
        let mut j: usize = 0;
        while j < p.len() && s[i + j] == p[j]
            invariant
                j <= p.len(),
                i + p.len() <= s.len(),
                forall|m: int| 0 <= m < j ==> s@[i + m] == p@[m],
            decreases p.len() - j,
        {
            j += 1;
        }
        if j == p.len() {
            assert(s@.subrange(i as int, i + p.len()) =~= p@);
            return true;
        }
        assert(s@.subrange(i as int, i + p.len())[j as int] != p@[j as int]);
        i += 1;
    }
    false
}

} // verus!
