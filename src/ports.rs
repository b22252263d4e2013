//! The compact port-list notation of the device: `none`, `3`, `1-5`, `1,3-5,7`.
use vstd::prelude::*;
use crate::error::VlanError;
use crate::text::{
    chars_of, index_of, index_of_from, lemma_pieces_append, parse_u32, pieces, split_on,
    u32_value, views,
};

verus! {

/// The ports `lo` to `hi`, both included, in increasing order.
pub open spec fn span(lo: u32, hi: u32) -> Seq<u32> {
    if lo <= hi {
        Seq::new((hi - lo + 1) as nat, |k: int| (lo + k) as u32)
    } else {
        Seq::empty()
    }
}

/// The ports that one comma-separated token stands for: a number, or a range
/// `a-b` split at its first hyphen. A token that does not read as either
/// stands for no port.
pub open spec fn token_ports(t: Seq<char>) -> Seq<u32> {
    let h = index_of_from(t, '-', 0);
    if h < 0 {
        match u32_value(t) {
            Some(n) => seq![n],
            None => Seq::empty(),
        }
    } else {
        match (u32_value(t.take(h)), u32_value(t.subrange(h + 1, t.len() as int))) {
            (Some(a), Some(b)) => span(a, b),
            _ => Seq::empty(),
        }
    }
}

/// The ports of the tokens `ts`, concatenated in token order.
pub open spec fn tokens_ports(ts: Seq<Seq<char>>) -> Seq<u32>
    decreases ts.len(),
{
    if ts.len() == 0 {
        Seq::empty()
    } else {
        tokens_ports(ts.drop_last()) + token_ports(ts.last())
    }
}

/// The ports that a port-list spec stands for, in the order written,
/// repeats kept.
pub open spec fn port_list(s: Seq<char>) -> Seq<u32> {
    if s == seq!['n', 'o', 'n', 'e'] {
        Seq::empty()
    } else {
        tokens_ports(pieces(s, ','))
    }
}

fn push_span(out: &mut Vec<u32>, lo: u32, hi: u32)
    ensures
        final(out)@ == old(out)@ + span(lo, hi),
{
    if lo > hi {
        assert(old(out)@ + span(lo, hi) =~= old(out)@);
        return;
    }
    let mut k: u64 = lo as u64;
    while k <= hi as u64
        invariant
            lo <= k <= hi as u64 + 1,
            lo <= hi,
            out@ == old(out)@ + Seq::new((k - lo) as nat, |j: int| (lo + j) as u32),
        decreases hi as u64 + 1 - k,
    {
        out.push(k as u32);
        k += 1;
        assert(out@ =~= old(out)@ + Seq::new((k - lo) as nat, |j: int| (lo + j) as u32));
    }
    assert(out@ =~= old(out)@ + span(lo, hi));
}

fn push_token(out: &mut Vec<u32>, t: &Vec<char>)
    ensures
        final(out)@ == old(out)@ + token_ports(t@),
{
    match index_of(t, '-') {
        None => {
            match parse_u32(t) {
                Some(n) => {
                    out.push(n);
                    assert(final(out)@ =~= old(out)@ + seq![n]);
                },
                None => {
                    assert(final(out)@ =~= old(out)@ + Seq::<u32>::empty());
                },
            }
        },
        Some(h) => {
            let lo_text = crate::text::copy_range(t, 0, h);
            let hi_text = crate::text::copy_range(t, h + 1, t.len());
            assert(lo_text@ =~= t@.take(h as int));
            match (parse_u32(&lo_text), parse_u32(&hi_text)) {
                (Some(a), Some(b)) => push_span(out, a, b),
                _ => {
                    assert(final(out)@ =~= old(out)@ + Seq::<u32>::empty());
                },
            }
        },
    }
}

fn is_none_word(s: &Vec<char>) -> (r: bool)
    ensures
        r == (s@ == seq!['n', 'o', 'n', 'e']),
{
    let r = s.len() == 4 && s[0] == 'n' && s[1] == 'o' && s[2] == 'n' && s[3] == 'e';
    assert(r ==> s@ =~= seq!['n', 'o', 'n', 'e']);
    r
}

/// Decodes a port-list spec held as characters.
pub fn decode_ports(s: &Vec<char>) -> (r: Vec<u32>)
    ensures
        r@ == port_list(s@),
{
    let mut out: Vec<u32> = Vec::new();
    if is_none_word(s) {
        return out;
    }
    let ts = split_on(s, ',');
    let mut i: usize = 0;
    assert(views(ts@).take(0) =~= Seq::<Seq<char>>::empty());
    while i < ts.len()
        invariant
            i <= ts.len(),
            views(ts@) == pieces(s@, ','),
            out@ == tokens_ports(views(ts@).take(i as int)),
        decreases ts.len() - i,
    {
        assert(views(ts@).take(i + 1).drop_last() =~= views(ts@).take(i as int));
        push_token(&mut out, &ts[i]);
        i += 1;
    }
    assert(views(ts@).take(ts.len() as int) =~= views(ts@));
    out
}

/// Decodes a port-list spec. Tokens that do not read as a port or a range
/// are dropped; the decoding itself never fails.
pub fn parse_ports(input: &str) -> (r: Result<Vec<u32>, VlanError>)
    ensures
        r matches Ok(v) && v@ == port_list(input@),
{
    let s = chars_of(input);
    Ok(decode_ports(&s))
}

proof fn lemma_tokens_ports_append(x: Seq<Seq<char>>, y: Seq<Seq<char>>)
    ensures
        tokens_ports(x + y) == tokens_ports(x) + tokens_ports(y),
    decreases y.len(),
{
    if y.len() == 0 {
        assert(x + y =~= x);
        assert(tokens_ports(x) + tokens_ports(y) =~= tokens_ports(x));
    } else {
        lemma_tokens_ports_append(x, y.drop_last());
        assert((x + y).drop_last() =~= x + y.drop_last());
        assert((tokens_ports(x) + tokens_ports(y.drop_last())) + token_ports(y.last())
            =~= tokens_ports(x) + tokens_ports(y));
    }
}

/// Decoding two port lists joined by a comma gives the first list's ports
/// followed by the second's: order is kept and repeats stay.
pub proof fn lemma_port_list_join(a: Seq<char>, b: Seq<char>)
    requires
        a != seq!['n', 'o', 'n', 'e'],
        b != seq!['n', 'o', 'n', 'e'],
    ensures
        port_list(a + seq![','] + b) == port_list(a) + port_list(b),
{
    let s = a + seq![','] + b;
    assert(s.len() != 4 || s[a.len() as int] == ',');
    lemma_pieces_append(a, b, ',');
    lemma_tokens_ports_append(pieces(a, ','), pieces(b, ','));
}

} // verus!
