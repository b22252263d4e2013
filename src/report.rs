//! Parsers for the two reports of the device: the VLAN summary table and the
//! detail block of one VLAN.
use vstd::prelude::*;
use crate::error::VlanError;
use crate::ports::{decode_ports, port_list};
use crate::text::{
    chars_of, copy_range, fields, fields_of, index_of_space, label_value,
    lemma_pieces_append, lemma_pieces_nonempty, parse_u32, pieces, split_on, string_of, trim,
    space_index_from, trimmed, u32_value, value_after_label, views,
};

verus! {

/// One row of the VLAN summary.
#[derive(Debug)]
pub struct Vlan {
    pub id: u32,
    pub name: String,
}

/// The detail report of one VLAN. Port lists keep the order of the report's
/// ranges, repeats included.
#[derive(Debug)]
pub struct VlanDetails {
    pub id: u32,
    pub name: String,
    pub untagged: Vec<u32>,
    pub tagged: Vec<u32>,
}

/// The rows of a list of VLANs, as id and name.
pub open spec fn vlan_rows(v: Seq<Vlan>) -> Seq<(u32, Seq<char>)> {
    v.map_values(|x: Vlan| (x.id, x.name@))
}

/// The lines of the summary after its two header lines.
pub open spec fn summary_body(s: Seq<char>) -> Seq<Seq<char>> {
    let ls = pieces(s, '\n');
    if ls.len() <= 2 {
        Seq::empty()
    } else {
        ls.subrange(2, ls.len() as int)
    }
}

/// The rows of summary lines: each line is split at its first run of white
/// space into an id, which must read as a number, and a name, which is the
/// rest of the line trimmed. A blank line, or one without white space, holds
/// no row. `None` where some id does not read.
pub open spec fn summary_rows(ls: Seq<Seq<char>>) -> Option<Seq<(u32, Seq<char>)>>
    decreases ls.len(),
{
    if ls.len() == 0 {
        Some(Seq::empty())
    } else {
        match summary_rows(ls.drop_last()) {
            None => None,
            Some(rows) => {
                let l = ls.last();
                let k = space_index_from(l, 0);
                if k < 0 || trimmed(l).len() == 0 {
                    Some(rows)
                } else {
                    match u32_value(l.take(k)) {
                        None => None,
                        Some(id) => Some(rows.push((id, trimmed(l.subrange(k + 1, l.len() as int))))),
                    }
                }
            },
        }
    }
}

/// The VLANs that a summary report lists, or `None` where it is malformed.
pub open spec fn summary_of(s: Seq<char>) -> Option<Seq<(u32, Seq<char>)>> {
    summary_rows(summary_body(s))
}

/// The lines of `ls` that are not empty, in order.
pub open spec fn nonblank(ls: Seq<Seq<char>>) -> Seq<Seq<char>>
    decreases ls.len(),
{
    if ls.len() == 0 {
        Seq::empty()
    } else if ls.last().len() > 0 {
        nonblank(ls.drop_last()).push(ls.last())
    } else {
        nonblank(ls.drop_last())
    }
}

/// The values of the `Label: value` fields among `fs`, in order; fields
/// without a label are passed over.
pub open spec fn label_values(fs: Seq<Seq<char>>) -> Seq<Seq<char>>
    decreases fs.len(),
{
    if fs.len() == 0 {
        Seq::empty()
    } else {
        match label_value(fs.last()) {
            Some(v) => label_values(fs.drop_last()).push(v),
            None => label_values(fs.drop_last()),
        }
    }
}

/// What a detail report states: id, name, untagged and tagged ports. The id
/// and name are the first two label values of the first non-empty line; the
/// port lists are the second and third fields of the fourth. `None` where the
/// report lacks one of them or the id does not read.
pub open spec fn details_of(s: Seq<char>) -> Option<(u32, Seq<char>, Seq<u32>, Seq<u32>)> {
    let ls = nonblank(pieces(s, '\n'));
    if ls.len() < 4 {
        None
    } else {
        let info = label_values(fields_of(ls[0]));
        let cols = fields_of(ls[3]);
        if info.len() < 2 || cols.len() < 3 {
            None
        } else {
            match u32_value(info[0]) {
                None => None,
                Some(id) => Some((id, info[1], port_list(cols[1]), port_list(cols[2]))),
            }
        }
    }
}

/// The view of a detail report as id, name and the two port lists.
pub open spec fn details_view(d: VlanDetails) -> (u32, Seq<char>, Seq<u32>, Seq<u32>) {
    (d.id, d.name@, d.untagged@, d.tagged@)
}

fn copy_all(v: &Vec<char>) -> (r: Vec<char>)
    ensures
        r@ == v@,
{
    let r = copy_range(v, 0, v.len());
    assert(r@ =~= v@);
    r
}

/// Reads the summary lines after the first two of `ls` into `out`.
fn summary_rows_into(ls: &Vec<Vec<char>>, out: &mut Vec<Vlan>) -> (ok: bool)
    requires
        ls.len() > 2,
        old(out)@.len() == 0,
    ensures
        ok <==> summary_rows(views(ls@).subrange(2, ls.len() as int)) is Some,
        ok ==> summary_rows(views(ls@).subrange(2, ls.len() as int)) == Some(vlan_rows(final(out)@)),
{
    let ghost body = views(ls@).subrange(2, ls.len() as int);
    let mut i: usize = 2;
    assert(body.take(0) =~= Seq::<Seq<char>>::empty());
    assert(vlan_rows(out@) =~= Seq::<(u32, Seq<char>)>::empty());
    while i < ls.len()
        invariant
            2 <= i <= ls.len(),
            body == views(ls@).subrange(2, ls.len() as int),
            summary_rows(body.take(i - 2)) == Some(vlan_rows(out@)),
        decreases ls.len() - i,
    {
        let ghost pre = body.take(i - 2);
        assert(body.take(i - 1).drop_last() =~= pre);
        assert(body.take(i - 1).last() == ls@[i as int]@);
        let l = &ls[i];
        let blank = trim(l).len() == 0;
        match index_of_space(l) {
            None => {},
            Some(_) if blank => {},
            Some(k) => {
                let id_text = copy_range(l, 0, k);
                assert(id_text@ =~= l@.take(k as int));
                match parse_u32(&id_text) {
                    None => {
                        proof {
                            lemma_rows_stay_none(body, i - 1);
                        }
                        return false;
                    },
                    Some(id) => {
                        let rest = copy_range(l, k + 1, l.len());
                        let name_chars = trim(&rest);
                        let name = string_of(&name_chars);
                        let ghost before = out@;
                        out.push(Vlan { id, name });
                        assert(vlan_rows(out@) =~= vlan_rows(before).push((id, name@)));
                    },
                }
            },
        }
        i += 1;
    }
    assert(body.take(i - 2) =~= body);
    true
}

proof fn lemma_rows_stay_none(ls: Seq<Seq<char>>, n: int)
    requires
        0 <= n <= ls.len(),
        summary_rows(ls.take(n)) is None,
    ensures
        summary_rows(ls) is None,
    decreases ls.len() - n,
{
    if n < ls.len() {
        assert(ls.take(n + 1).drop_last() =~= ls.take(n));
        lemma_rows_stay_none(ls, n + 1);
    } else {
        assert(ls.take(n) =~= ls);
    }
}

/// Parses the VLAN summary: the first two lines are a header and are
/// skipped; each later line that is not blank and holds white space gives one
/// VLAN, its id before the first run of white space and its name, trimmed,
/// after it, in report order.
pub fn parse_vlan_summary(input: String) -> (r: Result<Vec<Vlan>, VlanError>)
    ensures
        match summary_of(input@) {
            Some(rows) => r matches Ok(v) && vlan_rows(v@) == rows,
            None => r == Err::<Vec<Vlan>, VlanError>(VlanError::Parse),
        },
{
    let s = chars_of(input.as_str());
    let ls = split_on(&s, '\n');
    let mut out: Vec<Vlan> = Vec::new();
    if ls.len() <= 2 {
        assert(summary_rows(Seq::<Seq<char>>::empty()) == Some(Seq::<(u32, Seq<char>)>::empty()));
        assert(vlan_rows(out@) =~= Seq::<(u32, Seq<char>)>::empty());
        return Ok(out);
    }
    if summary_rows_into(&ls, &mut out) {
        Ok(out)
    } else {
        Err(VlanError::Parse)
    }
}

fn keep_nonblank(ls: &Vec<Vec<char>>) -> (r: Vec<Vec<char>>)
    ensures
        views(r@) == nonblank(views(ls@)),
{
    let mut out: Vec<Vec<char>> = Vec::new();
    let mut i: usize = 0;
    assert(views(ls@).take(0) =~= Seq::<Seq<char>>::empty());
    assert(views(out@) =~= Seq::<Seq<char>>::empty());
    while i < ls.len()
        invariant
            i <= ls.len(),
            views(out@) == nonblank(views(ls@).take(i as int)),
        decreases ls.len() - i,
    {
        assert(views(ls@).take(i + 1).drop_last() =~= views(ls@).take(i as int));
        if ls[i].len() > 0 {
            let l = copy_all(&ls[i]);
            let ghost before = out@;
            out.push(l);
            assert(views(out@) =~= views(before).push(l@));
        }
        i += 1;
    }
    assert(views(ls@).take(ls.len() as int) =~= views(ls@));
    out
}

fn values_of_labels(fs: &Vec<Vec<char>>) -> (r: Vec<Vec<char>>)
    ensures
        views(r@) == label_values(views(fs@)),
{
    let mut out: Vec<Vec<char>> = Vec::new();
    let mut i: usize = 0;
    assert(views(fs@).take(0) =~= Seq::<Seq<char>>::empty());
    assert(views(out@) =~= Seq::<Seq<char>>::empty());
    while i < fs.len()
        invariant
            i <= fs.len(),
            views(out@) == label_values(views(fs@).take(i as int)),
        decreases fs.len() - i,
    {
        assert(views(fs@).take(i + 1).drop_last() =~= views(fs@).take(i as int));
        match value_after_label(&fs[i]) {
            Some(v) => {
                let ghost before = out@;
                out.push(v);
                assert(views(out@) =~= views(before).push(v@));
            },
            None => {},
        }
        i += 1;
    }
    assert(views(fs@).take(fs.len() as int) =~= views(fs@));
    out
}

/// Parses the detail report of one VLAN. Empty lines are dropped first. The
/// first line holds `Label: value` fields set apart by two or more spaces:
/// the first value is the id, the second the name. The fourth line holds
/// fields set apart the same way: the second is the untagged port list, the
/// third the tagged one.
pub fn parse_vlan_details(input: String) -> (r: Result<VlanDetails, VlanError>)
    ensures
        match details_of(input@) {
            Some(d) => r matches Ok(v) && details_view(v) == d,
            None => r == Err::<VlanDetails, VlanError>(VlanError::Parse),
        },
{
    let s = chars_of(input.as_str());
    let all = split_on(&s, '\n');
    let ls = keep_nonblank(&all);
    if ls.len() < 4 {
        return Err(VlanError::Parse);
    }
    let head = fields(&ls[0]);
    let info = values_of_labels(&head);
    let cols = fields(&ls[3]);
    if info.len() < 2 || cols.len() < 3 {
        return Err(VlanError::Parse);
    }
    match parse_u32(&info[0]) {
        None => Err(VlanError::Parse),
        Some(id) => {
            let name = string_of(&info[1]);
            let untagged = decode_ports(&cols[1]);
            let tagged = decode_ports(&cols[2]);
            Ok(VlanDetails { id, name, untagged, tagged })
        },
    }
}

proof fn lemma_pieces_single(h: Seq<char>, sep: char)
    requires
        !h.contains(sep),
    ensures
        pieces(h, sep) == seq![h],
    decreases h.len(),
{
    if h.len() == 0 {
        assert(h =~= Seq::<char>::empty());
    } else {
        assert(!h.drop_last().contains(sep)) by {
            if h.drop_last().contains(sep) {
                let k = choose|k: int| 0 <= k < h.drop_last().len() && h.drop_last()[k] == sep;
                assert(h[k] == sep);
            }
        }
        lemma_pieces_single(h.drop_last(), sep);
        assert(h[h.len() - 1] != sep);
        assert(h.drop_last().push(h.last()) =~= h);
        assert(seq![h.drop_last()].drop_last().push(h.drop_last().push(h.last())) =~= seq![h]);
    }
}

/// The summary's rows come from the lines after its first two, whatever
/// those two hold.
pub proof fn lemma_summary_skips_header(h1: Seq<char>, h2: Seq<char>, rest: Seq<char>)
    requires
        !h1.contains('\n'),
        !h2.contains('\n'),
    ensures
        summary_of(h1 + seq!['\n'] + h2 + seq!['\n'] + rest) == summary_rows(pieces(rest, '\n')),
{
    let nl = seq!['\n'];
    lemma_pieces_append(h1, h2 + nl + rest, '\n');
    lemma_pieces_append(h2, rest, '\n');
    lemma_pieces_single(h1, '\n');
    lemma_pieces_single(h2, '\n');
    lemma_pieces_nonempty(rest, '\n');
    assert(h1 + nl + (h2 + nl + rest) =~= h1 + nl + h2 + nl + rest);
    let ls = seq![h1] + (seq![h2] + pieces(rest, '\n'));
    assert(ls.subrange(2, ls.len() as int) =~= pieces(rest, '\n'));
}

} // verus!
