//! Rewriting shared-formula groups of a written workbook: the master cell of
//! a group gets the new formula (with the group's range and index), and
//! every other cell of the range becomes a follower of it.
//!
//! Everything here works on the text of the workbook's XML parts; reading
//! and writing the zip archive is left to the caller.
use vstd::prelude::*;

use crate::assoc::{distinct_keys, entries_map, entry_views, find_key, lemma_entries_map_distinct, upsert};
use crate::core2::formula_text::str_views;
use crate::core2::shared_formula_reader::{
    col_letters, col_letters_to_number_msg, col_number_msg, extract_attr, number_to_col_letters,
    spec_extract_attr, spec_xml_unescape, split_cell_ref_msg, split_cell_ref_msg_exec,
};
use crate::decimal::{dec, dec_chars_u64};
use crate::text::{
    contains_exec, contains_seq, last_from, rfind, chars_of, count_char, count_char_exec, find_char, find_first, first_at, first_char, occurs_at, prepend,
    push_all, push_range, replace_seq, replace_vec, res_view, starts_with_exec, starts_with_seq, string_of,
    string_of_range, char_pieces, is_entity, lemma_char_pieces_flatten, lemma_replace_char_pieces,
    lemma_replace_entity_pieces, subst_pieces, text_piece,
};

verus! {

broadcast use vstd::seq_lib::group_seq_properties;

/// A new formula for the master cell of a shared-formula group.
#[derive(Debug, Clone)]
pub struct SharedFormulaOverride {
    pub sheet_name: String,
    pub anchor_address: String,
    pub formula_body: String,
}

/// A sheet of the workbook and the path of its XML part in the archive.
#[derive(Debug, Clone)]
pub struct SheetInfo {
    pub name: String,
    pub path: String,
}

// ------------------------------------------------------------------
// Escaping
// ------------------------------------------------------------------

pub open spec fn spec_escape_text(t: Seq<char>) -> Seq<char> {
    replace_seq(replace_seq(replace_seq(t, "&"@, "&amp;"@), "<"@, "&lt;"@), ">"@, "&gt;"@)
}

pub open spec fn spec_escape_attr(t: Seq<char>) -> Seq<char> {
    replace_seq(spec_escape_text(t), "\""@, "&quot;"@)
}

fn xml_escape_text(input: &Vec<char>) -> (r: Vec<char>)
    ensures
        r@ == spec_escape_text(input@),
{
    proof {
        reveal_strlit("&");
        reveal_strlit("<");
        reveal_strlit(">");
    }
    let a = replace_vec(input, &chars_of("&"), &chars_of("&amp;"));
    let b = replace_vec(&a, &chars_of("<"), &chars_of("&lt;"));
    replace_vec(&b, &chars_of(">"), &chars_of("&gt;"))
}

fn xml_escape_attr(input: &Vec<char>) -> (r: Vec<char>)
    ensures
        r@ == spec_escape_attr(input@),
{
    proof {
        reveal_strlit("\"");
    }
    replace_vec(&xml_escape_text(input), &chars_of("\""), &chars_of("&quot;"))
}

/// How `xml_escape_text` writes one character.
pub open spec fn escape_piece(c: char) -> Seq<char> {
    if c == '&' {
        "&amp;"@
    } else if c == '<' {
        "&lt;"@
    } else if c == '>' {
        "&gt;"@
    } else {
        seq![c]
    }
}

pub open spec fn escape_pieces(t: Seq<char>) -> Seq<Seq<char>> {
    Seq::new(t.len(), |i: int| escape_piece(t[i]))
}

/// Escaping a text writes it one character at a time.
proof fn lemma_escape_text_pieces(t: Seq<char>)
    ensures
        spec_escape_text(t) == escape_pieces(t).flatten(),
{
    reveal_strlit("&");
    reveal_strlit("<");
    reveal_strlit(">");
    reveal_strlit("\"");
    reveal_strlit("'");
    reveal_strlit("&amp;");
    reveal_strlit("&lt;");
    reveal_strlit("&gt;");
    reveal_strlit("&quot;");
    reveal_strlit("&apos;");
    let amp = "&amp;"@;
    let lt = "&lt;"@;
    let gt = "&gt;"@;
    assert("&"@ =~= seq!['&']);
    assert("<"@ =~= seq!['<']);
    assert(">"@ =~= seq!['>']);
    let p0 = char_pieces(t);
    lemma_char_pieces_flatten(t);
    assert forall|i: int| 0 <= i < p0.len() implies p0[i] == seq!['&'] || !p0[i].contains('&') by {
        if t[i] == '&' {
            assert(p0[i] =~= seq!['&']);
        } else {
            assert(!p0[i].contains('&')) by {
                if p0[i].contains('&') {
                    let k = choose|k: int| 0 <= k < p0[i].len() && p0[i][k] == '&';
                    assert(k == 0);
                }
            }
        }
    }
    lemma_replace_char_pieces(p0, '&', amp);
    let p1 = subst_pieces(p0, seq!['&'], amp);
    assert forall|i: int| 0 <= i < p1.len() implies p1[i] == (if t[i] == '&' { amp } else { seq![t[i]] }) by {
        if t[i] != '&' {
            assert(p0[i][0] != seq!['&'][0]);
        }
    }
    assert forall|i: int| 0 <= i < p1.len() implies p1[i] == seq!['<'] || !p1[i].contains('<') by {
        if p1[i].contains('<') {
            let k = choose|k: int| 0 <= k < p1[i].len() && p1[i][k] == '<';
            if t[i] != '&' {
                assert(k == 0);
                assert(p1[i] =~= seq!['<']);
            }
        }
    }
    lemma_replace_char_pieces(p1, '<', lt);
    let p2 = subst_pieces(p1, seq!['<'], lt);
    assert forall|i: int| 0 <= i < p2.len() implies p2[i] == (if t[i] == '&' {
        amp
    } else if t[i] == '<' {
        lt
    } else {
        seq![t[i]]
    }) by {
        if t[i] == '&' {
            assert(p1[i].len() != 1);
        } else if t[i] != '<' {
            assert(p1[i][0] != seq!['<'][0]);
        }
    }
    assert forall|i: int| 0 <= i < p2.len() implies p2[i] == seq!['>'] || !p2[i].contains('>') by {
        if p2[i].contains('>') {
            let k = choose|k: int| 0 <= k < p2[i].len() && p2[i][k] == '>';
            if t[i] != '&' && t[i] != '<' {
                assert(k == 0);
                assert(p2[i] =~= seq!['>']);
            }
        }
    }
    lemma_replace_char_pieces(p2, '>', gt);
    let p3 = subst_pieces(p2, seq!['>'], gt);
    assert forall|i: int| 0 <= i < p3.len() implies p3[i] == escape_pieces(t)[i] by {
        if t[i] == '&' || t[i] == '<' {
            assert(p2[i].len() != 1);
        } else if t[i] != '>' {
            assert(p2[i][0] != seq!['>'][0]);
        }
    }
    assert(p3 =~= escape_pieces(t));
}

/// Decoding an escaped text gives the text back.
proof fn lemma_unescape_pieces(t: Seq<char>)
    ensures
        spec_xml_unescape(escape_pieces(t).flatten()) == t,
{
    reveal_strlit("&");
    reveal_strlit("<");
    reveal_strlit(">");
    reveal_strlit("\"");
    reveal_strlit("'");
    reveal_strlit("&amp;");
    reveal_strlit("&lt;");
    reveal_strlit("&gt;");
    reveal_strlit("&quot;");
    reveal_strlit("&apos;");
    let amp = "&amp;"@;
    let lt = "&lt;"@;
    let gt = "&gt;"@;
    let quot = "&quot;"@;
    let apos = "&apos;"@;
    assert(is_entity(amp));
    assert(is_entity(lt));
    assert(is_entity(gt));
    assert(is_entity(quot));
    assert(is_entity(apos));
    let e0 = escape_pieces(t);
    assert forall|i: int| 0 <= i < e0.len() implies text_piece(#[trigger] e0[i]) by {}
    lemma_replace_entity_pieces(e0, lt, "<"@);
    let e1 = subst_pieces(e0, lt, "<"@);
    assert forall|i: int| 0 <= i < e1.len() implies #[trigger] e1[i] == (if t[i] == '<' { seq!['<'] } else {
        e0[i]
    }) by {
        if t[i] == '>' {
            assert(e0[i][1] != lt[1]);
        } else if t[i] == '&' {
            assert(e0[i].len() != lt.len());
        } else if t[i] != '<' {
            assert(e0[i].len() != lt.len());
        }
    }
    assert forall|i: int| 0 <= i < e1.len() implies text_piece(#[trigger] e1[i]) by {}
    lemma_replace_entity_pieces(e1, gt, ">"@);
    let e2 = subst_pieces(e1, gt, ">"@);
    assert forall|i: int| 0 <= i < e2.len() implies #[trigger] e2[i] == (if t[i] == '<' || t[i] == '>' {
        seq![t[i]]
    } else {
        e0[i]
    }) by {
        if t[i] == '&' {
            assert(e1[i].len() != gt.len());
        } else if t[i] != '>' {
            assert(e1[i].len() != gt.len());
        }
    }
    assert forall|i: int| 0 <= i < e2.len() implies text_piece(#[trigger] e2[i]) by {}
    lemma_replace_entity_pieces(e2, quot, "\""@);
    assert forall|i: int| 0 <= i < e2.len() implies e2[i] != quot by {
        assert(e2[i].len() != quot.len());
    }
    assert(subst_pieces(e2, quot, "\""@) =~= e2);
    lemma_replace_entity_pieces(e2, apos, "'"@);
    assert forall|i: int| 0 <= i < e2.len() implies e2[i] != apos by {
        assert(e2[i].len() != apos.len());
    }
    assert(subst_pieces(e2, apos, "'"@) =~= e2);
    lemma_replace_entity_pieces(e2, amp, "&"@);
    let e5 = subst_pieces(e2, amp, "&"@);
    assert forall|i: int| 0 <= i < e5.len() implies e5[i] == char_pieces(t)[i] by {
        if t[i] == '&' {
            assert(e5[i] =~= seq!['&']);
        } else {
            assert(e2[i].len() != amp.len());
        }
    }
    assert(e5 =~= char_pieces(t));
    lemma_char_pieces_flatten(t);
}

/// A formula body written into a cell's XML reads back as it was written:
/// decoding the escaped text gives the text itself.
pub proof fn law_escaped_text_reads_back(t: Seq<char>)
    ensures
        spec_xml_unescape(spec_escape_text(t)) == t,
{
    lemma_escape_text_pieces(t);
    lemma_unescape_pieces(t);
}

// ------------------------------------------------------------------
// Sheets of the workbook
// ------------------------------------------------------------------

/// Number of leading `/` characters.
pub open spec fn lead_slashes(s: Seq<char>) -> nat
    decreases s.len(),
{
    if s.len() > 0 && s[0] == '/' {
        1 + lead_slashes(s.drop_first())
    } else {
        0
    }
}

/// A relationship target as a path in the archive: leading `/` removed,
/// and `xl/` put in front unless it is there.
pub open spec fn spec_normalize_xl_path(t: Seq<char>) -> Seq<char> {
    let cleaned = t.skip(lead_slashes(t) as int);
    if starts_with_seq(cleaned, "xl/"@) {
        cleaned
    } else {
        "xl/"@ + cleaned
    }
}

fn normalize_xl_path(target: &Vec<char>) -> (r: Vec<char>)
    ensures
        r@ == spec_normalize_xl_path(target@),
{
    let mut i: usize = 0;
    while i < target.len() && target[i] == '/'
        invariant
            i <= target.len(),
            lead_slashes(target@) == i + lead_slashes(target@.skip(i as int)),
        decreases target.len() - i,
    {
        proof {
            assert(target@.skip(i as int).drop_first() =~= target@.skip(i + 1));
        }
        i += 1;
    }
    let mut cleaned: Vec<char> = Vec::new();
    push_range(&mut cleaned, target, i, target.len());
    proof {
        assert(cleaned@ =~= target@.skip(i as int));
    }
    let xl = chars_of("xl/");
    if starts_with_exec(&cleaned, &xl) {
        cleaned
    } else {
        let mut out = xl;
        push_all(&mut out, &cleaned);
        out
    }
}

/// The `Target` of the relationship with id `rid`: `Ok(None)` when no
/// relationship has that id.
pub open spec fn spec_relationship_target(rels: Seq<char>, rid: Seq<char>) -> Result<Option<Seq<char>>, Seq<char>> {
    let marker = "Id=\""@ + rid + "\""@;
    match first_at(rels, marker, 0) {
        None => Ok(None),
        Some(st) => match first_at(rels, "Target=\""@, st) {
            None => Err("Target not found for "@ + rid),
            Some(t) => match first_char(rels, '"', t + 8) {
                None => Err("Target close quote missing for "@ + rid),
                Some(e) => Ok(Some(rels.subrange(t + 8, e))),
            },
        },
    }
}

pub open spec fn opt_res_view(r: Result<Option<String>, String>) -> Result<Option<Seq<char>>, Seq<char>> {
    match r {
        Ok(Some(s)) => Ok(Some(s@)),
        Ok(None) => Ok(None),
        Err(e) => Err(e@),
    }
}

fn extract_relationship_target(rels: &Vec<char>, rid: &Vec<char>) -> (r: Result<Option<String>, String>)
    ensures
        opt_res_view(r) == spec_relationship_target(rels@, rid@),
{
    let mut marker = chars_of("Id=\"");
    push_all(&mut marker, rid);
    marker.push('"');
    proof {
        reveal_strlit("\"");
        assert(marker@ =~= "Id=\""@ + rid@ + "\""@);
    }
    let st = match find_first(rels, &marker, 0) {
        Some(x) => x,
        None => return Ok(None),
    };
    let key = chars_of("Target=\"");
    proof {
        reveal_strlit("Target=\"");
    }
    let t = match find_first(rels, &key, st) {
        Some(x) => x,
        None => {
            let mut m = chars_of("Target not found for ");
            push_all(&mut m, rid);
            return Err(string_of(&m));
        },
    };
    let kl = key.len();
    let rl = rels.len();
    proof {
        assert(t + kl <= rl);
    }
    let vs = t + kl;
    match find_char(rels, '"', vs) {
        Some(e) => Ok(Some(string_of_range(rels, vs, e))),
        None => {
            let mut m = chars_of("Target close quote missing for ");
            push_all(&mut m, rid);
            Err(string_of(&m))
        },
    }
}

pub open spec fn prepend_info(x: (Seq<char>, Seq<char>), r: Result<Seq<(Seq<char>, Seq<char>)>, Seq<char>>) -> Result<
    Seq<(Seq<char>, Seq<char>)>,
    Seq<char>,
> {
    match r {
        Ok(t) => Ok(seq![x] + t),
        Err(e) => Err(e),
    }
}

/// The sheets listed in `workbook.xml` from `pos` on, with the paths their
/// relationships give: each `<sheet .../>` with a `name`; one without
/// `r:id`, or whose relationship is missing, is an error.
pub open spec fn sheet_infos_from(wb: Seq<char>, pos: int, rels: Seq<char>) -> Result<Seq<(Seq<char>, Seq<char>)>, Seq<char>>
    decreases wb.len() - pos,
{
    if pos < 0 || pos > wb.len() {
        Ok(Seq::empty())
    } else {
        match first_at(wb, "<sheet "@, pos) {
            None => Ok(Seq::empty()),
            Some(p) => match first_at(wb, "/>"@, p) {
                None => Err("sheet tag malformed"@),
                Some(e) => if !(pos <= p <= e && e + 2 <= wb.len()) {
                    Ok(Seq::empty())
                } else {
                    let tag = wb.subrange(p, e + 2);
                    match spec_extract_attr(tag, "name"@) {
                        None => sheet_infos_from(wb, e + 2, rels),
                        Some(name) => match spec_extract_attr(tag, "r:id"@) {
                            None => Err("sheet rid missing: "@ + name),
                            Some(rid) => match spec_relationship_target(rels, rid) {
                                Err(x) => Err(x),
                                Ok(None) => Err("sheet target missing: "@ + name),
                                Ok(Some(t)) => prepend_info(
                                    (name, spec_normalize_xl_path(t)),
                                    sheet_infos_from(wb, e + 2, rels),
                                ),
                            },
                        },
                    }
                },
            },
        }
    }
}

pub open spec fn info_views(v: Seq<SheetInfo>) -> Seq<(Seq<char>, Seq<char>)> {
    Seq::new(v.len(), |i: int| (v[i].name@, v[i].path@))
}

pub open spec fn infos_res_view(r: Result<Vec<SheetInfo>, String>) -> Result<Seq<(Seq<char>, Seq<char>)>, Seq<char>> {
    match r {
        Ok(v) => Ok(info_views(v@)),
        Err(e) => Err(e@),
    }
}

/// The sheets of a workbook, in order, with the archive paths of their XML.
pub fn resolve_sheet_infos(workbook_xml: &str, workbook_rels_xml: &str) -> (r: Result<Vec<SheetInfo>, String>)
    ensures
        infos_res_view(r) == sheet_infos_from(workbook_xml@, 0, workbook_rels_xml@),
{
    let wb = chars_of(workbook_xml);
    let rels = chars_of(workbook_rels_xml);
    let open = chars_of("<sheet ");
    let close = chars_of("/>");
    proof {
        reveal_strlit("<sheet ");
        reveal_strlit("/>");
    }
    let ghost whole = sheet_infos_from(wb@, 0, rels@);
    let mut out: Vec<SheetInfo> = Vec::new();
    let mut pos: usize = 0;
    loop
        invariant
            pos <= wb.len(),
            wb@ == workbook_xml@,
            rels@ == workbook_rels_xml@,
            open@ == "<sheet "@,
            close@ == "/>"@,
            whole == sheet_infos_from(wb@, 0, rels@),
            whole == prepend_all(info_views(out@), sheet_infos_from(wb@, pos as int, rels@)),
        decreases wb.len() - pos,
    {
        let ghost before = info_views(out@);
        let p = match find_first(&wb, &open, pos) {
            Some(x) => x,
            None => {
                proof {
                    assert(before + Seq::<(Seq<char>, Seq<char>)>::empty() =~= before);
                }
                return Ok(out);
            },
        };
        let e = match find_first(&wb, &close, p) {
            Some(x) => x,
            None => return Err(string_of(&chars_of("sheet tag malformed"))),
        };
        proof {
            reveal_strlit("/>");
            reveal_strlit("<sheet ");
        }
        let cl = close.len();
        let wl = wb.len();
        proof {
            assert(e + cl <= wl);
        }
        let mut tag: Vec<char> = Vec::new();
        push_range(&mut tag, &wb, p, e + 2);
        proof {
            assert(tag@ =~= wb@.subrange(p as int, e + 2));
        }
        let next = e + 2;
        match extract_attr(&tag, "name") {
            None => {},
            Some(name) => {
                let rid = match extract_attr(&tag, "r:id") {
                    Some(x) => x,
                    None => {
                        let mut m = chars_of("sheet rid missing: ");
                        push_all(&mut m, &chars_of(name.as_str()));
                        return Err(string_of(&m));
                    },
                };
                let target = match extract_relationship_target(&rels, &chars_of(rid.as_str())) {
                    Err(x) => return Err(x),
                    Ok(None) => {
                        let mut m = chars_of("sheet target missing: ");
                        push_all(&mut m, &chars_of(name.as_str()));
                        return Err(string_of(&m));
                    },
                    Ok(Some(t)) => t,
                };
                let path = string_of(&normalize_xl_path(&chars_of(target.as_str())));
                let ghost item = (name@, path@);
                out.push(SheetInfo { name, path });
                proof {
                    assert(info_views(out@) =~= before.push(item));
                    lemma_prepend_all_push(before, item, sheet_infos_from(wb@, next as int, rels@));
                }
            },
        }
        pos = next;
    }
}

pub open spec fn prepend_all(x: Seq<(Seq<char>, Seq<char>)>, r: Result<Seq<(Seq<char>, Seq<char>)>, Seq<char>>) -> Result<
    Seq<(Seq<char>, Seq<char>)>,
    Seq<char>,
> {
    match r {
        Ok(t) => Ok(x + t),
        Err(e) => Err(e),
    }
}

proof fn lemma_prepend_all_push(
    a: Seq<(Seq<char>, Seq<char>)>,
    x: (Seq<char>, Seq<char>),
    r: Result<Seq<(Seq<char>, Seq<char>)>, Seq<char>>,
)
    ensures
        prepend_all(a, prepend_info(x, r)) == prepend_all(a.push(x), r),
{
    match r {
        Ok(t) => {
            assert(a + (seq![x] + t) =~= a.push(x) + t);
        },
        Err(_) => {},
    }
}

// ------------------------------------------------------------------
// Ranges of a shared formula
// ------------------------------------------------------------------

/// The address of column `c`, row `r`.
pub open spec fn cell_name(c: int, r: int) -> Seq<char> {
    col_letters(c as nat) + dec(r as nat)
}

pub open spec fn row_cells(r: int, sc: int, ec: int) -> Seq<Seq<char>> {
    Seq::new(
        if ec >= sc {
            (ec - sc + 1) as nat
        } else {
            0
        },
        |j: int| cell_name(sc + j, r),
    )
}

/// The cells of the rows `r..=er` and columns `sc..=ec`, row by row.
pub open spec fn range_cells(sc: int, ec: int, r: int, er: int) -> Seq<Seq<char>>
    decreases er - r + 1,
{
    if r > er {
        Seq::empty()
    } else {
        row_cells(r, sc, ec) + range_cells(sc, ec, r + 1, er)
    }
}

pub open spec fn row_prefix() -> Seq<char> {
    "invalid row in cell ref: "@
}

pub open spec fn col_prefix() -> Seq<char> {
    "invalid column letters: "@
}

/// The cells of a range `A1:C3`; anything but two addresses around one
/// `:` is an invalid range.
pub open spec fn spec_expand_range(r: Seq<char>) -> Result<Seq<Seq<char>>, Seq<char>> {
    if count_char(r, ':') != 1 {
        Err("invalid shared ref range: "@ + r)
    } else {
        let k = first_char(r, ':', 0)->0;
        match split_cell_ref_msg(r.take(k), row_prefix()) {
            Err(e) => Err(e),
            Ok((sc, sr)) => match split_cell_ref_msg(r.skip(k + 1), row_prefix()) {
                Err(e) => Err(e),
                Ok((ec, er)) => match col_number_msg(sc, col_prefix()) {
                    Err(e) => Err(e),
                    Ok(scn) => match col_number_msg(ec, col_prefix()) {
                        Err(e) => Err(e),
                        Ok(ecn) => Ok(range_cells(scn, ecn, sr as int, er as int)),
                    },
                },
            },
        }
    }
}

proof fn lemma_count_zero_no_char(s: Seq<char>, c: char)
    requires
        count_char(s, c) == 0,
    ensures
        forall|i: int| 0 <= i < s.len() ==> s[i] != c,
    decreases s.len(),
{
    if s.len() > 0 {
        lemma_count_zero_no_char(s.drop_last(), c);
        assert forall|i: int| 0 <= i < s.len() implies s[i] != c by {
            if i < s.len() - 1 {
                assert(s.drop_last()[i] == s[i]);
            }
        }
    }
}

proof fn lemma_first_char_some(s: Seq<char>, c: char, from: int)
    requires
        0 <= from <= s.len(),
        count_char(s.skip(from), c) > 0,
    ensures
        first_char(s, c, from) is Some,
        from <= first_char(s, c, from)->0 < s.len(),
        s[first_char(s, c, from)->0] == c,
    decreases s.len() - from,
{
    if from == s.len() {
        assert(s.skip(from).len() == 0);
    } else if s[from] != c {
        let t = s.skip(from);
        lemma_count_split(t, c);
        assert(t.drop_first() =~= s.skip(from + 1));
        lemma_first_char_some(s, c, from + 1);
    }
}

proof fn lemma_count_split(t: Seq<char>, c: char)
    requires
        t.len() > 0,
    ensures
        count_char(t, c) == count_char(t.drop_first(), c) + if t[0] == c {
            1nat
        } else {
            0nat
        },
    decreases t.len(),
{
    if t.len() > 1 {
        lemma_count_split(t.drop_last(), c);
        assert(t.drop_last().drop_first() =~= t.drop_first().drop_last());
    } else {
        assert(t.drop_first().len() == 0);
    }
}

fn push_cell_name(out: &mut Vec<String>, c: u64, r: u64)
    ensures
        str_views(final(out)@) == str_views(old(out)@).push(cell_name(c as int, r as int)),
{
    let mut name = number_to_col_letters(c);
    push_all(&mut name, &dec_chars_u64(r));
    let s = string_of(&name);
    let ghost before = str_views(out@);
    out.push(s);
    proof {
        assert(str_views(out@) =~= before.push(cell_name(c as int, r as int)));
    }
}

fn range_cells_exec(sc: u32, ec: u32, sr: u32, er: u32) -> (out: Vec<String>)
    ensures
        str_views(out@) == range_cells(sc as int, ec as int, sr as int, er as int),
{
    let mut out: Vec<String> = Vec::new();
    if sr > er {
        return out;
    }
    let mut r: u64 = sr as u64;
    while r <= er as u64
        invariant
            sr <= r <= er as u64 + 1,
            str_views(out@) + range_cells(sc as int, ec as int, r as int, er as int) == range_cells(
                sc as int,
                ec as int,
                sr as int,
                er as int,
            ),
        decreases er as u64 + 1 - r,
    {
        let ghost before = str_views(out@);
        let ghost row = row_cells(r as int, sc as int, ec as int);
        let mut c: u64 = sc as u64;
        if sc <= ec {
            while c <= ec as u64
                invariant
                    sc <= c <= ec as u64 + 1,
                    sc <= ec,
                    row == row_cells(r as int, sc as int, ec as int),
                    str_views(out@) == before + row.take(c - sc),
                decreases ec as u64 + 1 - c,
            {
                push_cell_name(&mut out, c, r);
                proof {
                    assert(row.take(c - sc + 1) =~= row.take(c - sc).push(cell_name(c as int, r as int)));
                }
                c += 1;
            }
        }
        proof {
            if ec >= sc {
                assert(row.take(c - sc) =~= row);
            } else {
                assert(row.len() == 0);
                assert(str_views(out@) =~= before + row);
            }
            assert(before + row + range_cells(sc as int, ec as int, r + 1, er as int) =~= before + (row + range_cells(
                sc as int,
                ec as int,
                r + 1,
                er as int,
            )));
        }
        r += 1;
    }
    proof {
        assert(str_views(out@) + Seq::<Seq<char>>::empty() =~= str_views(out@));
    }
    out
}

pub open spec fn cells_res_view(r: Result<Vec<String>, String>) -> Result<Seq<Seq<char>>, Seq<char>> {
    match r {
        Ok(v) => Ok(str_views(v@)),
        Err(e) => Err(e@),
    }
}

fn take_chars(r: &Vec<char>, k: usize) -> (a: Vec<char>)
    requires
        k <= r.len(),
    ensures
        a@ == r@.take(k as int),
{
    let mut a: Vec<char> = Vec::new();
    push_range(&mut a, r, 0, k);
    proof {
        assert(a@ =~= r@.take(k as int));
    }
    a
}

fn skip_chars(r: &Vec<char>, k: usize) -> (a: Vec<char>)
    requires
        k <= r.len(),
    ensures
        a@ == r@.skip(k as int),
{
    let mut a: Vec<char> = Vec::new();
    push_range(&mut a, r, k, r.len());
    proof {
        assert(a@ =~= r@.skip(k as int));
    }
    a
}

/// The two sides of the single `:` of `r`.
fn range_ends(r: &Vec<char>) -> (out: (Vec<char>, Vec<char>))
    requires
        count_char(r@, ':') == 1,
    ensures
        first_char(r@, ':', 0) is Some,
        out.0@ == r@.take(first_char(r@, ':', 0)->0),
        out.1@ == r@.skip(first_char(r@, ':', 0)->0 + 1),
{
    proof {
        assert(r@.skip(0) =~= r@);
        lemma_first_char_some(r@, ':', 0);
    }
    let found = find_char(r, ':', 0);
    let k: usize = match found {
        Some(k) => k,
        None => 0,
    };
    assert(k < r.len());
    let a = take_chars(r, k);
    let b = skip_chars(r, k + 1);
    (a, b)
}

fn expand_range(ref_range: &Vec<char>) -> (r: Result<Vec<String>, String>)
    ensures
        cells_res_view(r) == spec_expand_range(ref_range@),
{
    if count_char_exec(ref_range, ':') != 1 {
        let mut m = chars_of("invalid shared ref range: ");
        push_all(&mut m, ref_range);
        return Err(string_of(&m));
    }
    let (a, b) = range_ends(ref_range);
    let (sc, sr) = match split_cell_ref_msg_exec(&a, "invalid row in cell ref: ") {
        Ok(x) => x,
        Err(e) => return Err(e),
    };
    let (ec, er) = match split_cell_ref_msg_exec(&b, "invalid row in cell ref: ") {
        Ok(x) => x,
        Err(e) => return Err(e),
    };
    let scn = match col_letters_to_number_msg(&sc, "invalid column letters: ") {
        Ok(n) => n,
        Err(e) => return Err(e),
    };
    let ecn = match col_letters_to_number_msg(&ec, "invalid column letters: ") {
        Ok(n) => n,
        Err(e) => return Err(e),
    };
    Ok(range_cells_exec(scn, ecn, sr, er))
}

// ------------------------------------------------------------------
// Cells of a sheet
// ------------------------------------------------------------------

/// The `r` attribute of a cell's start tag `s[st..=gt]`, or empty.
pub open spec fn ref_of(s: Seq<char>, st: int, gt: int) -> Seq<char> {
    match spec_extract_attr(s.subrange(st, gt + 1), "r"@) {
        Some(r) => r,
        None => Seq::empty(),
    }
}

/// Where the formula tag of a cell block starts and where its start tag ends:
/// `Ok(None)` when the block has no `<f`.
pub open spec fn f_tag(block: Seq<char>) -> Result<Option<(int, int)>, Seq<char>> {
    match first_at(block, "<f"@, 0) {
        None => Ok(None),
        Some(f) => match first_char(block, '>', f) {
            None => Err("formula tag malformed"@),
            Some(g) => Ok(Some((f, g))),
        },
    }
}

/// A formula start tag of a shared-formula master: it holds `t="shared"`
/// and a `ref="` attribute.
pub open spec fn is_master_tag(tag: Seq<char>) -> bool {
    contains_seq(tag, "t=\"shared\""@) && contains_seq(tag, "ref=\""@)
}

pub open spec fn prepend_name(x: Seq<char>, r: Result<Seq<Seq<char>>, Seq<char>>) -> Result<Seq<Seq<char>>, Seq<char>> {
    match r {
        Ok(t) => Ok(seq![x] + t),
        Err(e) => Err(e),
    }
}

/// Whether a found cell lies in order after `pos` (always so; it lets the
/// scans below decrease).
pub open spec fn cell_in_order(s: Seq<char>, pos: int, st: int, gt: int, close: Option<int>) -> bool {
    &&& pos <= st
    &&& st + 3 <= gt
    &&& gt < s.len()
    &&& match close {
        Some(c) => gt + 1 <= c && c + 4 <= s.len(),
        None => true,
    }
}

/// Where the scan goes on after a cell.
pub open spec fn after_cell(gt: int, close: Option<int>) -> int {
    match close {
        Some(c) => c + 4,
        None => gt + 1,
    }
}

/// The addresses of the shared-formula masters among the cells from `pos` on.
pub open spec fn masters_from(s: Seq<char>, pos: int) -> Result<Seq<Seq<char>>, Seq<char>>
    decreases s.len() - pos,
{
    if pos < 0 || pos > s.len() {
        Ok(Seq::empty())
    } else {
        match next_cell(s, pos, "cell tag malformed"@, "cell close missing: "@) {
            Err(e) => Err(e),
            Ok(None) => Ok(Seq::empty()),
            Ok(Some((st, gt, close))) => if !cell_in_order(s, pos, st, gt, close) {
                Ok(Seq::empty())
            } else {
                match close {
                    None => masters_from(s, gt + 1),
                    Some(c) => {
                        let block = s.subrange(st, c + 4);
                        match f_tag(block) {
                            Err(e) => Err(e),
                            Ok(Some((f, g))) => if is_master_tag(block.subrange(f, g + 1)) {
                                prepend_name(ref_of(s, st, gt), masters_from(s, c + 4))
                            } else {
                                masters_from(s, c + 4)
                            },
                            Ok(None) => masters_from(s, c + 4),
                        }
                    },
                }
            },
        }
    }
}

/// The next cell at or after `pos`: `Ok(None)` when there is none, else
/// its start, the end of its start tag, and (unless the tag closes itself)
/// the start of its `</c>`.
pub open spec fn next_cell(s: Seq<char>, pos: int, tag_err: Seq<char>, close_err: Seq<char>) -> Result<
    Option<(int, int, Option<int>)>,
    Seq<char>,
> {
    match first_at(s, "<c "@, pos) {
        None => Ok(None),
        Some(st) => match first_char(s, '>', st) {
            None => Err(tag_err),
            Some(gt) => if s[gt - 1] == '/' {
                Ok(Some((st, gt, None)))
            } else {
                match first_at(s, "</c>"@, gt + 1) {
                    None => Err(close_err + ref_of(s, st, gt)),
                    Some(c) => Ok(Some((st, gt, Some(c)))),
                }
            },
        },
    }
}

/// A cell found by `scan_cell`.
pub struct CellSpan {
    pub start: usize,
    pub gt: usize,
    pub close: Option<usize>,
}

pub open spec fn span_ok(s: Seq<char>, pos: int, sp: CellSpan) -> bool {
    cell_in_order(s, pos, sp.start as int, sp.gt as int, match sp.close {
        Some(c) => Some(c as int),
        None => None,
    })
}

fn cell_ref(s: &Vec<char>, st: usize, gt: usize) -> (r: Vec<char>)
    requires
        st <= gt < s.len(),
    ensures
        r@ == ref_of(s@, st as int, gt as int),
{
    let mut tag: Vec<char> = Vec::new();
    push_range(&mut tag, s, st, gt + 1);
    proof {
        assert(tag@ =~= s@.subrange(st as int, gt + 1));
    }
    match extract_attr(&tag, "r") {
        Some(r) => chars_of(r.as_str()),
        None => Vec::new(),
    }
}

fn scan_cell(s: &Vec<char>, pos: usize, tag_err: &str, close_err: &str) -> (r: Result<Option<CellSpan>, String>)
    requires
        pos <= s.len(),
    ensures
        match r {
            Err(e) => next_cell(s@, pos as int, tag_err@, close_err@) == Err::<Option<(int, int, Option<int>)>, Seq<char>>(e@),
            Ok(None) => next_cell(s@, pos as int, tag_err@, close_err@) == Ok::<Option<(int, int, Option<int>)>, Seq<char>>(None),
            Ok(Some(sp)) => next_cell(s@, pos as int, tag_err@, close_err@) == Ok::<Option<(int, int, Option<int>)>, Seq<char>>(
                Some((sp.start as int, sp.gt as int, match sp.close {
                    Some(c) => Some(c as int),
                    None => None,
                })),
            ) && span_ok(s@, pos as int, sp),
        },
{
    let open = chars_of("<c ");
    let close_tag = chars_of("</c>");
    proof {
        reveal_strlit("<c ");
        reveal_strlit("</c>");
    }
    let st = match find_first(s, &open, pos) {
        Some(x) => x,
        None => return Ok(None),
    };
    let gt = match find_char(s, '>', st) {
        Some(g) => g,
        None => return Err(string_of(&chars_of(tag_err))),
    };
    proof {
        assert(s@.subrange(st as int, st + 3) == "<c "@);
        assert(s@[st as int] == s@.subrange(st as int, st + 3)[0]);
        assert(s@[st + 1] == s@.subrange(st as int, st + 3)[1]);
        assert(s@[st + 2] == s@.subrange(st as int, st + 3)[2]);
    }
    if s[gt - 1] == '/' {
        return Ok(Some(CellSpan { start: st, gt, close: None }));
    }
    match find_first(s, &close_tag, gt + 1) {
        Some(c) => Ok(Some(CellSpan { start: st, gt, close: Some(c) })),
        None => {
            let mut m = chars_of(close_err);
            push_all(&mut m, &cell_ref(s, st, gt));
            Err(string_of(&m))
        },
    }
}

fn find_f_tag(block: &Vec<char>) -> (r: Result<Option<(usize, usize)>, String>)
    ensures
        match r {
            Err(e) => f_tag(block@) == Err::<Option<(int, int)>, Seq<char>>(e@),
            Ok(None) => f_tag(block@) == Ok::<Option<(int, int)>, Seq<char>>(None),
            Ok(Some((f, g))) => f_tag(block@) == Ok::<Option<(int, int)>, Seq<char>>(Some((f as int, g as int))) && f
                + 2 <= g < block.len(),
        },
{
    let f = match find_first(block, &chars_of("<f"), 0) {
        Some(f) => f,
        None => return Ok(None),
    };
    match find_char(block, '>', f) {
        Some(g) => {
            proof {
                reveal_strlit("<f");
                assert(block@.subrange(f as int, f + 2) == "<f"@);
                assert(block@[f as int] == block@.subrange(f as int, f + 2)[0]);
                assert(block@[f + 1] == block@.subrange(f as int, f + 2)[1]);
            }
            Ok(Some((f, g)))
        },
        None => Err(string_of(&chars_of("formula tag malformed"))),
    }
}

fn master_tag(block: &Vec<char>, f: usize, g: usize) -> (b: bool)
    requires
        f <= g < block.len(),
    ensures
        b == is_master_tag(block@.subrange(f as int, g + 1)),
{
    let mut tag: Vec<char> = Vec::new();
    push_range(&mut tag, block, f, g + 1);
    proof {
        assert(tag@ =~= block@.subrange(f as int, g + 1));
    }
    contains_exec(&tag, &chars_of("t=\"shared\"")) && contains_exec(&tag, &chars_of("ref=\""))
}

proof fn lemma_prepend_names(a: Seq<Seq<char>>, x: Seq<char>, r: Result<Seq<Seq<char>>, Seq<char>>)
    ensures
        prepend_names(a, prepend_name(x, r)) == prepend_names(a.push(x), r),
{
    match r {
        Ok(t) => {
            assert(a + (seq![x] + t) =~= a.push(x) + t);
        },
        Err(_) => {},
    }
}

pub open spec fn prepend_names(a: Seq<Seq<char>>, r: Result<Seq<Seq<char>>, Seq<char>>) -> Result<Seq<Seq<char>>, Seq<char>> {
    match r {
        Ok(t) => Ok(a + t),
        Err(e) => Err(e),
    }
}

/// The addresses of the master cells of the sheet's shared formulas, in
/// order.
pub fn extract_shared_formula_master_cells(sheet_xml: &str) -> (r: Result<Vec<String>, String>)
    ensures
        cells_res_view(r) == masters_from(sheet_xml@, 0),
{
    let s = chars_of(sheet_xml);
    let ghost whole = masters_from(s@, 0);
    let mut out: Vec<String> = Vec::new();
    let mut pos: usize = 0;
    loop
        invariant
            pos <= s.len(),
            s@ == sheet_xml@,
            whole == masters_from(s@, 0),
            whole == prepend_names(str_views(out@), masters_from(s@, pos as int)),
        decreases s.len() - pos,
    {
        let ghost before = str_views(out@);
        let sp = match scan_cell(&s, pos, "cell tag malformed", "cell close missing: ") {
            Err(e) => return Err(e),
            Ok(None) => {
                proof {
                    reveal_strlit("<c ");
                    assert(before + Seq::<Seq<char>>::empty() =~= before);
                }
                return Ok(out);
            },
            Ok(Some(sp)) => sp,
        };
        proof {
            reveal_strlit("<c ");
            reveal_strlit("</c>");
        }
        match sp.close {
            None => {
                pos = sp.gt + 1;
            },
            Some(c) => {
                let mut block: Vec<char> = Vec::new();
                push_range(&mut block, &s, sp.start, c + 4);
                proof {
                    assert(block@ =~= s@.subrange(sp.start as int, c + 4));
                }
                match find_f_tag(&block) {
                    Err(e) => return Err(e),
                    Ok(Some((f, g))) => {
                        if master_tag(&block, f, g) {
                            let r = cell_ref(&s, sp.start, sp.gt);
                            let name = string_of(&r);
                            out.push(name);
                            proof {
                                assert(str_views(out@) =~= before.push(r@));
                                lemma_prepend_names(before, r@, masters_from(s@, c + 4));
                            }
                        }
                    },
                    Ok(None) => {},
                }
                pos = c + 4;
            },
        }
    }
}

/// The group of the shared formula whose master is the cell `master`: its
/// range and index. `Ok(None)` when the cell is missing or is no master.
pub open spec fn template_from(s: Seq<char>, pos: int, master: Seq<char>) -> Result<Option<(Seq<char>, Seq<char>)>, Seq<char>>
    decreases s.len() - pos,
{
    if pos < 0 || pos > s.len() {
        Ok(None)
    } else {
        match next_cell(s, pos, "cell tag malformed"@, "cell close missing: "@) {
            Err(e) => Err(e),
            Ok(None) => Ok(None),
            Ok(Some((st, gt, close))) => if !cell_in_order(s, pos, st, gt, close) {
                Ok(None)
            } else {
                match close {
                    None => template_from(s, gt + 1, master),
                    Some(c) => if ref_of(s, st, gt) == master {
                        let block = s.subrange(st, c + 4);
                        match f_tag(block) {
                            Err(e) => Err(e),
                            Ok(None) => Ok(None),
                            Ok(Some((f, g))) => {
                                let tag = block.subrange(f, g + 1);
                                if is_master_tag(tag) {
                                    match spec_extract_attr(tag, "ref"@) {
                                        None => Err("shared ref missing: "@ + master),
                                        Some(rr) => match spec_extract_attr(tag, "si"@) {
                                            None => Err("shared si missing: "@ + master),
                                            Some(si) => Ok(Some((rr, si))),
                                        },
                                    }
                                } else {
                                    Ok(None)
                                }
                            },
                        }
                    } else {
                        template_from(s, c + 4, master)
                    },
                }
            },
        }
    }
}

/// A shared-formula group: its master cell, range and index.
#[derive(Debug, Clone)]
pub struct SharedFormulaTemplate {
    pub master_cell: String,
    pub ref_range: String,
    pub si: String,
}

pub open spec fn template_res_view(r: Result<Option<SharedFormulaTemplate>, String>) -> Result<
    Option<(Seq<char>, Seq<char>)>,
    Seq<char>,
> {
    match r {
        Ok(Some(t)) => Ok(Some((t.ref_range@, t.si@))),
        Ok(None) => Ok(None),
        Err(e) => Err(e@),
    }
}

fn template_of_block(block: &Vec<char>, master_cell: &str) -> (r: Result<Option<SharedFormulaTemplate>, String>)
    ensures
        template_res_view(r) == (match f_tag(block@) {
            Err(e) => Err(e),
            Ok(None) => Ok(None),
            Ok(Some((f, g))) => {
                let tag = block@.subrange(f, g + 1);
                if is_master_tag(tag) {
                    match spec_extract_attr(tag, "ref"@) {
                        None => Err("shared ref missing: "@ + master_cell@),
                        Some(rr) => match spec_extract_attr(tag, "si"@) {
                            None => Err("shared si missing: "@ + master_cell@),
                            Some(si) => Ok(Some((rr, si))),
                        },
                    }
                } else {
                    Ok(None)
                }
            },
        }),
        r matches Ok(Some(t)) ==> t.master_cell@ == master_cell@,
{
    let (f, g) = match find_f_tag(block) {
        Err(e) => return Err(e),
        Ok(None) => return Ok(None),
        Ok(Some(x)) => x,
    };
    if !master_tag(block, f, g) {
        return Ok(None);
    }
    let mut tag: Vec<char> = Vec::new();
    push_range(&mut tag, block, f, g + 1);
    proof {
        assert(tag@ =~= block@.subrange(f as int, g + 1));
    }
    let ref_range = match extract_attr(&tag, "ref") {
        Some(x) => x,
        None => {
            let mut m = chars_of("shared ref missing: ");
            push_all(&mut m, &chars_of(master_cell));
            return Err(string_of(&m));
        },
    };
    let si = match extract_attr(&tag, "si") {
        Some(x) => x,
        None => {
            let mut m = chars_of("shared si missing: ");
            push_all(&mut m, &chars_of(master_cell));
            return Err(string_of(&m));
        },
    };
    Ok(Some(SharedFormulaTemplate { master_cell: string_of(&chars_of(master_cell)), ref_range, si }))
}

/// The group of the shared formula whose master is `master_cell`.
pub fn extract_shared_formula_template_for_master(sheet_xml: &str, master_cell: &str) -> (r: Result<
    Option<SharedFormulaTemplate>,
    String,
>)
    ensures
        template_res_view(r) == template_from(sheet_xml@, 0, master_cell@),
        r matches Ok(Some(t)) ==> t.master_cell@ == master_cell@,
{
    let s = chars_of(sheet_xml);
    let master = chars_of(master_cell);
    let mut pos: usize = 0;
    loop
        invariant
            pos <= s.len(),
            s@ == sheet_xml@,
            master@ == master_cell@,
            template_from(s@, 0, master@) == template_from(s@, pos as int, master@),
        decreases s.len() - pos,
    {
        let sp = match scan_cell(&s, pos, "cell tag malformed", "cell close missing: ") {
            Err(e) => return Err(e),
            Ok(None) => return Ok(None),
            Ok(Some(sp)) => sp,
        };
        proof {
            reveal_strlit("<c ");
            reveal_strlit("</c>");
        }
        match sp.close {
            None => {
                pos = sp.gt + 1;
            },
            Some(c) => {
                let r = cell_ref(&s, sp.start, sp.gt);
                if crate::text::eq_vec(&r, &master) {
                    let mut block: Vec<char> = Vec::new();
                    push_range(&mut block, &s, sp.start, c + 4);
                    proof {
                        assert(block@ =~= s@.subrange(sp.start as int, c + 4));
                    }
                    return template_of_block(&block, master_cell);
                }
                pos = c + 4;
            },
        }
    }
}

// ------------------------------------------------------------------
// Patching the cells of a group
// ------------------------------------------------------------------

/// What a patched cell gets: the group's index, the range (for the master)
/// and the formula (empty for a follower).
#[derive(Debug, Clone)]
pub struct FormulaPatchAction {
    pub si: String,
    pub ref_range: Option<String>,
    pub formula_body: String,
}

impl View for FormulaPatchAction {
    type V = (Seq<char>, Option<Seq<char>>, Seq<char>);

    open spec fn view(&self) -> (Seq<char>, Option<Seq<char>>, Seq<char>) {
        (self.si@, match self.ref_range {
            Some(r) => Some(r@),
            None => None,
        }, self.formula_body@)
    }
}

/// The new formula element of a cell.
pub open spec fn new_formula_xml(a: (Seq<char>, Option<Seq<char>>, Seq<char>)) -> Seq<char> {
    match a.1 {
        Some(rr) => "<f t=\"shared\" ref=\""@ + spec_escape_attr(rr) + "\" si=\""@ + spec_escape_attr(a.0) + "\">"@
            + spec_escape_text(a.2) + "</f>"@,
        None => "<f t=\"shared\" si=\""@ + spec_escape_attr(a.0) + "\"></f>"@,
    }
}

/// A cell block with its formula element replaced by the new one; a block
/// without one gets it before its value, or else before `</c>`.
pub open spec fn spec_patch_cell(block: Seq<char>, a: (Seq<char>, Option<Seq<char>>, Seq<char>)) -> Result<Seq<char>, Seq<char>> {
    let nf = new_formula_xml(a);
    match first_at(block, "<f"@, 0) {
        Some(f) => match first_char(block, '>', f) {
            None => Err("formula start tag malformed"@),
            Some(g) => if block[g - 1] == '/' {
                Ok(block.take(f) + nf + block.skip(g + 1))
            } else {
                match first_at(block, "</f>"@, g + 1) {
                    None => Err("formula close tag missing"@),
                    Some(c) => Ok(block.take(f) + nf + block.skip(c + 4)),
                }
            },
        },
        None => match first_at(block, "<v"@, 0) {
            Some(v) => Ok(block.take(v) + nf + block.skip(v)),
            None => match last_from(block, "</c>"@, block.len() - 4) {
                None => Err("cell close tag missing"@),
                Some(i) => Ok(block.take(i) + nf + block.skip(i)),
            },
        },
    }
}

fn new_formula_exec(a: &FormulaPatchAction) -> (r: Vec<char>)
    ensures
        r@ == new_formula_xml(a@),
{
    let si = xml_escape_attr(&chars_of(a.si.as_str()));
    match &a.ref_range {
        Some(rr) => {
            let mut out = chars_of("<f t=\"shared\" ref=\"");
            push_all(&mut out, &xml_escape_attr(&chars_of(rr.as_str())));
            push_all(&mut out, &chars_of("\" si=\""));
            push_all(&mut out, &si);
            push_all(&mut out, &chars_of("\">"));
            push_all(&mut out, &xml_escape_text(&chars_of(a.formula_body.as_str())));
            push_all(&mut out, &chars_of("</f>"));
            out
        },
        None => {
            let mut out = chars_of("<f t=\"shared\" si=\"");
            push_all(&mut out, &si);
            push_all(&mut out, &chars_of("\"></f>"));
            out
        },
    }
}

fn splice(block: &Vec<char>, lo: usize, nf: &Vec<char>, hi: usize) -> (r: Vec<char>)
    requires
        lo <= hi <= block.len(),
    ensures
        r@ == block@.take(lo as int) + nf@ + block@.skip(hi as int),
{
    let mut out: Vec<char> = Vec::new();
    push_range(&mut out, block, 0, lo);
    push_all(&mut out, nf);
    push_range(&mut out, block, hi, block.len());
    proof {
        assert(out@ =~= block@.take(lo as int) + nf@ + block@.skip(hi as int));
    }
    out
}

fn patch_cell_formula_block(block: &Vec<char>, action: &FormulaPatchAction) -> (r: Result<Vec<char>, String>)
    ensures
        match r {
            Ok(t) => spec_patch_cell(block@, action@) == Ok::<Seq<char>, Seq<char>>(t@),
            Err(e) => spec_patch_cell(block@, action@) == Err::<Seq<char>, Seq<char>>(e@),
        },
{
    let nf = new_formula_exec(action);
    proof {
        reveal_strlit("<f");
        reveal_strlit("</f>");
        reveal_strlit("<v");
        reveal_strlit("</c>");
    }
    if let Some(f) = find_first(block, &chars_of("<f"), 0) {
        let g = match find_char(block, '>', f) {
            Some(g) => g,
            None => return Err(string_of(&chars_of("formula start tag malformed"))),
        };
        proof {
            assert(block@.subrange(f as int, f + 2) == "<f"@);
            assert(block@[f + 1] == block@.subrange(f as int, f + 2)[1]);
            assert(block@[f as int] == block@.subrange(f as int, f + 2)[0]);
        }
        let bl0 = block.len();
        assert(g < bl0);
        if block[g - 1] == '/' {
            return Ok(splice(block, f, &nf, g + 1));
        }
        let close = chars_of("</f>");
        return match find_first(block, &close, g + 1) {
            Some(c) => {
                let cl = close.len();
                let bl = block.len();
                proof {
                    assert(c + cl <= bl);
                }
                Ok(splice(block, f, &nf, c + 4))
            },
            None => Err(string_of(&chars_of("formula close tag missing"))),
        };
    }
    if let Some(v) = find_first(block, &chars_of("<v"), 0) {
        return Ok(splice(block, v, &nf, v));
    }
    let close_c = chars_of("</c>");
    match rfind(block, &close_c) {
        Some(i) => Ok(splice(block, i, &nf, i)),
        None => Err(string_of(&chars_of("cell close tag missing"))),
    }
}

/// A group to rewrite: its master cell, range and index, and the master's
/// new formula.
#[derive(Debug, Clone)]
pub struct SharedFormulaTemplateWithBody {
    pub master_cell: String,
    pub ref_range: String,
    pub si: String,
    pub formula_body: String,
}

pub open spec fn twb_view(t: SharedFormulaTemplateWithBody) -> (Seq<char>, Seq<char>, Seq<char>, Seq<char>) {
    (t.master_cell@, t.ref_range@, t.si@, t.formula_body@)
}

pub open spec fn twb_views(v: Seq<SharedFormulaTemplateWithBody>) -> Seq<(Seq<char>, Seq<char>, Seq<char>, Seq<char>)> {
    Seq::new(v.len(), |i: int| twb_view(v[i]))
}

/// The followers of a group: every cell of its range but the master.
pub open spec fn follower_entries(cells: Seq<Seq<char>>, master: Seq<char>, si: Seq<char>) -> Seq<
    (Seq<char>, (Seq<char>, Option<Seq<char>>, Seq<char>)),
>
    decreases cells.len(),
{
    if cells.len() == 0 {
        Seq::empty()
    } else {
        let prev = follower_entries(cells.drop_last(), master, si);
        if cells.last() == master {
            prev
        } else {
            prev.push((cells.last(), (si, None, Seq::empty())))
        }
    }
}

/// The actions of the groups, in the order they are applied: per group its
/// master, then its followers; a later action on a cell replaces an
/// earlier one.
pub open spec fn action_entries(ps: Seq<(Seq<char>, Seq<char>, Seq<char>, Seq<char>)>) -> Result<
    Seq<(Seq<char>, (Seq<char>, Option<Seq<char>>, Seq<char>))>,
    Seq<char>,
>
    decreases ps.len(),
{
    if ps.len() == 0 {
        Ok(Seq::empty())
    } else {
        match action_entries(ps.drop_last()) {
            Err(e) => Err(e),
            Ok(prev) => {
                let p = ps.last();
                match spec_expand_range(p.1) {
                    Err(e) => Err(e),
                    Ok(cells) => Ok(prev.push((p.0, (p.2, Some(p.1), p.3))) + follower_entries(cells, p.0, p.2)),
                }
            },
        }
    }
}

proof fn lemma_action_err_prefix(ps: Seq<(Seq<char>, Seq<char>, Seq<char>, Seq<char>)>, k: int)
    requires
        0 <= k <= ps.len(),
        action_entries(ps.take(k)) is Err,
    ensures
        action_entries(ps) == action_entries(ps.take(k)),
    decreases ps.len() - k,
{
    if k < ps.len() {
        assert(ps.take(k + 1).drop_last() =~= ps.take(k));
        assert(action_entries(ps.take(k + 1)) == action_entries(ps.take(k)));
        lemma_action_err_prefix(ps, k + 1);
    } else {
        assert(ps.take(k) =~= ps);
    }
}

fn copy_string(s: &String) -> (r: String)
    ensures
        r@ == s@,
{
    s.clone()
}

fn build_actions(patches: &[SharedFormulaTemplateWithBody]) -> (r: Result<Vec<(String, FormulaPatchAction)>, String>)
    ensures
        match r {
            Ok(acts) => distinct_keys(entry_views(acts@)) && (action_entries(twb_views(patches@)) matches Ok(flat)
                && entries_map(entry_views(acts@)) == entries_map(flat)),
            Err(e) => action_entries(twb_views(patches@)) == Err::<
                Seq<(Seq<char>, (Seq<char>, Option<Seq<char>>, Seq<char>))>,
                Seq<char>,
            >(e@),
        },
{
    let ghost ps = twb_views(patches@);
    let mut acts: Vec<(String, FormulaPatchAction)> = Vec::new();
    let ghost mut flat: Seq<(Seq<char>, (Seq<char>, Option<Seq<char>>, Seq<char>))> = Seq::empty();
    let mut i: usize = 0;
    while i < patches.len()
        invariant
            i <= patches.len(),
            ps == twb_views(patches@),
            action_entries(ps.take(i as int)) == Ok::<
                Seq<(Seq<char>, (Seq<char>, Option<Seq<char>>, Seq<char>))>,
                Seq<char>,
            >(flat),
            distinct_keys(entry_views(acts@)),
            entries_map(entry_views(acts@)) == entries_map(flat),
        decreases patches.len() - i,
    {
        let p = &patches[i];
        proof {
            assert(ps.take(i + 1).drop_last() =~= ps.take(i as int));
            assert(ps.take(i + 1).last() == twb_view(*p));
        }
        let master_action = FormulaPatchAction {
            si: copy_string(&p.si),
            ref_range: Some(copy_string(&p.ref_range)),
            formula_body: copy_string(&p.formula_body),
        };
        let ghost me = (p.master_cell@, master_action@);
        upsert(&mut acts, copy_string(&p.master_cell), master_action);
        proof {
            assert(flat.push(me).drop_last() =~= flat);
            flat = flat.push(me);
        }
        let cells = match expand_range(&chars_of(p.ref_range.as_str())) {
            Ok(c) => c,
            Err(e) => {
                proof {
                    lemma_action_err_prefix(ps, i + 1);
                }
                return Err(e);
            },
        };
        let ghost cv = str_views(cells@);
        let ghost base = flat;
        let mut j: usize = 0;
        while j < cells.len()
            invariant
                j <= cells.len(),
                cv == str_views(cells@),
                flat == base + follower_entries(cv.take(j as int), p.master_cell@, p.si@),
                distinct_keys(entry_views(acts@)),
                entries_map(entry_views(acts@)) == entries_map(flat),
            decreases cells.len() - j,
        {
            proof {
                assert(cv.take(j + 1).drop_last() =~= cv.take(j as int));
                assert(cv.take(j + 1).last() == cells@[j as int]@);
            }
            if !crate::text::str_eq(cells[j].as_str(), p.master_cell.as_str()) {
                let act = FormulaPatchAction { si: copy_string(&p.si), ref_range: None, formula_body: String::new() };
                let ghost fe = (cells@[j as int]@, act@);
                proof {
                    assert(act@ == (p.si@, None::<Seq<char>>, Seq::<char>::empty()));
                }
                upsert(&mut acts, copy_string(&cells[j]), act);
                proof {
                    assert(flat.push(fe).drop_last() =~= flat);
                    assert(base + follower_entries(cv.take(j as int), p.master_cell@, p.si@).push(fe) =~= flat.push(
                        fe,
                    ));
                    flat = flat.push(fe);
                }
            }
            j += 1;
        }
        proof {
            assert(cv.take(cv.len() as int) =~= cv);
        }
        i += 1;
    }
    proof {
        assert(ps.take(ps.len() as int) =~= ps);
    }
    Ok(acts)
}

/// The sheet XML from `pos` on with the cells that have an action patched.
pub open spec fn patch_from(s: Seq<char>, pos: int, m: Map<Seq<char>, (Seq<char>, Option<Seq<char>>, Seq<char>)>) -> Result<
    Seq<char>,
    Seq<char>,
>
    decreases s.len() - pos,
{
    if pos < 0 || pos > s.len() {
        Ok(Seq::empty())
    } else {
        match next_cell(s, pos, "cell start tag malformed"@, "cell close tag missing: "@) {
            Err(e) => Err(e),
            Ok(None) => Ok(s.subrange(pos, s.len() as int)),
            Ok(Some((st, gt, close))) => if !cell_in_order(s, pos, st, gt, close) {
                Ok(Seq::empty())
            } else {
                match close {
                    None => prepend(s.subrange(pos, gt + 1), patch_from(s, gt + 1, m)),
                    Some(c) => {
                        let block = s.subrange(st, c + 4);
                        let r = ref_of(s, st, gt);
                        let head = s.subrange(pos, st);
                        if m.contains_key(r) {
                            match spec_patch_cell(block, m[r]) {
                                Err(e) => Err(e),
                                Ok(p) => prepend(head + p, patch_from(s, c + 4, m)),
                            }
                        } else {
                            prepend(head + block, patch_from(s, c + 4, m))
                        }
                    },
                }
            },
        }
    }
}

/// The sheet XML with the groups `ps` rewritten.
pub open spec fn spec_patch_sheet(xml: Seq<char>, ps: Seq<(Seq<char>, Seq<char>, Seq<char>, Seq<char>)>) -> Result<
    Seq<char>,
    Seq<char>,
> {
    match action_entries(ps) {
        Err(e) => Err(e),
        Ok(flat) => patch_from(xml, 0, entries_map(flat)),
    }
}

proof fn lemma_prepend_assoc(a: Seq<char>, b: Seq<char>, r: Result<Seq<char>, Seq<char>>)
    ensures
        prepend(a, prepend(b, r)) == prepend(a + b, r),
{
    match r {
        Ok(t) => {
            assert(a + (b + t) =~= (a + b) + t);
        },
        Err(_) => {},
    }
}

proof fn lemma_first_at_found(h: Seq<char>, n: Seq<char>, from: int)
    requires
        first_at(h, n, from) is Some,
    ensures
        from <= first_at(h, n, from)->0,
        occurs_at(h, n, first_at(h, n, from)->0),
    decreases h.len() + 1 - from,
{
    if 0 <= from <= h.len() && !occurs_at(h, n, from) {
        lemma_first_at_found(h, n, from + 1);
    }
}

proof fn lemma_first_char_found(h: Seq<char>, c: char, from: int)
    requires
        first_char(h, c, from) is Some,
    ensures
        from <= first_char(h, c, from)->0 < h.len(),
        h[first_char(h, c, from)->0] == c,
        forall|j: int| from <= j < first_char(h, c, from)->0 ==> h[j] != c,
    decreases h.len() - from,
{
    if 0 <= from < h.len() && h[from] != c {
        lemma_first_char_found(h, c, from + 1);
    }
}

/// A cell that `next_cell` finds lies in order after `pos`.
proof fn lemma_next_cell_in_order(s: Seq<char>, pos: int, tag_err: Seq<char>, close_err: Seq<char>)
    requires
        0 <= pos,
        next_cell(s, pos, tag_err, close_err) matches Ok(Some(_)),
    ensures
        next_cell(s, pos, tag_err, close_err) matches Ok(Some((st, gt, close))) && cell_in_order(s, pos, st, gt, close),
{
    let st = first_at(s, "<c "@, pos)->0;
    lemma_first_at_found(s, "<c "@, pos);
    let gt = first_char(s, '>', st)->0;
    lemma_first_char_found(s, '>', st);
    reveal_strlit("<c ");
    assert(s.subrange(st, st + 3) == "<c "@);
    assert(s[st] == s.subrange(st, st + 3)[0]);
    assert(s[st + 1] == s.subrange(st, st + 3)[1]);
    assert(s[st + 2] == s.subrange(st, st + 3)[2]);
    if s[gt - 1] != '/' {
        lemma_first_at_found(s, "</c>"@, gt + 1);
        reveal_strlit("</c>");
    }
}

/// With no action, the sheet XML from `pos` on is copied as it is.
proof fn lemma_patch_from_no_action(s: Seq<char>, pos: int, m: Map<Seq<char>, (Seq<char>, Option<Seq<char>>, Seq<char>)>)
    requires
        0 <= pos <= s.len(),
        m.dom() =~= Set::<Seq<char>>::empty(),
    ensures
        patch_from(s, pos, m) is Err || patch_from(s, pos, m) == Ok::<Seq<char>, Seq<char>>(s.subrange(pos, s.len() as int)),
    decreases s.len() - pos,
{
    let te = "cell start tag malformed"@;
    let ce = "cell close tag missing: "@;
    match next_cell(s, pos, te, ce) {
        Ok(Some((st, gt, close))) => {
            lemma_next_cell_in_order(s, pos, te, ce);
            let nx = after_cell(gt, close);
            lemma_patch_from_no_action(s, nx, m);
            match patch_from(s, nx, m) {
                Ok(t) => {
                    match close {
                        None => {
                            assert(s.subrange(pos, gt + 1) + t =~= s.subrange(pos, s.len() as int));
                        },
                        Some(c) => {
                            assert(!m.contains_key(ref_of(s, st, gt)));
                            assert(s.subrange(pos, st) + s.subrange(st, c + 4) + t =~= s.subrange(pos, s.len() as int));
                        },
                    }
                },
                Err(_) => {},
            }
        },
        _ => {},
    }
}

/// Rewriting no group leaves a sheet's XML as it was (or reports the
/// malformed cell that stopped the scan).
pub proof fn law_no_group_keeps_sheet(xml: Seq<char>)
    ensures
        spec_patch_sheet(xml, Seq::empty()) is Err
            || spec_patch_sheet(xml, Seq::empty()) == Ok::<Seq<char>, Seq<char>>(xml),
{
    let none: Seq<(Seq<char>, (Seq<char>, Option<Seq<char>>, Seq<char>))> = Seq::empty();
    assert(action_entries(Seq::empty()) == Ok::<Seq<(Seq<char>, (Seq<char>, Option<Seq<char>>, Seq<char>))>, Seq<char>>(none));
    assert(entries_map(none).dom() =~= Set::<Seq<char>>::empty());
    lemma_patch_from_no_action(xml, 0, entries_map(none));
    assert(xml.subrange(0, xml.len() as int) =~= xml);
}

/// Rewrites the shared-formula groups `patches` in a sheet's XML.
pub fn patch_sheet_xml_shared_groups(sheet_xml: &str, patches: &[SharedFormulaTemplateWithBody]) -> (r: Result<
    String,
    String,
>)
    ensures
        res_view(r) == spec_patch_sheet(sheet_xml@, twb_views(patches@)),
{
    let acts = match build_actions(patches) {
        Ok(a) => a,
        Err(e) => return Err(e),
    };
    let ghost flat = action_entries(twb_views(patches@))->Ok_0;
    let ghost m = entries_map(flat);
    proof {
        lemma_entries_map_distinct(entry_views(acts@));
    }
    let s = chars_of(sheet_xml);
    let ghost whole = patch_from(s@, 0, m);
    let mut out: Vec<char> = Vec::new();
    let mut pos: usize = 0;
    loop
        invariant
            pos <= s.len(),
            s@ == sheet_xml@,
            m == entries_map(entry_views(acts@)),
            distinct_keys(entry_views(acts@)),
            forall|j: int| #![trigger entry_views(acts@)[j]] 0 <= j < acts.len() ==> m.contains_key(entry_views(acts@)[j].0) && m[entry_views(acts@)[j].0] == entry_views(acts@)[j].1,
            whole == patch_from(s@, 0, m),
            whole == spec_patch_sheet(sheet_xml@, twb_views(patches@)),
            whole == prepend(out@, patch_from(s@, pos as int, m)),
        decreases s.len() - pos,
    {
        let ghost before = out@;
        let sp = match scan_cell(&s, pos, "cell start tag malformed", "cell close tag missing: ") {
            Err(e) => return Err(e),
            Ok(None) => {
                push_range(&mut out, &s, pos, s.len());
                proof {
                    assert(out@ + Seq::<char>::empty() =~= out@);
                }
                return Ok(string_of(&out));
            },
            Ok(Some(sp)) => sp,
        };
        proof {
            reveal_strlit("<c ");
            reveal_strlit("</c>");
        }
        match sp.close {
            None => {
                push_range(&mut out, &s, pos, sp.gt + 1);
                proof {
                    lemma_prepend_assoc(before, s@.subrange(pos as int, sp.gt + 1), patch_from(s@, sp.gt + 1, m));
                }
                pos = sp.gt + 1;
            },
            Some(c) => {
                let r = cell_ref(&s, sp.start, sp.gt);
                let mut block: Vec<char> = Vec::new();
                push_range(&mut block, &s, sp.start, c + 4);
                proof {
                    assert(block@ =~= s@.subrange(sp.start as int, c + 4));
                }
                push_range(&mut out, &s, pos, sp.start);
                let ghost head = s@.subrange(pos as int, sp.start as int);
                match find_key(&acts, string_of(&r).as_str()) {
                    Some(k) => {
                        proof {
                            assert(entry_views(acts@)[k as int].0 == r@);
                            assert(m.contains_key(r@));
                        }
                        let patched = match patch_cell_formula_block(&block, &acts[k].1) {
                            Ok(p) => p,
                            Err(e) => return Err(e),
                        };
                        push_all(&mut out, &patched);
                        proof {
                            lemma_prepend_assoc(before, head + patched@, patch_from(s@, c + 4, m));
                            assert(before + head + patched@ =~= before + (head + patched@));
                        }
                    },
                    None => {
                        proof {
                            if m.contains_key(r@) {
                                let e = entry_views(acts@);
                                lemma_entries_map_distinct(e);
                                let j = choose|j: int| 0 <= j < e.len() && e[j].0 == r@;
                                assert(acts@[j].0@ == r@);
                            }
                        }
                        push_all(&mut out, &block);
                        proof {
                            lemma_prepend_assoc(before, head + block@, patch_from(s@, c + 4, m));
                            assert(before + head + block@ =~= before + (head + block@));
                        }
                    },
                }
                pos = c + 4;
            },
        }
    }
}

// ------------------------------------------------------------------
// Planning the rewrite
// ------------------------------------------------------------------

/// The path of the last sheet named `name`.
pub open spec fn sheet_path_of(infos: Seq<(Seq<char>, Seq<char>)>, name: Seq<char>) -> Option<Seq<char>>
    decreases infos.len(),
{
    if infos.len() == 0 {
        None
    } else if infos.last().0 == name {
        Some(infos.last().1)
    } else {
        sheet_path_of(infos.drop_last(), name)
    }
}

/// The archive path of the sheet an override names.
pub fn sheet_path_for(sheets: &Vec<SheetInfo>, sheet_name: &str) -> (r: Result<String, String>)
    ensures
        res_view(r) == (match sheet_path_of(info_views(sheets@), sheet_name@) {
            Some(p) => Ok(p),
            None => Err("shared formula source sheet not found: "@ + sheet_name@),
        }),
{
    let ghost v = info_views(sheets@);
    let mut n = sheets.len();
    while n > 0
        invariant
            n <= sheets.len(),
            v == info_views(sheets@),
            sheet_path_of(v, sheet_name@) == sheet_path_of(v.take(n as int), sheet_name@),
        decreases n,
    {
        proof {
            assert(v.take(n as int).drop_last() =~= v.take(n - 1));
            assert(v.take(n as int).last() == v[n - 1]);
        }
        if crate::text::str_eq(sheets[n - 1].name.as_str(), sheet_name) {
            return Ok(copy_string(&sheets[n - 1].path));
        }
        n -= 1;
    }
    let mut m = chars_of("shared formula source sheet not found: ");
    push_all(&mut m, &chars_of(sheet_name));
    Err(string_of(&m))
}

/// The rewrite an override asks for, given the XML of its sheet: the
/// group whose master is the override's cell, with the new formula.
pub fn override_patch(source_sheet_xml: &str, ov: &SharedFormulaOverride) -> (r: Result<SharedFormulaTemplateWithBody, String>)
    ensures
        match r {
            Ok(t) => template_from(source_sheet_xml@, 0, ov.anchor_address@) == Ok::<
                Option<(Seq<char>, Seq<char>)>,
                Seq<char>,
            >(Some((t.ref_range@, t.si@))) && t.master_cell@ == ov.anchor_address@ && t.formula_body@
                == ov.formula_body@,
            Err(e) => match template_from(source_sheet_xml@, 0, ov.anchor_address@) {
                Err(x) => e@ == x,
                Ok(None) => e@ == "shared formula template not found: sheet="@ + ov.sheet_name@ + " cell="@
                    + ov.anchor_address@,
                Ok(Some(_)) => false,
            },
        },
{
    match extract_shared_formula_template_for_master(source_sheet_xml, ov.anchor_address.as_str()) {
        Err(e) => Err(e),
        Ok(None) => {
            let mut m = chars_of("shared formula template not found: sheet=");
            push_all(&mut m, &chars_of(ov.sheet_name.as_str()));
            push_all(&mut m, &chars_of(" cell="));
            push_all(&mut m, &chars_of(ov.anchor_address.as_str()));
            Err(string_of(&m))
        },
        Ok(Some(t)) => Ok(
            SharedFormulaTemplateWithBody {
                master_cell: t.master_cell,
                ref_range: t.ref_range,
                si: t.si,
                formula_body: copy_string(&ov.formula_body),
            },
        ),
    }
}

/// The rewrites planned for the sheet at `path`, in the order they were
/// planned.
pub open spec fn patches_of(plan: Seq<(String, SharedFormulaTemplateWithBody)>, path: Seq<char>) -> Seq<
    (Seq<char>, Seq<char>, Seq<char>, Seq<char>),
>
    decreases plan.len(),
{
    if plan.len() == 0 {
        Seq::empty()
    } else if plan.last().0@ == path {
        patches_of(plan.drop_last(), path).push(twb_view(plan.last().1))
    } else {
        patches_of(plan.drop_last(), path)
    }
}

/// The rewrites of one sheet, taken from the whole plan.
pub fn patches_for_path(plan: &Vec<(String, SharedFormulaTemplateWithBody)>, path: &str) -> (r: Vec<SharedFormulaTemplateWithBody>)
    ensures
        twb_views(r@) == patches_of(plan@, path@),
{
    let mut out: Vec<SharedFormulaTemplateWithBody> = Vec::new();
    let mut i: usize = 0;
    while i < plan.len()
        invariant
            i <= plan.len(),
            twb_views(out@) == patches_of(plan@.take(i as int), path@),
        decreases plan.len() - i,
    {
        proof {
            assert(plan@.take(i + 1).drop_last() =~= plan@.take(i as int));
            assert(plan@.take(i + 1).last() == plan@[i as int]);
        }
        if crate::text::str_eq(plan[i].0.as_str(), path) {
            let t = &plan[i].1;
            let c = SharedFormulaTemplateWithBody {
                master_cell: copy_string(&t.master_cell),
                ref_range: copy_string(&t.ref_range),
                si: copy_string(&t.si),
                formula_body: copy_string(&t.formula_body),
            };
            let ghost before = twb_views(out@);
            out.push(c);
            proof {
                assert(twb_views(out@) =~= before.push(twb_view(plan@[i as int].1)));
            }
        }
        i += 1;
    }
    proof {
        assert(plan@.take(plan@.len() as int) =~= plan@);
    }
    out
}

} // verus!
