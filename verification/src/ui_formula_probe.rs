//! Reading of the UI workbook's cells for the formula probe: the sheet's
//! relationship id and XML part, a cell's XML by address, its attributes,
//! formula and value texts, the shared-string table, and the value a cell
//! shows. Opening the archive and printing stay outside the library.
use vstd::prelude::*;

use crate::core2::shared_formula_reader::{
    extract_attr, opt_view, spec_extract_attr, spec_xml_unescape, xml_unescape,
};
use crate::decimal::{dec, dec_chars, parse_unsigned, parse_unsigned_range};
use crate::text::{
    chars_of, find_char, find_first, first_at, first_char, push_all, replace_seq, replace_vec,
    string_of, string_of_range,
};

verus! {

broadcast use vstd::seq_lib::group_seq_properties;

/// An attribute value written into a search marker: `&`, `"`, `<` and `>`
/// escaped, in that order.
pub open spec fn spec_escape_xml_attr(s: Seq<char>) -> Seq<char> {
    replace_seq(
        replace_seq(replace_seq(replace_seq(s, "&"@, "&amp;"@), "\""@, "&quot;"@), "<"@, "&lt;"@),
        ">"@,
        "&gt;"@,
    )
}

pub fn escape_xml_attr(s: &str) -> (r: String)
    ensures
        r@ == spec_escape_xml_attr(s@),
{
    proof {
        reveal_strlit("&");
        reveal_strlit("\"");
        reveal_strlit("<");
        reveal_strlit(">");
    }
    let a = replace_vec(&chars_of(s), &chars_of("&"), &chars_of("&amp;"));
    let b = replace_vec(&a, &chars_of("\""), &chars_of("&quot;"));
    let c = replace_vec(&b, &chars_of("<"), &chars_of("&lt;"));
    string_of(&replace_vec(&c, &chars_of(">"), &chars_of("&gt;")))
}

/// Entity references of a text node decoded (`&amp;` last).
pub fn unescape_xml_text(s: &str) -> (r: String)
    ensures
        r@ == spec_xml_unescape(s@),
{
    string_of(&xml_unescape(&chars_of(s)))
}

/// The text between the first quote at or after `start` and `start`.
pub open spec fn quoted_from(x: Seq<char>, start: int) -> Option<Seq<char>> {
    match first_char(x, '"', start) {
        None => None,
        Some(e) => Some(x.subrange(start, e)),
    }
}

fn quoted_from_exec(x: &Vec<char>, start: usize) -> (r: Option<String>)
    requires
        start <= x.len(),
    ensures
        opt_view(r) == quoted_from(x@, start as int),
{
    match find_char(x, '"', start) {
        None => None,
        Some(e) => Some(string_of_range(x, start, e)),
    }
}

/// The `r:id` of the sheet named `name` in `workbook.xml`: the first
/// `r:id="` after the sheet's `name="..."`, up to its closing quote.
pub open spec fn spec_sheet_rid(wb: Seq<char>, name: Seq<char>) -> Option<Seq<char>> {
    let marker = "name=\""@ + spec_escape_xml_attr(name) + "\""@;
    match first_at(wb, marker, 0) {
        None => None,
        Some(pos) => match first_at(wb, "r:id=\""@, pos) {
            None => None,
            Some(k) => quoted_from(wb, k + 6),
        },
    }
}

pub fn extract_sheet_rid(workbook_xml: &str, sheet_name: &str) -> (r: Option<String>)
    ensures
        opt_view(r) == spec_sheet_rid(workbook_xml@, sheet_name@),
{
    proof {
        reveal_strlit("r:id=\"");
    }
    let wb = chars_of(workbook_xml);
    let mut marker = chars_of("name=\"");
    push_all(&mut marker, &chars_of(escape_xml_attr(sheet_name).as_str()));
    push_all(&mut marker, &chars_of("\""));
    let pos = match find_first(&wb, &marker, 0) {
        Some(p) => p,
        None => return None,
    };
    let key = chars_of("r:id=\"");
    match find_first(&wb, &key, pos) {
        None => None,
        Some(k) => {
            assert(k + key@.len() <= wb@.len());
            quoted_from_exec(&wb, k + 6)
        },
    }
}

/// The `Target` of relationship `rid` in `workbook.xml.rels`: the first
/// `Target="` after `Id="rid"`, up to its closing quote.
pub open spec fn spec_probe_relationship_target(rels: Seq<char>, rid: Seq<char>) -> Option<Seq<char>> {
    let marker = "Id=\""@ + spec_escape_xml_attr(rid) + "\""@;
    match first_at(rels, marker, 0) {
        None => None,
        Some(pos) => match first_at(rels, "Target=\""@, pos) {
            None => None,
            Some(k) => quoted_from(rels, k + 8),
        },
    }
}

pub fn extract_relationship_target(rels_xml: &str, rid: &str) -> (r: Option<String>)
    ensures
        opt_view(r) == spec_probe_relationship_target(rels_xml@, rid@),
{
    proof {
        reveal_strlit("Target=\"");
    }
    let rels = chars_of(rels_xml);
    let mut marker = chars_of("Id=\"");
    push_all(&mut marker, &chars_of(escape_xml_attr(rid).as_str()));
    push_all(&mut marker, &chars_of("\""));
    let pos = match find_first(&rels, &marker, 0) {
        Some(p) => p,
        None => return None,
    };
    let key = chars_of("Target=\"");
    match find_first(&rels, &key, pos) {
        None => None,
        Some(k) => {
            assert(k + key@.len() <= rels@.len());
            quoted_from_exec(&rels, k + 8)
        },
    }
}

/// The part of the sheet's XML where the `.xlsx` archive keeps it: the
/// target itself when it starts with `xl/`, else under `xl/`.
pub open spec fn spec_sheet_part(target: Seq<char>) -> Seq<char> {
    if target.len() >= 3 && target.take(3) == "xl/"@ {
        target
    } else {
        "xl/"@ + target
    }
}

pub fn sheet_part_path(target: &str) -> (r: String)
    ensures
        r@ == spec_sheet_part(target@),
{
    proof {
        reveal_strlit("xl/");
    }
    let t = chars_of(target);
    if t.len() >= 3 && t[0] == 'x' && t[1] == 'l' && t[2] == '/' {
        proof {
            assert(t@.take(3) =~= "xl/"@);
        }
        return target.to_owned();
    }
    proof {
        if t@.len() >= 3 && t@.take(3) == "xl/"@ {
            assert(t@[0] == t@.take(3)[0]);
            assert(t@[1] == t@.take(3)[1]);
            assert(t@[2] == t@.take(3)[2]);
        }
    }
    let mut out = chars_of("xl/");
    push_all(&mut out, &t);
    string_of(&out)
}

/// The XML of the cell with address `cell_ref`: from its `<c r="..."` to
/// the first `</c>` after it, else to the first `/>` after it.
pub open spec fn spec_cell_xml(sheet: Seq<char>, cell_ref: Seq<char>) -> Option<Seq<char>> {
    let marker = "<c r=\""@ + cell_ref + "\""@;
    match first_at(sheet, marker, 0) {
        None => None,
        Some(st) => match first_at(sheet, "</c>"@, st) {
            Some(e) => Some(sheet.subrange(st, e + 4)),
            None => match first_at(sheet, "/>"@, st) {
                Some(e) => Some(sheet.subrange(st, e + 2)),
                None => None,
            },
        },
    }
}

pub fn extract_cell_xml(sheet_xml: &str, cell_ref: &str) -> (r: Option<String>)
    ensures
        opt_view(r) == spec_cell_xml(sheet_xml@, cell_ref@),
{
    proof {
        reveal_strlit("</c>");
        reveal_strlit("/>");
    }
    let s = chars_of(sheet_xml);
    let mut marker = chars_of("<c r=\"");
    push_all(&mut marker, &chars_of(cell_ref));
    push_all(&mut marker, &chars_of("\""));
    let st = match find_first(&s, &marker, 0) {
        Some(p) => p,
        None => return None,
    };
    let close = chars_of("</c>");
    let slash = chars_of("/>");
    assert(close.len() == 4 && slash.len() == 2);
    match find_first(&s, &close, st) {
        Some(e) => {
            assert(e + close@.len() <= s@.len());
            assert(e + 4 <= s.len());
            Some(string_of_range(&s, st, e + 4))
        },
        None => match find_first(&s, &slash, st) {
            Some(e) => {
                assert(e + slash@.len() <= s@.len());
                Some(string_of_range(&s, st, e + 2))
            },
            None => None,
        },
    }
}

/// The decoded text of the first `<tag>...</tag>` element of `xml`.
pub open spec fn spec_tag_text(xml: Seq<char>, tag: Seq<char>) -> Option<Seq<char>> {
    let open = "<"@ + tag + ">"@;
    let close = "</"@ + tag + ">"@;
    match first_at(xml, open, 0) {
        None => None,
        Some(o) => match first_at(xml, close, o + open.len()) {
            None => None,
            Some(e) => Some(spec_xml_unescape(xml.subrange(o + open.len(), e))),
        },
    }
}

pub fn extract_tag_text(xml: &str, tag: &str) -> (r: Option<String>)
    ensures
        opt_view(r) == spec_tag_text(xml@, tag@),
{
    let x = chars_of(xml);
    let mut open = chars_of("<");
    push_all(&mut open, &chars_of(tag));
    push_all(&mut open, &chars_of(">"));
    let mut close = chars_of("</");
    push_all(&mut close, &chars_of(tag));
    push_all(&mut close, &chars_of(">"));
    let o = match find_first(&x, &open, 0) {
        Some(p) => p,
        None => return None,
    };
    let ol = open.len();
    let xl = x.len();
    assert(o + ol <= xl);
    let start = o + ol;
    match find_first(&x, &close, start) {
        None => None,
        Some(e) => {
            let mut body: Vec<char> = Vec::new();
            crate::text::push_range(&mut body, &x, start, e);
            proof {
                assert(body@ =~= x@.subrange(start as int, e as int));
            }
            Some(string_of(&xml_unescape(&body)))
        },
    }
}

/// The text of an inline string: that of its first `<t>` element.
pub fn extract_inline_string(xml: &str) -> (r: Option<String>)
    ensures
        opt_view(r) == spec_tag_text(xml@, "t"@),
{
    extract_tag_text(xml, "t")
}

/// The decoded texts of the `<t ...>...</t>` runs of a shared string from
/// `pos` on, joined; the scan stops at the first run that is not closed.
pub open spec fn t_texts_from(si: Seq<char>, pos: int) -> Seq<char>
    decreases si.len() - pos,
{
    if pos < 0 || pos > si.len() {
        Seq::empty()
    } else {
        match first_at(si, "<t"@, pos) {
            None => Seq::empty(),
            Some(ts) => match first_char(si, '>', ts) {
                None => Seq::empty(),
                Some(gt) => match first_at(si, "</t>"@, gt + 1) {
                    None => Seq::empty(),
                    Some(e) => if pos <= gt && gt + 1 <= e && e + 4 <= si.len() {
                        spec_xml_unescape(si.subrange(gt + 1, e)) + t_texts_from(si, e + 4)
                    } else {
                        Seq::empty()
                    },
                },
            },
        }
    }
}

pub fn collect_all_t_text(si_content: &str) -> (r: String)
    ensures
        r@ == t_texts_from(si_content@, 0),
{
    proof {
        reveal_strlit("<t");
        reveal_strlit("</t>");
    }
    let s = chars_of(si_content);
    let open = chars_of("<t");
    let close = chars_of("</t>");
    let mut out: Vec<char> = Vec::new();
    let mut pos: usize = 0;
    while pos <= s.len()
        invariant
            pos <= s.len(),
            open@ == "<t"@,
            close@ == "</t>"@,
            close@.len() == 4,
            out@ + t_texts_from(s@, pos as int) == t_texts_from(s@, 0),
        ensures
            out@ == t_texts_from(s@, 0),
        decreases s.len() + 1 - pos,
    {
        let ts = match find_first(&s, &open, pos) {
            Some(t) => t,
            None => {
                assert(out@ + Seq::<char>::empty() =~= out@);
                break;
            },
        };
        let gt = match find_char(&s, '>', ts) {
            Some(g) => g,
            None => {
                assert(out@ + Seq::<char>::empty() =~= out@);
                break;
            },
        };
        let e = match find_first(&s, &close, gt + 1) {
            Some(e) => e,
            None => {
                assert(out@ + Seq::<char>::empty() =~= out@);
                break;
            },
        };
        assert(e + close@.len() <= s@.len());
        let ghost old_out = out@;
        let mut body: Vec<char> = Vec::new();
        crate::text::push_range(&mut body, &s, gt + 1, e);
        proof {
            assert(body@ =~= s@.subrange(gt + 1, e as int));
        }
        push_all(&mut out, &xml_unescape(&body));
        proof {
            assert(out@ + t_texts_from(s@, e + 4) =~= old_out + t_texts_from(s@, pos as int));
        }
        pos = e + 4;
    }
    string_of(&out)
}

pub open spec fn str_views(v: Seq<String>) -> Seq<Seq<char>> {
    Seq::new(v.len(), |i: int| v[i]@)
}

/// The texts of the `<si>` entries of `sharedStrings.xml` from `pos` on, in
/// order, or the malformation that stopped the scan.
pub open spec fn shared_strings_from(xml: Seq<char>, pos: int) -> Result<Seq<Seq<char>>, Seq<char>>
    decreases xml.len() - pos,
{
    if pos < 0 || pos > xml.len() {
        Ok(Seq::empty())
    } else {
        match first_at(xml, "<si"@, pos) {
            None => Ok(Seq::empty()),
            Some(st) => match first_char(xml, '>', st) {
                None => Err("sharedStrings malformed: <si> open"@),
                Some(gt) => match first_at(xml, "</si>"@, gt + 1) {
                    None => Err("sharedStrings malformed: </si>"@),
                    Some(e) => if pos <= gt && gt + 1 <= e && e + 5 <= xml.len() {
                        match shared_strings_from(xml, e + 5) {
                            Ok(rest) => Ok(seq![t_texts_from(xml.subrange(gt + 1, e), 0)] + rest),
                            Err(m) => Err(m),
                        }
                    } else {
                        Ok(Seq::empty())
                    },
                },
            },
        }
    }
}

pub open spec fn strings_res_view(r: Result<Vec<String>, String>) -> Result<Seq<Seq<char>>, Seq<char>> {
    match r {
        Ok(v) => Ok(str_views(v@)),
        Err(e) => Err(e@),
    }
}

/// The shared-string table: entry `i` is the text of the `i`-th `<si>`.
pub fn parse_shared_strings(xml: &str) -> (r: Result<Vec<String>, String>)
    ensures
        strings_res_view(r) == shared_strings_from(xml@, 0),
{
    proof {
        reveal_strlit("<si");
        reveal_strlit("</si>");
    }
    let s = chars_of(xml);
    let open = chars_of("<si");
    let close = chars_of("</si>");
    let mut out: Vec<String> = Vec::new();
    let mut pos: usize = 0;
    while pos <= s.len()
        invariant
            pos <= s.len(),
            s@ == xml@,
            open@ == "<si"@,
            close@ == "</si>"@,
            close@.len() == 5,
            match shared_strings_from(s@, pos as int) {
                Ok(rest) => shared_strings_from(s@, 0) == Ok::<Seq<Seq<char>>, Seq<char>>(str_views(out@) + rest),
                Err(m) => shared_strings_from(s@, 0) == Err::<Seq<Seq<char>>, Seq<char>>(m),
            },
        ensures
            shared_strings_from(s@, 0) == Ok::<Seq<Seq<char>>, Seq<char>>(str_views(out@)),
        decreases s.len() + 1 - pos,
    {
        let st = match find_first(&s, &open, pos) {
            Some(t) => t,
            None => {
                assert(str_views(out@) + Seq::<Seq<char>>::empty() =~= str_views(out@));
                break;
            },
        };
        let gt = match find_char(&s, '>', st) {
            Some(g) => g,
            None => return Err("sharedStrings malformed: <si> open".to_owned()),
        };
        let e = match find_first(&s, &close, gt + 1) {
            Some(e) => e,
            None => return Err("sharedStrings malformed: </si>".to_owned()),
        };
        assert(e + close@.len() <= s@.len());
        let ghost old_out = out@;
        let content = string_of_range(&s, gt + 1, e);
        let text = collect_all_t_text(content.as_str());
        out.push(text);
        proof {
            assert(str_views(out@) =~= str_views(old_out).push(text@));
            match shared_strings_from(s@, e + 5) {
                Ok(rest) => {
                    assert(str_views(out@) + rest =~= str_views(old_out) + (seq![text@] + rest));
                },
                Err(_) => {},
            }
        }
        pos = e + 5;
    }
    Ok(out)
}

/// The value a cell shows: for `t="s"` the shared string its `<v>` numbers
/// (empty when the number is bad or out of the table), for
/// `t="inlineStr"` its inline text, else its `<v>` text.
pub open spec fn spec_resolved_value(t_attr: Seq<char>, v_text: Seq<char>, inline_text: Seq<char>, shared: Seq<
    Seq<char>,
>) -> Seq<char> {
    if t_attr == "s"@ {
        match parse_unsigned(v_text, usize::MAX as nat) {
            Some(i) => if i < shared.len() {
                shared[i as int]
            } else {
                Seq::empty()
            },
            None => Seq::empty(),
        }
    } else if t_attr == "inlineStr"@ {
        inline_text
    } else {
        v_text
    }
}

pub fn resolve_cell_value(t_attr: &str, v_text: &str, inline_text: &str, shared: &Vec<String>) -> (r: String)
    ensures
        r@ == spec_resolved_value(t_attr@, v_text@, inline_text@, str_views(shared@)),
{
    if crate::text::str_eq(t_attr, "s") {
        let v = chars_of(v_text);
        match parse_unsigned_range(&v, 0, v.len(), usize::MAX as u64) {
            Some(i) => {
                proof {
                    assert(v@.subrange(0, v@.len() as int) =~= v_text@);
                }
                if i < shared.len() as u64 {
                    shared[i as usize].clone()
                } else {
                    String::new()
                }
            },
            None => {
                proof {
                    assert(v@.subrange(0, v@.len() as int) =~= v_text@);
                }
                String::new()
            },
        }
    } else if crate::text::str_eq(t_attr, "inlineStr") {
        inline_text.to_owned()
    } else {
        v_text.to_owned()
    }
}

/// What the probe reports of one cell.
#[derive(Debug, Clone)]
pub struct ProbeCell {
    pub cell_ref: String,
    pub t_attr: String,
    pub s_attr: String,
    pub f_text: String,
    pub v_text: String,
    pub resolved: String,
}

pub open spec fn or_empty(o: Option<Seq<char>>) -> Seq<char> {
    match o {
        Some(t) => t,
        None => Seq::empty(),
    }
}

/// The report of the cell at `cell_ref`, when the sheet has it.
pub open spec fn spec_probe_cell(sheet: Seq<char>, cell_ref: Seq<char>, shared: Seq<Seq<char>>) -> Option<
    (Seq<char>, Seq<char>, Seq<char>, Seq<char>, Seq<char>, Seq<char>),
> {
    match spec_cell_xml(sheet, cell_ref) {
        None => None,
        Some(x) => {
            let t = or_empty(spec_extract_attr(x, "t"@));
            let v = or_empty(spec_tag_text(x, "v"@));
            Some(
                (
                    cell_ref,
                    t,
                    or_empty(spec_extract_attr(x, "s"@)),
                    or_empty(spec_tag_text(x, "f"@)),
                    v,
                    spec_resolved_value(t, v, or_empty(spec_tag_text(x, "t"@)), shared),
                ),
            )
        },
    }
}

pub open spec fn probe_view(c: ProbeCell) -> (Seq<char>, Seq<char>, Seq<char>, Seq<char>, Seq<char>, Seq<char>) {
    (c.cell_ref@, c.t_attr@, c.s_attr@, c.f_text@, c.v_text@, c.resolved@)
}

fn text_or_empty(o: Option<String>) -> (r: String)
    ensures
        r@ == or_empty(opt_view(o)),
{
    match o {
        Some(t) => t,
        None => String::new(),
    }
}

pub fn probe_cell(sheet_xml: &str, cell_ref: &str, shared: &Vec<String>) -> (r: Option<ProbeCell>)
    ensures
        match r {
            Some(c) => spec_probe_cell(sheet_xml@, cell_ref@, str_views(shared@)) == Some(probe_view(c)),
            None => spec_probe_cell(sheet_xml@, cell_ref@, str_views(shared@)) is None,
        },
{
    let x = match extract_cell_xml(sheet_xml, cell_ref) {
        Some(x) => x,
        None => return None,
    };
    let xv = chars_of(x.as_str());
    let t_attr = text_or_empty(extract_attr(&xv, "t"));
    let s_attr = text_or_empty(extract_attr(&xv, "s"));
    let f_text = text_or_empty(extract_tag_text(x.as_str(), "f"));
    let v_text = text_or_empty(extract_tag_text(x.as_str(), "v"));
    let inline = text_or_empty(extract_inline_string(x.as_str()));
    let resolved = resolve_cell_value(t_attr.as_str(), v_text.as_str(), inline.as_str(), shared);
    Some(ProbeCell { cell_ref: cell_ref.to_owned(), t_attr, s_attr, f_text, v_text, resolved })
}

/// The reports of the cells `column` 1 to `column` `n` that the sheet has,
/// top to bottom.
pub open spec fn spec_probe_rows(sheet: Seq<char>, column: Seq<char>, n: nat, shared: Seq<Seq<char>>) -> Seq<
    (Seq<char>, Seq<char>, Seq<char>, Seq<char>, Seq<char>, Seq<char>),
>
    decreases n,
{
    if n == 0 {
        Seq::empty()
    } else {
        let prev = spec_probe_rows(sheet, column, (n - 1) as nat, shared);
        match spec_probe_cell(sheet, column + dec(n), shared) {
            Some(c) => prev.push(c),
            None => prev,
        }
    }
}

pub open spec fn probe_views(v: Seq<ProbeCell>) -> Seq<(Seq<char>, Seq<char>, Seq<char>, Seq<char>, Seq<char>, Seq<char>)> {
    Seq::new(v.len(), |i: int| probe_view(v[i]))
}

/// Probes the cells of `column` in rows 1 to `last_row`.
pub fn probe_column(sheet_xml: &str, column: &str, last_row: usize, shared: &Vec<String>) -> (r: Vec<ProbeCell>)
    ensures
        probe_views(r@) == spec_probe_rows(sheet_xml@, column@, last_row as nat, str_views(shared@)),
{
    let mut out: Vec<ProbeCell> = Vec::new();
    let mut row: usize = 0;
    while row < last_row
        invariant
            row <= last_row,
            probe_views(out@) == spec_probe_rows(sheet_xml@, column@, row as nat, str_views(shared@)),
        decreases last_row - row,
    {
        row += 1;
        let mut addr = chars_of(column);
        push_all(&mut addr, &dec_chars(row));
        let a = string_of(&addr);
        let ghost before = out@;
        match probe_cell(sheet_xml, a.as_str(), shared) {
            Some(c) => {
                out.push(c);
                proof {
                    assert(probe_views(out@) =~= probe_views(before).push(probe_view(c)));
                }
            },
            None => {},
        }
    }
    out
}

} // verus!
