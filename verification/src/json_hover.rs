//! Hover provider for Fleet GitOps JSON files.
//!
//! Provides documentation when hovering over field names in DEP enrollment
//! profiles (`*.dep.json`) and Apple DDM declaration profiles
//! (`declaration-profiles/*.json`). The analysis is text based, so it works on
//! partial documents during editing. Columns are byte offsets in the line.
use vstd::prelude::*;

use crate::field_docs::{
    ddm_field_docs, ddm_field_docs_spec, dep_field_docs, dep_field_docs_spec, FieldDoc,
};
use crate::lsp::{line_range, line_range_spec, Hover, Position, Range};
use crate::text::{
    byte_len, char_width, contains_str, split_acc, find, find_spec, has_prefix, has_substr, occurs_at, join_spec, lemma_byte_len_take_mono, lemma_lines_bounds, lines_of, lines_spec, push_chars, push_str, slice_of, starts_with_str, string_of, to_chars, trim, trim_chars, trim_start, trim_start_chars, views,
};

verus! {

// ---------------------------------------------------------------------------
// Keys on a line
// ---------------------------------------------------------------------------

/// Index of the quote that closes a JSON string whose contents start at `k`
/// (a backslash escapes the character after it), or -1 when it is not closed.
pub open spec fn closing_quote(cs: Seq<char>, k: int) -> int
    decreases cs.len() - k,
{
    if k < 0 || k >= cs.len() {
        -1
    } else if cs[k] == '\\' {
        if k + 2 >= cs.len() {
            -1
        } else {
            closing_quote(cs, k + 2)
        }
    } else if cs[k] == '"' {
        k
    } else {
        closing_quote(cs, k + 1)
    }
}

pub proof fn lemma_closing_quote_bounds(cs: Seq<char>, k: int)
    ensures
        closing_quote(cs, k) == -1 || (k <= closing_quote(cs, k) < cs.len() && cs[closing_quote(
            cs,
            k,
        )] == '"'),
    decreases cs.len() - k,
{
    if 0 <= k < cs.len() {
        if cs[k] == '\\' {
            if k + 2 < cs.len() {
                lemma_closing_quote_bounds(cs, k + 2);
            }
        } else if cs[k] != '"' {
            lemma_closing_quote_bounds(cs, k + 1);
        }
    }
}

/// The JSON key at byte column `col`, scanning quoted strings from index `i`:
/// the first quoted string followed by `:` whose quotes span `col`, with the
/// byte offsets of its opening quote and just past its closing quote.
pub open spec fn key_scan(cs: Seq<char>, i: int, col: int) -> Option<(Seq<char>, int, int)>
    decreases cs.len() - i,
{
    if i < 0 || i >= cs.len() {
        None
    } else if cs[i] == '"' {
        let j = closing_quote(cs, i + 1);
        proof {
            lemma_closing_quote_bounds(cs, i + 1);
        }
        if j < 0 {
            None
        } else {
            let start = byte_len(cs.take(i)) as int;
            let end = byte_len(cs.take(j)) as int;
            if has_prefix(trim_start(cs.skip(j + 1)), ":"@) && start <= col && col <= end {
                Some((cs.subrange(i + 1, j), start, end + 1))
            } else {
                key_scan(cs, j + 1, col)
            }
        }
    } else {
        key_scan(cs, i + 1, col)
    }
}

/// The JSON key at byte column `col` of `line`.
pub open spec fn json_key_at(line: Seq<char>, col: int) -> Option<(Seq<char>, int, int)> {
    key_scan(line, 0, col)
}

proof fn lemma_take_step(cs: Seq<char>, i: int)
    requires
        0 <= i < cs.len(),
    ensures
        byte_len(cs.take(i + 1)) == byte_len(cs.take(i)) + crate::text::utf8_width(cs[i]),
{
    assert(cs.take(i + 1).drop_last() =~= cs.take(i));
}

proof fn lemma_take_le(cs: Seq<char>, i: int)
    requires
        0 <= i <= cs.len(),
    ensures
        byte_len(cs.take(i)) <= byte_len(cs),
{
    lemma_byte_len_take_mono(cs, i, cs.len() as int);
    assert(cs.take(cs.len() as int) =~= cs);
}

fn after_is_colon(cs: &Vec<char>, j: usize) -> (r: bool)
    requires
        j < cs.len(),
    ensures
        r == has_prefix(trim_start(cs@.skip(j + 1)), ":"@),
{
    let rest = slice_of(cs, j + 1, cs.len());
    assert(rest@ =~= cs@.skip(j + 1));
    let t = trim_start_chars(&rest);
    starts_with_str(&t, ":")
}

/// Find the JSON key at a cursor position: a quoted string followed by `:`
/// whose quotes span byte column `col`. Returns the key without quotes and
/// the byte offsets of its opening quote and just past its closing quote.
pub fn find_json_key_at(line: &str, col: usize) -> (r: Option<(String, usize, usize)>)
    requires
        byte_len(line@) <= usize::MAX,
    ensures
        match r {
            Some((k, s, e)) => json_key_at(line@, col as int) == Some((k@, s as int, e as int)),
            None => json_key_at(line@, col as int) is None,
        },
        r matches Some((k, s, e)) ==> s < e <= byte_len(line@),
{
    let cs = to_chars(line);
    let mut i: usize = 0;
    let mut bpos: usize = 0;
    while i < cs.len()
        invariant
            i <= cs.len(),
            cs@ == line@,
            byte_len(cs@) <= usize::MAX,
            bpos == byte_len(cs@.take(i as int)),
            json_key_at(cs@, col as int) == key_scan(cs@, i as int, col as int),
        decreases cs.len() - i,
    {
        proof {
            lemma_take_step(cs@, i as int);
            lemma_take_le(cs@, i + 1);
        }
        if cs[i] == '"' {
            let key_start = bpos;
            // Find the closing quote, skipping escaped characters.
            let mut k: usize = i + 1;
            let mut kpos: usize = bpos + char_width(cs[i]);
            let mut found: Option<usize> = None;
            loop
                invariant_except_break
                    found is None,
                invariant
                    i < k <= cs.len(),
                    byte_len(cs@) <= usize::MAX,
                    kpos == byte_len(cs@.take(k as int)),
                    closing_quote(cs@, i + 1) == closing_quote(cs@, k as int),
                ensures
                    found matches Some(j) ==> closing_quote(cs@, i + 1) == j && j < cs.len()
                        && kpos == byte_len(cs@.take(j as int)),
                    found is None ==> closing_quote(cs@, i + 1) == -1,
                decreases cs.len() - k,
            {
                if k >= cs.len() {
                    break;
                }
                proof {
                    lemma_take_step(cs@, k as int);
                    lemma_take_le(cs@, k + 1);
                }
                if cs[k] == '\\' {
                    if cs.len() - k <= 2 {
                        break;
                    }
                    proof {
                        lemma_take_step(cs@, k + 1);
                        lemma_take_le(cs@, k + 2);
                    }
                    kpos = kpos + char_width(cs[k]) + char_width(cs[k + 1]);
                    k = k + 2;
                } else if cs[k] == '"' {
                    found = Some(k);
                    break;
                } else {
                    kpos = kpos + char_width(cs[k]);
                    k = k + 1;
                }
            }
            match found {
                None => {
                    assert(key_scan(cs@, i as int, col as int) is None);
                    return None;
                },
                Some(j) => {
                    proof {
                        lemma_closing_quote_bounds(cs@, i + 1);
                        lemma_take_step(cs@, j as int);
                        lemma_take_le(cs@, j + 1);
                    }
                    let end = kpos;
                    let colon = after_is_colon(&cs, j);
                    if colon && key_start <= col && col <= end {
                        let key = slice_of(&cs, i + 1, j);
                        assert(key_scan(cs@, i as int, col as int) == Some(
                            (cs@.subrange(i + 1, j as int), key_start as int, end + 1),
                        ));
                        return Some((string_of(&key), key_start, end + 1));
                    }
                    assert(key_scan(cs@, i as int, col as int) == key_scan(cs@, j + 1, col as int));
                    i = j + 1;
                    bpos = end + char_width(cs[j]);
                },
            }
        } else {
            bpos = bpos + char_width(cs[i]);
            i += 1;
        }
    }
    None
}

// ---------------------------------------------------------------------------
// Context of a line
// ---------------------------------------------------------------------------

/// Number of occurrences of `c` in `s`.
pub open spec fn count_char(s: Seq<char>, c: char) -> nat
    decreases s.len(),
{
    if s.len() == 0 {
        0
    } else {
        count_char(s.drop_last(), c) + if s.last() == c {
            1nat
        } else {
            0nat
        }
    }
}

fn count_of(s: &Vec<char>, c: char) -> (n: usize)
    ensures
        n == count_char(s@, c),
        n <= s.len(),
{
    let mut n: usize = 0;
    let mut i: usize = 0;
    while i < s.len()
        invariant
            i <= s.len(),
            n <= i,
            n == count_char(s@.take(i as int), c),
        decreases s.len() - i,
    {
        assert(s@.take(i + 1).drop_last() =~= s@.take(i as int));
        if s[i] == c {
            n += 1;
        }
        i += 1;
    }
    assert(s@.take(s.len() as int) =~= s@);
    n
}

/// The key of a line like `"Payload": {`: the first quoted string, when a
/// colon follows it.
pub open spec fn json_line_key(line: Seq<char>) -> Option<Seq<char>> {
    let t = trim(line);
    match find_spec(t, seq!['"']) {
        Some(start) => {
            let rest = t.skip(start + 1);
            match find_spec(rest, seq!['"']) {
                Some(end) => if has_prefix(trim_start(rest.skip(end + 1)), ":"@) {
                    Some(rest.take(end))
                } else {
                    None
                },
                None => None,
            }
        },
        None => None,
    }
}

fn json_line_key_chars(line: &Vec<char>) -> (r: Option<Vec<char>>)
    ensures
        r matches Some(k) ==> json_line_key(line@) == Some(k@),
        r is None ==> json_line_key(line@) is None,
{
    let t = trim_chars(line);
    let mut quote: Vec<char> = Vec::new();
    quote.push('"');
    assert(quote@ =~= seq!['"']);
    let found = find(&t, &quote);
    if found.is_none() {
        return None;
    }
    let start = found.unwrap();
    assert(quote@.len() == 1);
    assert(occurs_at(t@, quote@, start as int));
    let tlen = t.len();
    assert(start < tlen);
    let rest = slice_of(&t, start + 1, tlen);
    assert(rest@ =~= t@.skip(start + 1));
    let end = match find(&rest, &quote) {
        Some(e) => e,
        None => return None,
    };
    if after_is_colon(&rest, end) {
        let key = slice_of(&rest, 0, end);
        assert(key@ =~= rest@.take(end as int));
        Some(key)
    } else {
        None
    }
}

/// Extract a JSON key from a line like `"Payload": {`.
pub fn extract_json_key(line: &str) -> (r: Option<String>)
    ensures
        crate::text::opt_view(r) == json_line_key(line@),
{
    match json_line_key_chars(&to_chars(line)) {
        Some(k) => Some(string_of(&k)),
        None => None,
    }
}

/// Number of bytes of leading whitespace in `line`.
pub open spec fn leading_spaces_spec(line: Seq<char>) -> int {
    byte_len(line) - byte_len(trim_start(line))
}

/// Number of bytes of leading whitespace in `line`.
pub fn leading_spaces(line: &str) -> (n: usize)
    requires
        byte_len(line@) <= usize::MAX,
    ensures
        n == leading_spaces_spec(line@),
{
    let cs = to_chars(line);
    leading_spaces_chars(&cs)
}

fn leading_spaces_chars(cs: &Vec<char>) -> (n: usize)
    requires
        byte_len(cs@) <= usize::MAX,
    ensures
        n == leading_spaces_spec(cs@),
{
    let t = trim_start_chars(cs);
    proof {
        crate::text::lemma_trim_start_substr(cs@);
        lemma_trim_start_le(cs@);
        assert(cs@.take(cs@.len() as int) =~= cs@);
        assert(t@.take(t@.len() as int) =~= t@);
    }
    let a = crate::text::byte_len_prefix_usize(cs, cs.len());
    let b = crate::text::byte_len_prefix_usize(&t, t.len());
    a - b
}

proof fn lemma_trim_start_le(s: Seq<char>)
    ensures
        byte_len(trim_start(s)) <= byte_len(s),
    decreases s.len(),
{
    if s.len() > 0 && crate::text::is_ws(s[0]) {
        lemma_trim_start_le(s.drop_first());
        assert(s =~= seq![s[0]] + s.drop_first());
        crate::text::lemma_byte_len_concat(seq![s[0]], s.drop_first());
    }
}

/// One step of the backward walk over line `line` with brace depth `depth`:
/// the key it contributes (when the walk climbs out of an object) and the
/// depth after it.
pub open spec fn context_step(line: Seq<char>, depth: int) -> (Seq<Seq<char>>, int) {
    let t = trim(line);
    let d = depth + count_char(t, '}') - count_char(t, '{');
    if d < 0 {
        (
            match json_line_key(t) {
                Some(k) => seq![k],
                None => seq![],
            },
            0,
        )
    } else {
        (seq![], d)
    }
}

/// The walk stops after a non-empty line that is not indented and is not a lone `{`.
pub open spec fn context_stops_at(line: Seq<char>) -> bool {
    leading_spaces_spec(line) == 0 && trim(line).len() > 0 && trim(line) != "{"@
}

/// The keys of the objects enclosing a position, collected walking backwards
/// from line `i - 1` with brace depth `depth`, innermost first.
pub open spec fn context_walk(lines: Seq<Seq<char>>, i: nat, depth: int) -> Seq<Seq<char>>
    decreases i,
{
    if i == 0 {
        seq![]
    } else {
        let line = if i - 1 < lines.len() {
            lines[i - 1]
        } else {
            seq![]
        };
        let (keys, d) = context_step(line, depth);
        if context_stops_at(line) {
            keys
        } else {
            keys + context_walk(lines, (i - 1) as nat, d)
        }
    }
}

/// The dot-separated path of the objects enclosing line `line_idx`.
pub open spec fn json_context_spec(source: Seq<char>, line_idx: nat) -> Seq<char> {
    join_spec(context_walk(lines_spec(source), line_idx, 0).reverse(), "."@)
}

/// Walk backwards from the current line to determine the JSON path context,
/// e.g. `"Payload"` for keys nested inside `"Payload": { ... }`.
pub fn determine_json_context(source: &str, line_idx: usize) -> (r: String)
    requires
        byte_len(source@) <= usize::MAX,
    ensures
        r@ == json_context_spec(source@, line_idx as nat),
{
    let chars = to_chars(source);
    let lines = lines_of(&chars);
    proof {
        lemma_lines_bounds(source@);
        crate::text::lemma_byte_len_bounds(source@);
    }
    let mut parts = context_parts(&lines, line_idx, source);
    let mut rev: Vec<Vec<char>> = Vec::new();
    let ghost p = views(parts@);
    let mut k: usize = parts.len();
    while k > 0
        invariant
            k <= parts.len(),
            p == views(parts@),
            views(rev@) == p.reverse().take((p.len() - k) as int),
        decreases k,
    {
        let ghost before = rev@;
        let x = slice_of(&parts[k - 1], 0, parts[k - 1].len());
        assert(x@ =~= parts@[k - 1]@);
        rev.push(x);
        assert(rev@ == before.push(x));
        assert(p.reverse()[(p.len() - k) as int] == p[k - 1]);
        assert(views(rev@) =~= views(before).push(x@));
        assert(views(rev@) =~= p.reverse().take((p.len() - k + 1) as int));
        k -= 1;
    }
    assert(p.reverse().take(p.len() as int) =~= p.reverse());
    let joined = crate::text::join_chars(&rev, ".");
    string_of(&joined)
}

/// The total length of `ls[..k]`.
pub open spec fn total_len(ls: Seq<Seq<char>>, k: int) -> int
    decreases k,
{
    if k <= 0 || k > ls.len() {
        0
    } else {
        total_len(ls, k - 1) + ls[k - 1].len()
    }
}

proof fn lemma_total_len_mono(ls: Seq<Seq<char>>, a: int, b: int)
    requires
        0 <= a <= b <= ls.len(),
    ensures
        0 <= total_len(ls, a) <= total_len(ls, b),
    decreases b - a,
{
    if a < b {
        lemma_total_len_mono(ls, a, b - 1);
    } else {
        lemma_total_len_nonneg(ls, a);
    }
}

proof fn lemma_total_len_nonneg(ls: Seq<Seq<char>>, k: int)
    ensures
        0 <= total_len(ls, k),
    decreases k,
{
    if 0 < k <= ls.len() {
        lemma_total_len_nonneg(ls, k - 1);
    }
}

proof fn lemma_total_len_push(ls: Seq<Seq<char>>, x: Seq<char>, k: int)
    requires
        0 <= k <= ls.len(),
    ensures
        total_len(ls.push(x), k) == total_len(ls, k),
    decreases k,
{
    if k > 0 {
        lemma_total_len_push(ls, x, k - 1);
    }
}

proof fn lemma_split_total(s: Seq<char>)
    ensures
        total_len(split_acc(s, '\n').0, split_acc(s, '\n').0.len() as int) + split_acc(s, '\n').1.len()
            <= s.len(),
    decreases s.len(),
{
    if s.len() > 0 {
        lemma_split_total(s.drop_last());
        let (done, cur) = split_acc(s.drop_last(), '\n');
        if s.last() == '\n' {
            lemma_total_len_push(done, cur, done.len() as int);
        }
    }
}

proof fn lemma_strip_total(ls: Seq<Seq<char>>, k: int)
    requires
        0 <= k <= ls.len(),
    ensures
        total_len(ls.map_values(|l: Seq<char>| crate::text::strip_cr(l)), k) <= total_len(ls, k),
    decreases k,
{
    if k > 0 {
        lemma_strip_total(ls, k - 1);
    }
}

/// The lines of a text are no longer, together, than the text.
proof fn lemma_lines_total(s: Seq<char>)
    ensures
        total_len(lines_spec(s), lines_spec(s).len() as int) <= s.len(),
{
    lemma_split_total(s);
    let (done, cur) = split_acc(s, '\n');
    let m = done.map_values(|l: Seq<char>| crate::text::strip_cr(l));
    lemma_strip_total(done, done.len() as int);
    if cur.len() > 0 {
        lemma_total_len_push(m, cur, m.len() as int);
    }
}

/// The keys collected walking backwards from line `line_idx - 1`, innermost first.
fn context_parts(lines: &Vec<Vec<char>>, line_idx: usize, source: &str) -> (r: Vec<Vec<char>>)
    requires
        views(lines@) == lines_spec(source@),
        lines@.len() <= source@.len(),
        source@.len() <= byte_len(source@),
        byte_len(source@) <= usize::MAX,
        forall|k: int|
            0 <= k < lines_spec(source@).len() ==> byte_len(#[trigger] lines_spec(source@)[k])
                <= byte_len(source@),
    ensures
        views(r@) == context_walk(lines_spec(source@), line_idx as nat, 0),
{
    let ls = Ghost(lines_spec(source@));
    // Lines past the end of the document are empty and change nothing.
    let start: usize = if line_idx > lines.len() {
        lines.len()
    } else {
        line_idx
    };
    proof {
        lemma_walk_past_end(ls@, line_idx as nat, start as nat, 0);
        lemma_lines_total(source@);
        lemma_total_len_mono(ls@, start as int, ls@.len() as int);
    }
    let mut out: Vec<Vec<char>> = Vec::new();
    let mut i: usize = start;
    let mut depth: i128 = 0;
    while i > 0
        invariant
            i <= start <= lines@.len(),
            ls@ == lines_spec(source@),
            views(lines@) == ls@,
            byte_len(source@) <= usize::MAX,
            source@.len() <= byte_len(source@),
            forall|k: int| 0 <= k < ls@.len() ==> byte_len(#[trigger] ls@[k]) <= byte_len(source@),
            total_len(ls@, start as int) <= source@.len(),
            0 <= depth <= total_len(ls@, start as int) - total_len(ls@, i as int),
            views(out@) + context_walk(ls@, i as nat, depth as int) == context_walk(
                ls@,
                line_idx as nat,
                0,
            ),
        decreases i,
    {
        let line = &lines[i - 1];
        assert(line@ == ls@[i - 1]);
        let t = trim_chars(line);
        proof {
            crate::text::lemma_trim_substr(line@);
            lemma_substr_len(line@, t@);
            crate::text::lemma_byte_len_bounds(line@);
        }
        proof {
            lemma_total_len_mono(ls@, i - 1, start as int);
        }
        let closes = count_of(&t, '}');
        let opens = count_of(&t, '{');
        let d = depth + closes as i128 - opens as i128;
        let ghost step = context_step(line@, depth as int);
        let ghost before = views(out@);
        if d < 0 {
            match json_line_key_chars(&t) {
                Some(k) => {
                    out.push(k);
                    assert(views(out@) =~= before + step.0);
                },
                None => {
                    assert(views(out@) =~= before + step.0);
                },
            }
            depth = 0;
        } else {
            assert(views(out@) =~= before + step.0);
            depth = d;
        }
        let indent = leading_spaces_chars(line);
        if indent == 0 && t.len() > 0 && !crate::text::eq_str(&t, "{") {
            assert(context_stops_at(line@));
            assert(views(out@) == context_walk(ls@, line_idx as nat, 0));
            return out;
        }
        assert(views(out@) + context_walk(ls@, (i - 1) as nat, depth as int) =~= before + (step.0
            + context_walk(ls@, (i - 1) as nat, step.1)));
        i -= 1;
    }
    assert(views(out@) =~= views(out@) + context_walk(ls@, 0, depth as int));
    out
}

proof fn lemma_substr_len(s: Seq<char>, t: Seq<char>)
    requires
        has_substr(s, t),
    ensures
        t.len() <= s.len(),
{
}

proof fn lemma_walk_past_end(lines: Seq<Seq<char>>, i: nat, start: nat, depth: int)
    requires
        start == if i > lines.len() {
            lines.len()
        } else {
            i
        },
        depth == 0,
    ensures
        context_walk(lines, i, depth) == context_walk(lines, start, depth),
    decreases i,
{
    if i > start {
        let empty: Seq<char> = seq![];
        assert(trim_start(empty) =~= empty);
        assert(crate::text::trim_end(empty) =~= empty);
        assert(count_char(empty, '}') == 0);
        assert(count_char(empty, '{') == 0);
        assert(context_step(empty, depth) == (Seq::<Seq<char>>::empty(), depth));
        assert(!context_stops_at(empty));
        lemma_walk_past_end(lines, (i - 1) as nat, start, depth);
        assert(seq![] + context_walk(lines, (i - 1) as nat, depth) =~= context_walk(
            lines,
            (i - 1) as nat,
            depth,
        ));
    }
}

// ---------------------------------------------------------------------------
// Profile kinds
// ---------------------------------------------------------------------------

pub open spec fn is_dep_profile_spec(hint: Seq<char>) -> bool {
    has_substr(hint, ".dep.json"@) || has_substr(hint, "enrollment-profile"@)
}

pub open spec fn is_declaration_profile_spec(hint: Seq<char>) -> bool {
    has_substr(hint, "declaration-profile"@)
}

/// Whether the file is a DEP enrollment profile.
pub fn is_dep_profile(file_hint: &str) -> (r: bool)
    ensures
        r == is_dep_profile_spec(file_hint@),
{
    let h = to_chars(file_hint);
    contains_str(&h, ".dep.json") || contains_str(&h, "enrollment-profile")
}

/// Whether the file is a DDM declaration profile.
pub fn is_declaration_profile(file_hint: &str) -> (r: bool)
    ensures
        r == is_declaration_profile_spec(file_hint@),
{
    let h = to_chars(file_hint);
    contains_str(&h, "declaration-profile")
}

// ---------------------------------------------------------------------------
// Documentation lookup
// ---------------------------------------------------------------------------

/// The markdown shown for a field.
pub open spec fn md_spec(name: Seq<char>, description: Seq<char>, field_type: Seq<char>, example: Option<Seq<char>>) -> Seq<char> {
    let base = "**"@ + name + "**\n\n"@ + description + "\n\n**Type:** `"@ + field_type + "`"@;
    match example {
        Some(ex) => base + "\n\n**Example:**\n```json\n"@ + ex + "\n```"@,
        None => base,
    }
}

pub open spec fn opt_str(o: Option<&str>) -> Option<Seq<char>> {
    match o {
        Some(s) => Some(s@),
        None => None,
    }
}

/// The markdown shown for a documented field.
pub open spec fn doc_markdown(d: FieldDoc) -> Seq<char> {
    md_spec(d.name@, d.description@, d.field_type@, opt_str(d.example))
}

/// Build a markdown hover string for a JSON field.
pub fn md(name: &str, description: &str, field_type: &str, example: Option<&str>) -> (r: String)
    ensures
        r@ == md_spec(name@, description@, field_type@, opt_str(example)),
{
    let mut s = String::new();
    push_str(&mut s, "**");
    push_str(&mut s, name);
    push_str(&mut s, "**\n\n");
    push_str(&mut s, description);
    push_str(&mut s, "\n\n**Type:** `");
    push_str(&mut s, field_type);
    push_str(&mut s, "`");
    if let Some(ex) = example {
        push_str(&mut s, "\n\n**Example:**\n```json\n");
        push_str(&mut s, ex);
        push_str(&mut s, "\n```");
    }
    s
}

/// The first entry of `docs` documenting `key`.
pub open spec fn doc_lookup(docs: Seq<FieldDoc>, key: Seq<char>) -> Option<FieldDoc>
    decreases docs.len(),
{
    if docs.len() == 0 {
        None
    } else if docs[0].key@ == key {
        Some(docs[0])
    } else {
        doc_lookup(docs.drop_first(), key)
    }
}

fn lookup(docs: &Vec<FieldDoc>, key: &Vec<char>) -> (r: Option<FieldDoc>)
    ensures
        r == doc_lookup(docs@, key@),
{
    let mut i: usize = 0;
    assert(docs@.skip(0) =~= docs@);
    while i < docs.len()
        invariant
            i <= docs.len(),
            doc_lookup(docs@, key@) == doc_lookup(docs@.skip(i as int), key@),
        decreases docs.len() - i,
    {
        assert(docs@.skip(i as int).drop_first() =~= docs@.skip(i + 1));
        assert(docs@.skip(i as int)[0] == docs@[i as int]);
        if crate::text::eq_str(key, docs[i].key) {
            return Some(docs[i]);
        }
        i += 1;
    }
    None
}

/// The hover for the key at `position` of a JSON document: its markdown
/// documentation and the range of the quoted key.
pub open spec fn json_hover_spec(source: Seq<char>, position: Position, file_hint: Seq<char>) -> Option<
    (Seq<char>, Range),
> {
    let lines = lines_spec(source);
    if position.line >= lines.len() {
        None
    } else {
        match json_key_at(lines[position.line as int], position.character as int) {
            None => None,
            Some((key, start, end)) => {
                let parent = json_context_spec(source, position.line as nat);
                let full = if parent.len() == 0 {
                    key
                } else {
                    parent + "."@ + key
                };
                let docs = if is_dep_profile_spec(file_hint) {
                    dep_field_docs_spec()
                } else if is_declaration_profile_spec(file_hint) {
                    ddm_field_docs_spec()
                } else if doc_lookup(dep_field_docs_spec(), full) is Some || doc_lookup(
                    dep_field_docs_spec(),
                    key,
                ) is Some {
                    dep_field_docs_spec()
                } else {
                    ddm_field_docs_spec()
                };
                let doc = if doc_lookup(docs, full) is Some {
                    doc_lookup(docs, full)
                } else {
                    doc_lookup(docs, key)
                };
                match doc {
                    Some(d) => Some(
                        (doc_markdown(d), line_range_spec(position.line, start as u32, end as u32)),
                    ),
                    None => None,
                }
            },
        }
    }
}

/// Provide hover information at a position in a JSON document. `file_hint`
/// (the file name or path) selects the documentation set.
pub fn json_hover_at(source: &str, position: Position, file_hint: &str) -> (r: Option<Hover>)
    requires
        byte_len(source@) <= u32::MAX,
    ensures
        match r {
            Some(h) => json_hover_spec(source@, position, file_hint@) matches Some((text, range))
                && h.contents@ == text && h.range == Some(range),
            None => json_hover_spec(source@, position, file_hint@) is None,
        },
{
    let chars = to_chars(source);
    let lines = lines_of(&chars);
    proof {
        lemma_lines_bounds(source@);
    }
    let idx = position.line as usize;
    if idx >= lines.len() {
        return None;
    }
    assert(lines@[idx as int]@ == lines_spec(source@)[idx as int]);
    let line = string_of(&lines[idx]);
    let (key, word_start, word_end) = match find_json_key_at(
        line.as_str(),
        position.character as usize,
    ) {
        Some(found) => found,
        None => return None,
    };
    let parent = determine_json_context(source, idx);
    let key_chars = to_chars(key.as_str());
    let full = if parent.as_str().is_empty() {
        slice_of(&key_chars, 0, key_chars.len())
    } else {
        let mut f = String::new();
        push_str(&mut f, parent.as_str());
        push_str(&mut f, ".");
        push_chars(&mut f, &key_chars);
        to_chars(f.as_str())
    };
    assert(key_chars@.subrange(0, key_chars@.len() as int) =~= key_chars@);
    let dep = dep_field_docs();
    let docs = if is_dep_profile(file_hint) {
        dep
    } else if is_declaration_profile(file_hint) {
        ddm_field_docs()
    } else if lookup(&dep, &full).is_some() || lookup(&dep, &key_chars).is_some() {
        dep
    } else {
        ddm_field_docs()
    };
    let doc = match lookup(&docs, &full) {
        Some(d) => d,
        None => match lookup(&docs, &key_chars) {
            Some(d) => d,
            None => return None,
        },
    };
    let contents = md(doc.name, doc.description, doc.field_type, doc.example);
    Some(
        Hover {
            contents,
            range: Some(line_range(position.line, word_start as u32, word_end as u32)),
        },
    )
}

proof fn lemma_key_scan_span(cs: Seq<char>, i: int, col: int)
    ensures
        key_scan(cs, i, col) matches Some((k, s, e)) ==> 0 <= s <= col < e <= byte_len(cs),
    decreases cs.len() - i,
{
    if 0 <= i < cs.len() {
        if cs[i] == '"' {
            let j = closing_quote(cs, i + 1);
            lemma_closing_quote_bounds(cs, i + 1);
            if j >= 0 {
                lemma_take_step(cs, j);
                lemma_take_le(cs, j + 1);
                lemma_key_scan_span(cs, j + 1, col);
            }
        } else {
            lemma_key_scan_span(cs, i + 1, col);
        }
    }
}

/// A hover's range is the key under the cursor: it lies on the cursor's
/// line and spans the cursor's column.
pub proof fn lemma_hover_covers_cursor(source: Seq<char>, position: Position, file_hint: Seq<char>)
    requires
        byte_len(source) <= u32::MAX,
    ensures
        json_hover_spec(source, position, file_hint) matches Some((text, range)) ==> range.start.line
            == position.line && range.end.line == position.line && range.start.character
            <= position.character < range.end.character,
{
    let lines = lines_spec(source);
    if position.line < lines.len() {
        let line = lines[position.line as int];
        lemma_lines_bounds(source);
        lemma_key_scan_span(line, 0, position.character as int);
    }
}

} // verus!
