//! Source positions: line numbers of byte offsets, the text of each
//! statement, and the IR of a parsed source with the span of each node.
use vstd::prelude::*;
use vstd::string::*;
use vstd::utf8::*;
use crate::parser::convert::{convert_node, spec_convert_node};
use crate::parser::ir::{ir_nodes_view, IrNode, IrNodeView, Located, SourceSpan};
use crate::parser::syntax::RawStmt;
use crate::text::{ascii_uppercase, is_ascii_alnum, is_ascii_text, lemma_trim_ascii, chars_of, is_alphanumeric, is_white_space, is_whitespace_char, spec_starts_with, spec_trim, starts_with, std_is_alphanumeric, std_to_uppercase, string_of_chars, to_uppercase, trim};

verus! {

broadcast use vstd::utf8::encode_utf8_valid_utf8, vstd::utf8::encode_utf8_decode_utf8;

/// The number of newline bytes in `b`.
pub open spec fn count_newlines(b: Seq<u8>) -> nat
    decreases b.len(),
{
    if b.len() == 0 {
        0
    } else {
        count_newlines(b.drop_last()) + if b.last() == 10u8 {
            1nat
        } else {
            0nat
        }
    }
}

/// The 1-based line of byte `offset` of `b`: one more than the number of
/// newlines before it (an offset past the end counts them all).
pub open spec fn spec_line_of(b: Seq<u8>, offset: int) -> int {
    count_newlines(b.take(if offset < b.len() { offset } else { b.len() as int })) + 1int
}

proof fn lemma_count_newlines_le(b: Seq<u8>)
    ensures
        count_newlines(b) <= b.len(),
    decreases b.len(),
{
    if b.len() > 0 {
        lemma_count_newlines_le(b.drop_last());
    }
}

/// Convert a byte offset into a 1-based line number: the newlines before
/// `offset` (clamped to the end of the source), plus one.
pub fn byte_offset_to_line(source: &str, offset: usize) -> (line: usize)
    requires
        source.spec_bytes().len() < usize::MAX,
    ensures
        line == spec_line_of(source.spec_bytes(), offset as int),
{
    let b = source.as_bytes();
    let clamped = if offset < b.len() { offset } else { b.len() };
    let mut count: usize = 0;
    let mut i: usize = 0;
    while i < clamped
        invariant
            b@ == source.spec_bytes(),
            clamped <= b@.len(),
            b@.len() < usize::MAX,
            i <= clamped,
            count == count_newlines(b@.take(i as int)),
        decreases clamped - i,
    {
        proof {
            assert(b@.take(i + 1).drop_last() =~= b@.take(i as int));
            lemma_count_newlines_le(b@.take(i as int));
        }
        if b[i] == 10u8 {
            count = count + 1;
        }
        i = i + 1;
    }
    proof {
        lemma_count_newlines_le(b@.take(clamped as int));
    }
    count + 1
}

/// The length of the UTF-8 encoding of a Unicode `White_Space` character
/// starting at byte `i` of `b`, or 0 when none starts there. These are
/// U+0009..U+000D, U+0020, U+0085, U+00A0, U+1680, U+2000..U+200A, U+2028,
/// U+2029, U+202F, U+205F and U+3000: the characters `char::is_whitespace`
/// accepts.
pub open spec fn ws_width_at(b: Seq<u8>, i: int) -> int {
    if !(0 <= i < b.len()) {
        0
    } else if (9 <= b[i] <= 13) || b[i] == 32 {
        1
    } else if i + 1 < b.len() && b[i] == 0xc2 && (b[i + 1] == 0x85 || b[i + 1] == 0xa0) {
        2
    } else if i + 2 < b.len() && ((b[i] == 0xe1 && b[i + 1] == 0x9a && b[i + 2] == 0x80) || (b[i] == 0xe2
        && b[i + 1] == 0x80 && ((0x80 <= b[i + 2] <= 0x8a) || b[i + 2] == 0xa8 || b[i + 2] == 0xa9 || b[i + 2]
        == 0xaf)) || (b[i] == 0xe2 && b[i + 1] == 0x81 && b[i + 2] == 0x9f) || (b[i] == 0xe3 && b[i + 1]
        == 0x80 && b[i + 2] == 0x80)) {
        3
    } else {
        0
    }
}

/// The first byte at or after `i` that does not start a whitespace character.
pub open spec fn skip_whitespace(b: Seq<u8>, i: int) -> int
    decreases b.len() - i,
{
    if i < 0 || i >= b.len() {
        i
    } else if ws_width_at(b, i) > 0 {
        skip_whitespace(b, i + ws_width_at(b, i))
    } else {
        i
    }
}

/// Where the first token of a statement starting at byte `start` stands:
/// past its leading whitespace, or `start` itself when only whitespace follows.
pub open spec fn spec_token_start(b: Seq<u8>, start: int) -> int {
    let t = skip_whitespace(b, start);
    if 0 <= t < b.len() {
        t
    } else {
        start
    }
}

fn ws_width(b: &[u8], i: usize) -> (w: usize)
    requires
        i < b@.len(),
    ensures
        w == ws_width_at(b@, i as int),
{
    let n = b.len();
    let c = b[i];
    if (9 <= c && c <= 13) || c == 32 {
        1
    } else if n - i > 1 && c == 0xc2 && (b[i + 1] == 0x85 || b[i + 1] == 0xa0) {
        2
    } else if n - i > 2 && ((c == 0xe1 && b[i + 1] == 0x9a && b[i + 2] == 0x80) || (c == 0xe2 && b[i + 1] == 0x80 && ((
    0x80 <= b[i + 2] && b[i + 2] <= 0x8a) || b[i + 2] == 0xa8 || b[i + 2] == 0xa9 || b[i + 2] == 0xaf)) || (c == 0xe2
        && b[i + 1] == 0x81 && b[i + 2] == 0x9f) || (c == 0xe3 && b[i + 1] == 0x80 && b[i + 2] == 0x80)) {
        3
    } else {
        0
    }
}

fn token_start(b: &[u8], start: usize) -> (t: usize)
    ensures
        t == spec_token_start(b@, start as int),
{
    let mut i = start;
    while i < b.len()
        invariant
            start <= i,
            skip_whitespace(b@, start as int) == skip_whitespace(b@, i as int),
        decreases b.len() - i,
    {
        let w = ws_width(b, i);
        if w == 0 {
            return i;
        }
        i = i + w;
    }
    start
}

/// The text between two byte offsets of a source, when both are character
/// boundaries in order; empty otherwise.
pub open spec fn spec_slice(b: Seq<u8>, start: int, end: int) -> Seq<char> {
    if 0 <= start <= end <= b.len() && is_char_boundary(b, start) && is_char_boundary(b, end) {
        decode_utf8(b.subrange(start, end))
    } else {
        Seq::empty()
    }
}

proof fn lemma_prefix_boundary(b: Seq<u8>, start: int, end: int)
    requires
        valid_utf8(b),
        0 <= start <= end <= b.len(),
        is_char_boundary(b, start),
        is_char_boundary(b, end),
    ensures
        valid_utf8(b.subrange(0, end)),
        is_char_boundary(b.subrange(0, end), start),
{
    let p = b.subrange(0, end);
    valid_utf8_split(b, end);
    if start == end {
        is_char_boundary_start_end_of_seq(p);
        assert(p.len() == end);
    } else if start > 0 {
        is_char_boundary_iff_not_is_continuation_byte(b, start);
        is_char_boundary_iff_not_is_continuation_byte(p, start);
        assert(p[start] == b[start]);
    }
}

/// The text of `source` between two byte offsets, or an empty string when
/// they are not character boundaries in order.
pub fn slice_or_empty(source: &str, start: usize, end: usize) -> (r: String)
    ensures
        r@ == spec_slice(source.spec_bytes(), start as int, end as int),
{
    let len = source.as_bytes().len();
    let bs = source.is_char_boundary(start);
    let be = source.is_char_boundary(end);
    assert(bs == is_char_boundary(source.spec_bytes(), start as int));
    assert(be == is_char_boundary(source.spec_bytes(), end as int));
    if start <= end && end <= len && bs && be {
        proof {
            lemma_prefix_boundary(source.spec_bytes(), start as int, end as int);
        }
        let (head, _) = source.split_at(end);
        let (_, mid) = head.split_at(start);
        proof {
            assert(mid.spec_bytes() =~= source.spec_bytes().subrange(start as int, end as int));
            assert(decode_utf8(encode_utf8(mid@)) == mid@);
            assert(valid_utf8(source.spec_bytes()));
            assert(spec_slice(source.spec_bytes(), start as int, end as int) == decode_utf8(source.spec_bytes().subrange(start as int, end as int)));
        }
        let r = String::from_str(mid);
        assert(r@ == mid@);
        r
    } else {
        let r = String::new();
        assert(r@ =~= Seq::<char>::empty());
        assert(!(0 <= start <= end <= source.spec_bytes().len() && is_char_boundary(source.spec_bytes(), start as int) && is_char_boundary(source.spec_bytes(), end as int)));
        r
    }
}

/// A node together with its span, as values.
pub open spec fn located_view(s: Seq<Located<IrNode>>) -> Seq<(IrNodeView, SourceSpan)> {
    s.map_values(|l: Located<IrNode>| (l.node@, l.span))
}

/// Where statement `st` ends: `stmt_len` bytes after its start, or at the
/// end of the source when `stmt_len` is 0.
pub open spec fn stmt_end(b: Seq<u8>, st: RawStmt) -> int {
    if st.stmt_len > 0 {
        st.stmt_location + st.stmt_len
    } else {
        b.len() as int
    }
}

/// The span of statement `st`: its first line is that of its first token,
/// its last line that of its last byte.
pub open spec fn stmt_span(b: Seq<u8>, st: RawStmt) -> SourceSpan {
    let start = st.stmt_location as int;
    let end = stmt_end(b, st);
    let last = if end - 1 > start { end - 1 } else { start };
    SourceSpan {
        start_line: spec_line_of(b, spec_token_start(b, start)) as usize,
        end_line: spec_line_of(b, last) as usize,
        start_offset: st.stmt_location,
        end_offset: end as usize,
    }
}

/// The IR nodes of one statement, each with the statement's span. A
/// statement with no tree is `Ignored`.
pub open spec fn spec_statement(src: Seq<char>, st: RawStmt) -> Seq<(IrNodeView, SourceSpan)> {
    let b = encode_utf8(src);
    let raw = spec_slice(b, st.stmt_location as int, stmt_end(b, st));
    let nodes = match st.stmt {
        Some(n) => match n.node {
            Some(k) => spec_convert_node(k, raw),
            None => seq![IrNodeView::Ignored { raw_sql: raw }],
        },
        None => seq![IrNodeView::Ignored { raw_sql: raw }],
    };
    let span = stmt_span(b, st);
    nodes.map_values(|v: IrNodeView| (v, span))
}

/// The IR nodes of all statements of a parsed source, in order.
pub open spec fn spec_parse_result(src: Seq<char>, stmts: Seq<RawStmt>) -> Seq<(IrNodeView, SourceSpan)>
    decreases stmts.len(),
{
    if stmts.len() == 0 {
        Seq::empty()
    } else {
        spec_parse_result(src, stmts.drop_last()) + spec_statement(src, stmts.last())
    }
}

/// The IR of a parsed source: each statement converted, each node located
/// by the statement's span (1-based lines, byte offsets).
pub fn convert_parse_result(source: &str, stmts: &Vec<RawStmt>) -> (r: Vec<Located<IrNode>>)
    requires
        source.spec_bytes().len() < usize::MAX,
        forall|i: int| 0 <= i < stmts@.len() ==> #[trigger] stmts@[i].stmt_location + stmts@[i].stmt_len <= usize::MAX,
    ensures
        located_view(r@) == spec_parse_result(source@, stmts@),
{
    let ghost b = source.spec_bytes();
    let bytes = source.as_bytes();
    let mut r: Vec<Located<IrNode>> = Vec::new();
    let mut i: usize = 0;
    proof {
        assert(located_view(r@) =~= spec_parse_result(source@, stmts@.take(0)));
    }
    while i < stmts.len()
        invariant
            i <= stmts@.len(),
            b == source.spec_bytes(),
            b == encode_utf8(source@),
            bytes@ == b,
            b.len() < usize::MAX,
            forall|k: int| 0 <= k < stmts@.len() ==> #[trigger] stmts@[k].stmt_location + stmts@[k].stmt_len <= usize::MAX,
            located_view(r@) == spec_parse_result(source@, stmts@.take(i as int)),
        decreases stmts.len() - i,
    {
        let st = &stmts[i];
        proof {
            assert(stmts@.take(i + 1).drop_last() =~= stmts@.take(i as int));
            assert(st.stmt_location + st.stmt_len <= usize::MAX);
        }
        let start = st.stmt_location;
        let end = if st.stmt_len > 0 { start + st.stmt_len } else { bytes.len() };
        let tok = token_start(bytes, start);
        let start_line = byte_offset_to_line(source, tok);
        let last = if end > 0 && end - 1 > start { end - 1 } else { start };
        let end_line = byte_offset_to_line(source, last);
        let raw_sql = slice_or_empty(source, start, end);
        let span = SourceSpan { start_line, end_line, start_offset: start, end_offset: end };
        proof {
            assert(span == stmt_span(b, *st));
        }
        let nodes: Vec<IrNode> = match &st.stmt {
            Some(n) => match &n.node {
                Some(k) => convert_node(k, raw_sql.as_str()),
                None => {
                    let mut v = Vec::new();
                    v.push(IrNode::Ignored { raw_sql: raw_sql.clone() });
                    proof {
                        assert(ir_nodes_view(v@) =~= seq![IrNodeView::Ignored { raw_sql: raw_sql@ }]);
                    }
                    v
                },
            },
            None => {
                let mut v = Vec::new();
                v.push(IrNode::Ignored { raw_sql: raw_sql.clone() });
                proof {
                    assert(ir_nodes_view(v@) =~= seq![IrNodeView::Ignored { raw_sql: raw_sql@ }]);
                }
                v
            },
        };
        let ghost before = r@;
        let ghost nv = ir_nodes_view(nodes@);
        proof {
            assert(nv.map_values(|v: IrNodeView| (v, span)) == spec_statement(source@, *st));
        }
        let mut rest = nodes;
        let ghost mut k: int = 0;
        proof {
            assert(ir_nodes_view(rest@) =~= nv.subrange(0, nv.len() as int));
            assert(located_view(r@) =~= located_view(before) + nv.take(0).map_values(|v: IrNodeView| (v, span)));
        }
        while rest.len() > 0
            invariant
                0 <= k <= nv.len(),
                rest@.len() == nv.len() - k,
                ir_nodes_view(rest@) == nv.subrange(k, nv.len() as int),
                located_view(r@) == located_view(before) + nv.take(k).map_values(|v: IrNodeView| (v, span)),
            decreases rest.len(),
        {
            let ghost rb = rest@;
            let node = rest.remove(0);
            proof {
                assert(ir_nodes_view(rb)[0] == nv.subrange(k, nv.len() as int)[0]);
                assert forall|j: int| 0 <= j < rest@.len() implies #[trigger] ir_nodes_view(rest@)[j] == nv.subrange(k + 1, nv.len() as int)[j] by {
                    assert(rest@[j] == rb[j + 1]);
                    assert(ir_nodes_view(rb)[j + 1] == nv.subrange(k, nv.len() as int)[j + 1]);
                }
                assert(ir_nodes_view(rest@) =~= nv.subrange(k + 1, nv.len() as int));
            }
            let l = Located { node, span };
            proof {
                assert(located_view(r@.push(l)) =~= located_view(r@).push((l.node@, span)));
                assert(nv.take(k + 1).map_values(|v: IrNodeView| (v, span)) =~= nv.take(k).map_values(|v: IrNodeView| (v, span)).push((nv[k], span)));
                k = k + 1;
            }
            r.push(l);
        }
        proof {
            assert(nv.take(nv.len() as int) =~= nv);
        }
        i = i + 1;
    }
    proof {
        assert(stmts@.take(stmts@.len() as int) =~= stmts@);
    }
    r
}

// ---------------------------------------------------------------------------
// Table hints of unparseable SQL
// ---------------------------------------------------------------------------

/// The first byte position at or after `from` where `needle` occurs in `hay`.
pub open spec fn find_bytes_from(hay: Seq<u8>, needle: Seq<u8>, from: int) -> Option<int>
    decreases hay.len() + 1 - from,
{
    if from < 0 || from + needle.len() > hay.len() {
        None
    } else if hay.subrange(from, from + needle.len()) == needle {
        Some(from)
    } else {
        find_bytes_from(hay, needle, from + 1)
    }
}

/// The first byte position where `needle` occurs in `hay` (`str::find`).
pub open spec fn spec_find_bytes(hay: Seq<u8>, needle: Seq<u8>) -> Option<int> {
    find_bytes_from(hay, needle, 0)
}

fn bytes_at(hay: &[u8], needle: &[u8], at: usize) -> (r: bool)
    requires
        at + needle@.len() <= hay@.len(),
    ensures
        r == (hay@.subrange(at as int, at + needle@.len()) == needle@),
{
    let hl = hay.len();
    let mut j: usize = 0;
    while j < needle.len()
        invariant
            hl == hay@.len(),
            at + needle@.len() <= hay@.len(),
            j <= needle@.len(),
            forall|k: int| 0 <= k < j ==> hay@[at + k] == needle@[k],
        decreases needle.len() - j,
    {
        if hay[at + j] != needle[j] {
            proof {
                assert(hay@.subrange(at as int, at + needle@.len())[j as int] != needle@[j as int]);
            }
            return false;
        }
        j = j + 1;
    }
    proof {
        assert(hay@.subrange(at as int, at + needle@.len()) =~= needle@);
    }
    true
}

/// The first byte position where `needle` occurs in `hay`.
pub fn find_bytes(hay: &[u8], needle: &[u8]) -> (r: Option<usize>)
    ensures
        match r {
            Some(p) => spec_find_bytes(hay@, needle@) == Some(p as int) && p + needle@.len() <= hay@.len(),
            None => spec_find_bytes(hay@, needle@).is_none(),
        },
{
    if needle.len() > hay.len() {
        return None;
    }
    let last = hay.len() - needle.len();
    let mut i: usize = 0;
    while i <= last
        invariant
            last + needle@.len() == hay@.len(),
            spec_find_bytes(hay@, needle@) == find_bytes_from(hay@, needle@, i as int),
        decreases last + 1 - i,
    {
        if bytes_at(hay, needle, i) {
            return Some(i);
        }
        if i == last {
            proof {
                assert(find_bytes_from(hay@, needle@, i + 1).is_none());
            }
            return None;
        }
        i = i + 1;
    }
    None
}

/// Whether `c` may be part of an identifier in a table hint.
pub open spec fn is_ident_char(c: char) -> bool {
    std_is_alphanumeric(c) || c == '_' || c == '.' || c == '"'
}

/// The longest prefix of `s` made of identifier characters.
pub open spec fn spec_take_ident(s: Seq<char>) -> Seq<char>
    decreases s.len(),
{
    if s.len() == 0 || !is_ident_char(s[0]) {
        Seq::empty()
    } else {
        seq![s[0]] + spec_take_ident(s.drop_first())
    }
}

/// `s` without its double quotes.
pub open spec fn without_quotes(s: Seq<char>) -> Seq<char> {
    s.filter(|c: char| c != '"')
}

/// Whether `upper` starts with the keyword `kw` as a whole word: the keyword
/// is followed by whitespace or by the end of the text.
pub open spec fn spec_keyword_at(upper: Seq<char>, kw: Seq<char>) -> bool {
    spec_starts_with(upper, kw) && (upper.len() == kw.len() || is_white_space(upper[kw.len() as int]))
}

/// The byte length of the optional keyword an identifier may follow, by the
/// uppercased text: `IF NOT EXISTS`, `IF EXISTS` or `ONLY`, each only as a
/// whole word.
pub open spec fn keyword_skip(upper: Seq<char>) -> int {
    if spec_keyword_at(upper, "IF NOT EXISTS"@) {
        13
    } else if spec_keyword_at(upper, "IF EXISTS"@) {
        9
    } else if spec_keyword_at(upper, "ONLY"@) {
        4
    } else {
        0
    }
}

/// Whether `upper` starts with the keyword `kw` as a whole word.
fn keyword_at(upper: &str, kw: &str) -> (r: bool)
    ensures
        r == spec_keyword_at(upper@, kw@),
{
    if !starts_with(upper, kw) {
        return false;
    }
    let cs = chars_of(upper);
    let n = kw.unicode_len();
    n == cs.len() || is_whitespace_char(cs[n])
}

/// The text of `s` after its first `k` bytes, or nothing when byte `k` is
/// not a character boundary of `s`.
pub open spec fn text_after(s: Seq<char>, k: int) -> Seq<char> {
    let b = encode_utf8(s);
    if 0 <= k <= b.len() && is_char_boundary(b, k) {
        decode_utf8(b.subrange(k, b.len() as int))
    } else {
        Seq::empty()
    }
}

/// The first identifier of `s` (whitespace trimmed, an optional `IF NOT
/// EXISTS`, `IF EXISTS` or `ONLY` skipped as a whole word), quotes removed; `None` when
/// no identifier character follows.
pub open spec fn spec_first_identifier(s: Seq<char>) -> Option<Seq<char>> {
    let t = spec_trim(s);
    let rest = spec_trim(text_after(t, keyword_skip(std_to_uppercase(t))));
    let ident = spec_take_ident(rest);
    if ident.len() == 0 {
        None
    } else {
        Some(without_quotes(ident))
    }
}

/// Whether `c` may be part of an identifier, for ASCII `c`.
pub open spec fn is_ascii_ident_char(c: char) -> bool {
    is_ascii_alnum(c) || c == '_' || c == '.' || c == '"'
}

/// The longest prefix of `s` made of ASCII identifier characters.
pub open spec fn spec_take_ascii_ident(s: Seq<char>) -> Seq<char>
    decreases s.len(),
{
    if s.len() == 0 || !is_ascii_ident_char(s[0]) {
        Seq::empty()
    } else {
        seq![s[0]] + spec_take_ascii_ident(s.drop_first())
    }
}

/// [`spec_first_identifier`] on ASCII text, where uppercasing and the
/// identifier characters are those of ASCII: letters, digits, `_`, `.`
/// and `"`.
pub open spec fn spec_first_ascii_identifier(s: Seq<char>) -> Option<Seq<char>> {
    let t = spec_trim(s);
    let rest = spec_trim(text_after(t, keyword_skip(ascii_uppercase(t))));
    let ident = spec_take_ascii_ident(rest);
    if ident.len() == 0 {
        None
    } else {
        Some(without_quotes(ident))
    }
}

/// What follows the first `k` bytes of ASCII text is ASCII text.
proof fn lemma_text_after_ascii(t: Seq<char>, k: int)
    requires
        is_ascii_text(t),
    ensures
        is_ascii_text(text_after(t, k)),
{
    let b = encode_utf8(t);
    if 0 <= k <= b.len() && is_char_boundary(b, k) {
        encode_utf8_valid_utf8(t);
        encode_utf8_decode_utf8(t);
        decode_utf8_split(b, k);
        let p = decode_utf8(b.subrange(0, k));
        let r = decode_utf8(b.subrange(k, b.len() as int));
        assert(t =~= p + r);
        assert forall|i: int| 0 <= i < r.len() implies (#[trigger] r[i] as u32) < 128 by {
            assert(r[i] == t[p.len() + i]);
        }
    }
}

fn after_bytes(s: &str, k: usize) -> (r: String)
    ensures
        r@ == text_after(s@, k as int),
{
    let len = s.as_bytes().len();
    if k <= len && s.is_char_boundary(k) {
        let (_, rest) = s.split_at(k);
        proof {
            assert(decode_utf8(encode_utf8(rest@)) == rest@);
        }
        String::from_str(rest)
    } else {
        let r = String::new();
        assert(r@ =~= Seq::<char>::empty());
        r
    }
}

/// Extract the first identifier of `s`, skipping surrounding whitespace and
/// an optional `IF NOT EXISTS`, `IF EXISTS` or `ONLY` written as a whole
/// word; quotes are removed.
pub fn extract_first_identifier(s: &str) -> (r: Option<String>)
    ensures
        opt_chars(r) == spec_first_identifier(s@),
        is_ascii_text(s@) ==> opt_chars(r) == spec_first_ascii_identifier(s@),
{
    let t = trim(s);
    proof {
        if is_ascii_text(s@) {
            lemma_trim_ascii(s@);
        }
    }
    let upper = to_uppercase(t.as_str());
    let skip: usize = if keyword_at(upper.as_str(), "IF NOT EXISTS") {
        13
    } else if keyword_at(upper.as_str(), "IF EXISTS") {
        9
    } else if keyword_at(upper.as_str(), "ONLY") {
        4
    } else {
        0
    };
    let after = after_bytes(t.as_str(), skip);
    let rest = trim(after.as_str());
    proof {
        if is_ascii_text(s@) {
            lemma_text_after_ascii(t@, skip as int);
            lemma_trim_ascii(after@);
        }
    }
    let cs = chars_of(rest.as_str());
    let mut ident: Vec<char> = Vec::new();
    let mut i: usize = 0;
    proof {
        assert(cs@.skip(0) =~= cs@);
    }
    while i < cs.len() && (is_alphanumeric(cs[i]) || cs[i] == '_' || cs[i] == '.' || cs[i] == '"')
        invariant
            i <= cs.len(),
            spec_take_ident(cs@) == ident@ + spec_take_ident(cs@.skip(i as int)),
            is_ascii_text(cs@) ==> spec_take_ascii_ident(cs@) == ident@ + spec_take_ascii_ident(cs@.skip(i as int)),
            ident@.len() == i,
        decreases cs.len() - i,
    {
        proof {
            assert(cs@.skip(i as int)[0] == cs@[i as int]);
            assert(cs@.skip(i as int).drop_first() =~= cs@.skip(i + 1));
            assert(ident@.push(cs@[i as int]) + spec_take_ident(cs@.skip(i + 1)) =~= ident@ + (seq![cs@[i as int]] + spec_take_ident(cs@.skip(i + 1))));
            assert(ident@.push(cs@[i as int]) + spec_take_ascii_ident(cs@.skip(i + 1)) =~= ident@ + (seq![cs@[i as int]] + spec_take_ascii_ident(cs@.skip(i + 1))));
        }
        ident.push(cs[i]);
        i = i + 1;
    }
    proof {
        assert(spec_take_ident(cs@.skip(i as int)) =~= Seq::<char>::empty());
        assert(spec_take_ident(cs@) =~= ident@);
        if is_ascii_text(cs@) {
            assert(spec_take_ascii_ident(cs@.skip(i as int)) =~= Seq::<char>::empty());
            assert(spec_take_ascii_ident(cs@) =~= ident@);
        }
    }
    if ident.len() == 0 {
        return None;
    }
    let mut cleaned: Vec<char> = Vec::new();
    let mut j: usize = 0;
    while j < ident.len()
        invariant
            j <= ident.len(),
            cleaned@ == without_quotes(ident@.take(j as int)),
        decreases ident.len() - j,
    {
        proof {
            assert(ident@.take(j + 1).drop_last() =~= ident@.take(j as int));
            reveal(Seq::filter);
        }
        if ident[j] != '"' {
            cleaned.push(ident[j]);
        }
        j = j + 1;
    }
    proof {
        assert(ident@.take(ident@.len() as int) =~= ident@);
    }
    Some(string_of_chars(&cleaned))
}

pub open spec fn opt_chars(o: Option<String>) -> Option<Seq<char>> {
    match o {
        Some(s) => Some(s@),
        None => None,
    }
}

/// The first identifier after byte `k` of `sql`, when `k` is a character
/// boundary of it.
pub open spec fn hint_after(sql: Seq<char>, k: int) -> Option<Seq<char>> {
    let b = encode_utf8(sql);
    if 0 <= k <= b.len() && is_char_boundary(b, k) {
        spec_first_identifier(decode_utf8(b.subrange(k, b.len() as int)))
    } else {
        None
    }
}

/// The table a statement that failed to parse most likely touches: the
/// identifier after the first `ALTER TABLE`, else after the first
/// `CREATE TABLE` (keywords matched in the uppercased text, at the same
/// byte positions in the source text).
pub open spec fn spec_table_hint(sql: Seq<char>) -> Option<Seq<char>> {
    let ub = encode_utf8(std_to_uppercase(sql));
    let alter = encode_utf8("ALTER TABLE"@);
    let create = encode_utf8("CREATE TABLE"@);
    match spec_find_bytes(ub, alter) {
        Some(p) => hint_after(sql, p + alter.len()),
        None => match spec_find_bytes(ub, create) {
            Some(p) => hint_after(sql, p + create.len()),
            None => None,
        },
    }
}

fn hint_after_exec(sql: &str, k: usize) -> (r: Option<String>)
    ensures
        opt_chars(r) == hint_after(sql@, k as int),
{
    let len = sql.as_bytes().len();
    if k <= len && sql.is_char_boundary(k) {
        let (_, rest) = sql.split_at(k);
        proof {
            assert(decode_utf8(encode_utf8(rest@)) == rest@);
            assert(rest.spec_bytes() =~= sql.spec_bytes().subrange(k as int, sql.spec_bytes().len() as int));
        }
        extract_first_identifier(rest)
    } else {
        None
    }
}

/// A best-effort guess at the table that SQL which failed to parse touches.
pub fn extract_table_hint_from_raw(sql: &str) -> (r: Option<String>)
    ensures
        opt_chars(r) == spec_table_hint(sql@),
{
    let upper = to_uppercase(sql);
    let ub = upper.as_str().as_bytes();
    let _ul = ub.len();
    let alter = "ALTER TABLE".as_bytes();
    if let Some(p) = find_bytes(ub, alter) {
        return hint_after_exec(sql, p + alter.len());
    }
    let create = "CREATE TABLE".as_bytes();
    if let Some(p) = find_bytes(ub, create) {
        return hint_after_exec(sql, p + create.len());
    }
    None
}

// ---------------------------------------------------------------------------
// Sources that fail to parse
// ---------------------------------------------------------------------------

/// The number of lines of `s` as `str::lines` counts them: one per newline,
/// plus a last line without a newline, if any.
pub open spec fn spec_line_count(s: Seq<char>) -> int {
    s.filter(|c: char| c == '\n').len() + if s.len() > 0 && s.last() != '\n' {
        1int
    } else {
        0int
    }
}

/// The IR of a source that fails to parse as a whole: one `Unparseable`
/// node holding all of it, on lines 1 to its last line.
pub open spec fn spec_unparseable_source(src: Seq<char>) -> (IrNodeView, SourceSpan) {
    (
        IrNodeView::Unparseable { raw_sql: src, table_hint: spec_table_hint(src) },
        SourceSpan {
            start_line: 1,
            end_line: (if spec_line_count(src) > 1 { spec_line_count(src) } else { 1 }) as usize,
            start_offset: 0,
            end_offset: encode_utf8(src).len() as usize,
        },
    )
}

/// The IR of a source that fails to parse as a whole.
pub fn unparseable_source(source: &str) -> (r: Vec<Located<IrNode>>)
    ensures
        located_view(r@) == seq![spec_unparseable_source(source@)],
{
    let cs = chars_of(source);
    let mut newlines: usize = 0;
    let mut i: usize = 0;
    while i < cs.len()
        invariant
            i <= cs.len(),
            newlines == cs@.take(i as int).filter(|c: char| c == '\n').len(),
            newlines <= i,
            i > 0 && cs@[i - 1] != '\n' ==> newlines < i,
        decreases cs.len() - i,
    {
        proof {
            assert(cs@.take(i + 1).drop_last() =~= cs@.take(i as int));
            reveal(Seq::filter);
        }
        if cs[i] == '\n' {
            newlines = newlines + 1;
        }
        i = i + 1;
    }
    proof {
        assert(cs@.take(cs@.len() as int) =~= cs@);
    }
    let count = if cs.len() > 0 && cs[cs.len() - 1] != '\n' { newlines + 1 } else { newlines };
    let end_line = if count > 1 { count } else { 1 };
    let span = SourceSpan { start_line: 1, end_line, start_offset: 0, end_offset: source.as_bytes().len() };
    let node = IrNode::Unparseable { raw_sql: String::from_str(source), table_hint: extract_table_hint_from_raw(source) };
    let mut r: Vec<Located<IrNode>> = Vec::new();
    r.push(Located { node, span });
    proof {
        assert(located_view(r@) =~= seq![spec_unparseable_source(source@)]);
    }
    r
}

proof fn lemma_count_newlines_prefix(b: Seq<u8>, i: int, j: int)
    requires
        0 <= i <= j <= b.len(),
    ensures
        count_newlines(b.take(i)) <= count_newlines(b.take(j)),
    decreases j - i,
{
    if i < j {
        lemma_count_newlines_prefix(b, i, j - 1);
        assert(b.take(j).drop_last() =~= b.take(j - 1));
    }
}

/// Line numbers never decrease along the source, and start at 1.
pub proof fn lemma_line_monotonic(b: Seq<u8>, o1: int, o2: int)
    requires
        0 <= o1 <= o2,
    ensures
        1 <= spec_line_of(b, o1) <= spec_line_of(b, o2),
{
    let c1 = if o1 < b.len() { o1 } else { b.len() as int };
    let c2 = if o2 < b.len() { o2 } else { b.len() as int };
    lemma_count_newlines_prefix(b, c1, c2);
}

/// The statements of a source convert independently: the IR of two runs of
/// statements is the IR of the first followed by that of the second.
pub proof fn lemma_parse_result_concat(src: Seq<char>, a: Seq<RawStmt>, b: Seq<RawStmt>)
    ensures
        spec_parse_result(src, a + b) == spec_parse_result(src, a) + spec_parse_result(src, b),
    decreases b.len(),
{
    if b.len() == 0 {
        assert(a + b =~= a);
        assert(spec_parse_result(src, a) + spec_parse_result(src, b) =~= spec_parse_result(src, a));
    } else {
        lemma_parse_result_concat(src, a, b.drop_last());
        assert((a + b).drop_last() =~= a + b.drop_last());
        assert((a + b).last() == b.last());
        assert(spec_parse_result(src, a + b) =~= spec_parse_result(src, a) + spec_parse_result(src, b));
    }
}

/// The IR of a source given what the parser made of it: the statements it
/// found (`Some`), or a failure to parse the source as a whole (`None`).
pub fn ir_from_parse(source: &str, parsed: Option<&Vec<RawStmt>>) -> (r: Vec<Located<IrNode>>)
    requires
        source.spec_bytes().len() < usize::MAX,
        match parsed {
            Some(stmts) => forall|i: int| 0 <= i < stmts@.len() ==> #[trigger] stmts@[i].stmt_location + stmts@[i].stmt_len <= usize::MAX,
            None => true,
        },
    ensures
        located_view(r@) == match parsed {
            Some(stmts) => spec_parse_result(source@, stmts@),
            None => seq![spec_unparseable_source(source@)],
        },
{
    match parsed {
        Some(stmts) => convert_parse_result(source, stmts),
        None => unparseable_source(source),
    }
}

} // verus!
