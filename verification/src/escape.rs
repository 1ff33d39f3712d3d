//! Escaping of markup lines for string literals of the target language.
//!
//! A line is cut into pieces: text, escaped character by character, and
//! splices, which are the three interpolation forms and the calls that
//! component expansion leaves behind. The pieces give the escaped text of a
//! line, and the statements that a line becomes: each statement that holds
//! text closes its literal with one quote, and splices at the end of a line
//! get a statement of their own instead of an empty literal.

use vstd::prelude::*;
use crate::text::{
    starts_with, lemma_replace_without_first, lemma_replace_longer, is_alnum, is_alnum_char,
    views, join, join_with, lemma_replace_whole, chars_of, string_of, find_from, next_char, trim,
    find_at, scan_char, push_str, push_all, slice, trim_of, match_at, matches_at, replace,
    replace_all,
};
use crate::discovery::Component;

verus! {

/// The end of a closing marker searched from `from`: the position of the
/// marker and the position after it, or the end of the text twice where the
/// marker does not occur.
pub open spec fn close_span(s: Seq<char>, marker: Seq<char>, from: int) -> (int, int) {
    let k = find_from(s, marker, from);
    if from <= k && k + marker.len() <= s.len() {
        (k, k + marker.len())
    } else {
        (s.len() as int, s.len() as int)
    }
}

/// The splice that stands for an interpolated expression that is emitted as
/// it is.
pub open spec fn raw_splice(expr: Seq<char>) -> Seq<char> {
    "\" + "@ + expr + " + \""@
}

/// The call of the escape helper on an expression: what a safe
/// interpolation splices in.
pub open spec fn safe_call(expr: Seq<char>) -> Seq<char> {
    "__safe_html_escape("@ + expr + ")"@
}

/// One piece of an escaped line: text that stands inside the string literal,
/// or an expression that is spliced in between two literals.
pub ghost enum Piece {
    Text(Seq<char>),
    Splice(Seq<char>),
}

/// What escaping makes of the markup at position `i`, and the position at
/// which reading goes on.
///
/// A quote, a backslash and a tab get a backslash. `{{expr}}` becomes a
/// splice of the expression and runs to the next `}}`, or to the end where
/// there is none. `{!expr}` becomes a splice of the expression and `{expr}`
/// a splice of the escape helper's call on it; both run to the next `}`.
/// Expressions are trimmed. A `{` that no `}` follows, and a `}` that closes
/// nothing, get a backslash.
pub open spec fn markup_step(s: Seq<char>, i: int) -> (Piece, int)
    recommends
        0 <= i < s.len(),
{
    if s[i] == '"' {
        (Piece::Text(seq!['\\', '"']), i + 1)
    } else if s[i] == '\\' {
        (Piece::Text(seq!['\\', '\\']), i + 1)
    } else if s[i] == '\t' {
        (Piece::Text(seq!['\\', 't']), i + 1)
    } else if s[i] == '{' && i + 1 < s.len() && s[i + 1] == '{' {
        let (k, next) = close_span(s, "}}"@, i + 2);
        (Piece::Splice(trim(s.subrange(i + 2, k))), next)
    } else if s[i] == '{' {
        let raw = i + 1 < s.len() && s[i + 1] == '!';
        let start = if raw {
            i + 2
        } else {
            i + 1
        };
        let k = next_char(s, '}', start);
        if start <= k < s.len() {
            let expr = trim(s.subrange(start, k));
            (Piece::Splice(if raw {
                expr
            } else {
                safe_call(expr)
            }), k + 1)
        } else {
            (Piece::Text(seq!['\\', '{']), i + 1)
        }
    } else if s[i] == '}' {
        (Piece::Text(seq!['\\', '}']), i + 1)
    } else {
        (Piece::Text(seq![s[i]]), i + 1)
    }
}

/// A piece of text that escaping makes of one character is not empty, and it
/// ends with a quote exactly where the character is a quote.
pub proof fn lemma_text_piece(s: Seq<char>, i: int)
    requires
        0 <= i < s.len(),
    ensures
        markup_step(s, i).0 matches Piece::Text(t) ==> t.len() > 0 && (t.last() == '"' <==> s[i]
            == '"'),
{
}

/// The position after the parenthesis that closes `depth` open ones, reading
/// from `i`; the end of the text where they are not all closed.
pub open spec fn paren_end(s: Seq<char>, i: int, depth: nat) -> int
    decreases s.len() - i,
{
    if depth == 0 || i < 0 || i >= s.len() {
        i
    } else if s[i] == '(' {
        paren_end(s, i + 1, depth + 1)
    } else if s[i] == ')' {
        paren_end(s, i + 1, (depth - 1) as nat)
    } else {
        paren_end(s, i + 1, depth)
    }
}

/// How many characters of the resumption sequence (a space, a plus sign, a
/// space, a quote) stand at position `e`, read one after the other.
pub open spec fn resume_len(s: Seq<char>, e: int) -> nat {
    if !(0 <= e < s.len() && s[e] == ' ') {
        0
    } else if !(e + 1 < s.len() && s[e + 1] == '+') {
        1
    } else if !(e + 2 < s.len() && s[e + 2] == ' ') {
        2
    } else if !(e + 3 < s.len() && s[e + 3] == '"') {
        3
    } else {
        4
    }
}

/// The marker by which a call splice is known: what follows its opening quote.
pub open spec fn splice_marker() -> Seq<char> {
    " + __component_"@
}

/// The end of the call expression in which position `p` lies: the position
/// after the first argument list from `p` on that the full resumption
/// sequence follows, or -1 where there is none.
pub open spec fn call_close(s: Seq<char>, p: int) -> int
    decreases s.len() - p,
{
    if p < 0 || p >= s.len() {
        -1
    } else {
        let j = next_char(s, '(', p);
        let e = paren_end(s, j + 1, 1);
        let n = resume_len(s, e);
        if !(p <= j < s.len() && j < e && e + n <= s.len()) {
            -1
        } else if n == 4 {
            e
        } else {
            call_close(s, e + n)
        }
    }
}

/// The pieces of the escaped form of `s` from position `i` on.
///
/// A quote followed by the splice marker opens a call splice: the expression
/// begins behind the quote, the space, the plus sign and the space, and runs
/// to the end that `call_close` gives; where the call is never closed, the
/// rest of the line is kept as it is. Everything else is escaped character
/// by character, and its interpolations become splices.
pub open spec fn pieces_from(s: Seq<char>, i: int) -> Seq<Piece>
    decreases s.len() - i,
{
    if i < 0 || i >= s.len() {
        Seq::empty()
    } else if s[i] == '"' && match_at(s, i + 1, splice_marker()) {
        let e = call_close(s, i + 1);
        if i + 4 <= e && e + 4 <= s.len() {
            seq![Piece::Splice(s.subrange(i + 4, e))] + pieces_from(s, e + 4)
        } else {
            seq![Piece::Text(s.subrange(i, s.len() as int))]
        }
    } else {
        let (piece, next) = markup_step(s, i);
        if i < next {
            seq![piece] + pieces_from(s, next)
        } else {
            seq![piece]
        }
    }
}

/// No piece of text is empty, and a piece of text ends with a quote only
/// where it is the escaped form of a quote in the markup or the rest of a
/// line whose call splice is never closed.
pub proof fn lemma_text_pieces(s: Seq<char>, i: int, m: int)
    requires
        0 <= i,
        0 <= m < pieces_from(s, i).len(),
    ensures
        pieces_from(s, i)[m] matches Piece::Text(t) ==> t.len() > 0 && (t.last() == '"' ==> t
            == seq!['\\', '"'] || exists|p: int|
            0 <= p < s.len() && t == #[trigger] s.subrange(p, s.len() as int)),
    decreases s.len() - i,
{
    if i < s.len() {
        if s[i] == '"' && match_at(s, i + 1, splice_marker()) {
            let e = call_close(s, i + 1);
            if i + 4 <= e && e + 4 <= s.len() {
                if m > 0 {
                    lemma_text_pieces(s, e + 4, m - 1);
                }
            } else {
                assert(pieces_from(s, i)[m] == Piece::Text(s.subrange(i, s.len() as int)));
            }
        } else {
            let (piece, next) = markup_step(s, i);
            if m > 0 {
                lemma_text_pieces(s, next, m - 1);
            } else {
                lemma_text_piece(s, i);
            }
        }
    }
}

/// The pieces of the escaped form of a line of markup.
pub open spec fn pieces(s: Seq<char>) -> Seq<Piece> {
    pieces_from(s, 0)
}

/// The text of a piece inside a string literal: text as it is, an
/// expression between a closing and an opening quote.
pub open spec fn piece_text(p: Piece) -> Seq<char> {
    match p {
        Piece::Text(t) => t,
        Piece::Splice(e) => raw_splice(e),
    }
}

/// The text of the first `n` pieces, one after the other.
pub open spec fn render(ps: Seq<Piece>, n: nat) -> Seq<char>
    decreases n,
{
    if n == 0 || n > ps.len() {
        Seq::empty()
    } else {
        render(ps, (n - 1) as nat) + piece_text(ps[n - 1])
    }
}

/// The escaped form of a line of markup, fit for the inside of a string
/// literal of the target language.
pub open spec fn escape_line(s: Seq<char>) -> Seq<char> {
    render(pieces(s), pieces(s).len())
}

/// The number of pieces up to and with the last piece of text among the
/// first `n`; behind it stand splices only.
pub open spec fn text_end(ps: Seq<Piece>, n: nat) -> nat
    decreases n,
{
    if n == 0 || n > ps.len() {
        0
    } else if ps[n - 1] is Text {
        n
    } else {
        text_end(ps, (n - 1) as nat)
    }
}

/// What a piece splices in.
pub open spec fn piece_expr(p: Piece) -> Seq<char> {
    match p {
        Piece::Text(t) => t,
        Piece::Splice(e) => e,
    }
}

/// The expressions of the pieces from position `from` on.
pub open spec fn trailing_exprs(ps: Seq<Piece>, from: int) -> Seq<Seq<char>> {
    Seq::new((ps.len() - from) as nat, |i: int| piece_expr(ps[from + i]))
}

/// What opens a statement that begins with a string literal.
pub open spec fn open_literal(first: bool) -> Seq<char> {
    if first {
        "string html = \""@
    } else {
        "html = html + \""@
    }
}

/// What opens a statement that begins with an expression.
pub open spec fn open_expr(first: bool) -> Seq<char> {
    if first {
        "string html = "@
    } else {
        "html = html + "@
    }
}

/// The statement that holds the text of a line: the pieces up to the last
/// piece of text, in a literal that one quote closes.
pub open spec fn text_statement(ps: Seq<Piece>, first: bool) -> Seq<char> {
    open_literal(first) + render(ps, text_end(ps, ps.len())) + seq!['"']
}

/// An expression as it stands at the head of a statement: in parentheses
/// where it begins with a quote, so that the statement does not open with a
/// literal.
pub open spec fn guarded(e: Seq<char>) -> Seq<char> {
    if e.len() > 0 && e[0] == '"' {
        seq!['('] + e + seq![')']
    } else {
        e
    }
}

/// The statement that holds the splices at the end of a line, joined by plus
/// signs.
pub open spec fn expr_statement(ps: Seq<Piece>, first: bool) -> Seq<char> {
    open_expr(first) + guarded(join(trailing_exprs(ps, text_end(ps, ps.len()) as int), " + "@))
}

/// A statement of splices does not open with a string literal.
pub proof fn lemma_expr_statement_opening(ps: Seq<Piece>, first: bool)
    ensures
        !starts_with(expr_statement(ps, first), open_literal(true)),
        !starts_with(expr_statement(ps, first), open_literal(false)),
{
    reveal_strlit("string html = \"");
    reveal_strlit("html = html + \"");
    reveal_strlit("string html = ");
    reveal_strlit("html = html + ");
    let st = expr_statement(ps, first);
    let body = guarded(join(trailing_exprs(ps, text_end(ps, ps.len()) as int), " + "@));
    assert(body.len() > 0 ==> body[0] != '"');
    assert(st.len() > 0 && st[0] == open_expr(first)[0]);
    if starts_with(st, open_literal(true)) {
        assert(st.subrange(0, 15)[0] == 's');
        assert(first);
        assert(st.subrange(0, 15)[14] == '"');
        assert(st[14] == body[0]);
    }
    if starts_with(st, open_literal(false)) {
        assert(st.subrange(0, 15)[0] == 'h');
        assert(!first);
        assert(st.subrange(0, 15)[14] == '"');
        assert(st[14] == body[0]);
    }
}

/// The statements that one line of markup becomes, where `first` says
/// whether they are the first of all.
///
/// The pieces up to the last piece of text make one statement, whose literal
/// is closed by one quote. The splices behind that text, if there are any,
/// make a statement of their own, so that no statement ends in an empty
/// literal.
pub open spec fn line_statements(ps: Seq<Piece>, first: bool) -> Seq<Seq<char>> {
    let k = text_end(ps, ps.len());
    let head = if k > 0 {
        seq![text_statement(ps, first)]
    } else {
        Seq::empty()
    };
    let tail = if k < ps.len() {
        seq![expr_statement(ps, first && k == 0)]
    } else {
        Seq::empty()
    };
    head + tail
}

/// The last piece of text among the first `n` pieces is a piece of text, and
/// splices only stand behind it.
pub proof fn lemma_text_end(ps: Seq<Piece>, n: nat)
    requires
        n <= ps.len(),
    ensures
        text_end(ps, n) <= n,
        text_end(ps, n) > 0 ==> ps[text_end(ps, n) - 1] is Text,
        forall|k: int| text_end(ps, n) <= k < n ==> (#[trigger] ps[k]) is Splice,
    decreases n,
{
    if n > 0 && !(ps[n - 1] is Text) {
        lemma_text_end(ps, (n - 1) as nat);
    }
}

/// A line of markup that is not empty has pieces, and a line with pieces
/// opens at least one statement of its own.
pub proof fn lemma_line_opens_a_statement(s: Seq<char>, first: bool)
    requires
        s.len() > 0,
    ensures
        pieces(s).len() >= 1,
        line_statements(pieces(s), first).len() >= 1,
{
    lemma_text_end(pieces(s), pieces(s).len());
}

/// Whether a statement ends with exactly one quote: its last character is a
/// quote and the character before it is none.
pub open spec fn ends_in_one_quote(st: Seq<char>) -> bool {
    st.len() >= 2 && st.last() == '"' && st[st.len() - 2] != '"'
}

/// Whether the text of a line can be closed by one quote: its last piece of
/// text, where it has one, is not empty and does not end with a quote.
pub open spec fn closes_cleanly(ps: Seq<Piece>) -> bool {
    text_end(ps, ps.len()) > 0 ==> (ps[text_end(ps, ps.len()) - 1] matches Piece::Text(t) && t.len()
        > 0 && t.last() != '"')
}

/// The statement that holds the text of a line ends with exactly one quote,
/// where the text can be closed by one.
pub proof fn lemma_one_trailing_quote(ps: Seq<Piece>, first: bool)
    requires
        text_end(ps, ps.len()) > 0,
        closes_cleanly(ps),
    ensures
        ends_in_one_quote(text_statement(ps, first)),
{
    lemma_text_end(ps, ps.len());
    let k = text_end(ps, ps.len());
    let body = render(ps, k);
    assert(body == render(ps, (k - 1) as nat) + piece_text(ps[k - 1]));
    assert(body.len() > 0 && body.last() != '"');
    let st = open_literal(first) + body + seq!['"'];
    assert(st[st.len() - 2] == body.last());
}

/// Every statement of a line whose text can be closed by one quote either
/// ends with exactly one quote or is the statement of the splices at the
/// line's end.
pub proof fn lemma_line_statements_closed(ps: Seq<Piece>, first: bool, m: int)
    requires
        closes_cleanly(ps),
        0 <= m < line_statements(ps, first).len(),
    ensures
        ends_in_one_quote(line_statements(ps, first)[m]) || line_statements(ps, first)[m]
            == expr_statement(ps, first && text_end(ps, ps.len()) == 0),
{
    if text_end(ps, ps.len()) > 0 {
        lemma_one_trailing_quote(ps, first);
    }
}

/// One piece of an escaped line, as the program holds it.
pub enum Part {
    Text(Vec<char>),
    Splice(Vec<char>),
}

impl View for Part {
    type V = Piece;

    open spec fn view(&self) -> Piece {
        match self {
            Part::Text(t) => Piece::Text(t@),
            Part::Splice(e) => Piece::Splice(e@),
        }
    }
}

/// The pieces that a vector of parts holds.
pub open spec fn part_views(v: Seq<Part>) -> Seq<Piece> {
    Seq::new(v.len(), |i: int| v[i]@)
}

/// Finds the closing marker from `from` on.
fn find_close(v: &Vec<char>, marker: &str, from: usize) -> (r: (usize, usize))
    requires
        from <= v.len(),
    ensures
        (r.0 as int, r.1 as int) == close_span(v@, marker@, from as int),
        from <= r.0 <= r.1 <= v.len(),
{
    let m = chars_of(marker);
    match find_at(v, &m, from) {
        Some(k) => (k, k + m.len()),
        None => (v.len(), v.len()),
    }
}

fn push_raw_splice(out: &mut Vec<char>, expr: &Vec<char>)
    ensures
        final(out)@ == old(out)@ + raw_splice(expr@),
{
    push_str(out, "\" + ");
    push_all(out, expr);
    push_str(out, " + \"");
    assert(out@ =~= old(out)@ + raw_splice(expr@));
}

fn two_chars(a: char, b: char) -> (r: Vec<char>)
    ensures
        r@ == seq![a, b],
{
    let mut r: Vec<char> = Vec::new();
    r.push(a);
    r.push(b);
    assert(r@ =~= seq![a, b]);
    r
}

fn markup_step_of(v: &Vec<char>, i: usize) -> (r: (Part, usize))
    requires
        i < v.len(),
    ensures
        r.0@ == markup_step(v@, i as int).0,
        r.1 == markup_step(v@, i as int).1,
        i < r.1 <= v.len(),
{
    let c = v[i];
    if c == '"' {
        (Part::Text(two_chars('\\', '"')), i + 1)
    } else if c == '\\' {
        (Part::Text(two_chars('\\', '\\')), i + 1)
    } else if c == '\t' {
        (Part::Text(two_chars('\\', 't')), i + 1)
    } else if c == '{' && i + 1 < v.len() && v[i + 1] == '{' {
        let (k, n) = find_close(v, "}}", i + 2);
        (Part::Splice(trim_of(&slice(v, i + 2, k))), n)
    } else if c == '{' {
        let raw = i + 1 < v.len() && v[i + 1] == '!';
        let start: usize = if raw { i + 2 } else { i + 1 };
        let k = scan_char(v, '}', start);
        if k < v.len() {
            let expr = trim_of(&slice(v, start, k));
            if raw {
                (Part::Splice(expr), k + 1)
            } else {
                let mut call: Vec<char> = Vec::new();
                push_str(&mut call, "__safe_html_escape(");
                push_all(&mut call, &expr);
                push_str(&mut call, ")");
                assert(call@ =~= safe_call(expr@));
                (Part::Splice(call), k + 1)
            }
        } else {
            (Part::Text(two_chars('\\', '{')), i + 1)
        }
    } else if c == '}' {
        (Part::Text(two_chars('\\', '}')), i + 1)
    } else {
        let mut t: Vec<char> = Vec::new();
        t.push(c);
        assert(t@ =~= seq![c]);
        (Part::Text(t), i + 1)
    }
}

fn scan_paren_end(v: &Vec<char>, from: usize) -> (e: usize)
    requires
        1 <= from <= v.len(),
    ensures
        e == paren_end(v@, from as int, 1),
        from <= e <= v.len(),
{
    let mut i: usize = from;
    let mut depth: usize = 1;
    while depth > 0 && i < v.len()
        invariant
            1 <= from <= i <= v.len(),
            depth <= i - from + 1,
            paren_end(v@, from as int, 1) == paren_end(v@, i as int, depth as nat),
        decreases v.len() - i,
    {
        let c = v[i];
        if c == '(' {
            depth += 1;
        } else if c == ')' {
            depth -= 1;
        }
        i += 1;
    }
    i
}

fn scan_resume(v: &Vec<char>, e: usize) -> (n: usize)
    requires
        e <= v.len(),
    ensures
        n == resume_len(v@, e as int),
        e + n <= v.len(),
{
    if !(e < v.len() && v[e] == ' ') {
        0
    } else if !(e + 1 < v.len() && v[e + 1] == '+') {
        1
    } else if !(e + 2 < v.len() && v[e + 2] == ' ') {
        2
    } else if !(e + 3 < v.len() && v[e + 3] == '"') {
        3
    } else {
        4
    }
}

fn find_call_close(v: &Vec<char>, p: usize) -> (r: Option<usize>)
    requires
        p <= v.len(),
    ensures
        match r {
            Some(e) => e == call_close(v@, p as int) && p < e && e + 4 <= v.len(),
            None => call_close(v@, p as int) == -1,
        },
{
    let mut q: usize = p;
    loop
        invariant
            p <= q <= v.len(),
            call_close(v@, q as int) == call_close(v@, p as int),
        decreases v.len() - q,
    {
        if q >= v.len() {
            return None;
        }
        let j = scan_char(v, '(', q);
        if j >= v.len() {
            return None;
        }
        let e = scan_paren_end(v, j + 1);
        let n = scan_resume(v, e);
        if n == 4 {
            return Some(e);
        }
        q = e + n;
    }
}

/// Cuts one line of markup into the pieces of its escaped form.
pub fn escape_parts(v: &Vec<char>) -> (out: Vec<Part>)
    ensures
        part_views(out@) == pieces(v@),
{
    let marker = chars_of(" + __component_");
    let mut out: Vec<Part> = Vec::new();
    let mut i: usize = 0;
    assert(part_views(out@) =~= Seq::<Piece>::empty());
    while i < v.len()
        invariant
            i <= v.len(),
            marker@ == splice_marker(),
            part_views(out@) + pieces_from(v@, i as int) == pieces_from(v@, 0),
        decreases v.len() - i,
    {
        let ghost before = part_views(out@);
        let ghost rest = pieces_from(v@, i as int);
        let mut next: usize = v.len();
        let mut part = Part::Text(Vec::new());
        let mut done = false;
        if v[i] == '"' && matches_at(v, i + 1, &marker) {
            match find_call_close(v, i + 1) {
                Some(e) => {
                    if i + 4 <= e {
                        part = Part::Splice(slice(v, i + 4, e));
                        next = e + 4;
                        done = true;
                    }
                },
                None => {},
            }
            if !done {
                part = Part::Text(slice(v, i, v.len()));
            }
        } else {
            let (p, n) = markup_step_of(v, i);
            part = p;
            next = n;
        }
        out.push(part);
        assert(part_views(out@) =~= before.push(part@));
        assert(part_views(out@) + pieces_from(v@, next as int) =~= before + rest);
        i = next;
    }
    assert(part_views(out@) + Seq::<Piece>::empty() =~= part_views(out@));
    out
}

/// Appends the text of the first `n` parts to `out`.
fn push_rendered(out: &mut Vec<char>, parts: &Vec<Part>, n: usize)
    requires
        n <= parts.len(),
    ensures
        final(out)@ == old(out)@ + render(part_views(parts@), n as nat),
{
    let mut i: usize = 0;
    assert(out@ =~= old(out)@ + Seq::<char>::empty());
    while i < n
        invariant
            i <= n <= parts.len(),
            out@ == old(out)@ + render(part_views(parts@), i as nat),
        decreases n - i,
    {
        assert(part_views(parts@)[i as int] == parts@[i as int]@);
        match &parts[i] {
            Part::Text(t) => {
                push_all(out, t);
            },
            Part::Splice(e) => {
                push_raw_splice(out, e);
            },
        }
        assert(out@ =~= old(out)@ + render(part_views(parts@), (i + 1) as nat));
        i += 1;
    }
}

/// Escapes one line of markup, character vector to character vector.
pub fn escape_line_chars(v: &Vec<char>) -> (out: Vec<char>)
    ensures
        out@ == escape_line(v@),
{
    let parts = escape_parts(v);
    let mut out: Vec<char> = Vec::new();
    push_rendered(&mut out, &parts, parts.len());
    assert(out@ =~= escape_line(v@));
    out
}

/// Makes the statements of one line of markup from its pieces.
pub fn line_statements_of(parts: &Vec<Part>, first: bool) -> (r: Vec<Vec<char>>)
    ensures
        views(r@) == line_statements(part_views(parts@), first),
{
    let ghost ps = part_views(parts@);
    let mut k: usize = parts.len();
    while k > 0 && matches!(parts[k - 1], Part::Splice(_))
        invariant
            k <= parts.len(),
            ps == part_views(parts@),
            text_end(ps, ps.len()) == text_end(ps, k as nat),
        decreases k,
    {
        assert(ps[k - 1] == parts@[k - 1]@);
        k -= 1;
    }
    assert(k > 0 ==> ps[k - 1] == parts@[k - 1]@);
    let mut r: Vec<Vec<char>> = Vec::new();
    assert(views(r@) =~= Seq::<Seq<char>>::empty());
    if k > 0 {
        let mut st: Vec<char> = Vec::new();
        if first {
            push_str(&mut st, "string html = \"");
        } else {
            push_str(&mut st, "html = html + \"");
        }
        push_rendered(&mut st, parts, k);
        st.push('"');
        assert(st@ =~= text_statement(ps, first));
        r.push(st);
        assert(views(r@) =~= seq![st@]);
    }
    if k < parts.len() {
        let mut exprs: Vec<Vec<char>> = Vec::new();
        let mut i: usize = k;
        assert(views(exprs@) =~= trailing_exprs(ps, k as int).take(0));
        while i < parts.len()
            invariant
                k <= i <= parts.len(),
                ps == part_views(parts@),
                views(exprs@) == trailing_exprs(ps, k as int).take(i - k),
            decreases parts.len() - i,
        {
            assert(ps[i as int] == parts@[i as int]@);
            let e = match &parts[i] {
                Part::Text(t) => slice(t, 0, t.len()),
                Part::Splice(e) => slice(e, 0, e.len()),
            };
            assert(e@ =~= piece_expr(ps[i as int]));
            let ghost before = views(exprs@);
            exprs.push(e);
            assert(views(exprs@) =~= before.push(e@));
            assert(views(exprs@) =~= trailing_exprs(ps, k as int).take(i + 1 - k));
            i += 1;
        }
        assert(trailing_exprs(ps, k as int).take(parts.len() - k) =~= trailing_exprs(ps, k as int));
        let mut st: Vec<char> = Vec::new();
        if first && k == 0 {
            push_str(&mut st, "string html = ");
        } else {
            push_str(&mut st, "html = html + ");
        }
        let joined = join_with(&exprs, " + ");
        if joined.len() > 0 && joined[0] == '"' {
            st.push('(');
            push_all(&mut st, &joined);
            st.push(')');
        } else {
            push_all(&mut st, &joined);
        }
        assert(st@ =~= expr_statement(ps, first && k == 0));
        let ghost before = views(r@);
        r.push(st);
        assert(views(r@) =~= before.push(st@));
    }
    assert(views(r@) =~= line_statements(ps, first));
    r
}

/// Escapes a single line of markup for embedding in a string literal of the
/// target language, with its interpolations made into splices.
pub fn escape_html_line(line: &str) -> (r: String)
    ensures
        r@ == escape_line(line@),
{
    let v = chars_of(line);
    let out = escape_line_chars(&v);
    string_of(&out)
}

/// Escapes markup in which component tags have been expanded: as
/// `escape_html_line` does, the call splices in it kept as they are.
pub fn escape_html_for_clean_with_calls(html: &str) -> (r: String)
    ensures
        r@ == escape_line(html@),
{
    let v = chars_of(html);
    let out = escape_line_chars(&v);
    string_of(&out)
}

/// What plain escaping makes of the character at position `i`, and the
/// position at which reading goes on: a quote, a backslash and a tab get a
/// backslash, `{{expr}}` becomes a raw splice of the expression as written,
/// and every other character stays.
pub open spec fn plain_step(s: Seq<char>, i: int) -> (Seq<char>, int)
    recommends
        0 <= i < s.len(),
{
    if s[i] == '"' {
        ("\\\""@, i + 1)
    } else if s[i] == '\\' {
        ("\\\\"@, i + 1)
    } else if s[i] == '\t' {
        ("\\t"@, i + 1)
    } else if s[i] == '{' && i + 1 < s.len() && s[i + 1] == '{' {
        let (k, next) = close_span(s, "}}"@, i + 2);
        (raw_splice(s.subrange(i + 2, k)), next)
    } else {
        (seq![s[i]], i + 1)
    }
}

fn plain_step_into(v: &Vec<char>, i: usize, out: &mut Vec<char>) -> (next: usize)
    requires
        i < v.len(),
    ensures
        final(out)@ == old(out)@ + plain_step(v@, i as int).0,
        next == plain_step(v@, i as int).1,
        i < next <= v.len(),
{
    let c = v[i];
    if c == '"' {
        push_str(out, "\\\"");
        i + 1
    } else if c == '\\' {
        push_str(out, "\\\\");
        i + 1
    } else if c == '\t' {
        push_str(out, "\\t");
        i + 1
    } else if c == '{' && i + 1 < v.len() && v[i + 1] == '{' {
        let (k, n) = find_close(v, "}}", i + 2);
        let inner = slice(v, i + 2, k);
        push_raw_splice(out, &inner);
        n
    } else {
        out.push(c);
        assert(out@ =~= old(out)@ + seq![c]);
        i + 1
    }
}

/// Plain escaping of `s` from position `i` on.
pub open spec fn escape_plain_from(s: Seq<char>, i: int) -> Seq<char>
    decreases s.len() - i,
{
    if i < 0 || i >= s.len() {
        Seq::empty()
    } else {
        let (piece, next) = plain_step(s, i);
        if i < next {
            piece + escape_plain_from(s, next)
        } else {
            piece
        }
    }
}

/// Escapes text for a string literal of the target language, without regard
/// to single braces and call splices: quotes, backslashes, tabs and the
/// double-brace interpolation only.
pub fn escape_html_for_clean(html: &str) -> (r: String)
    ensures
        r@ == escape_plain_from(html@, 0),
{
    let v = chars_of(html);
    let mut out: Vec<char> = Vec::new();
    let mut i: usize = 0;
    while i < v.len()
        invariant
            i <= v.len(),
            out@ + escape_plain_from(v@, i as int) == escape_plain_from(v@, 0),
        decreases v.len() - i,
    {
        let ghost before = out@;
        let next = plain_step_into(&v, i, &mut out);
        assert(out@ + escape_plain_from(v@, next as int) =~= before + escape_plain_from(
            v@,
            i as int,
        ));
        i = next;
    }
    assert(out@ + Seq::<char>::empty() =~= out@);
    string_of(&out)
}

/// Whether a character may stand in an identifier: a letter, a digit or an
/// underscore.
pub open spec fn is_identifier_char(c: char) -> bool {
    c == '_' || is_alnum(c)
}

/// `s` with each hyphen turned into an underscore, and without the
/// characters that are neither letters nor digits nor underscores.
pub open spec fn sanitized(s: Seq<char>) -> Seq<char>
    decreases s.len(),
{
    if s.len() == 0 {
        Seq::empty()
    } else {
        let c = s.last();
        if c == '-' {
            sanitized(s.drop_last()).push('_')
        } else if is_identifier_char(c) {
            sanitized(s.drop_last()).push(c)
        } else {
            sanitized(s.drop_last())
        }
    }
}

/// A sanitized name holds identifier characters only.
pub proof fn lemma_sanitized_chars(s: Seq<char>)
    ensures
        forall|k: int| 0 <= k < sanitized(s).len() ==> is_identifier_char(#[trigger] sanitized(s)[k]),
    decreases s.len(),
{
    if s.len() > 0 {
        lemma_sanitized_chars(s.drop_last());
        let before = sanitized(s.drop_last());
        assert forall|k: int| 0 <= k < sanitized(s).len() implies is_identifier_char(
            #[trigger] sanitized(s)[k],
        ) by {
            if k < before.len() {
                assert(sanitized(s)[k] == before[k]);
            }
        }
    }
}

/// Makes a name fit for an identifier, character vector to character vector.
pub fn sanitize_chars(v: &Vec<char>) -> (r: Vec<char>)
    ensures
        r@ == sanitized(v@),
{
    let mut r: Vec<char> = Vec::new();
    let mut i: usize = 0;
    assert(v@.take(0) =~= Seq::<char>::empty());
    while i < v.len()
        invariant
            i <= v.len(),
            r@ == sanitized(v@.take(i as int)),
        decreases v.len() - i,
    {
        let c = v[i];
        assert(v@.take(i + 1).drop_last() =~= v@.take(i as int));
        if c == '-' {
            r.push('_');
        } else if c == '_' || is_alnum_char(c) {
            r.push(c);
        }
        i += 1;
    }
    assert(v@.take(v.len() as int) =~= v@);
    r
}

/// Makes a name fit for an identifier of the target language.
pub fn sanitize_identifier(name: &str) -> (r: String)
    ensures
        r@ == sanitized(name@),
{
    let v = chars_of(name);
    string_of(&sanitize_chars(&v))
}

/// The call splice that stands for a component: a closing quote, the call
/// of its render function, and an opening quote.
pub open spec fn component_splice(class_name: Seq<char>) -> Seq<char> {
    "\" + __component_"@ + sanitized(class_name) + "_render() + \""@
}

/// The spelling `<tag></tag>`.
pub open spec fn tag_pair(tag: Seq<char>) -> Seq<char> {
    "<"@ + tag + "></"@ + tag + ">"@
}

/// The spelling `<tag />`.
pub open spec fn tag_spaced(tag: Seq<char>) -> Seq<char> {
    "<"@ + tag + " />"@
}

/// The spelling `<tag/>`.
pub open spec fn tag_short(tag: Seq<char>) -> Seq<char> {
    "<"@ + tag + "/>"@
}

/// The line `s` with the tags of one component expanded: every occurrence
/// of each of the three spellings becomes the component's call splice.
pub open spec fn expand_one(s: Seq<char>, tag: Seq<char>, class_name: Seq<char>) -> Seq<char> {
    let call = component_splice(class_name);
    replace(replace(replace(s, tag_pair(tag), call), tag_spaced(tag), call), tag_short(tag), call)
}

/// The line `s` with the tags of the first `n` components expanded, one
/// component after the other.
pub open spec fn expand_tags(s: Seq<char>, comps: Seq<Component>, n: nat) -> Seq<char>
    decreases n,
{
    if n == 0 || n > comps.len() {
        s
    } else {
        expand_one(expand_tags(s, comps, (n - 1) as nat), comps[n - 1].tag@, comps[n - 1].class_name@)
    }
}

/// The text that a line of markup becomes: component tags expanded into
/// call splices, then everything but those splices escaped.
pub open spec fn expand_line(s: Seq<char>, comps: Seq<Component>) -> Seq<char> {
    escape_line(expand_tags(s, comps, comps.len()))
}

/// A call splice holds no `<`, so no tag occurs in it.
pub proof fn lemma_splice_has_no_tag(class_name: Seq<char>)
    ensures
        forall|k: int|
            0 <= k < component_splice(class_name).len() ==> #[trigger] component_splice(
                class_name,
            )[k] != '<',
{
    reveal_strlit("\" + __component_");
    reveal_strlit("_render() + \"");
    let a = "\" + __component_"@;
    let b = "_render() + \""@;
    let m = sanitized(class_name);
    lemma_sanitized_chars(class_name);
    let call = component_splice(class_name);
    assert forall|k: int| 0 <= k < call.len() implies #[trigger] call[k] != '<' by {
        if k < a.len() {
            assert(call[k] == a[k]);
        } else if k < a.len() + m.len() {
            assert(call[k] == m[k - a.len()]);
            assert(is_identifier_char(m[k - a.len()]));
        } else {
            assert(call[k] == b[k - a.len() - m.len()]);
        }
    }
}

/// The three spellings of a component's empty tag expand to the same text:
/// the call splice of the component.
pub proof fn lemma_spellings_expand_alike(tag: Seq<char>, class_name: Seq<char>)
    ensures
        expand_one(tag_pair(tag), tag, class_name) == component_splice(class_name),
        expand_one(tag_spaced(tag), tag, class_name) == component_splice(class_name),
        expand_one(tag_short(tag), tag, class_name) == component_splice(class_name),
{
    reveal_strlit("<");
    reveal_strlit("></");
    reveal_strlit(">");
    reveal_strlit(" />");
    reveal_strlit("/>");
    let call = component_splice(class_name);
    let pair = tag_pair(tag);
    let spaced = tag_spaced(tag);
    let short = tag_short(tag);
    assert(pair.len() == 2 * tag.len() + 5);
    assert(spaced.len() == tag.len() + 4);
    assert(short.len() == tag.len() + 3);
    assert(pair[0] == '<' && spaced[0] == '<' && short[0] == '<');
    lemma_splice_has_no_tag(class_name);
    lemma_replace_whole(pair, call);
    lemma_replace_whole(spaced, call);
    lemma_replace_whole(short, call);
    lemma_replace_without_first(call, spaced, call, '<');
    lemma_replace_without_first(call, short, call, '<');
    lemma_replace_longer(spaced, pair, call);
    lemma_replace_longer(short, pair, call);
    lemma_replace_longer(short, spaced, call);
}

/// A line that holds nothing but the empty tag of the one component there
/// is becomes the same text in each of the three spellings.
pub proof fn lemma_spellings_give_one_line(c: Component)
    ensures
        expand_line(tag_pair(c.tag@), seq![c]) == expand_line(tag_spaced(c.tag@), seq![c]),
        expand_line(tag_pair(c.tag@), seq![c]) == expand_line(tag_short(c.tag@), seq![c]),
        expand_line(tag_pair(c.tag@), seq![c]) == escape_line(component_splice(c.class_name@)),
{
    lemma_spellings_expand_alike(c.tag@, c.class_name@);
    let comps = seq![c];
    assert(comps[0] == c);
    assert(forall|s: Seq<char>| #[trigger] expand_tags(s, comps, 0) == s);
    assert(forall|s: Seq<char>| #[trigger]
        expand_tags(s, comps, 1) == expand_one(expand_tags(s, comps, 0), c.tag@, c.class_name@));
}

fn expand_one_chars(v: Vec<char>, tag: &Vec<char>, class_name: &Vec<char>) -> (r: Vec<char>)
    ensures
        r@ == expand_one(v@, tag@, class_name@),
{
    let mut call: Vec<char> = Vec::new();
    push_str(&mut call, "\" + __component_");
    push_all(&mut call, &sanitize_chars(class_name));
    push_str(&mut call, "_render() + \"");
    assert(call@ =~= component_splice(class_name@));
    let mut pair: Vec<char> = Vec::new();
    push_str(&mut pair, "<");
    push_all(&mut pair, tag);
    push_str(&mut pair, "></");
    push_all(&mut pair, tag);
    push_str(&mut pair, ">");
    assert(pair@ =~= tag_pair(tag@));
    let mut spaced: Vec<char> = Vec::new();
    push_str(&mut spaced, "<");
    push_all(&mut spaced, tag);
    push_str(&mut spaced, " />");
    assert(spaced@ =~= tag_spaced(tag@));
    let mut short: Vec<char> = Vec::new();
    push_str(&mut short, "<");
    push_all(&mut short, tag);
    push_str(&mut short, "/>");
    assert(short@ =~= tag_short(tag@));
    let a = replace_all(&v, &pair, &call);
    let b = replace_all(&a, &spaced, &call);
    replace_all(&b, &short, &call)
}

/// The pieces that a line of markup becomes: component tags expanded into
/// call splices, then the line cut and escaped.
pub open spec fn expand_pieces(s: Seq<char>, comps: Seq<Component>) -> Seq<Piece> {
    pieces(expand_tags(s, comps, comps.len()))
}

/// Expands the component tags of a line, character vector to character
/// vector.
pub fn expand_tags_chars(line: &Vec<char>, components: &Vec<Component>) -> (cur: Vec<char>)
    ensures
        cur@ == expand_tags(line@, components@, components@.len()),
{
    let mut cur = slice(line, 0, line.len());
    assert(cur@ =~= line@);
    let mut i: usize = 0;
    while i < components.len()
        invariant
            i <= components.len(),
            cur@ == expand_tags(line@, components@, i as nat),
        decreases components.len() - i,
    {
        let tag = chars_of(components[i].tag.as_str());
        let class_name = chars_of(components[i].class_name.as_str());
        cur = expand_one_chars(cur, &tag, &class_name);
        i += 1;
    }
    cur
}

/// Expands one line of markup and cuts it into its pieces.
pub fn expand_parts(line: &Vec<char>, components: &Vec<Component>) -> (r: Vec<Part>)
    ensures
        part_views(r@) == expand_pieces(line@, components@),
{
    escape_parts(&expand_tags_chars(line, components))
}

/// Expands and escapes one line of markup, character vector to character
/// vector.
pub fn expand_line_chars(line: &Vec<char>, components: &Vec<Component>) -> (r: Vec<char>)
    ensures
        r@ == expand_line(line@, components@),
{
    escape_line_chars(&expand_tags_chars(line, components))
}

/// Expands the component tags of a line of markup into calls of the
/// components' render functions, and escapes the rest of the line.
pub fn expand_component_tags(line: &str, components: &Vec<Component>) -> (r: String)
    ensures
        r@ == expand_line(line@, components@),
{
    let v = chars_of(line);
    string_of(&expand_line_chars(&v, components))
}

} // verus!
