//! Reading a component's source: its properties, its helper functions and
//! the body of its render function.

use vstd::prelude::*;
use crate::text::{
    append_texts, strip_trailing, strip_trailing_of, chars_of, string_of, trim, trim_end, indent,
    starts_with, contains, views, lines, lines_of, trim_of, trim_end_of, indent_len,
    has_prefix_str, has_str, equals_str, push_all, strings_of, string_views, split, split_on,
    join, join_with,
};
use crate::escape::{
    pieces, line_statements, escape_parts, line_statements_of, closes_cleanly, ends_in_one_quote,
    expr_statement, text_end, lemma_line_statements_closed, lemma_expr_statement_opening,
    open_literal,
};

verus! {

/// The state of the scan for helper functions, between two lines.
pub ghost struct HelperState {
    /// The helpers that are complete.
    pub helpers: Seq<Seq<char>>,
    /// The text of the helper that is being read; empty where none is.
    pub current: Seq<char>,
    /// Whether the `component:` line has been seen.
    pub in_component: bool,
    pub component_indent: nat,
    /// Whether the last section header was `props:`, and is still open.
    pub in_props: bool,
    /// Whether the last section header was `html:`, and is still open.
    pub in_html: bool,
    pub section_indent: nat,
    pub helper_indent: nat,
    /// Whether the component block has ended.
    pub done: bool,
}

/// The state in which the helper scan begins.
pub open spec fn helper_start() -> HelperState {
    HelperState {
        helpers: Seq::empty(),
        current: Seq::empty(),
        in_component: false,
        component_indent: 0,
        in_props: false,
        in_html: false,
        section_indent: 0,
        helper_indent: 0,
        done: false,
    }
}

/// Closes the helper that is being read, without the white space at its end.
pub open spec fn helper_flush(st: HelperState) -> HelperState {
    if st.current.len() > 0 {
        HelperState { helpers: st.helpers.push(trim_end(st.current)), current: Seq::empty(), ..st }
    } else {
        st
    }
}

/// Whether the trimmed line `t` opens a function definition: a type keyword,
/// a space, and an opening parenthesis somewhere.
pub open spec fn is_function_head(t: Seq<char>) -> bool {
    (starts_with(t, "string "@) || starts_with(t, "integer "@) || starts_with(t, "number "@)
        || starts_with(t, "boolean "@) || starts_with(t, "void "@)) && contains(t, "("@)
}

/// `n` tab characters.
pub open spec fn tabs(n: nat) -> Seq<char> {
    Seq::new(n, |i: int| '\t')
}

/// The transition of the helper scan on one line.
pub open spec fn helper_step(st: HelperState, line: Seq<char>) -> HelperState {
    let t = trim(line);
    let ind = indent(line);
    if st.done {
        st
    } else if starts_with(t, "component:"@) {
        HelperState { in_component: true, component_indent: ind, ..st }
    } else if !st.in_component {
        st
    } else if t.len() > 0 && ind <= st.component_indent {
        HelperState { done: true, ..helper_flush(st) }
    } else if t == "props:"@ {
        HelperState { in_props: true, in_html: false, section_indent: ind, ..helper_flush(st) }
    } else if t == "html:"@ {
        HelperState { in_html: true, in_props: false, section_indent: ind, ..helper_flush(st) }
    } else if t.len() == 0 {
        if st.current.len() > 0 {
            HelperState { current: st.current.push('\n'), ..st }
        } else {
            st
        }
    } else if (st.in_props || st.in_html) && ind > st.section_indent {
        st
    } else {
        let open = HelperState { in_props: false, in_html: false, ..st };
        if is_function_head(t) {
            HelperState { helper_indent: ind, current: t.push('\n'), ..helper_flush(open) }
        } else if open.current.len() > 0 && ind > open.helper_indent {
            HelperState {
                current: open.current + tabs((ind - open.helper_indent) as nat) + t.push('\n'),
                ..open
            }
        } else {
            helper_flush(open)
        }
    }
}

/// The state of the helper scan after the first `n` lines.
pub open spec fn helper_run(ls: Seq<Seq<char>>, n: nat) -> HelperState
    decreases n,
{
    if n == 0 || n > ls.len() {
        helper_start()
    } else {
        helper_step(helper_run(ls, (n - 1) as nat), ls[n - 1])
    }
}

/// The helper functions of a component's source: each with its signature at
/// column zero and its body lines indented by as many tabs as they stood
/// deeper than the signature.
pub open spec fn component_helpers(content: Seq<char>) -> Seq<Seq<char>> {
    let ls = lines(content);
    helper_flush(helper_run(ls, ls.len())).helpers
}

/// The scan for helper functions as the program holds it.
pub struct HelperScan {
    pub helpers: Vec<Vec<char>>,
    pub current: Vec<char>,
    pub in_component: bool,
    pub component_indent: usize,
    pub in_props: bool,
    pub in_html: bool,
    pub section_indent: usize,
    pub helper_indent: usize,
    pub done: bool,
}

impl View for HelperScan {
    type V = HelperState;

    open spec fn view(&self) -> HelperState {
        HelperState {
            helpers: views(self.helpers@),
            current: self.current@,
            in_component: self.in_component,
            component_indent: self.component_indent as nat,
            in_props: self.in_props,
            in_html: self.in_html,
            section_indent: self.section_indent as nat,
            helper_indent: self.helper_indent as nat,
            done: self.done,
        }
    }
}

fn flush_helper(st: &mut HelperScan)
    ensures
        final(st)@ == helper_flush(old(st)@),
{
    if st.current.len() > 0 {
        let h = trim_end_of(&st.current);
        let ghost before = views(st.helpers@);
        st.helpers.push(h);
        st.current = Vec::new();
        assert(views(st.helpers@) =~= before.push(h@));
    }
}

fn is_function_head_line(t: &Vec<char>) -> (b: bool)
    ensures
        b == is_function_head(t@),
{
    (has_prefix_str(t, "string ") || has_prefix_str(t, "integer ") || has_prefix_str(t, "number ")
        || has_prefix_str(t, "boolean ") || has_prefix_str(t, "void ")) && has_str(t, "(")
}

/// Appends `n` tab characters to `out`.
pub fn push_tabs(out: &mut Vec<char>, n: usize)
    ensures
        final(out)@ == old(out)@ + tabs(n as nat),
{
    let mut i: usize = 0;
    while i < n
        invariant
            i <= n,
            out@ == old(out)@ + tabs(i as nat),
        decreases n - i,
    {
        out.push('\t');
        assert(out@ =~= old(out)@ + tabs((i + 1) as nat));
        i += 1;
    }
}

fn helper_advance(st: &mut HelperScan, line: &Vec<char>)
    ensures
        final(st)@ == helper_step(old(st)@, line@),
{
    let t = trim_of(line);
    let ind = indent_len(line);
    if st.done {
    } else if has_prefix_str(&t, "component:") {
        st.in_component = true;
        st.component_indent = ind;
    } else if !st.in_component {
    } else if t.len() > 0 && ind <= st.component_indent {
        flush_helper(st);
        st.done = true;
    } else if equals_str(&t, "props:") {
        flush_helper(st);
        st.in_props = true;
        st.in_html = false;
        st.section_indent = ind;
    } else if equals_str(&t, "html:") {
        flush_helper(st);
        st.in_html = true;
        st.in_props = false;
        st.section_indent = ind;
    } else if t.len() == 0 {
        if st.current.len() > 0 {
            st.current.push('\n');
        }
    } else if (st.in_props || st.in_html) && ind > st.section_indent {
    } else {
        st.in_props = false;
        st.in_html = false;
        if is_function_head_line(&t) {
            flush_helper(st);
            st.helper_indent = ind;
            let mut cur = t;
            cur.push('\n');
            st.current = cur;
        } else if st.current.len() > 0 && ind > st.helper_indent {
            push_tabs(&mut st.current, ind - st.helper_indent);
            push_all(&mut st.current, &t);
            st.current.push('\n');
            assert(st.current@ =~= old(st).current@ + tabs((ind - old(st).helper_indent) as nat)
                + t@.push('\n'));
        } else {
            flush_helper(st);
        }
    }
}

/// The helper functions of a component's source, as character vectors.
pub fn component_helpers_chars(content: &Vec<char>) -> (r: Vec<Vec<char>>)
    ensures
        views(r@) == component_helpers(content@),
{
    let ls = lines_of(content);
    let mut st = HelperScan {
        helpers: Vec::new(),
        current: Vec::new(),
        in_component: false,
        component_indent: 0,
        in_props: false,
        in_html: false,
        section_indent: 0,
        helper_indent: 0,
        done: false,
    };
    assert(st@.helpers =~= helper_start().helpers);
    let mut i: usize = 0;
    while i < ls.len()
        invariant
            i <= ls.len(),
            st@ == helper_run(views(ls@), i as nat),
        decreases ls.len() - i,
    {
        helper_advance(&mut st, &ls[i]);
        i += 1;
    }
    flush_helper(&mut st);
    st.helpers
}

/// Extracts the helper functions that a component's source defines beside
/// its `props:` and `html:` sections.
pub fn extract_component_helpers(content: &str) -> (r: Vec<String>)
    ensures
        string_views(r@) == component_helpers(content@),
{
    let v = chars_of(content);
    let hs = component_helpers_chars(&v);
    strings_of(&hs)
}



/// The kinds of indented block that a component's source holds.
#[derive(Clone, Copy, PartialEq, Eq, Debug)]
pub enum BlockKind {
    /// The properties, under a line that reads `props:`.
    Props,
    /// The markup, under a line that reads `html:`.
    Html,
    /// The body of the render function, under a line that holds
    /// `string render()`.
    Render,
}

/// Whether the trimmed line `t` opens a block of the kind `kind`.
pub open spec fn is_block_head(kind: BlockKind, t: Seq<char>) -> bool {
    match kind {
        BlockKind::Props => t == "props:"@,
        BlockKind::Html => t == "html:"@,
        BlockKind::Render => contains(t, "string render()"@),
    }
}

/// The state of the scan for one block, between two lines.
pub ghost struct BlockState {
    /// The trimmed lines of the block read so far.
    pub items: Seq<Seq<char>>,
    /// Whether the head of the block has been seen.
    pub inside: bool,
    /// The indentation of the head.
    pub base: nat,
    /// Whether the block has ended.
    pub done: bool,
}

/// The transition of the block scan on one line: a head opens the block and
/// sets the base; blank lines are passed over; a line that stands no deeper
/// than the head ends the block; every other line is kept, trimmed.
pub open spec fn block_step(kind: BlockKind, st: BlockState, line: Seq<char>) -> BlockState {
    let t = trim(line);
    if st.done {
        st
    } else if is_block_head(kind, t) {
        BlockState { inside: true, base: indent(line), ..st }
    } else if !st.inside || t.len() == 0 {
        st
    } else if indent(line) <= st.base {
        BlockState { done: true, ..st }
    } else {
        BlockState { items: st.items.push(t), ..st }
    }
}

/// The state of the block scan after the first `n` lines.
pub open spec fn block_run(kind: BlockKind, ls: Seq<Seq<char>>, n: nat) -> BlockState
    decreases n,
{
    if n == 0 || n > ls.len() {
        BlockState { items: Seq::empty(), inside: false, base: 0, done: false }
    } else {
        block_step(kind, block_run(kind, ls, (n - 1) as nat), ls[n - 1])
    }
}

/// The trimmed, non-blank lines of the first block of the kind `kind` in
/// `content`.
pub open spec fn block_lines(kind: BlockKind, content: Seq<char>) -> Seq<Seq<char>> {
    let ls = lines(content);
    block_run(kind, ls, ls.len()).items
}

fn is_block_head_line(kind: BlockKind, t: &Vec<char>) -> (b: bool)
    ensures
        b == is_block_head(kind, t@),
{
    match kind {
        BlockKind::Props => equals_str(t, "props:"),
        BlockKind::Html => equals_str(t, "html:"),
        BlockKind::Render => has_str(t, "string render()"),
    }
}

/// Reads the lines of the first block of the kind `kind`.
pub fn block_lines_chars(kind: BlockKind, content: &Vec<char>) -> (r: Vec<Vec<char>>)
    ensures
        views(r@) == block_lines(kind, content@),
{
    let ls = lines_of(content);
    let mut items: Vec<Vec<char>> = Vec::new();
    let mut inside = false;
    let mut base: usize = 0;
    let mut done = false;
    let mut i: usize = 0;
    assert(views(items@) =~= Seq::<Seq<char>>::empty());
    while i < ls.len()
        invariant
            i <= ls.len(),
            block_run(kind, views(ls@), i as nat) == (BlockState {
                items: views(items@),
                inside,
                base: base as nat,
                done,
            }),
        decreases ls.len() - i,
    {
        let line = &ls[i];
        let t = trim_of(line);
        let ind = indent_len(line);
        let ghost before = views(items@);
        if done {
        } else if is_block_head_line(kind, &t) {
            inside = true;
            base = ind;
        } else if !inside || t.len() == 0 {
        } else if ind <= base {
            done = true;
        } else {
            items.push(t);
            assert(views(items@) =~= before.push(t@));
        }
        i += 1;
    }
    items
}

/// One property, as the views of its type and its name.
pub open spec fn prop_view(p: (String, String)) -> (Seq<char>, Seq<char>) {
    (p.0@, p.1@)
}

/// The views of a list of properties.
pub open spec fn prop_views(ps: Seq<(String, String)>) -> Seq<(Seq<char>, Seq<char>)> {
    Seq::new(ps.len(), |i: int| prop_view(ps[i]))
}

/// The properties that the first `n` lines of a `props:` block declare: of
/// each line with a space in it, the word before the first space as the type
/// and the word after it, without `=` signs and white space at its end, as
/// the name.
pub open spec fn props_of_lines(ls: Seq<Seq<char>>, n: nat) -> Seq<(Seq<char>, Seq<char>)>
    decreases n,
{
    if n == 0 || n > ls.len() {
        Seq::empty()
    } else {
        let words = split(ls[n - 1], ' ');
        let before = props_of_lines(ls, (n - 1) as nat);
        if words.len() >= 2 {
            before.push((words[0], trim(strip_trailing(words[1], '='))))
        } else {
            before
        }
    }
}

/// The properties of a component, in the order in which it declares them.
pub open spec fn component_props(content: Seq<char>) -> Seq<(Seq<char>, Seq<char>)> {
    let ls = block_lines(BlockKind::Props, content);
    props_of_lines(ls, ls.len())
}

/// Extracts the properties of a component from the `props:` block of its
/// source, as pairs of type and name.
pub fn extract_component_props(content: &str) -> (r: Vec<(String, String)>)
    ensures
        prop_views(r@) == component_props(content@),
{
    let v = chars_of(content);
    let ls = block_lines_chars(BlockKind::Props, &v);
    let mut r: Vec<(String, String)> = Vec::new();
    let mut i: usize = 0;
    assert(prop_views(r@) =~= Seq::<(Seq<char>, Seq<char>)>::empty());
    while i < ls.len()
        invariant
            i <= ls.len(),
            prop_views(r@) == props_of_lines(views(ls@), i as nat),
        decreases ls.len() - i,
    {
        let words = split_on(&ls[i], ' ');
        if words.len() >= 2 {
            let ty = string_of(&words[0]);
            let stripped = strip_trailing_of(&words[1], '=');
            let name = string_of(&trim_of(&stripped));
            let ghost before = prop_views(r@);
            assert(views(words@)[0] == words@[0]@);
            assert(views(words@)[1] == words@[1]@);
            r.push((ty, name));
            assert(prop_views(r@) =~= before.push((ty@, name@)));
        }
        i += 1;
    }
    r
}

/// The lines of `ls`, each followed by a line feed, one after the other.
pub open spec fn stack(ls: Seq<Seq<char>>) -> Seq<char>
    decreases ls.len(),
{
    if ls.len() == 0 {
        Seq::empty()
    } else {
        stack(ls.drop_last()) + ls.last().push('\n')
    }
}

/// Appends each line of `ls`, followed by a line feed, to `out`.
pub fn push_stack(out: &mut Vec<char>, ls: &Vec<Vec<char>>)
    ensures
        final(out)@ == old(out)@ + stack(views(ls@)),
{
    let mut i: usize = 0;
    assert(stack(views(ls@).take(0)) =~= Seq::<char>::empty());
    assert(out@ =~= old(out)@ + Seq::<char>::empty());
    while i < ls.len()
        invariant
            i <= ls.len(),
            out@ == old(out)@ + stack(views(ls@).take(i as int)),
        decreases ls.len() - i,
    {
        push_all(out, &ls[i]);
        out.push('\n');
        proof {
            let t = views(ls@).take(i + 1);
            assert(t.drop_last() =~= views(ls@).take(i as int));
            assert(t.last() == ls@[i as int]@);
            assert(out@ =~= old(out)@ + stack(t));
        }
        i += 1;
    }
    assert(views(ls@).take(ls.len() as int) =~= views(ls@));
}

/// The statements that the first `n` lines of markup become: each line
/// opens a statement of its own, and the first statement of all declares the
/// string.
pub open spec fn markup_statements(ls: Seq<Seq<char>>, n: nat) -> Seq<Seq<char>>
    decreases n,
{
    if n == 0 || n > ls.len() {
        Seq::empty()
    } else {
        let before = markup_statements(ls, (n - 1) as nat);
        before + line_statements(pieces(ls[n - 1]), before.len() == 0)
    }
}

/// The statements that build a string from the markup lines `ls`, and the
/// statement that returns it.
pub open spec fn html_statements(ls: Seq<Seq<char>>) -> Seq<Seq<char>> {
    markup_statements(ls, ls.len()).push("return html"@)
}

/// Where the text of each of the first `n` lines can be closed by one quote,
/// every statement made of them either ends with exactly one quote or holds
/// only the splices at the end of one of the lines, and then does not open
/// with a string literal.
pub proof fn lemma_markup_statements_closed(ls: Seq<Seq<char>>, n: nat, i: int)
    requires
        n <= ls.len(),
        forall|j: int| 0 <= j < n ==> closes_cleanly(#[trigger] pieces(ls[j])),
        0 <= i < markup_statements(ls, n).len(),
    ensures
        ends_in_one_quote(markup_statements(ls, n)[i]) || exists|j: int, first: bool|
            0 <= j < n && markup_statements(ls, n)[i] == #[trigger] expr_statement(
                pieces(ls[j]),
                first,
            ),
        ends_in_one_quote(markup_statements(ls, n)[i]) || (!starts_with(
            markup_statements(ls, n)[i],
            open_literal(true),
        ) && !starts_with(markup_statements(ls, n)[i], open_literal(false))),
    decreases n,
{
    let before = markup_statements(ls, (n - 1) as nat);
    if i < before.len() {
        lemma_markup_statements_closed(ls, (n - 1) as nat, i);
        if !ends_in_one_quote(before[i]) {
            let (j, first) = choose|j: int, first: bool|
                0 <= j < n - 1 && before[i] == #[trigger] expr_statement(pieces(ls[j]), first);
            assert(markup_statements(ls, n)[i] == expr_statement(pieces(ls[j]), first));
        }
    } else {
        let ps = pieces(ls[n - 1]);
        let first = before.len() == 0;
        assert(closes_cleanly(ps));
        lemma_line_statements_closed(ps, first, i - before.len());
        let st = line_statements(ps, first)[i - before.len()];
        assert(markup_statements(ls, n)[i] == st);
        if !ends_in_one_quote(st) {
            assert(st == expr_statement(ps, first && text_end(ps, ps.len()) == 0));
            lemma_expr_statement_opening(ps, first && text_end(ps, ps.len()) == 0);
        }
    }
}

/// The statements of a markup block end with the statement that returns the
/// string, and every one before it is as `lemma_markup_statements_closed`
/// says.
pub proof fn lemma_html_statements(ls: Seq<Seq<char>>)
    ensures
        html_statements(ls).last() == "return html"@,
        html_statements(ls).drop_last() == markup_statements(ls, ls.len()),
{
    assert(html_statements(ls).drop_last() =~= markup_statements(ls, ls.len()));
}

/// The render body of a component: the trimmed lines of its render function
/// where it has one; else the statements made from its markup block; else a
/// single statement that returns the empty string.
pub open spec fn component_render_body(content: Seq<char>) -> Seq<char> {
    let body = stack(block_lines(BlockKind::Render, content));
    let html = block_lines(BlockKind::Html, content);
    if body.len() > 0 {
        trim_end(body)
    } else if html.len() > 0 {
        join(html_statements(html), "\n"@)
    } else {
        "return \"\""@
    }
}

/// The render body of a component's source, as a character vector.
pub fn component_render_body_chars(content: &Vec<char>) -> (r: Vec<char>)
    ensures
        r@ == component_render_body(content@),
{
    let rl = block_lines_chars(BlockKind::Render, content);
    let mut body: Vec<char> = Vec::new();
    push_stack(&mut body, &rl);
    assert(body@ =~= stack(views(rl@)));
    if body.len() > 0 {
        return trim_end_of(&body);
    }
    let html = block_lines_chars(BlockKind::Html, content);
    if html.len() == 0 {
        return chars_of("return \"\"");
    }
    let mut stmts: Vec<Vec<char>> = Vec::new();
    let mut i: usize = 0;
    assert(views(stmts@) =~= markup_statements(views(html@), 0));
    while i < html.len()
        invariant
            i <= html.len(),
            views(stmts@) == markup_statements(views(html@), i as nat),
        decreases html.len() - i,
    {
        let parts = escape_parts(&html[i]);
        let own = line_statements_of(&parts, stmts.len() == 0);
        append_texts(&mut stmts, own);
        i += 1;
    }
    let last = chars_of("return html");
    let ghost before = views(stmts@);
    stmts.push(last);
    assert(views(stmts@) =~= before.push(last@));
    join_with(&stmts, "\n")
}

/// Extracts the body of a component's render function from its source.
pub fn extract_component_render_body(content: &str) -> (r: String)
    ensures
        r@ == component_render_body(content@),
{
    let v = chars_of(content);
    let b = component_render_body_chars(&v);
    string_of(&b)
}

} // verus!
