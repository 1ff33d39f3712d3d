//! Reading a page's source and compiling its markup: the data block, the
//! layout directive, the markup lines, the layout slot, and the statements
//! that build the page's text.

use vstd::prelude::*;
use crate::text::{
    append_texts,
    chars_of, string_of, trim, starts_with, ends_with, contains, views, lines, lines_of, trim_of,
    has_prefix_str, has_suffix_str, has_str, equals_str, push_all, push_str, strings_of,
    string_views, texts_of, slice, join, join_with, find_from, next_char, find_str, scan_char,
    equals,
};
use crate::escape::{
    expand_pieces, expand_parts, line_statements, line_statements_of, closes_cleanly,
    ends_in_one_quote, expr_statement, text_end, lemma_line_statements_closed,
    lemma_expr_statement_opening, open_literal,
};
use crate::component::{stack, push_stack};
use crate::discovery::{Component, Layout};

verus! {

/// Whether the trimmed line `t` opens an embedded data block.
pub open spec fn opens_script(t: Seq<char>) -> bool {
    contains(t, "<script type=\"text/clean\">"@) || contains(t, "<script type='text/clean'>"@)
}

/// Whether the trimmed line `t` closes an embedded data block.
pub open spec fn closes_script(t: Seq<char>) -> bool {
    contains(t, "</script>"@)
}

/// Whether the trimmed line `t` of a data block is a statement to keep:
/// neither blank nor the block's own keyword.
pub open spec fn is_data_statement(t: Seq<char>) -> bool {
    !starts_with(t, "data:"@) && t.len() > 0
}

/// Whether the trimmed line `t` is a page directive.
pub open spec fn is_page_directive(t: Seq<char>) -> bool {
    starts_with(t, "<page "@) && ends_with(t, ">"@)
}

/// Whether the trimmed line `t` is a markup comment that fills the line.
pub open spec fn is_comment(t: Seq<char>) -> bool {
    starts_with(t, "<!--"@) && ends_with(t, "-->"@)
}

fn opens_script_line(t: &Vec<char>) -> (b: bool)
    ensures
        b == opens_script(t@),
{
    has_str(t, "<script type=\"text/clean\">") || has_str(t, "<script type='text/clean'>")
}

fn closes_script_line(t: &Vec<char>) -> (b: bool)
    ensures
        b == closes_script(t@),
{
    has_str(t, "</script>")
}

fn is_data_statement_line(t: &Vec<char>) -> (b: bool)
    ensures
        b == is_data_statement(t@),
{
    !has_prefix_str(t, "data:") && t.len() > 0
}

fn is_page_directive_line(t: &Vec<char>) -> (b: bool)
    ensures
        b == is_page_directive(t@),
{
    has_prefix_str(t, "<page ") && has_suffix_str(t, ">")
}

fn is_comment_line(t: &Vec<char>) -> (b: bool)
    ensures
        b == is_comment(t@),
{
    has_prefix_str(t, "<!--") && has_suffix_str(t, "-->")
}

/// The state of the scan for the first data block, between two lines.
pub ghost struct DataState {
    pub data: Seq<char>,
    pub in_script: bool,
    pub done: bool,
}

/// The transition of that scan: the opening line starts the block, the
/// closing line ends the scan, and each statement between them is kept,
/// trimmed and followed by a line feed.
pub open spec fn data_step(st: DataState, line: Seq<char>) -> DataState {
    let t = trim(line);
    if st.done {
        st
    } else if opens_script(t) {
        DataState { in_script: true, ..st }
    } else if !st.in_script {
        st
    } else if closes_script(t) {
        DataState { done: true, ..st }
    } else if is_data_statement(t) {
        DataState { data: st.data + t.push('\n'), ..st }
    } else {
        st
    }
}

/// The state of the data-block scan after the first `n` lines.
pub open spec fn data_run(ls: Seq<Seq<char>>, n: nat) -> DataState
    decreases n,
{
    if n == 0 || n > ls.len() {
        DataState { data: Seq::empty(), in_script: false, done: false }
    } else {
        data_step(data_run(ls, (n - 1) as nat), ls[n - 1])
    }
}

/// The statements of the first data block of a page.
pub open spec fn page_data_block(content: Seq<char>) -> Seq<char> {
    let ls = lines(content);
    data_run(ls, ls.len()).data
}

/// Extracts the statements of a page's data block, character vector to
/// character vector.
pub fn page_data_block_chars(content: &Vec<char>) -> (r: Vec<char>)
    ensures
        r@ == page_data_block(content@),
{
    let ls = lines_of(content);
    let mut data: Vec<char> = Vec::new();
    let mut in_script = false;
    let mut done = false;
    let mut i: usize = 0;
    while i < ls.len()
        invariant
            i <= ls.len(),
            data_run(views(ls@), i as nat) == (DataState { data: data@, in_script, done }),
        decreases ls.len() - i,
    {
        let t = trim_of(&ls[i]);
        let ghost before = data@;
        if done {
        } else if opens_script_line(&t) {
            in_script = true;
        } else if !in_script {
        } else if closes_script_line(&t) {
            done = true;
        } else if is_data_statement_line(&t) {
            push_all(&mut data, &t);
            data.push('\n');
            assert(data@ =~= before + t@.push('\n'));
        }
        i += 1;
    }
    data
}

/// Extracts the statements of a page's embedded data block.
pub fn extract_page_data_block(content: &str) -> (r: String)
    ensures
        r@ == page_data_block(content@),
{
    let v = chars_of(content);
    string_of(&page_data_block_chars(&v))
}

/// The value of the attribute that `key` opens in `t` and that `quote`
/// closes, where both occur.
pub open spec fn attr_value(t: Seq<char>, key: Seq<char>, quote: char) -> Option<Seq<char>> {
    let k = find_from(t, key, 0);
    if 0 <= k && k + key.len() <= t.len() {
        let start = k + key.len();
        let e = next_char(t, quote, start);
        if start <= e < t.len() {
            Some(t.subrange(start, e))
        } else {
            None
        }
    } else {
        None
    }
}

/// The layout that one line names: on a page directive, the value of its
/// `layout` attribute, in double quotes or else in single quotes.
pub open spec fn layout_in_line(line: Seq<char>) -> Option<Seq<char>> {
    let t = trim(line);
    if !starts_with(t, "<page "@) {
        None
    } else if attr_value(t, "layout=\""@, '"') is Some {
        attr_value(t, "layout=\""@, '"')
    } else {
        attr_value(t, "layout='"@, '\'')
    }
}

/// The layout that the first line from `i` on names that names one.
pub open spec fn layout_from(ls: Seq<Seq<char>>, i: int) -> Option<Seq<char>>
    decreases ls.len() - i,
{
    if i < 0 || i >= ls.len() {
        None
    } else if layout_in_line(ls[i]) is Some {
        layout_in_line(ls[i])
    } else {
        layout_from(ls, i + 1)
    }
}

/// The layout that a page asks for, where it asks for one.
pub open spec fn page_layout(content: Seq<char>) -> Option<Seq<char>> {
    layout_from(lines(content), 0)
}

fn attr_value_of(t: &Vec<char>, key: &str, quote: char) -> (r: Option<Vec<char>>)
    ensures
        r is Some == attr_value(t@, key@, quote) is Some,
        r matches Some(v) ==> attr_value(t@, key@, quote) == Some(v@),
{
    match find_str(t, key) {
        Some(k) => {
            let klen = chars_of(key).len();
            let start = k + klen;
            let e = scan_char(t, quote, start);
            if e < t.len() {
                Some(slice(t, start, e))
            } else {
                None
            }
        },
        None => None,
    }
}

fn layout_in_line_of(line: &Vec<char>) -> (r: Option<Vec<char>>)
    ensures
        r is Some == layout_in_line(line@) is Some,
        r matches Some(v) ==> layout_in_line(line@) == Some(v@),
{
    let t = trim_of(line);
    if !has_prefix_str(&t, "<page ") {
        return None;
    }
    match attr_value_of(&t, "layout=\"", '"') {
        Some(v) => Some(v),
        None => attr_value_of(&t, "layout='", '\''),
    }
}

/// Extracts the layout name from a page's directive line.
pub fn extract_page_layout(content: &str) -> (r: Option<String>)
    ensures
        r is Some == page_layout(content@) is Some,
        r matches Some(name) ==> page_layout(content@) == Some(name@),
{
    let v = chars_of(content);
    let ls = lines_of(&v);
    let mut i: usize = 0;
    while i < ls.len()
        invariant
            i <= ls.len(),
            views(ls@) == lines(content@),
            layout_from(views(ls@), i as int) == layout_from(views(ls@), 0),
        decreases ls.len() - i,
    {
        assert(views(ls@)[i as int] == ls@[i as int]@);
        match layout_in_line_of(&ls[i]) {
            Some(name) => {
                return Some(string_of(&name));
            },
            None => {},
        }
        i += 1;
    }
    None
}

/// The position of the first layout from `i` on whose name is `name`, or the
/// number of layouts where none has it.
pub open spec fn layout_index(layouts: Seq<Layout>, name: Seq<char>, i: int) -> int
    decreases layouts.len() - i,
{
    if i < 0 || i >= layouts.len() {
        layouts.len() as int
    } else if layouts[i].name@ == name {
        i
    } else {
        layout_index(layouts, name, i + 1)
    }
}

/// Finds the position of the first layout with the given name.
pub fn find_layout_at(layouts: &Vec<Layout>, name: &Vec<char>) -> (r: Option<usize>)
    ensures
        match r {
            Some(k) => k == layout_index(layouts@, name@, 0) && k < layouts.len(),
            None => layout_index(layouts@, name@, 0) == layouts.len(),
        },
{
    let mut i: usize = 0;
    while i < layouts.len()
        invariant
            i <= layouts.len(),
            layout_index(layouts@, name@, i as int) == layout_index(layouts@, name@, 0),
        decreases layouts.len() - i,
    {
        let n = chars_of(layouts[i].name.as_str());
        if equals(&n, name) {
            return Some(i);
        }
        i += 1;
    }
    None
}

/// Finds the first layout with the given name.
pub fn find_layout<'a>(layouts: &'a Vec<Layout>, name: &str) -> (r: Option<&'a Layout>)
    ensures
        match r {
            Some(l) => layout_index(layouts@, name@, 0) < layouts.len() && *l == layouts@[layout_index(
                layouts@,
                name@,
                0,
            )],
            None => layout_index(layouts@, name@, 0) == layouts.len(),
        },
{
    let wanted = chars_of(name);
    match find_layout_at(layouts, &wanted) {
        Some(k) => Some(&layouts[k]),
        None => None,
    }
}

/// The state of the scan for a page's markup lines, between two lines.
pub ghost struct MarkupState {
    pub kept: Seq<Seq<char>>,
    pub in_script: bool,
}

/// The transition of that scan: data blocks and page directives are left
/// out, and so are blank lines before the first line that is kept.
pub open spec fn markup_step(st: MarkupState, line: Seq<char>) -> MarkupState {
    let t = trim(line);
    if opens_script(t) {
        MarkupState { in_script: true, ..st }
    } else if st.in_script {
        MarkupState { in_script: !closes_script(t), ..st }
    } else if is_page_directive(t) || (st.kept.len() == 0 && t.len() == 0) {
        st
    } else {
        MarkupState { kept: st.kept.push(line), ..st }
    }
}

/// The state of the markup scan after the first `n` lines.
pub open spec fn markup_run(ls: Seq<Seq<char>>, n: nat) -> MarkupState
    decreases n,
{
    if n == 0 || n > ls.len() {
        MarkupState { kept: Seq::empty(), in_script: false }
    } else {
        markup_step(markup_run(ls, (n - 1) as nat), ls[n - 1])
    }
}

/// The markup lines of a page, as they stand in its source.
pub open spec fn page_html_lines(content: Seq<char>) -> Seq<Seq<char>> {
    let ls = lines(content);
    markup_run(ls, ls.len()).kept
}

/// Extracts the markup lines of a page, character vector to character
/// vectors.
pub fn page_html_lines_chars(content: &Vec<char>) -> (r: Vec<Vec<char>>)
    ensures
        views(r@) == page_html_lines(content@),
{
    let ls = lines_of(content);
    let mut kept: Vec<Vec<char>> = Vec::new();
    let mut in_script = false;
    let mut i: usize = 0;
    assert(views(kept@) =~= Seq::<Seq<char>>::empty());
    while i < ls.len()
        invariant
            i <= ls.len(),
            markup_run(views(ls@), i as nat) == (MarkupState { kept: views(kept@), in_script }),
        decreases ls.len() - i,
    {
        let t = trim_of(&ls[i]);
        let ghost before = views(kept@);
        if opens_script_line(&t) {
            in_script = true;
        } else if in_script {
            in_script = !closes_script_line(&t);
        } else if is_page_directive_line(&t) || (kept.len() == 0 && t.len() == 0) {
        } else {
            let line = slice(&ls[i], 0, ls[i].len());
            assert(line@ =~= ls@[i as int]@);
            kept.push(line);
            assert(views(kept@) =~= before.push(line@));
        }
        i += 1;
    }
    kept
}

/// Extracts the markup lines of a page: its source without the data block,
/// the page directive and leading blank lines.
pub fn extract_page_html_lines(content: &str) -> (r: Vec<String>)
    ensures
        string_views(r@) == page_html_lines(content@),
{
    let v = chars_of(content);
    strings_of(&page_html_lines_chars(&v))
}



/// The state of the scan that cuts the data block out of a page, between
/// two lines.
pub ghost struct ScriptState {
    /// The statements of the data blocks read so far.
    pub data: Seq<char>,
    pub in_script: bool,
    /// The line on which a data block last opened.
    pub start: nat,
    /// The line on which a data block last closed.
    pub end: nat,
}

/// The transition of that scan on the line at position `i`.
pub open spec fn script_step(st: ScriptState, i: nat, line: Seq<char>) -> ScriptState {
    let t = trim(line);
    if opens_script(t) {
        ScriptState { in_script: true, start: i, ..st }
    } else if st.in_script && closes_script(t) {
        ScriptState { in_script: false, end: i, ..st }
    } else if st.in_script && is_data_statement(t) {
        ScriptState { data: st.data + t.push('\n'), ..st }
    } else {
        st
    }
}

/// The state of the cutting scan after the first `n` lines.
pub open spec fn script_run(ls: Seq<Seq<char>>, n: nat) -> ScriptState
    decreases n,
{
    if n == 0 || n > ls.len() {
        ScriptState { data: Seq::empty(), in_script: false, start: 0, end: 0 }
    } else {
        script_step(script_run(ls, (n - 1) as nat), (n - 1) as nat, ls[n - 1])
    }
}

/// The lines of `ls` without those from `start` to `end`, both included,
/// where `end` lies behind `start`; else all of them.
pub open spec fn without_block(ls: Seq<Seq<char>>, start: nat, end: nat) -> Seq<Seq<char>> {
    if start < end < ls.len() {
        ls.take(start as int) + ls.skip(end as int + 1)
    } else {
        ls
    }
}

/// Whether the trimmed line `t` holds markup to compile: it is neither
/// blank nor a comment nor a page directive.
pub open spec fn is_markup(t: Seq<char>) -> bool {
    t.len() > 0 && !is_comment(t) && !is_page_directive(t)
}

/// The statements that the first `n` lines of a page become: each line of
/// markup opens a statement of its own, component tags expanded, and the
/// first statement of all declares the string.
pub open spec fn page_statements(ls: Seq<Seq<char>>, comps: Seq<Component>, n: nat) -> Seq<Seq<char>>
    decreases n,
{
    if n == 0 || n > ls.len() {
        Seq::empty()
    } else {
        let before = page_statements(ls, comps, (n - 1) as nat);
        let t = trim(ls[n - 1]);
        if is_markup(t) {
            before + line_statements(expand_pieces(t, comps), before.len() == 0)
        } else {
            before
        }
    }
}

/// The statements of a page, or the declaration of an empty string where
/// the page holds no markup.
pub open spec fn declared(stmts: Seq<Seq<char>>) -> Seq<Seq<char>> {
    if stmts.len() == 0 {
        seq!["string html = \"\""@]
    } else {
        stmts
    }
}

/// Where the text of each line of markup among the first `n` lines can be
/// closed by one quote, every statement made of them either ends with exactly
/// one quote or holds only the splices at the end of one of the lines, and
/// then does not open with a string literal.
pub proof fn lemma_page_statements_closed(ls: Seq<Seq<char>>, comps: Seq<Component>, n: nat, i: int)
    requires
        n <= ls.len(),
        forall|j: int|
            0 <= j < n && is_markup(trim(ls[j])) ==> closes_cleanly(
                #[trigger] expand_pieces(trim(ls[j]), comps),
            ),
        0 <= i < page_statements(ls, comps, n).len(),
    ensures
        ends_in_one_quote(page_statements(ls, comps, n)[i]) || exists|j: int, first: bool|
            0 <= j < n && page_statements(ls, comps, n)[i] == #[trigger] expr_statement(
                expand_pieces(trim(ls[j]), comps),
                first,
            ),
        ends_in_one_quote(page_statements(ls, comps, n)[i]) || (!starts_with(
            page_statements(ls, comps, n)[i],
            open_literal(true),
        ) && !starts_with(page_statements(ls, comps, n)[i], open_literal(false))),
    decreases n,
{
    let before = page_statements(ls, comps, (n - 1) as nat);
    if i < before.len() {
        lemma_page_statements_closed(ls, comps, (n - 1) as nat, i);
        if !ends_in_one_quote(before[i]) {
            let (j, first) = choose|j: int, first: bool|
                0 <= j < n - 1 && before[i] == #[trigger] expr_statement(
                    expand_pieces(trim(ls[j]), comps),
                    first,
                );
            assert(page_statements(ls, comps, n)[i] == expr_statement(
                expand_pieces(trim(ls[j]), comps),
                first,
            ));
        }
    } else {
        let ps = expand_pieces(trim(ls[n - 1]), comps);
        let first = before.len() == 0;
        assert(is_markup(trim(ls[n - 1])));
        assert(closes_cleanly(ps));
        lemma_line_statements_closed(ps, first, i - before.len());
        let st = line_statements(ps, first)[i - before.len()];
        assert(page_statements(ls, comps, n)[i] == st);
        if !ends_in_one_quote(st) {
            assert(st == expr_statement(ps, first && text_end(ps, ps.len()) == 0));
            lemma_expr_statement_opening(ps, first && text_end(ps, ps.len()) == 0);
        }
    }
}

/// The code that a page's markup compiles to: the statements of its data
/// block, the statements that build the string, each on a line of its own,
/// and the statement that returns it.
pub open spec fn page_code(html: Seq<char>, comps: Seq<Component>) -> Seq<char> {
    let ls = lines(html);
    let sc = script_run(ls, ls.len());
    let kept = without_block(ls, sc.start, sc.end);
    sc.data + stack(declared(page_statements(kept, comps, kept.len()))) + "return html"@
}

/// Compiles a page's markup, character vector to character vector.
pub fn page_code_chars(html: &Vec<char>, components: &Vec<Component>) -> (r: Vec<char>)
    ensures
        r@ == page_code(html@, components@),
{
    let ls = lines_of(html);
    let mut out: Vec<char> = Vec::new();
    let mut in_script = false;
    let mut start: usize = 0;
    let mut end: usize = 0;
    let mut i: usize = 0;
    while i < ls.len()
        invariant
            i <= ls.len(),
            script_run(views(ls@), i as nat) == (ScriptState {
                data: out@,
                in_script,
                start: start as nat,
                end: end as nat,
            }),
            start <= i,
            end <= i,
            i > 0 ==> end < i,
        decreases ls.len() - i,
    {
        let t = trim_of(&ls[i]);
        let ghost before = out@;
        if opens_script_line(&t) {
            in_script = true;
            start = i;
        } else if in_script && closes_script_line(&t) {
            in_script = false;
            end = i;
        } else if in_script && is_data_statement_line(&t) {
            push_all(&mut out, &t);
            out.push('\n');
            assert(out@ =~= before + t@.push('\n'));
        }
        i += 1;
    }
    let cut = start < end && end < ls.len();
    let ghost data = out@;
    let ghost kept = without_block(views(ls@), start as nat, end as nat);
    let mut stmts: Vec<Vec<char>> = Vec::new();
    let mut j: usize = 0;
    let ghost mut n: nat = 0;
    assert(views(stmts@) =~= page_statements(kept, components@, 0));
    while j < ls.len()
        invariant
            j <= ls.len(),
            cut == (start < end && end < ls.len()),
            kept == without_block(views(ls@), start as nat, end as nat),
            n <= kept.len(),
            n == (if cut && j > end {
                j - (end - start + 1)
            } else if cut && j > start {
                start as int
            } else {
                j as int
            }),
            views(stmts@) == page_statements(kept, components@, n),
        decreases ls.len() - j,
    {
        if cut && start <= j && j <= end {
        } else {
            let t = trim_of(&ls[j]);
            proof {
                assert(kept[n as int] == ls@[j as int]@);
                n = n + 1;
            }
            if t.len() > 0 && !is_comment_line(&t) && !is_page_directive_line(&t) {
                let parts = expand_parts(&t, components);
                let own = line_statements_of(&parts, stmts.len() == 0);
                append_texts(&mut stmts, own);
            }
        }
        j += 1;
    }
    if stmts.len() == 0 {
        let ghost before = views(stmts@);
        let empty = chars_of("string html = \"\"");
        stmts.push(empty);
        assert(views(stmts@) =~= seq![empty@]);
    }
    assert(views(stmts@) =~= declared(page_statements(kept, components@, kept.len())));
    push_stack(&mut out, &stmts);
    push_str(&mut out, "return html");
    out
}

/// Compiles a page's markup into the statements that build and return its
/// text.
pub fn convert_html_to_clean(html: &str, components: &Vec<Component>) -> (r: String)
    ensures
        r@ == page_code(html@, components@),
{
    let v = chars_of(html);
    string_of(&page_code_chars(&v, components))
}

/// Whether the trimmed line `t` is an empty slot marker, in one of its three
/// spellings.
pub open spec fn is_slot(t: Seq<char>) -> bool {
    t == "<slot></slot>"@ || t == "<slot />"@ || t == "<slot/>"@
}

/// The first `n` lines of a layout, with the page's lines in place of each
/// slot marker.
pub open spec fn merged_lines(layout: Seq<Seq<char>>, page: Seq<Seq<char>>, n: nat) -> Seq<Seq<char>>
    decreases n,
{
    if n == 0 || n > layout.len() {
        Seq::empty()
    } else if is_slot(trim(layout[n - 1])) {
        merged_lines(layout, page, (n - 1) as nat) + page
    } else {
        merged_lines(layout, page, (n - 1) as nat).push(layout[n - 1])
    }
}

/// The text of a layout with the page's lines in its slot.
pub open spec fn merged_text(layout: Seq<char>, page: Seq<Seq<char>>) -> Seq<char> {
    let ls = lines(layout);
    join(merged_lines(ls, page, ls.len()), "\n"@)
}

/// The code that a page compiles to inside a layout.
pub open spec fn layout_code(layout: Seq<char>, page: Seq<Seq<char>>, comps: Seq<Component>) -> Seq<char> {
    page_code(merged_text(layout, page), comps)
}

/// Puts a page's lines into a layout's slot and compiles the result,
/// character vectors to character vector.
pub fn layout_code_chars(layout: &Vec<char>, page: &Vec<Vec<char>>, components: &Vec<Component>) -> (r: Vec<char>)
    ensures
        r@ == layout_code(layout@, views(page@), components@),
{
    let ls = lines_of(layout);
    let mut merged: Vec<Vec<char>> = Vec::new();
    let mut i: usize = 0;
    assert(views(merged@) =~= Seq::<Seq<char>>::empty());
    while i < ls.len()
        invariant
            i <= ls.len(),
            views(merged@) == merged_lines(views(ls@), views(page@), i as nat),
        decreases ls.len() - i,
    {
        let t = trim_of(&ls[i]);
        if equals_str(&t, "<slot></slot>") || equals_str(&t, "<slot />") || equals_str(&t, "<slot/>") {
            let ghost start = views(merged@);
            let mut k: usize = 0;
            while k < page.len()
                invariant
                    k <= page.len(),
                    views(merged@) == start + views(page@).take(k as int),
                decreases page.len() - k,
            {
                let line = slice(&page[k], 0, page[k].len());
                assert(line@ =~= page@[k as int]@);
                let ghost before = views(merged@);
                merged.push(line);
                assert(views(merged@) =~= before.push(line@));
                assert(views(merged@) =~= start + views(page@).take(k + 1));
                k += 1;
            }
            assert(views(page@).take(page.len() as int) =~= views(page@));
        } else {
            let line = slice(&ls[i], 0, ls[i].len());
            assert(line@ =~= ls@[i as int]@);
            let ghost before = views(merged@);
            merged.push(line);
            assert(views(merged@) =~= before.push(line@));
        }
        i += 1;
    }
    let text = join_with(&merged, "\n");
    page_code_chars(&text, components)
}

/// Wraps a page in a layout: the page's lines take the place of the layout's
/// slot marker, and the merged markup is compiled as one page.
pub fn apply_layout(layout_content: &str, page_html_lines: &Vec<String>, components: &Vec<Component>) -> (r: String)
    ensures
        r@ == layout_code(layout_content@, string_views(page_html_lines@), components@),
{
    let l = chars_of(layout_content);
    let p = texts_of(page_html_lines);
    string_of(&layout_code_chars(&l, &p, components))
}

} // verus!
