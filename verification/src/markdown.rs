//! Markdown rendering for email bodies, with the custom components
//! `@button(url) label @endbutton`, `@panel text @endpanel` and
//! `@table ... @endtable`.
use vstd::prelude::*;
use crate::error::MailError;
use crate::outside::{
    commonmark_html, group_views, regex_captures_of, regex_is_valid,
    regex_split_of, render_commonmark,
};
use crate::text::{
    copy_str, join, join_strings, lines, lines_of, push_str, replace_all, replace_str, split_char,
    split_on_char, trim, trim_start_char, trim_start_matches_char, trim_str, views,
};

verus! {

/// Start of the HTML for a button component, up to its URL.
pub const BUTTON_OPEN: &'static str = "<table width=\"100%\" cellpadding=\"0\" cellspacing=\"0\" style=\"margin: 20px 0;\">\n    <tr>\n        <td align=\"center\">\n            <a href=\"";

/// HTML between a button's URL and its label.
pub const BUTTON_MIDDLE: &'static str = "\" style=\"display: inline-block; padding: 12px 24px; background-color: #4F46E5; color: white; text-decoration: none; border-radius: 6px; font-weight: 600;\">\n                ";

/// End of the HTML for a button component.
pub const BUTTON_CLOSE: &'static str = "\n            </a>\n        </td>\n    </tr>\n</table>";

/// Start of the HTML for a panel component.
pub const PANEL_OPEN: &'static str = "<div style=\"background-color: #F3F4F6; border-left: 4px solid #4F46E5; padding: 16px; margin: 20px 0; border-radius: 4px;\">\n    ";

/// End of the HTML for a panel component.
pub const PANEL_CLOSE: &'static str = "\n</div>";

/// Start of the HTML for a table component, up to its header cells.
pub const TABLE_OPEN: &'static str = "<table style=\"width: 100%; border-collapse: collapse; margin: 20px 0;\">\n    <thead>\n        <tr style=\"background-color: #F3F4F6;\">";

/// Start of a table header cell.
pub const HEADER_CELL_OPEN: &'static str = "\n            <th style=\"padding: 12px; text-align: left; border-bottom: 2px solid #E5E7EB; font-weight: 600;\">";

/// End of a table header cell.
pub const HEADER_CELL_CLOSE: &'static str = "</th>";

/// HTML between the header cells and the rows of a table.
pub const TABLE_BODY_OPEN: &'static str = "\n        </tr>\n    </thead>\n    <tbody>";

/// Start of a table row.
pub const ROW_OPEN: &'static str = "\n        <tr style=\"border-bottom: 1px solid #E5E7EB;\">";

/// Start of a table data cell.
pub const CELL_OPEN: &'static str = "\n            <td style=\"padding: 12px;\">";

/// End of a table data cell.
pub const CELL_CLOSE: &'static str = "</td>";

/// End of a table row.
pub const ROW_CLOSE: &'static str = "\n        </tr>";

/// End of the HTML for a table component.
pub const TABLE_CLOSE: &'static str = "\n    </tbody>\n</table>";

/// `@button(url) text @endbutton`.
pub const BUTTON_PATTERN: &'static str = "@button\\(([^\\)]+)\\)\\s*\\n?(.*?)\\n?@endbutton";

/// `@panel text @endpanel`.
pub const PANEL_PATTERN: &'static str = "(?s)@panel\\s*\\n?(.*?)\\n?@endpanel";

/// `@table ... @endtable`, spanning lines.
pub const TABLE_PATTERN: &'static str = "(?s)@table\\s*\\n(.*?)\\n@endtable";

/// A markdown link `[text](url)`.
pub const LINK_PATTERN: &'static str = "\\[([^\\]]+)\\]\\([^\\)]+\\)";

// ---------------------------------------------------------------------------
// Replacing regex matches
// ---------------------------------------------------------------------------

/// The text of capture group `i`; empty when the group is absent.
pub open spec fn group_text(caps: Seq<Option<Seq<char>>>, i: int) -> Seq<char> {
    if 0 <= i < caps.len() {
        match caps[i] {
            Some(t) => t,
            None => Seq::empty(),
        }
    } else {
        Seq::empty()
    }
}

/// The first `k` pieces, each followed by its replacement when there is one.
pub open spec fn splice(pieces: Seq<Seq<char>>, reps: Seq<Seq<char>>, k: int) -> Seq<char>
    decreases k,
{
    if k <= 0 {
        Seq::empty()
    } else {
        splice(pieces, reps, k - 1) + pieces[k - 1] + if k - 1 < reps.len() {
            reps[k - 1]
        } else {
            Seq::empty()
        }
    }
}

/// The kinds of match replacement this module performs.
#[derive(Clone, Copy, Debug)]
pub enum Component {
    /// `@button(url) label @endbutton`
    Button,
    /// `@panel text @endpanel`
    Panel,
    /// `@table ... @endtable`
    Table,
    /// A markdown link, replaced by its text.
    Link,
}

/// What one match of a component's pattern is replaced by.
pub open spec fn component_text(kind: Component, caps: Seq<Option<Seq<char>>>) -> Seq<char> {
    match kind {
        Component::Button => BUTTON_OPEN@ + group_text(caps, 1) + BUTTON_MIDDLE@ + trim(
            group_text(caps, 2),
        ) + BUTTON_CLOSE@,
        Component::Panel => PANEL_OPEN@ + trim(group_text(caps, 1)) + PANEL_CLOSE@,
        Component::Table => table_html(group_text(caps, 1)),
        Component::Link => group_text(caps, 1),
    }
}

/// `text` with every match of `pattern` replaced by the component's text for
/// it (`Regex::replace_all`); `text` unchanged when the pattern does not
/// compile.
pub open spec fn replace_matches(pattern: Seq<char>, text: Seq<char>, kind: Component) -> Seq<char> {
    if regex_is_valid(pattern) {
        let pieces = regex_split_of(pattern, text);
        let reps = regex_captures_of(pattern, text).map_values(
            |c: Seq<Option<Seq<char>>>| component_text(kind, c),
        );
        splice(pieces, reps, pieces.len() as int)
    } else {
        text
    }
}

fn group_string(caps: &Vec<Option<String>>, i: usize) -> (s: String)
    ensures
        s@ == group_text(group_views(caps@), i as int),
{
    if i < caps.len() {
        match &caps[i] {
            Some(t) => copy_str(t.as_str()),
            None => String::new(),
        }
    } else {
        String::new()
    }
}

/// What one match is replaced by.
pub fn render_component(kind: Component, caps: &Vec<Option<String>>) -> (s: String)
    ensures
        s@ == component_text(kind, group_views(caps@)),
{
    match kind {
        Component::Button => {
            let url = group_string(caps, 1);
            let label = group_string(caps, 2);
            let mut s = copy_str(BUTTON_OPEN);
            push_str(&mut s, url.as_str());
            push_str(&mut s, BUTTON_MIDDLE);
            let t = trim_str(label.as_str());
            push_str(&mut s, t.as_str());
            push_str(&mut s, BUTTON_CLOSE);
            s
        },
        Component::Panel => {
            let content = group_string(caps, 1);
            let mut s = copy_str(PANEL_OPEN);
            let t = trim_str(content.as_str());
            push_str(&mut s, t.as_str());
            push_str(&mut s, PANEL_CLOSE);
            s
        },
        Component::Table => {
            let content = group_string(caps, 1);
            render_table(content.as_str())
        },
        Component::Link => group_string(caps, 1),
    }
}

/// `regex::Regex::new(pattern)` followed by `replace_all(text, ..)` with a
/// replacer that renders each match's capture groups by [`render_component`]:
/// `None` exactly when the pattern does not compile; else the pieces of
/// `text` between the matches (`split`) interleaved with the rendering of
/// each match's groups (`captures_iter`), as `replace_all` documents.
#[verifier::external_body]
fn regex_replace_all(pattern: &str, text: &str, kind: Component) -> (r: Option<String>)
    ensures
        r is Some <==> regex_is_valid(pattern@),
        r matches Some(s) ==> s@ == splice(
            regex_split_of(pattern@, text@),
            regex_captures_of(pattern@, text@).map_values(|c: Seq<Option<Seq<char>>>| component_text(kind, c)),
            regex_split_of(pattern@, text@).len() as int,
        ),
{
    match regex::Regex::new(pattern) {
        Ok(re) => Some(
            re.replace_all(
                text,
                |caps: &regex::Captures| {
                    render_component(kind, &caps.iter().map(|g| g.map(|m| m.as_str().to_string())).collect())
                },
            ).into_owned(),
        ),
        Err(_) => None,
    }
}

/// `text` with every match of `pattern` replaced by the component's text.
pub fn replace_component(pattern: &str, text: &str, kind: Component) -> (r: String)
    ensures
        r@ == replace_matches(pattern@, text@, kind),
{
    match regex_replace_all(pattern, text, kind) {
        Some(s) => s,
        None => copy_str(text),
    }
}

// ---------------------------------------------------------------------------
// Tables
// ---------------------------------------------------------------------------

/// The non-empty strings of `v`, in order.
pub open spec fn nonempty(v: Seq<Seq<char>>) -> Seq<Seq<char>>
    decreases v.len(),
{
    if v.len() == 0 {
        Seq::empty()
    } else if v.last().len() > 0 {
        nonempty(v.drop_last()).push(v.last())
    } else {
        nonempty(v.drop_last())
    }
}

/// The cells of a table line: the pieces between `|`, trimmed, empty ones
/// dropped.
pub open spec fn cells(line: Seq<char>) -> Seq<Seq<char>> {
    nonempty(split_char(line, '|').map_values(|p: Seq<char>| trim(p)))
}

/// Each item between `open` and `close`, one after another.
pub open spec fn wrap_each(items: Seq<Seq<char>>, open: Seq<char>, close: Seq<char>) -> Seq<char>
    decreases items.len(),
{
    if items.len() == 0 {
        Seq::empty()
    } else {
        wrap_each(items.drop_last(), open, close) + open + items.last() + close
    }
}

/// The HTML rows for the given table lines.
pub open spec fn rows_html(rows: Seq<Seq<char>>) -> Seq<char>
    decreases rows.len(),
{
    if rows.len() == 0 {
        Seq::empty()
    } else {
        rows_html(rows.drop_last()) + ROW_OPEN@ + wrap_each(cells(rows.last()), CELL_OPEN@, CELL_CLOSE@)
            + ROW_CLOSE@
    }
}

/// The HTML for the body of a `@table` component: the first line gives the
/// header cells, the second (the separator) is skipped, each further line is a
/// row. With fewer than two lines the text is left as it is.
pub open spec fn table_html(content: Seq<char>) -> Seq<char> {
    let ls = lines(content);
    if ls.len() < 2 {
        content
    } else {
        TABLE_OPEN@ + wrap_each(cells(ls[0]), HEADER_CELL_OPEN@, HEADER_CELL_CLOSE@)
            + TABLE_BODY_OPEN@ + rows_html(ls.skip(2)) + TABLE_CLOSE@
    }
}

/// The separator line of a `@table` (its second line) never reaches the
/// output: two tables whose lines differ in that line alone render alike.
pub proof fn lemma_table_ignores_separator(c1: Seq<char>, c2: Seq<char>)
    requires
        lines(c1).len() >= 2,
        lines(c2).len() == lines(c1).len(),
        forall|i: int| 0 <= i < lines(c1).len() && i != 1 ==> lines(c1)[i] == lines(c2)[i],
    ensures
        table_html(c1) == table_html(c2),
{
    let l1 = lines(c1);
    let l2 = lines(c2);
    assert(l1[0] == l2[0]);
    assert(l1.skip(2) =~= l2.skip(2));
}

/// A `@table` of a header line and a separator line alone has an empty
/// body: the header row and then no row at all.
pub proof fn lemma_table_without_rows(c: Seq<char>)
    requires
        lines(c).len() == 2,
    ensures
        table_html(c) == TABLE_OPEN@ + wrap_each(cells(lines(c)[0]), HEADER_CELL_OPEN@, HEADER_CELL_CLOSE@)
            + TABLE_BODY_OPEN@ + TABLE_CLOSE@,
{
    assert(lines(c).skip(2) =~= Seq::<Seq<char>>::empty());
}

/// Each line after the separator is one body row: a table with one more
/// line is the same table with one more row, of that line's cells, at the
/// end of its body.
pub proof fn lemma_table_line_adds_row(c1: Seq<char>, c2: Seq<char>, l: Seq<char>)
    requires
        lines(c1).len() >= 2,
        lines(c2) == lines(c1).push(l),
    ensures
        table_html(c2) == table_html(c1).take(table_html(c1).len() - TABLE_CLOSE@.len()) + ROW_OPEN@
            + wrap_each(cells(l), CELL_OPEN@, CELL_CLOSE@) + ROW_CLOSE@ + TABLE_CLOSE@,
{
    let l1 = lines(c1);
    let l2 = lines(c2);
    assert(l2[0] == l1[0]);
    assert(l2.skip(2) =~= l1.skip(2).push(l));
    assert(l1.skip(2).push(l).drop_last() =~= l1.skip(2));
    let prefix = TABLE_OPEN@ + wrap_each(cells(l1[0]), HEADER_CELL_OPEN@, HEADER_CELL_CLOSE@) + TABLE_BODY_OPEN@
        + rows_html(l1.skip(2));
    assert(table_html(c1) == prefix + TABLE_CLOSE@);
    assert((prefix + TABLE_CLOSE@).take(prefix.len() as int) =~= prefix);
    assert(table_html(c2) =~= prefix + ROW_OPEN@ + wrap_each(cells(l), CELL_OPEN@, CELL_CLOSE@) + ROW_CLOSE@
        + TABLE_CLOSE@);
}

/// The cells of a table line.
pub fn cells_of(line: &str) -> (r: Vec<String>)
    ensures
        views(r@) == cells(line@),
{
    let parts = split_on_char(line, '|');
    let ghost trimmed = split_char(line@, '|').map_values(|p: Seq<char>| trim(p));
    let mut r: Vec<String> = Vec::new();
    let mut i: usize = 0;
    while i < parts.len()
        invariant
            i <= parts@.len(),
            views(parts@) == split_char(line@, '|'),
            trimmed == split_char(line@, '|').map_values(|p: Seq<char>| trim(p)),
            views(r@) == nonempty(trimmed.take(i as int)),
        decreases parts.len() - i,
    {
        let t = trim_str(parts[i].as_str());
        proof {
            assert(views(parts@)[i as int] == parts@[i as int]@);
            assert(trimmed.take(i + 1).drop_last() =~= trimmed.take(i as int));
            assert(trimmed.take(i + 1).last() == t@);
        }
        if !t.as_str().is_empty() {
            let ghost before = r@;
            r.push(t);
            proof {
                assert(views(r@) =~= views(before).push(trimmed[i as int]));
            }
        }
        i = i + 1;
    }
    proof {
        assert(trimmed.take(i as int) =~= trimmed);
    }
    r
}

/// Appends each item between `open` and `close`.
pub fn push_wrapped(out: &mut String, items: &Vec<String>, open: &str, close: &str)
    ensures
        final(out)@ == old(out)@ + wrap_each(views(items@), open@, close@),
{
    let ghost start = out@;
    let mut i: usize = 0;
    while i < items.len()
        invariant
            i <= items@.len(),
            out@ == start + wrap_each(views(items@).take(i as int), open@, close@),
        decreases items.len() - i,
    {
        proof {
            assert(views(items@).take(i + 1).drop_last() =~= views(items@).take(i as int));
            assert(views(items@)[i as int] == items@[i as int]@);
        }
        push_str(out, open);
        push_str(out, items[i].as_str());
        push_str(out, close);
        proof {
            assert(out@ =~= start + wrap_each(views(items@).take(i + 1), open@, close@));
        }
        i = i + 1;
    }
    proof {
        assert(views(items@).take(i as int) =~= views(items@));
    }
}

/// The HTML for the body of a `@table` component.
pub fn render_table(content: &str) -> (r: String)
    ensures
        r@ == table_html(content@),
{
    let ls = lines_of(content);
    if ls.len() < 2 {
        return copy_str(content);
    }
    let mut html = copy_str(TABLE_OPEN);
    let headers = cells_of(ls[0].as_str());
    proof {
        assert(views(ls@)[0] == ls@[0]@);
    }
    push_wrapped(&mut html, &headers, HEADER_CELL_OPEN, HEADER_CELL_CLOSE);
    push_str(&mut html, TABLE_BODY_OPEN);
    let ghost head = html@;
    let ghost rows = views(ls@).skip(2);
    let mut i: usize = 2;
    while i < ls.len()
        invariant
            2 <= i <= ls@.len(),
            rows == views(ls@).skip(2),
            html@ == head + rows_html(rows.take(i - 2)),
        decreases ls.len() - i,
    {
        let row = cells_of(ls[i].as_str());
        proof {
            assert(views(ls@)[i as int] == ls@[i as int]@);
            assert(rows.take(i - 1).drop_last() =~= rows.take(i - 2));
            assert(rows.take(i - 1).last() == ls@[i as int]@);
        }
        push_str(&mut html, ROW_OPEN);
        push_wrapped(&mut html, &row, CELL_OPEN, CELL_CLOSE);
        push_str(&mut html, ROW_CLOSE);
        proof {
            assert(html@ =~= head + rows_html(rows.take(i - 1)));
        }
        i = i + 1;
    }
    proof {
        assert(rows.take(i - 2) =~= rows);
    }
    push_str(&mut html, TABLE_CLOSE);
    html
}

// ---------------------------------------------------------------------------
// Components and rendering
// ---------------------------------------------------------------------------

/// `markdown` with its components replaced by their HTML: buttons first, then
/// panels, then tables.
pub open spec fn components_html(markdown: Seq<char>) -> Seq<char> {
    replace_matches(
        TABLE_PATTERN@,
        replace_matches(
            PANEL_PATTERN@,
            replace_matches(BUTTON_PATTERN@, markdown, Component::Button),
            Component::Panel,
        ),
        Component::Table,
    )
}

/// The HTML for a markdown email body: components expanded, then the whole
/// rendered by CommonMark.
pub open spec fn markdown_html(markdown: Seq<char>) -> Seq<char> {
    commonmark_html(components_html(markdown))
}

/// Process custom email components in markdown: `@button(url) text
/// @endbutton`, `@panel text @endpanel` and `@table ... @endtable`.
pub fn process_components(markdown: &str) -> (r: Result<String, MailError>)
    ensures
        r matches Ok(s) && s@ == components_html(markdown@),
{
    let buttons = process_buttons(markdown)?;
    let panels = process_panels(buttons.as_str())?;
    process_tables(panels.as_str())
}

/// Replace each `@button(url) label @endbutton` by a centred link button.
pub fn process_buttons(markdown: &str) -> (r: Result<String, MailError>)
    ensures
        r matches Ok(s) && s@ == replace_matches(BUTTON_PATTERN@, markdown@, Component::Button),
{
    Ok(replace_component(BUTTON_PATTERN, markdown, Component::Button))
}

/// Replace each `@panel text @endpanel` by a highlighted box.
pub fn process_panels(markdown: &str) -> (r: Result<String, MailError>)
    ensures
        r matches Ok(s) && s@ == replace_matches(PANEL_PATTERN@, markdown@, Component::Panel),
{
    Ok(replace_component(PANEL_PATTERN, markdown, Component::Panel))
}

/// Replace each `@table ... @endtable` by a styled HTML table.
pub fn process_tables(markdown: &str) -> (r: Result<String, MailError>)
    ensures
        r matches Ok(s) && s@ == replace_matches(TABLE_PATTERN@, markdown@, Component::Table),
{
    Ok(replace_component(TABLE_PATTERN, markdown, Component::Table))
}

/// Render markdown to HTML.
pub fn render_markdown(markdown: &str) -> (r: Result<String, MailError>)
    ensures
        r matches Ok(s) && s@ == markdown_html(markdown@),
{
    let processed = process_components(markdown)?;
    Ok(render_commonmark(processed.as_str()))
}

// ---------------------------------------------------------------------------
// Plain text
// ---------------------------------------------------------------------------

/// One markdown line as plain text: leading `#` and surrounding whitespace
/// dropped, `**` and `*` removed, links replaced by their text.
pub open spec fn line_text(line: Seq<char>) -> Seq<char> {
    let a = trim(trim_start_char(line, '#'));
    let b = replace_all(replace_all(a, "**"@, ""@), "*"@, ""@);
    replace_matches(LINK_PATTERN@, b, Component::Link)
}

/// Markdown as plain text, line by line, joined with `\n`.
pub open spec fn markdown_text(markdown: Seq<char>) -> Seq<char> {
    join(lines(markdown).map_values(|l: Seq<char>| line_text(l)), "\n"@)
}

/// Convert markdown to plain text (strip formatting).
pub fn markdown_to_text(markdown: &str) -> (r: String)
    ensures
        r@ == markdown_text(markdown@),
{
    let ls = lines_of(markdown);
    let ghost texts = lines(markdown@).map_values(|l: Seq<char>| line_text(l));
    let mut out: Vec<String> = Vec::new();
    let mut i: usize = 0;
    while i < ls.len()
        invariant
            i <= ls@.len(),
            views(ls@) == lines(markdown@),
            texts == lines(markdown@).map_values(|l: Seq<char>| line_text(l)),
            views(out@) == texts.take(i as int),
        decreases ls.len() - i,
    {
        let a = trim_start_matches_char(ls[i].as_str(), '#');
        let a = trim_str(a.as_str());
        proof {
            reveal_strlit("**");
            reveal_strlit("*");
        }
        let b = replace_str(a.as_str(), "**", "");
        let b = replace_str(b.as_str(), "*", "");
        let c = replace_component(LINK_PATTERN, b.as_str(), Component::Link);
        proof {
            assert(views(ls@)[i as int] == ls@[i as int]@);
            assert(c@ == texts[i as int]);
        }
        let ghost before = out@;
        out.push(c);
        proof {
            assert(views(out@) =~= views(before).push(texts[i as int]));
            assert(texts.take(i + 1) =~= texts.take(i as int).push(texts[i as int]));
        }
        i = i + 1;
    }
    proof {
        assert(texts.take(i as int) =~= texts);
    }
    join_strings(&out, "\n")
}

// ---------------------------------------------------------------------------
// Component helpers
// ---------------------------------------------------------------------------

/// The markdown for a button component.
pub open spec fn button_markdown(text: Seq<char>, url: Seq<char>) -> Seq<char> {
    "@button("@ + url + ")\n"@ + text + "\n@endbutton"@
}

/// Create a button component.
pub fn button(text: &str, url: &str) -> (r: String)
    ensures
        r@ == button_markdown(text@, url@),
{
    let mut r = copy_str("@button(");
    push_str(&mut r, url);
    push_str(&mut r, ")\n");
    push_str(&mut r, text);
    push_str(&mut r, "\n@endbutton");
    r
}

/// The markdown for a panel component.
pub open spec fn panel_markdown(content: Seq<char>) -> Seq<char> {
    "@panel\n"@ + content + "\n@endpanel"@
}

/// Create a panel component.
pub fn panel(content: &str) -> (r: String)
    ensures
        r@ == panel_markdown(content@),
{
    let mut r = copy_str("@panel\n");
    push_str(&mut r, content);
    push_str(&mut r, "\n@endpanel");
    r
}

/// The character views of a list of string slices.
pub open spec fn str_views(v: Seq<&str>) -> Seq<Seq<char>> {
    v.map_values(|s: &str| s@)
}

/// `n` copies of `s`, one after another.
pub open spec fn repeat(s: Seq<char>, n: nat) -> Seq<char>
    decreases n,
{
    if n == 0 {
        Seq::empty()
    } else {
        repeat(s, (n - 1) as nat) + s
    }
}

/// A markdown table line: `| a | b |` and a newline.
pub open spec fn table_line(items: Seq<Seq<char>>) -> Seq<char> {
    "| "@ + join(items, " | "@) + " |\n"@
}

/// The markdown rows for a list of rows.
pub open spec fn table_lines(rows: Seq<Seq<Seq<char>>>) -> Seq<char>
    decreases rows.len(),
{
    if rows.len() == 0 {
        Seq::empty()
    } else {
        table_lines(rows.drop_last()) + table_line(rows.last())
    }
}

/// The markdown for a table component: the header line, a separator with one
/// `---|` per header, the rows, then `@endtable`.
pub open spec fn table_markdown(headers: Seq<Seq<char>>, rows: Seq<Seq<Seq<char>>>) -> Seq<char> {
    "@table\n"@ + table_line(headers) + "|"@ + repeat("---|"@, headers.len()) + "\n"@
        + table_lines(rows) + "@endtable"@
}

fn owned_strs(v: &Vec<&str>) -> (r: Vec<String>)
    ensures
        views(r@) == str_views(v@),
{
    let mut r: Vec<String> = Vec::new();
    let mut i: usize = 0;
    while i < v.len()
        invariant
            i <= v@.len(),
            views(r@) == str_views(v@).take(i as int),
        decreases v.len() - i,
    {
        let ghost before = r@;
        r.push(copy_str(v[i]));
        proof {
            assert(views(r@) =~= views(before).push(v@[i as int]@));
            assert(str_views(v@).take(i + 1) =~= str_views(v@).take(i as int).push(v@[i as int]@));
        }
        i = i + 1;
    }
    proof {
        assert(str_views(v@).take(i as int) =~= str_views(v@));
    }
    r
}

fn push_table_line(md: &mut String, items: &Vec<&str>)
    ensures
        final(md)@ == old(md)@ + table_line(str_views(items@)),
{
    let owned = owned_strs(items);
    let joined = join_strings(&owned, " | ");
    push_str(md, "| ");
    push_str(md, joined.as_str());
    push_str(md, " |\n");
    proof {
        assert(final(md)@ =~= old(md)@ + table_line(str_views(items@)));
    }
}

/// Create a table component.
pub fn table(headers: Vec<&str>, rows: Vec<Vec<&str>>) -> (r: String)
    ensures
        r@ == table_markdown(str_views(headers@), rows@.map_values(|row: Vec<&str>| str_views(row@))),
{
    let ghost rs = rows@.map_values(|row: Vec<&str>| str_views(row@));
    let mut md = copy_str("@table\n");
    push_table_line(&mut md, &headers);
    push_str(&mut md, "|");
    let ghost sep_start = md@;
    let mut k: usize = 0;
    while k < headers.len()
        invariant
            k <= headers@.len(),
            md@ == sep_start + repeat("---|"@, k as nat),
        decreases headers.len() - k,
    {
        push_str(&mut md, "---|");
        proof {
            assert(md@ =~= sep_start + repeat("---|"@, (k + 1) as nat));
        }
        k = k + 1;
    }
    push_str(&mut md, "\n");
    let ghost rows_start = md@;
    let mut i: usize = 0;
    while i < rows.len()
        invariant
            i <= rows@.len(),
            rs == rows@.map_values(|row: Vec<&str>| str_views(row@)),
            md@ == rows_start + table_lines(rs.take(i as int)),
        decreases rows.len() - i,
    {
        push_table_line(&mut md, &rows[i]);
        proof {
            assert(rs.take(i + 1).drop_last() =~= rs.take(i as int));
            assert(md@ =~= rows_start + table_lines(rs.take(i + 1)));
        }
        i = i + 1;
    }
    proof {
        assert(rs.take(i as int) =~= rs);
    }
    push_str(&mut md, "@endtable");
    proof {
        assert(md@ =~= table_markdown(str_views(headers@), rs));
    }
    md
}

} // verus!
