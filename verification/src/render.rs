//! The README tables: what the `resourceList` and `resourceCount` template
//! helpers write for the resource lists they are given.

use vstd::prelude::*;
use crate::text::{decimal, decimal_u64, decimal_u128, replaced, replace_all};

verus! {

/// What the table helpers read of one entry of a resource list in the
/// template data: each field is the entry's value under that key when it
/// has the JSON type the helpers look for (a string, an unsigned integer or
/// a boolean), and `None` otherwise.
#[derive(Debug)]
pub struct ResourceRow {
    pub name: Option<String>,
    pub url: Option<String>,
    pub description: Option<String>,
    pub star_count: Option<u64>,
    pub last_updated: Option<String>,
    pub is_archived: Option<bool>,
}

/// The rows of a list value, when it is a list.
pub open spec fn rows_of(v: Option<Vec<ResourceRow>>) -> Option<Seq<ResourceRow>> {
    match v {
        Some(rows) => Some(rows@),
        None => None,
    }
}

/// The two header lines of a table.
pub open spec fn table_header(show_description: bool) -> Seq<char> {
    if show_description {
        "| Name | Description | Last&nbsp;updated | Stars |\n"@
            + "| ---- | ----------- | ----------------- | ----- |\n"@
    } else {
        "| Name | Last&nbsp;updated | Stars |\n"@ + "| ---- | ----------------- | ----- |\n"@
    }
}

/// The link target of a row: its URL, or `#` without one.
pub open spec fn url_text(url: Option<String>) -> Seq<char> {
    match url {
        Some(u) => u@,
        None => "#"@,
    }
}

/// The description cell, present only when descriptions are shown; pipes in
/// the description become dashes so that they do not split the cell.
pub open spec fn description_cell(description: Option<String>, show_description: bool) -> Seq<char> {
    if !show_description {
        Seq::empty()
    } else {
        match description {
            Some(d) => "| "@ + replaced(d@, "|"@, "-"@) + " "@,
            None => "| "@,
        }
    }
}

/// The mark after the date of an archived resource.
pub open spec fn archived_mark(is_archived: Option<bool>) -> Seq<char> {
    if is_archived == Some(true) {
        "🗄️"@
    } else {
        Seq::empty()
    }
}

/// The date cell. Without a date the cell holds the text `{is_archived}`
/// as it stands.
pub open spec fn date_cell(last_updated: Option<String>, is_archived: Option<bool>) -> Seq<char> {
    match last_updated {
        Some(d) => "| "@ + d@ + "&nbsp;"@ + archived_mark(is_archived) + " "@,
        None => "| {is_archived} "@,
    }
}

/// The star cell: opened only when the star count is known, and holding the
/// count only when it is positive.
pub open spec fn star_cell(star_count: Option<u64>) -> Seq<char> {
    match star_count {
        Some(n) => "| "@ + if n > 0 {
            "⭐"@ + decimal(n as nat) + " "@
        } else {
            Seq::empty()
        },
        None => Seq::empty(),
    }
}

/// The table line of a row that has a name.
pub open spec fn row_text(r: ResourceRow, show_description: bool) -> Seq<char> {
    "| ["@ + r.name->0@ + "]("@ + url_text(r.url) + ") "@ + description_cell(
        r.description,
        show_description,
    ) + date_cell(r.last_updated, r.is_archived) + star_cell(r.star_count) + "|\n"@
}

/// The table lines of `rows`, skipping the rows without a name.
pub open spec fn rows_text(rows: Seq<ResourceRow>, show_description: bool) -> Seq<char>
    decreases rows.len(),
{
    if rows.len() == 0 {
        Seq::empty()
    } else {
        rows_text(rows.drop_last(), show_description) + if rows.last().name is Some {
            row_text(rows.last(), show_description)
        } else {
            Seq::empty()
        }
    }
}

/// The table lines keep the order of the list: the lines of `a + b` are the
/// lines of `a` followed by those of `b`, a single row gives its own line when
/// it has a name and nothing otherwise, and the table of `a + b` is the table
/// of `a` followed by the lines of `b`.
pub proof fn lemma_rows_keep_list_order(a: Seq<ResourceRow>, b: Seq<ResourceRow>, show_description: bool)
    ensures
        rows_text(a + b, show_description) == rows_text(a, show_description) + rows_text(b, show_description),
        b.len() == 1 ==> rows_text(b, show_description) == if b[0].name is Some {
            row_text(b[0], show_description)
        } else {
            Seq::<char>::empty()
        },
        table_text(Some(a + b), show_description) == table_text(Some(a), show_description) + rows_text(
            b,
            show_description,
        ),
    decreases b.len(),
{
    if b.len() == 0 {
        assert(a + b =~= a);
        assert(rows_text(a, show_description) + Seq::<char>::empty() =~= rows_text(a, show_description));
    } else {
        lemma_rows_keep_list_order(a, b.drop_last(), show_description);
        assert((a + b).drop_last() =~= a + b.drop_last());
        assert((a + b).last() == b.last());
        let tail = if b.last().name is Some {
            row_text(b.last(), show_description)
        } else {
            Seq::<char>::empty()
        };
        assert(rows_text(a, show_description) + rows_text(b.drop_last(), show_description) + tail
            =~= rows_text(a, show_description) + (rows_text(b.drop_last(), show_description) + tail));
        if b.len() == 1 {
            assert(b.drop_last() =~= Seq::<ResourceRow>::empty());
            assert(Seq::<char>::empty() + tail =~= tail);
        }
    }
    assert(table_header(show_description) + (rows_text(a, show_description) + rows_text(b, show_description))
        =~= table_header(show_description) + rows_text(a, show_description) + rows_text(b, show_description));
}

/// The whole table for a list, or nothing when the value is not a list.
pub open spec fn table_text(rows: Option<Seq<ResourceRow>>, show_description: bool) -> Seq<char> {
    match rows {
        Some(rs) => table_header(show_description) + rows_text(rs, show_description),
        None => Seq::empty(),
    }
}

/// The folded section that holds the table of older resources.
pub open spec fn older_section(table: Seq<char>) -> Seq<char> {
    "\n### Older resources\n\n<details>\n  <summary>Click to expand</summary>\n\n"@ + table
        + "\n\n</details>"@
}

/// What `resourceList` writes: the table of active resources, then the
/// folded table of inactive ones if that table is not empty.
pub open spec fn list_text(
    active: Option<Seq<ResourceRow>>,
    inactive: Option<Seq<ResourceRow>>,
    show_description: bool,
) -> Seq<char> {
    let older = table_text(inactive, show_description);
    table_text(active, show_description) + if older.len() > 0 {
        older_section(older)
    } else {
        Seq::empty()
    }
}

/// Writes the link cell of a row that has a name.
fn link_part(r: &ResourceRow) -> (s: String)
    requires
        r.name is Some,
    ensures
        s@ == "| ["@ + r.name->0@ + "]("@ + url_text(r.url) + ") "@,
{
    let mut out = String::new();
    out.append("| [");
    match &r.name {
        Some(name) => out.append(name.as_str()),
        None => {},
    }
    out.append("](");
    match &r.url {
        Some(u) => out.append(u.as_str()),
        None => out.append("#"),
    }
    out.append(") ");
    out
}

/// Writes the description cell.
fn description_part(description: &Option<String>, show_description: bool) -> (s: String)
    ensures
        s@ == description_cell(*description, show_description),
{
    let mut out = String::new();
    if show_description {
        match description {
            Some(d) => {
                proof {
                    reveal_strlit("|");
                }
                let cleaned = replace_all(d.as_str(), "|", "-");
                out.append("| ");
                out.append(cleaned.as_str());
                out.append(" ");
            },
            None => out.append("| "),
        }
    } else {
        assert(out@ =~= Seq::<char>::empty());
    }
    out
}

/// Writes the date cell.
fn date_part(last_updated: &Option<String>, is_archived: Option<bool>) -> (s: String)
    ensures
        s@ == date_cell(*last_updated, is_archived),
{
    let mut out = String::new();
    match last_updated {
        Some(date) => {
            out.append("| ");
            out.append(date.as_str());
            out.append("&nbsp;");
            let ghost before_mark = out@;
            if is_archived == Some(true) {
                out.append("🗄️");
            } else {
                assert(out@ =~= before_mark + archived_mark(is_archived));
            }
            out.append(" ");
        },
        None => out.append("| {is_archived} "),
    }
    out
}

/// Writes the star cell.
fn star_part(star_count: Option<u64>) -> (s: String)
    ensures
        s@ == star_cell(star_count),
{
    let mut out = String::new();
    match star_count {
        Some(stars) => {
            out.append("| ");
            let ghost opened = out@;
            if stars > 0 {
                let digits = decimal_u64(stars);
                out.append("⭐");
                out.append(digits.as_str());
                out.append(" ");
                assert(out@ =~= opened + ("⭐"@ + decimal(stars as nat) + " "@));
            } else {
                assert(out@ =~= opened + Seq::<char>::empty());
            }
        },
        None => {
            assert(out@ =~= Seq::<char>::empty());
        },
    }
    out
}

/// Writes the table line of one row that has a name.
fn row_to_str(r: &ResourceRow, show_description: bool) -> (s: String)
    requires
        r.name is Some,
    ensures
        s@ == row_text(*r, show_description),
{
    let mut out = link_part(r);
    let d = description_part(&r.description, show_description);
    out.append(d.as_str());
    let t = date_part(&r.last_updated, r.is_archived);
    out.append(t.as_str());
    let st = star_part(r.star_count);
    out.append(st.as_str());
    out.append("|\n");
    out
}

/// Writes the table for a list of resources: the header and one line per
/// row that has a name; nothing when the value is not a list.
pub fn resources_to_str(resources: &Option<Vec<ResourceRow>>, show_description: bool) -> (s: String)
    ensures
        s@ == table_text(rows_of(*resources), show_description),
{
    let mut output = String::new();
    match resources {
        Some(rows) => {
            if show_description {
                output.append("| Name | Description | Last&nbsp;updated | Stars |\n");
                output.append("| ---- | ----------- | ----------------- | ----- |\n");
            } else {
                output.append("| Name | Last&nbsp;updated | Stars |\n");
                output.append("| ---- | ----------------- | ----- |\n");
            }
            let ghost header = output@;
            let mut i: usize = 0;
            while i < rows.len()
                invariant
                    i <= rows@.len(),
                    header == table_header(show_description),
                    output@ == header + rows_text(rows@.take(i as int), show_description),
                decreases rows@.len() - i,
            {
                let ghost prev = output@;
                if rows[i].name.is_some() {
                    let line = row_to_str(&rows[i], show_description);
                    output.append(line.as_str());
                }
                proof {
                    let t = rows@.take(i + 1);
                    assert(t.drop_last() =~= rows@.take(i as int));
                    assert(t.last() == rows@[i as int]);
                    if rows@[i as int].name is None {
                        assert(output@ =~= prev + Seq::<char>::empty());
                    }
                }
                i = i + 1;
            }
            proof {
                assert(rows@.take(rows@.len() as int) =~= rows@);
            }
        },
        None => {},
    }
    output
}

/// Whether the list helper shows descriptions: yes unless its third
/// parameter is given as `false`. `param` is the parameter, when given, as
/// a boolean when it is one.
pub fn shows_description(param: Option<Option<bool>>) -> (show: bool)
    ensures
        show == match param {
            None => true,
            Some(None) => true,
            Some(Some(b)) => b,
        },
{
    match param {
        None => true,
        Some(value) => match value {
            Some(b) => b,
            None => true,
        },
    }
}

/// What the `resourceList` helper writes: the table of active resources,
/// then, when the inactive list gives a non-empty table, that table folded
/// under "Older resources".
pub fn resource_list(
    active: &Option<Vec<ResourceRow>>,
    inactive: &Option<Vec<ResourceRow>>,
    show_description: bool,
) -> (s: String)
    ensures
        s@ == list_text(
            rows_of(*active),
            rows_of(*inactive),
            show_description,
        ),
{
    let mut output = resources_to_str(active, show_description);
    let older = resources_to_str(inactive, show_description);
    let ghost first = output@;
    if older.unicode_len() > 0 {
        output.append("\n### Older resources\n\n<details>\n  <summary>Click to expand</summary>\n\n");
        output.append(older.as_str());
        output.append("\n\n</details>");
    } else {
        proof {
            assert(output@ =~= first + Seq::<char>::empty());
        }
    }
    output
}

/// What the `resourceCount` helper writes: the number of active and inactive
/// resources together, counting a list only when the value is one
/// (`active_len` and `inactive_len` are the list lengths).
pub fn resource_count(active_len: Option<usize>, inactive_len: Option<usize>) -> (s: String)
    ensures
        s@ == decimal((active_len.unwrap_or(0) + inactive_len.unwrap_or(0)) as nat),
{
    let mut count: u128 = 0;
    if let Some(n) = active_len {
        count = count + n as u128;
    }
    if let Some(n) = inactive_len {
        count = count + n as u128;
    }
    decimal_u128(count)
}

} // verus!
