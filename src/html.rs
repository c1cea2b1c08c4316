use vstd::prelude::*;
use vstd::string::*;

verus! {

/// The texts `items`, each between `open` and `close`, one after another.
pub open spec fn wrapped_all(open: Seq<char>, items: Seq<Seq<char>>, close: Seq<char>) -> Seq<char>
    decreases items.len(),
{
    if items.len() == 0 {
        Seq::empty()
    } else {
        wrapped_all(open, items.drop_last(), close) + open + items.last() + close
    }
}

/// The texts `items` separated by `sep`.
pub open spec fn joined(items: Seq<Seq<char>>, sep: Seq<char>) -> Seq<char>
    decreases items.len(),
{
    if items.len() == 0 {
        Seq::empty()
    } else if items.len() == 1 {
        items[0]
    } else {
        joined(items.drop_last(), sep) + sep + items.last()
    }
}

/// The opening tag of the table, with its class names if there are any.
pub open spec fn table_open(classes: Seq<Seq<char>>) -> Seq<char> {
    if classes.len() == 0 {
        "<table>"@
    } else {
        "<table class=\""@ + joined(classes, " "@) + "\">"@
    }
}

/// The rows `rows`, each as `<tr>` with its cells as `<td>`.
pub open spec fn body_rows(rows: Seq<Seq<Seq<char>>>) -> Seq<char>
    decreases rows.len(),
{
    if rows.len() == 0 {
        Seq::empty()
    } else {
        body_rows(rows.drop_last()) + "<tr>"@ + wrapped_all("<td>"@, rows.last(), "</td>"@)
            + "</tr>"@
    }
}

/// The number of rows shown: all of them, or at most `max_rows`.
pub open spec fn shown_rows(n: int, max_rows: Option<usize>) -> int {
    match max_rows {
        Some(m) => if m < n {
            m as int
        } else {
            n
        },
        None => n,
    }
}

/// An HTML table of the column names and the first rows of a result; the
/// empty text when there is no result at all.
pub open spec fn html_table(
    columns: Option<Seq<Seq<char>>>,
    rows: Seq<Seq<Seq<char>>>,
    max_rows: Option<usize>,
    classes: Seq<Seq<char>>,
) -> Seq<char> {
    match columns {
        None => Seq::empty(),
        Some(cs) => table_open(classes) + "<thead><tr>"@ + wrapped_all("<th>"@, cs, "</th>"@)
            + "</tr></thead>"@ + "<tbody>"@ + body_rows(rows.take(shown_rows(rows.len() as int, max_rows)))
            + "</tbody>"@ + "</table>"@,
    }
}

fn append_wrapped(out: &mut String, open: &str, items: &Vec<String>, close: &str)
    ensures
        final(out)@ == old(out)@ + wrapped_all(open@, items.deep_view(), close@),
{
    let ghost start = out@;
    let mut i: usize = 0;
    while i < items.len()
        invariant
            i <= items.len(),
            out@ == start + wrapped_all(open@, items.deep_view().take(i as int), close@),
        decreases items.len() - i,
    {
        let ghost t = items.deep_view().take(i as int + 1);
        out.append(open);
        out.append(items[i].as_str());
        out.append(close);
        proof {
            assert(t.drop_last() == items.deep_view().take(i as int));
            assert(t.last() == items[i as int]@);
            assert(out@ =~= start + wrapped_all(open@, t, close@));
        }
        i = i + 1;
    }
    proof {
        assert(items.deep_view().take(i as int) == items.deep_view());
    }
}

fn append_joined(out: &mut String, items: &Vec<String>, sep: &str)
    ensures
        final(out)@ == old(out)@ + joined(items.deep_view(), sep@),
{
    let ghost start = out@;
    let mut i: usize = 0;
    while i < items.len()
        invariant
            i <= items.len(),
            out@ == start + joined(items.deep_view().take(i as int), sep@),
        decreases items.len() - i,
    {
        let ghost t = items.deep_view().take(i as int + 1);
        proof {
            assert(t.drop_last() == items.deep_view().take(i as int));
            assert(t.last() == items[i as int]@);
        }
        if i > 0 {
            out.append(sep);
        } else {
            assert(joined(items.deep_view().take(0), sep@) =~= Seq::<char>::empty());
        }
        out.append(items[i].as_str());
        proof {
            assert(out@ =~= start + joined(t, sep@));
        }
        i = i + 1;
    }
    proof {
        assert(items.deep_view().take(i as int) == items.deep_view());
    }
}

/// Renders a result as an HTML table: the column names as the head, then at
/// most `max_rows` rows. `columns` is `None` when there is no result.
pub fn create_html_table(
    columns: Option<&Vec<String>>,
    rows: &Vec<Vec<String>>,
    max_rows: Option<usize>,
    table_class_names: &Vec<String>,
) -> (r: String)
    ensures
        r@ == html_table(
            match columns {
                Some(c) => Some(c.deep_view()),
                None => None,
            },
            rows.deep_view(),
            max_rows,
            table_class_names.deep_view(),
        ),
{
    let cs = match columns {
        None => {
            return String::new();
        },
        Some(c) => c,
    };
    proof {
        reveal_strlit("<table>");
        reveal_strlit("<table class=\"");
        reveal_strlit("\">");
    }
    let mut html = if table_class_names.len() == 0 {
        String::from_str("<table>")
    } else {
        let mut h = String::from_str("<table class=\"");
        append_joined(&mut h, table_class_names, " ");
        h.append("\">");
        h
    };
    html.append("<thead><tr>");
    append_wrapped(&mut html, "<th>", cs, "</th>");
    html.append("</tr></thead>");
    html.append("<tbody>");
    let shown = match max_rows {
        Some(m) => if m < rows.len() {
            m
        } else {
            rows.len()
        },
        None => rows.len(),
    };
    let ghost head = html@;
    let mut i: usize = 0;
    while i < shown
        invariant
            shown <= rows.len(),
            shown == shown_rows(rows@.len() as int, max_rows),
            i <= shown,
            html@ == head + body_rows(rows.deep_view().take(i as int)),
        decreases shown - i,
    {
        let ghost t = rows.deep_view().take(i as int + 1);
        let ghost before = html@;
        html.append("<tr>");
        append_wrapped(&mut html, "<td>", &rows[i], "</td>");
        html.append("</tr>");
        proof {
            assert(t.drop_last() == rows.deep_view().take(i as int));
            assert(t.last() == rows[i as int].deep_view());
            assert(html@ =~= head + body_rows(t));
        }
        i = i + 1;
    }
    html.append("</tbody>");
    html.append("</table>");
    html
}

} // verus!
