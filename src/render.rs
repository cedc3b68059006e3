use vstd::prelude::*;

verus! {

/// The text of a boxed table with these titles and rows: a border line, the
/// titles, a border line, one line per row and a closing border line. Lines
/// end the way the build of prettytable chooses ("\r\n" on Windows, "\n"
/// elsewhere), the same for every call.
pub uninterp spec fn boxed_table(titles: Seq<Seq<char>>, rows: Seq<Seq<Seq<char>>>) -> Seq<char>;

/// The character sequences of a list of strings.
pub open spec fn texts(v: Seq<String>) -> Seq<Seq<char>> {
    v.map_values(|s: String| s@)
}

/// No text holds the escape character, which prettytable takes as the start
/// of a terminal style sequence when it measures a cell.
pub open spec fn escape_free(v: Seq<Seq<char>>) -> bool {
    forall|i: int| 0 <= i < v.len() ==> !(#[trigger] v[i]).contains('\u{1b}')
}

/// Relies on `prettytable::Table` with the `FORMAT_NO_LINESEP_WITH_TITLE`
/// format, rendered by its `Display`: the result depends on the titles and
/// rows alone.
#[verifier::external_body]
/// Its width check on style sequences can fail on text with an escape
/// character, which is therefore left out.
pub(crate) fn render_box(titles: &Vec<String>, rows: &Vec<Vec<String>>) -> (r: String)
    requires
        escape_free(texts(titles@)),
        forall|i: int| 0 <= i < rows@.len() ==> escape_free(texts(#[trigger] rows@[i]@)),
    ensures
        r@ == boxed_table(texts(titles@), rows@.map_values(|row: Vec<String>| texts(row@))),
{
    let mut table = prettytable::Table::new();
    table.set_format(*prettytable::format::consts::FORMAT_NO_LINESEP_WITH_TITLE);
    table.set_titles(titles.iter().collect());
    for row in rows {
        table.add_row(row.iter().collect());
    }
    table.to_string()
}

} // verus!
