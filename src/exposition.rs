//! OpenMetrics text: family headers, sample lines and family blocks.
use vstd::prelude::*;
use vstd::string::StringExecFns;

use crate::models::opt_text;

verus! {

/// One sample of a family before rendering: its label text, and its value
/// text when the record has one.
pub type Row = (String, Option<String>);

/// The text of a row.
pub open spec fn row_view(r: Row) -> (Seq<char>, Option<Seq<char>>) {
    (r.0@, opt_text(r.1))
}

/// The text of an optional unit.
pub open spec fn unit_view(u: Option<&str>) -> Option<Seq<char>> {
    match u {
        Some(s) => Some(s@),
        None => None,
    }
}

/// The escaped form of one character of a label value: backslash, double
/// quote and line feed become `\\`, `\"` and `\n`.
pub open spec fn escape_char(c: char) -> Seq<char> {
    if c == '\\' {
        seq!['\\', '\\']
    } else if c == '"' {
        seq!['\\', '"']
    } else if c == '\n' {
        seq!['\\', 'n']
    } else {
        seq![c]
    }
}

/// A label value escaped as OpenMetrics requires.
pub open spec fn escape_label(v: Seq<char>) -> Seq<char>
    decreases v.len(),
{
    if v.len() == 0 {
        Seq::empty()
    } else {
        escape_label(v.drop_last()) + escape_char(v.last())
    }
}

/// The text holds no line feed.
pub open spec fn single_line(t: Seq<char>) -> bool {
    forall|i: int| 0 <= i < t.len() ==> t[i] != '\n'
}

/// Joining two texts without line feeds gives one without.
pub proof fn lemma_single_line_concat(a: Seq<char>, b: Seq<char>)
    requires
        single_line(a),
        single_line(b),
    ensures
        single_line(a + b),
{
    assert forall|i: int| 0 <= i < (a + b).len() implies (a + b)[i] != '\n' by {
        if i < a.len() {
            assert((a + b)[i] == a[i]);
        } else {
            assert((a + b)[i] == b[i - a.len()]);
        }
    }
}

/// An escaped label value holds no line feed, so it never splits a line.
pub proof fn lemma_escaped_has_no_line_feed(v: Seq<char>)
    ensures
        single_line(escape_label(v)),
    decreases v.len(),
{
    if v.len() > 0 {
        lemma_escaped_has_no_line_feed(v.drop_last());
        let p = escape_label(v.drop_last());
        let e = escape_char(v.last());
        assert forall|i: int| 0 <= i < escape_label(v).len() implies escape_label(v)[i] != '\n' by {
            if i >= p.len() {
                assert(escape_label(v)[i] == e[i - p.len()]);
            } else {
                assert(escape_label(v)[i] == p[i]);
            }
        }
    }
}

/// Appends `v` escaped as a label value.
pub fn push_escaped(out: &mut String, v: &str)
    ensures
        final(out)@ == old(out)@ + escape_label(v@),
{
    let n = v.unicode_len();
    let mut i: usize = 0;
    while i < n
        invariant
            i <= n,
            n == v@.len(),
            out@ == old(out)@ + escape_label(v@.take(i as int)),
        decreases n - i,
    {
        assert(v@.take(i as int + 1).drop_last() =~= v@.take(i as int));
        let c = v.get_char(i);
        if c == '\\' {
            out.append("\\\\");
            proof { reveal_strlit("\\\\"); }
            assert("\\\\"@ =~= seq!['\\', '\\']);
        } else if c == '"' {
            out.append("\\\"");
            proof { reveal_strlit("\\\""); }
            assert("\\\""@ =~= seq!['\\', '"']);
        } else if c == '\n' {
            out.append("\\n");
            proof { reveal_strlit("\\n"); }
            assert("\\n"@ =~= seq!['\\', 'n']);
        } else {
            let one = v.substring_char(i, i + 1);
            out.append(one);
            assert(one@ =~= seq![c]);
        }
        assert(out@ =~= old(out)@ + escape_label(v@.take(i as int + 1)));
        i = i + 1;
    }
    assert(v@.take(n as int) =~= v@);
}

/// The HELP, TYPE and, for a family with a unit, UNIT lines of a family.
pub open spec fn header_text(name: Seq<char>, help: Seq<char>, unit: Option<Seq<char>>) -> Seq<char> {
    "# HELP "@ + name + " "@ + help + "\n"@ + "# TYPE "@ + name + " gauge\n"@ + match unit {
        Some(u) => "# UNIT "@ + name + " "@ + u + "\n"@,
        None => Seq::empty(),
    }
}

/// One sample line: `name{labels} value`.
pub open spec fn sample_line(name: Seq<char>, labels: Seq<char>, value: Seq<char>) -> Seq<char> {
    name + "{"@ + labels + "} "@ + value + "\n"@
}

/// The sample line of a row, or nothing for a row without a value.
pub open spec fn row_text(name: Seq<char>, row: (Seq<char>, Option<Seq<char>>)) -> Seq<char> {
    match row.1 {
        Some(v) => sample_line(name, row.0, v),
        None => Seq::empty(),
    }
}

/// The sample lines of the rows that have a value, in order.
pub open spec fn samples_text(name: Seq<char>, rows: Seq<(Seq<char>, Option<Seq<char>>)>) -> Seq<char>
    decreases rows.len(),
{
    if rows.len() == 0 {
        Seq::empty()
    } else {
        samples_text(name, rows.drop_last()) + row_text(name, rows.last())
    }
}

/// Some row has a value.
pub open spec fn any_present(rows: Seq<(Seq<char>, Option<Seq<char>>)>) -> bool {
    exists|i: int| 0 <= i < rows.len() && (#[trigger] rows[i]).1 is Some
}

/// A family's block: its header and sample lines when some row has a value,
/// and nothing at all otherwise.
pub open spec fn family_text(
    name: Seq<char>,
    help: Seq<char>,
    unit: Option<Seq<char>>,
    rows: Seq<(Seq<char>, Option<Seq<char>>)>,
) -> Seq<char> {
    if any_present(rows) {
        header_text(name, help, unit) + samples_text(name, rows)
    } else {
        Seq::empty()
    }
}

/// Appends the block of a family.
pub fn write_family(out: &mut String, name: &str, help: &str, unit: Option<&str>, rows: &Vec<Row>)
    ensures
        final(out)@ == old(out)@ + family_text(name@, help@, unit_view(unit), rows@.map_values(|r: Row| row_view(r))),
{
    let ghost rv = rows@.map_values(|r: Row| row_view(r));
    let mut samples = String::new();
    let mut any = false;
    let mut i: usize = 0;
    while i < rows.len()
        invariant
            i <= rows.len(),
            rv == rows@.map_values(|r: Row| row_view(r)),
            samples@ == samples_text(name@, rv.take(i as int)),
            any == any_present(rv.take(i as int)),
        decreases rows.len() - i,
    {
        assert(rv.take(i as int + 1).drop_last() =~= rv.take(i as int));
        assert(rv.take(i as int + 1).last() == rv[i as int]);
        match &rows[i].1 {
            Some(v) => {
                samples.append(name);
                samples.append("{");
                samples.append(rows[i].0.as_str());
                samples.append("} ");
                samples.append(v.as_str());
                samples.append("\n");
                any = true;
                assert(rv.take(i as int + 1)[i as int].1 is Some);
            },
            None => {
                assert(any_present(rv.take(i as int + 1)) == any_present(rv.take(i as int))) by {
                    if any_present(rv.take(i as int + 1)) {
                        let w = choose|w: int| 0 <= w < i + 1 && (#[trigger] rv.take(i as int + 1)[w]).1 is Some;
                        assert(rv.take(i as int)[w].1 is Some);
                    }
                    if any_present(rv.take(i as int)) {
                        let w = choose|w: int| 0 <= w < i && (#[trigger] rv.take(i as int)[w]).1 is Some;
                        assert(rv.take(i as int + 1)[w].1 is Some);
                    }
                }
            },
        }
        assert(samples@ =~= samples_text(name@, rv.take(i as int + 1)));
        i = i + 1;
    }
    assert(rv.take(i as int) =~= rv);
    if any {
        out.append("# HELP ");
        out.append(name);
        out.append(" ");
        out.append(help);
        out.append("\n");
        out.append("# TYPE ");
        out.append(name);
        out.append(" gauge\n");
        match unit {
            Some(u) => {
                out.append("# UNIT ");
                out.append(name);
                out.append(" ");
                out.append(u);
                out.append("\n");
            },
            None => {},
        }
        out.append(samples.as_str());
        assert(out@ =~= old(out)@ + family_text(name@, help@, unit_view(unit), rv));
    } else {
        assert(out@ =~= old(out)@ + family_text(name@, help@, unit_view(unit), rv));
    }
}

/// Index `j` starts a line of `t`.
pub open spec fn is_line_start(t: Seq<char>, j: int) -> bool {
    0 <= j < t.len() && (j == 0 || t[j - 1] == '\n')
}

/// A line starting at `j` is a metadata line (`# HELP`, `# TYPE`, `# UNIT`)
/// or a sample of a `unifi_` family.
pub open spec fn line_start_ok(t: Seq<char>, j: int) -> bool {
    ||| t[j] == 'u'
    ||| (j + 2 < t.len() && t[j] == '#' && t[j + 1] == ' ' && (t[j + 2] == 'H' || t[j + 2] == 'T' || t[j + 2]
        == 'U'))
}

/// `t` is whole lines, each a metadata line or a sample line.
pub open spec fn well_lined(t: Seq<char>) -> bool {
    &&& (t.len() == 0 || t.last() == '\n')
    &&& forall|j: int| #[trigger] is_line_start(t, j) ==> line_start_ok(t, j)
}

/// Whole lines followed by whole lines are whole lines.
pub proof fn lemma_well_lined_concat(a: Seq<char>, b: Seq<char>)
    requires
        well_lined(a),
        well_lined(b),
    ensures
        well_lined(a + b),
{
    let t = a + b;
    assert forall|j: int| #[trigger] is_line_start(t, j) implies line_start_ok(t, j) by {
        if j < a.len() {
            if j > 0 {
                assert(t[j - 1] == a[j - 1]);
            }
            assert(is_line_start(a, j));
            assert(t[j] == a[j]);
            if j + 2 < a.len() {
                assert(t[j + 1] == a[j + 1]);
                assert(t[j + 2] == a[j + 2]);
            }
        } else {
            let k = j - a.len();
            if k > 0 {
                assert(t[j - 1] == b[k - 1]);
            } else if j > 0 {
                assert(t[j - 1] == a[j - 1]);
            }
            assert(is_line_start(b, k));
            assert(t[j] == b[k]);
            if k + 2 < b.len() {
                assert(t[j + 1] == b[k + 1]);
                assert(t[j + 2] == b[k + 2]);
            }
        }
    }
    if b.len() == 0 {
        assert(t =~= a);
    } else {
        assert(t.last() == b.last());
    }
}

/// One line without a line feed inside, followed by a line feed, is whole.
pub proof fn lemma_one_line(l: Seq<char>)
    requires
        single_line(l),
        l.len() > 0,
        line_start_ok(l, 0),
    ensures
        well_lined(l + "\n"@),
{
    reveal_strlit("\n");
    let t = l + "\n"@;
    assert(t.last() == '\n');
    assert forall|j: int| #[trigger] is_line_start(t, j) implies line_start_ok(t, j) by {
        if j > 0 {
            assert(t[j - 1] == l[j - 1]);
        }
        assert(j == 0);
        assert(t[0] == l[0]);
        if 2 < l.len() {
            assert(t[1] == l[1]);
            assert(t[2] == l[2]);
        }
    }
}

/// The sample lines of a family whose name starts with `u` and holds no line
/// feed, with rows on one line each, are whole lines.
pub proof fn lemma_samples_well_lined(name: Seq<char>, rows: Seq<(Seq<char>, Option<Seq<char>>)>)
    requires
        single_line(name),
        name.len() > 0,
        name[0] == 'u',
        forall|i: int|
            0 <= i < rows.len() ==> single_line((#[trigger] rows[i]).0) && (rows[i].1 is Some ==> single_line(
                rows[i].1.unwrap(),
            )),
    ensures
        well_lined(samples_text(name, rows)),
    decreases rows.len(),
{
    if rows.len() > 0 {
        let init = rows.drop_last();
        assert forall|i: int| 0 <= i < init.len() implies single_line((#[trigger] init[i]).0) && (init[i].1 is Some
            ==> single_line(init[i].1.unwrap())) by {
            assert(init[i] == rows[i]);
        }
        lemma_samples_well_lined(name, init);
        let row = rows.last();
        assert(row == rows[rows.len() - 1]);
        match row.1 {
            Some(v) => {
                reveal_strlit("{");
                reveal_strlit("} ");
                lemma_literal_single_line("{");
                lemma_literal_single_line("} ");
                let mut l = name;
                lemma_single_line_concat(l, "{"@);
                l = l + "{"@;
                lemma_single_line_concat(l, row.0);
                l = l + row.0;
                lemma_single_line_concat(l, "} "@);
                l = l + "} "@;
                lemma_single_line_concat(l, v);
                l = l + v;
                assert(l[0] == name[0]);
                lemma_one_line(l);
                assert(row_text(name, row) =~= l + "\n"@);
            },
            None => {
                assert(row_text(name, row) =~= Seq::<char>::empty());
            },
        }
        lemma_well_lined_concat(samples_text(name, init), row_text(name, row));
    } else {
        assert(samples_text(name, rows) =~= Seq::<char>::empty());
    }
}

/// A literal without a line feed holds no line feed.
pub proof fn lemma_literal_single_line(t: &str)
    requires
        forall|i: int| 0 <= i < t@.len() ==> t@[i] != '\n',
    ensures
        single_line(t@),
{
}

/// A family's block is whole lines when its name starts with `u`, and its
/// name, help, unit and rows hold no line feed.
pub proof fn lemma_family_well_lined(
    name: Seq<char>,
    help: Seq<char>,
    unit: Option<Seq<char>>,
    rows: Seq<(Seq<char>, Option<Seq<char>>)>,
)
    requires
        single_line(name),
        name.len() > 0,
        name[0] == 'u',
        single_line(help),
        unit matches Some(u) ==> single_line(u),
        forall|i: int|
            0 <= i < rows.len() ==> single_line((#[trigger] rows[i]).0) && (rows[i].1 is Some ==> single_line(
                rows[i].1.unwrap(),
            )),
    ensures
        well_lined(family_text(name, help, unit, rows)),
{
    if any_present(rows) {
        reveal_strlit("# HELP ");
        reveal_strlit(" ");
        reveal_strlit("\n");
        reveal_strlit("# TYPE ");
        reveal_strlit(" gauge\n");
        reveal_strlit(" gauge");
        reveal_strlit("# UNIT ");
        lemma_literal_single_line("# HELP ");
        lemma_literal_single_line(" ");
        lemma_literal_single_line("# TYPE ");
        lemma_literal_single_line(" gauge");
        lemma_literal_single_line("# UNIT ");
        let mut l1 = "# HELP "@;
        lemma_single_line_concat(l1, name);
        l1 = l1 + name;
        lemma_single_line_concat(l1, " "@);
        l1 = l1 + " "@;
        lemma_single_line_concat(l1, help);
        l1 = l1 + help;
        lemma_one_line(l1);
        let mut l2 = "# TYPE "@;
        lemma_single_line_concat(l2, name);
        l2 = l2 + name;
        lemma_single_line_concat(l2, " gauge"@);
        l2 = l2 + " gauge"@;
        lemma_one_line(l2);
        assert(" gauge\n"@ =~= " gauge"@ + "\n"@);
        lemma_well_lined_concat(l1 + "\n"@, l2 + "\n"@);
        let u_text = match unit {
            Some(u) => "# UNIT "@ + name + " "@ + u + "\n"@,
            None => Seq::<char>::empty(),
        };
        match unit {
            Some(u) => {
                let mut l3 = "# UNIT "@;
                lemma_single_line_concat(l3, name);
                l3 = l3 + name;
                lemma_single_line_concat(l3, " "@);
                l3 = l3 + " "@;
                lemma_single_line_concat(l3, u);
                l3 = l3 + u;
                lemma_one_line(l3);
                assert(u_text =~= l3 + "\n"@);
            },
            None => {},
        }
        lemma_well_lined_concat((l1 + "\n"@) + (l2 + "\n"@), u_text);
        assert(header_text(name, help, unit) =~= (l1 + "\n"@) + (l2 + "\n"@) + u_text);
        lemma_samples_well_lined(name, rows);
        lemma_well_lined_concat(header_text(name, help, unit), samples_text(name, rows));
    } else {
        assert(family_text(name, help, unit, rows) =~= Seq::<char>::empty());
    }
}

} // verus!
