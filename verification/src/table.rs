use vstd::prelude::*;
use vstd::utf8::encode_utf8;

use crate::order::{index_ints, is_stable_key_order, key_views, stable_key_order};
use crate::paths::{components, components_exec};
use crate::text::{
    chars_of, join_sep, join_strings, lines, lines_exec, split_once, split_once_exec, str_eq, string_of,
    text_views, to_uppercase, trim, trim_vec, uppercase, views,
};

verus! {

/// The value of `key` in a `.properties` text: the first line `name=value`
/// whose trimmed name is `key`, its value trimmed; empty when none.
pub open spec fn property_from(ls: Seq<Seq<char>>, key: Seq<char>, i: int) -> Seq<char>
    decreases ls.len() - i,
{
    if i < 0 || i >= ls.len() {
        seq![]
    } else {
        match split_once(ls[i], "="@) {
            Some((name, value)) => if trim(name) == key { trim(value) } else { property_from(ls, key, i + 1) },
            None => property_from(ls, key, i + 1),
        }
    }
}

pub fn property_value(text: &str, key: &str) -> (r: String)
    ensures
        r@ == property_from(lines(text@), key@, 0),
{
    let ls = lines_exec(&chars_of(text));
    let k = chars_of(key);
    let eq = chars_of("=");
    let mut i: usize = 0;
    while i < ls.len()
        invariant
            i <= ls.len(),
            views(ls@) == lines(text@),
            k@ == key@,
            eq@ == "="@,
            property_from(views(ls@), k@, 0) == property_from(views(ls@), k@, i as int),
        decreases ls.len() - i,
    {
        assert(views(ls@)[i as int] == ls@[i as int]@);
        match split_once_exec(&ls[i], &eq) {
            Some((name, value)) => {
                if crate::text::eq_chars(&trim_vec(&name), &k) {
                    return string_of(&trim_vec(&value));
                }
            },
            None => {},
        }
        i = i + 1;
    }
    String::new()
}

/// The suite a tradefed jar belongs to: the first component of its path
/// that upper-cased is CTS, GTS or STS; `TEST` when none is.
pub open spec fn suite_in(cs: Seq<Seq<char>>, i: int) -> Seq<char>
    decreases cs.len() - i,
{
    if i < 0 || i >= cs.len() {
        "TEST"@
    } else {
        let u = uppercase(cs[i]);
        if u == "CTS"@ || u == "GTS"@ || u == "STS"@ { u } else { suite_in(cs, i + 1) }
    }
}

pub fn suite_of_path(path: &str) -> (r: String)
    ensures
        r@ == suite_in(components(path@), 0),
{
    let cs = components_exec(&chars_of(path));
    let mut i: usize = 0;
    while i < cs.len()
        invariant
            i <= cs.len(),
            views(cs@) == components(path@),
            suite_in(views(cs@), 0) == suite_in(views(cs@), i as int),
        decreases cs.len() - i,
    {
        assert(views(cs@)[i as int] == cs@[i as int]@);
        let u = to_uppercase(string_of(&cs[i]).as_str());
        if str_eq(u.as_str(), "CTS") || str_eq(u.as_str(), "GTS") || str_eq(u.as_str(), "STS") {
            return u;
        }
        i = i + 1;
    }
    "TEST".to_string()
}

/// The length of a text in UTF-8 bytes, as `str::len` counts.
pub open spec fn byte_len(s: Seq<char>) -> nat {
    encode_utf8(s).len()
}

/// The widest cell of column `c` among the rows, and the header.
pub open spec fn column_width(rows: Seq<Seq<Seq<char>>>, header: Seq<char>, c: int) -> nat
    decreases rows.len(),
{
    if rows.len() == 0 {
        byte_len(header)
    } else {
        let w = column_width(rows.drop_last(), header, c);
        let x = byte_len(rows.last()[c]);
        if x > w { x } else { w }
    }
}

/// `{:width$}`: padded with spaces to `w` characters.
pub open spec fn pad_to(s: Seq<char>, w: nat) -> Seq<char> {
    if s.len() < w { s + Seq::new((w - s.len()) as nat, |i: int| ' ') } else { s }
}

/// `│ a │ b │ c │` with each cell padded to its column's width.
pub open spec fn table_row(values: Seq<Seq<char>>, widths: Seq<nat>) -> Seq<char> {
    "│ "@ + join_sep(Seq::new(values.len(), |i: int| pad_to(values[i], widths[i])), " │ "@) + " │"@
}

pub open spec fn table_headers() -> Seq<Seq<char>> {
    seq!["Suite"@, "Version"@, "Build"@]
}

pub open spec fn table_widths(rows: Seq<Seq<Seq<char>>>) -> Seq<nat> {
    seq![
        column_width(rows, "Suite"@, 0),
        column_width(rows, "Version"@, 1),
        column_width(rows, "Build"@, 2),
    ]
}

pub open spec fn table_body(rows: Seq<Seq<Seq<char>>>, widths: Seq<nat>) -> Seq<char>
    decreases rows.len(),
{
    if rows.len() == 0 {
        seq![]
    } else {
        table_body(rows.drop_last(), widths) + "\n"@ + table_row(rows.last(), widths)
    }
}

/// The tools table: the header row, then a row per jar in sorted order.
pub open spec fn tools_table_text(sorted: Seq<Seq<Seq<char>>>, widths: Seq<nat>) -> Seq<char> {
    table_row(table_headers(), widths) + table_body(sorted, widths)
}

fn pad_exec(out: &mut String, s: &str, w: usize)
    ensures
        final(out)@ == old(out)@ + pad_to(s@, w as nat),
{
    out.append(s);
    let n = chars_of(s).len();
    let ghost base = old(out)@ + s@;
    if n < w {
        let mut k = n;
        while k < w
            invariant
                n <= k <= w,
                n == s@.len(),
                out@ == base + Seq::new((k - n) as nat, |i: int| ' '),
            decreases w - k,
        {
            crate::text::append_char(out, ' ');
            assert(Seq::new((k + 1 - n) as nat, |i: int| ' ') =~= Seq::new((k - n) as nat, |i: int| ' ').push(' '));
            k = k + 1;
        }
        assert(out@ =~= old(out)@ + pad_to(s@, w as nat));
    } else {
        assert(out@ =~= old(out)@ + pad_to(s@, w as nat));
    }
}

fn row_exec(out: &mut String, values: &Vec<String>, widths: &Vec<usize>)
    requires
        values.len() == 3,
        widths.len() == 3,
    ensures
        final(out)@ == old(out)@ + table_row(text_views(values@), widths@.map_values(|w: usize| w as nat)),
{
    let ghost vv = text_views(values@);
    let ghost wv = widths@.map_values(|w: usize| w as nat);
    let ghost cells = Seq::new(vv.len(), |i: int| pad_to(vv[i], wv[i]));
    let ghost start = out@;
    out.append("│ ");
    pad_exec(out, values[0].as_str(), widths[0]);
    out.append(" │ ");
    pad_exec(out, values[1].as_str(), widths[1]);
    out.append(" │ ");
    pad_exec(out, values[2].as_str(), widths[2]);
    out.append(" │");
    proof {
        assert(cells.len() == 3);
        assert(cells.take(1) =~= seq![cells[0]]);
        assert(cells.take(2).drop_last() =~= cells.take(1));
        assert(cells.take(3).drop_last() =~= cells.take(2));
        assert(cells.take(3) =~= cells);
        assert(join_sep(cells.take(1), " │ "@) == cells[0]);
        assert(join_sep(cells.take(2), " │ "@) == cells[0] + " │ "@ + cells[1]);
        assert(join_sep(cells, " │ "@) == cells[0] + " │ "@ + cells[1] + " │ "@ + cells[2]);
    }
    assert(out@ =~= start + table_row(vv, wv));
}

/// The tools table for the jars found (suite, version, build each), sorted
/// by suite, version and build, columns as wide as their widest cell.
pub fn tools_table(rows: &Vec<Vec<String>>) -> (r: String)
    requires
        forall|k: int| 0 <= k < rows.len() ==> (#[trigger] rows@[k]).len() == 3,
    ensures
        exists|p: Seq<int>| #[trigger] is_stable_key_order(key_views(rows@), p) && r@ == tools_table_text(
            Seq::new(rows.len() as nat, |k: int| key_views(rows@)[p[k]]),
            table_widths(key_views(rows@)),
        ),
{
    let ghost kv = key_views(rows@);
    let mut widths: Vec<usize> = vec!["Suite".as_bytes().len(), "Version".as_bytes().len(), "Build".as_bytes().len()];
    assert(widths@.map_values(|w: usize| w as nat) =~= table_widths(kv.take(0)));
    let mut i: usize = 0;
    while i < rows.len()
        invariant
            i <= rows.len(),
            kv == key_views(rows@),
            forall|k: int| 0 <= k < rows.len() ==> (#[trigger] rows@[k]).len() == 3,
            widths.len() == 3,
            widths@.map_values(|w: usize| w as nat) == table_widths(kv.take(i as int)),
        decreases rows.len() - i,
    {
        let ghost before = widths@;
        let mut c: usize = 0;
        while c < 3
            invariant
                c <= 3,
                i < rows.len(),
                rows@[i as int].len() == 3,
                widths.len() == 3,
                forall|d: int| 0 <= d < 3 ==> (#[trigger] widths@[d]) as nat == (if d < c {
                    let x = byte_len(kv[i as int][d]);
                    if x > before[d] as nat { x } else { before[d] as nat }
                } else {
                    before[d] as nat
                }),
                kv == key_views(rows@),
            decreases 3 - c,
        {
            let x = rows[i][c].as_str().as_bytes().len();
            assert(kv[i as int][c as int] == rows@[i as int]@[c as int]@);
            assert(x as nat == byte_len(kv[i as int][c as int]));
            assert(widths@[c as int] == before[c as int]);
            if x > widths[c] {
                widths.set(c, x);
            }
            c = c + 1;
        }
        proof {
            assert(kv.take(i + 1).drop_last() =~= kv.take(i as int));
            assert(kv.take(i + 1).last() == kv[i as int]);
            assert(widths@.map_values(|w: usize| w as nat) =~= table_widths(kv.take(i + 1)));
        }
        i = i + 1;
    }
    assert(kv.take(rows.len() as int) =~= kv);
    let p = stable_key_order(rows);
    let headers = vec!["Suite".to_string(), "Version".to_string(), "Build".to_string()];
    let mut out = String::new();
    row_exec(&mut out, &headers, &widths);
    assert(text_views(headers@) =~= table_headers());
    let ghost sorted = Seq::new(rows.len() as nat, |k: int| kv[index_ints(p@)[k]]);
    let mut k: usize = 0;
    while k < p.len()
        invariant
            k <= p.len() == rows.len(),
            kv == key_views(rows@),
            forall|q: int| 0 <= q < rows.len() ==> (#[trigger] rows@[q]).len() == 3,
            is_stable_key_order(kv, index_ints(p@)),
            sorted == Seq::new(rows.len() as nat, |k: int| kv[index_ints(p@)[k]]),
            widths.len() == 3,
            out@ == tools_table_text(sorted.take(k as int), widths@.map_values(|w: usize| w as nat)),
        decreases p.len() - k,
    {
        assert(index_ints(p@)[k as int] == p@[k as int] as int);
        out.append("\n");
        row_exec(&mut out, &rows[p[k]], &widths);
        proof {
            assert(sorted.take(k + 1).drop_last() =~= sorted.take(k as int));
            assert(sorted.take(k + 1).last() == text_views(rows@[p@[k as int] as int]@));
        }
        k = k + 1;
    }
    assert(sorted.take(p.len() as int) =~= sorted);
    out
}

} // verus!
