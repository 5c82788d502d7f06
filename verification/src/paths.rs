use vstd::prelude::*;

use crate::text::{chars_of, eq_chars, slice_vec, split_char, split_char_exec, string_of, views};

verus! {

/// `PathBuf::push` on Unix: an absolute `rel` replaces `base`; otherwise a
/// `/` is put between them unless `base` is empty or already ends in `/`.
pub open spec fn join(base: Seq<char>, rel: Seq<char>) -> Seq<char> {
    if rel.len() > 0 && rel[0] == '/' {
        rel
    } else if base.len() == 0 || base.last() == '/' {
        base + rel
    } else {
        base + seq!['/'] + rel
    }
}

pub fn join_exec(base: &Vec<char>, rel: &Vec<char>) -> (r: Vec<char>)
    ensures
        r@ == join(base@, rel@),
{
    if rel.len() > 0 && rel[0] == '/' {
        return slice_vec(rel, 0, rel.len());
    }
    let mut r = slice_vec(base, 0, base.len());
    if !(base.len() == 0 || base[base.len() - 1] == '/') {
        r.push('/');
    }
    let mut i: usize = 0;
    let ghost start = r@;
    while i < rel.len()
        invariant
            i <= rel.len(),
            r@ == start + rel@.take(i as int),
        decreases rel.len() - i,
    {
        r.push(rel[i]);
        assert(rel@.take(i + 1) =~= rel@.take(i as int).push(rel@[i as int]));
        i = i + 1;
    }
    assert(rel@.take(rel.len() as int) =~= rel@);
    assert(base@.subrange(0, base@.len() as int) =~= base@);
    r
}

/// Joins a path given as text with a relative part, both as strings.
pub fn join_str(base: &str, rel: &str) -> (r: String)
    ensures
        r@ == join(base@, rel@),
{
    let b = chars_of(base);
    let p = chars_of(rel);
    string_of(&join_exec(&b, &p))
}

} // verus!

verus! {

pub open spec fn dot() -> Seq<char> {
    seq!['.']
}

pub open spec fn root_text() -> Seq<char> {
    seq!['/']
}

/// The segments that stand as ordinary components: none empty, none `.`.
pub open spec fn kept_segments(segs: Seq<Seq<char>>) -> Seq<Seq<char>>
    decreases segs.len(),
{
    if segs.len() == 0 {
        seq![]
    } else {
        let rest = kept_segments(segs.drop_last());
        let s = segs.last();
        if s.len() == 0 || s == dot() {
            rest
        } else {
            rest.push(s)
        }
    }
}

/// `Path::components` on Unix, each component as its text: `/` for the root,
/// `.` only as the first component of a relative path, `..` and names as written.
pub open spec fn components(p: Seq<char>) -> Seq<Seq<char>> {
    let segs = split_char(p, '/');
    if p.len() > 0 && p[0] == '/' {
        seq![root_text()] + kept_segments(segs)
    } else if segs[0] == dot() {
        seq![dot()] + kept_segments(segs)
    } else {
        kept_segments(segs)
    }
}

/// A component that names a file or directory (not the root, `.` or `..`).
pub open spec fn is_normal(c: Seq<char>) -> bool {
    c != root_text() && c != dot() && c != seq!['.', '.']
}

/// `Path::file_name`.
pub open spec fn file_name(p: Seq<char>) -> Option<Seq<char>> {
    let c = components(p);
    if c.len() > 0 && is_normal(c.last()) {
        Some(c.last())
    } else {
        None
    }
}

/// `Path::extension`: after the last `.` of the file name, unless that dot
/// opens the name.
pub open spec fn extension(p: Seq<char>) -> Option<Seq<char>> {
    match file_name(p) {
        None => None,
        Some(name) => {
            let k = last_index_of(name, '.', name.len() as int);
            if k <= 0 {
                None
            } else {
                Some(name.skip(k + 1))
            }
        },
    }
}

/// The last index before `j` holding `c`, or -1.
pub open spec fn last_index_of(s: Seq<char>, c: char, j: int) -> int
    decreases j,
{
    if j <= 0 || j > s.len() {
        -1
    } else if s[j - 1] == c {
        j - 1
    } else {
        last_index_of(s, c, j - 1)
    }
}

/// `path.parent().and_then(Path::file_name)`: the name of the directory
/// that holds the last component.
pub open spec fn parent_name(p: Seq<char>) -> Option<Seq<char>> {
    let c = components(p);
    if c.len() >= 2 && c.last() != root_text() && is_normal(c[c.len() - 2]) {
        Some(c[c.len() - 2])
    } else {
        None
    }
}

/// `Path::strip_prefix`: the components left once `base`'s components are matched.
pub open spec fn strip_components(p: Seq<char>, base: Seq<char>) -> Option<Seq<Seq<char>>> {
    let cp = components(p);
    let cb = components(base);
    if cb.len() <= cp.len() && cp.take(cb.len() as int) == cb {
        Some(cp.skip(cb.len() as int))
    } else {
        None
    }
}

/// Texts joined with `/` between them.
pub open spec fn join_with_slash(parts: Seq<Seq<char>>) -> Seq<char>
    decreases parts.len(),
{
    if parts.len() == 0 {
        seq![]
    } else if parts.len() == 1 {
        parts[0]
    } else {
        join_with_slash(parts.drop_last()) + root_text() + parts.last()
    }
}

pub fn kept_segments_exec(segs: &Vec<Vec<char>>) -> (r: Vec<Vec<char>>)
    ensures
        views(r@) == kept_segments(views(segs@)),
{
    let mut r: Vec<Vec<char>> = Vec::new();
    let mut i: usize = 0;
    let d = vec!['.'];
    assert(d@ =~= dot());
    while i < segs.len()
        invariant
            i <= segs.len(),
            d@ == dot(),
            views(r@) == kept_segments(views(segs@).take(i as int)),
        decreases segs.len() - i,
    {
        assert(views(segs@).take(i + 1).drop_last() =~= views(segs@).take(i as int));
        assert(views(segs@).take(i + 1).last() == segs@[i as int]@);
        if !(segs[i].len() == 0 || eq_chars(&segs[i], &d)) {
            let s = slice_vec(&segs[i], 0, segs[i].len());
            assert(s@ =~= segs@[i as int]@);
            r.push(s);
        }
        assert(views(r@) =~= kept_segments(views(segs@).take(i + 1)));
        i = i + 1;
    }
    assert(views(segs@).take(segs.len() as int) =~= views(segs@));
    r
}

pub fn components_exec(p: &Vec<char>) -> (r: Vec<Vec<char>>)
    ensures
        views(r@) == components(p@),
{
    let segs = split_char_exec(p, '/');
    let kept = kept_segments_exec(&segs);
    let d = vec!['.'];
    assert(d@ =~= dot());
    let mut r: Vec<Vec<char>> = Vec::new();
    assert(views(segs@)[0] == segs@[0]@);
    if p.len() > 0 && p[0] == '/' {
        let root = vec!['/'];
        assert(root@ =~= root_text());
        r.push(root);
    } else if eq_chars(&segs[0], &d) {
        r.push(d);
    }
    let ghost start = r@;
    let mut i: usize = 0;
    while i < kept.len()
        invariant
            i <= kept.len(),
            views(r@) == views(start) + views(kept@).take(i as int),
        decreases kept.len() - i,
    {
        let s = slice_vec(&kept[i], 0, kept[i].len());
        assert(s@ =~= kept@[i as int]@);
        assert(views(kept@)[i as int] == kept@[i as int]@);
        let ghost before = r@;
        r.push(s);
        assert(views(r@) =~= views(before).push(s@));
        assert(views(r@) =~= views(start) + views(kept@).take(i + 1));
        i = i + 1;
    }
    assert(views(kept@).take(kept.len() as int) =~= views(kept@));
    assert(views(r@) =~= components(p@));
    r
}

pub fn is_normal_exec(c: &Vec<char>) -> (r: bool)
    ensures
        r == is_normal(c@),
{
    let root = vec!['/'];
    let d = vec!['.'];
    let dd = vec!['.', '.'];
    assert(root@ =~= root_text());
    assert(d@ =~= dot());
    assert(dd@ =~= seq!['.', '.']);
    !eq_chars(c, &root) && !eq_chars(c, &d) && !eq_chars(c, &dd)
}

pub fn file_name_exec(p: &Vec<char>) -> (r: Option<Vec<char>>)
    ensures
        match r {
            Some(n) => file_name(p@) == Some(n@),
            None => file_name(p@) is None,
        },
{
    let c = components_exec(p);
    if c.len() > 0 && is_normal_exec(&c[c.len() - 1]) {
        assert(views(c@).last() == c@[c.len() - 1]@);
        Some(slice_vec(&c[c.len() - 1], 0, c[c.len() - 1].len()))
    } else {
        proof {
            if c.len() > 0 {
                assert(views(c@).last() == c@[c.len() - 1]@);
            }
        }
        None
    }
}

pub fn extension_exec(p: &Vec<char>) -> (r: Option<Vec<char>>)
    ensures
        match r {
            Some(e) => extension(p@) == Some(e@),
            None => extension(p@) is None,
        },
{
    match file_name_exec(p) {
        None => None,
        Some(name) => {
            let mut j = name.len();
            while j > 0 && name[j - 1] != '.'
                invariant
                    j <= name.len(),
                    last_index_of(name@, '.', name.len() as int) == last_index_of(name@, '.', j as int),
                decreases j,
            {
                j = j - 1;
            }
            if j <= 1 {
                None
            } else {
                Some(slice_vec(&name, j, name.len()))
            }
        },
    }
}

pub open spec fn zip_ext(e: Seq<char>) -> bool {
    e.len() == 3 && (e[0] == 'z' || e[0] == 'Z') && (e[1] == 'i' || e[1] == 'I') && (e[2] == 'p' || e[2] == 'P')
}

/// Whether a path names a `.zip` file, the extension compared without ASCII case.
pub fn is_zip_file(path: &str) -> (r: bool)
    ensures
        r == (extension(path@) matches Some(e) && zip_ext(e)),
{
    match extension_exec(&chars_of(path)) {
        None => false,
        Some(e) => e.len() == 3 && (e[0] == 'z' || e[0] == 'Z') && (e[1] == 'i' || e[1] == 'I') && (e[2] == 'p' || e[2] == 'P'),
    }
}

pub fn parent_name_exec(p: &Vec<char>) -> (r: Option<Vec<char>>)
    ensures
        match r {
            Some(n) => parent_name(p@) == Some(n@),
            None => parent_name(p@) is None,
        },
{
    let c = components_exec(p);
    let root = vec!['/'];
    assert(root@ =~= root_text());
    if c.len() >= 2 {
        assert(views(c@).last() == c@[c.len() - 1]@);
        assert(views(c@)[c.len() - 2] == c@[c.len() - 2]@);
        if !eq_chars(&c[c.len() - 1], &root) && is_normal_exec(&c[c.len() - 2]) {
            return Some(slice_vec(&c[c.len() - 2], 0, c[c.len() - 2].len()));
        }
    }
    None
}

pub fn join_with_slash_exec(parts: &Vec<Vec<char>>) -> (r: Vec<char>)
    ensures
        r@ == join_with_slash(views(parts@)),
{
    let mut r: Vec<char> = Vec::new();
    let mut i: usize = 0;
    while i < parts.len()
        invariant
            i <= parts.len(),
            r@ == join_with_slash(views(parts@).take(i as int)),
        decreases parts.len() - i,
    {
        let ghost before = r@;
        assert(views(parts@).take(i + 1).drop_last() =~= views(parts@).take(i as int));
        assert(views(parts@).take(i + 1).last() == parts@[i as int]@);
        if i > 0 {
            r.push('/');
        }
        let mut k: usize = 0;
        let ghost mid = r@;
        while k < parts[i].len()
            invariant
                i < parts.len(),
                k <= parts@[i as int].len(),
                r@ == mid + parts@[i as int]@.take(k as int),
            decreases parts@[i as int].len() - k,
        {
            r.push(parts[i][k]);
            assert(parts@[i as int]@.take(k + 1) =~= parts@[i as int]@.take(k as int).push(parts@[i as int]@[k as int]));
            k = k + 1;
        }
        assert(parts@[i as int]@.take(parts@[i as int].len() as int) =~= parts@[i as int]@);
        proof {
            if i == 0 {
                assert(views(parts@).take(1) =~= seq![parts@[0]@]);
            }
        }
        assert(r@ =~= join_with_slash(views(parts@).take(i + 1)));
        i = i + 1;
    }
    assert(views(parts@).take(parts.len() as int) =~= views(parts@));
    r
}

/// The id of a result directory: its path below the extraction root, by
/// components joined with `/` (the whole path where it is not below the root).
pub open spec fn result_id(root: Seq<char>, dir: Seq<char>) -> Seq<char> {
    match strip_components(dir, root) {
        Some(rest) => join_with_slash(rest),
        None => join_with_slash(components(dir)),
    }
}

pub fn laundry_result_id(root: &str, result_dir: &str) -> (r: String)
    ensures
        r@ == result_id(root@, result_dir@),
{
    let cp = components_exec(&chars_of(result_dir));
    let cb = components_exec(&chars_of(root));
    let mut prefix = cb.len() <= cp.len();
    let mut i: usize = 0;
    while prefix && i < cb.len()
        invariant
            i <= cb.len(),
            prefix ==> cb.len() <= cp.len(),
            prefix ==> forall|k: int| 0 <= k < i ==> views(cp@)[k] == views(cb@)[k],
            !prefix ==> !(cb.len() <= cp.len() && views(cp@).take(cb.len() as int) == views(cb@)),
        decreases cb.len() - i,
    {
        assert(views(cp@)[i as int] == cp@[i as int]@);
        assert(views(cb@)[i as int] == cb@[i as int]@);
        if !eq_chars(&cp[i], &cb[i]) {
            prefix = false;
            assert(views(cp@).take(cb.len() as int)[i as int] == views(cp@)[i as int]);
        }
        i = i + 1;
    }
    let ghost vcp = views(cp@);
    let ghost vcb = views(cb@);
    if prefix {
        assert(vcp.take(cb.len() as int) =~= vcb);
        let mut rest: Vec<Vec<char>> = Vec::new();
        let mut k = cb.len();
        while k < cp.len()
            invariant
                cb.len() <= k <= cp.len(),
                views(rest@) == vcp.subrange(cb.len() as int, k as int),
                vcp == views(cp@),
            decreases cp.len() - k,
        {
            let piece = slice_vec(&cp[k], 0, cp[k].len());
            assert(piece@ =~= cp@[k as int]@);
            assert(vcp[k as int] == cp@[k as int]@);
            let ghost before = rest@;
            rest.push(piece);
            assert(views(rest@) =~= views(before).push(piece@));
            assert(views(rest@) =~= vcp.subrange(cb.len() as int, k + 1));
            k = k + 1;
        }
        assert(vcp.subrange(cb.len() as int, cp.len() as int) =~= vcp.skip(cb.len() as int));
        string_of(&join_with_slash_exec(&rest))
    } else {
        string_of(&join_with_slash_exec(&cp))
    }
}

} // verus!
