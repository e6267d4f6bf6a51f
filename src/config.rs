use vstd::prelude::*;

verus! {

/// A line without the carriage return of a `\r\n` line end.
pub open spec fn strip_cr(line: Seq<char>) -> Seq<char> {
    if line.len() > 0 && line.last() == '\r' {
        line.drop_last()
    } else {
        line
    }
}

/// The lines of `text` from the one that starts at `start`, scanning on
/// from `i`: each ends at a newline, which is dropped with a carriage
/// return before it; the last line end is optional.
pub open spec fn lines_from(text: Seq<char>, start: int, i: int) -> Seq<Seq<char>>
    decreases text.len() - i,
{
    if i < 0 || i >= text.len() {
        if 0 <= start < text.len() {
            seq![text.subrange(start, text.len() as int)]
        } else {
            Seq::empty()
        }
    } else if text[i] == '\n' {
        seq![strip_cr(text.subrange(start, i))] + lines_from(text, i + 1, i + 1)
    } else {
        lines_from(text, start, i + 1)
    }
}

/// The lines of a text, split as `str::lines` splits them.
pub open spec fn lines_of(text: Seq<char>) -> Seq<Seq<char>> {
    lines_from(text, 0, 0)
}

fn strip_line(text: &str, start: usize, end: usize) -> (r: String)
    requires
        start <= end <= text@.len(),
    ensures
        r@ == strip_cr(text@.subrange(start as int, end as int)),
{
    let mut e = end;
    if end > start && text.get_char(end - 1) == '\r' {
        e = end - 1;
        assert(text@.subrange(start as int, end as int).drop_last() =~= text@.subrange(start as int, e as int));
    }
    text.substring_char(start, e).to_owned()
}

/// Splits a text into lines: at each `\n`, dropping a `\r` just before
/// it; a text that ends with a line end has no empty last line.
pub fn text_lines(text: &str) -> (r: Vec<String>)
    ensures
        r@.map_values(|l: String| l@) == lines_of(text@),
{
    let n = text.unicode_len();
    let mut out: Vec<String> = Vec::new();
    let mut start: usize = 0;
    let mut i: usize = 0;
    while i < n
        invariant
            n == text@.len(),
            0 <= start <= i <= n,
            out@.map_values(|l: String| l@) + lines_from(text@, start as int, i as int) == lines_of(text@),
        decreases n - i,
    {
        if text.get_char(i) == '\n' {
            let line = strip_line(text, start, i);
            let ghost before = out@.map_values(|l: String| l@);
            let ghost rest = lines_from(text@, i + 1, i + 1);
            out.push(line);
            assert(out@.map_values(|l: String| l@) =~= before.push(line@));
            assert(before + (seq![line@] + rest) =~= before.push(line@) + rest);
            start = i + 1;
        }
        i = i + 1;
    }
    if start < n {
        let ghost before = out@.map_values(|l: String| l@);
        out.push(text.substring_char(start, n).to_owned());
        assert(out@.map_values(|l: String| l@) =~= before.push(text@.subrange(start as int, n as int)));
    } else {
        assert(out@.map_values(|l: String| l@) + Seq::<Seq<char>>::empty() =~= out@.map_values(|l: String| l@));
    }
    out
}

/// A line names a mirror unless it is empty or a comment.
pub open spec fn is_mirror_line(line: Seq<char>) -> bool {
    line.len() > 0 && line[0] != '#'
}

/// The mirror lines among `lines`, in their order.
pub open spec fn mirror_lines(lines: Seq<Seq<char>>) -> Seq<Seq<char>>
    decreases lines.len(),
{
    if lines.len() == 0 {
        Seq::empty()
    } else {
        let prev = mirror_lines(lines.drop_last());
        if is_mirror_line(lines.last()) {
            prev.push(lines.last())
        } else {
            prev
        }
    }
}

/// The mirrors that configuration files name: the mirror lines of each
/// file in turn.
pub open spec fn configured_mirrors(files: Seq<Seq<char>>) -> Seq<Seq<char>>
    decreases files.len(),
{
    if files.len() == 0 {
        Seq::empty()
    } else {
        configured_mirrors(files.drop_last()) + mirror_lines(lines_of(files.last()))
    }
}

pub open spec fn strings_view(v: Seq<String>) -> Seq<Seq<char>> {
    v.map_values(|l: String| l@)
}

/// Appends the mirror lines among `lines` to `out`.
fn push_mirror_lines(lines: &Vec<String>, out: &mut Vec<String>)
    ensures
        strings_view(final(out)@) == strings_view(old(out)@) + mirror_lines(strings_view(lines@)),
{
    let mut i: usize = 0;
    while i < lines.len()
        invariant
            0 <= i <= lines@.len(),
            strings_view(out@) == strings_view(old(out)@) + mirror_lines(strings_view(lines@.subrange(0, i as int))),
        decreases lines@.len() - i,
    {
        let line = &lines[i];
        let ghost prefix = lines@.subrange(0, i + 1);
        assert(strings_view(prefix).drop_last() =~= strings_view(lines@.subrange(0, i as int)));
        assert(strings_view(prefix).last() == line@);
        let keep = line.as_str().unicode_len() > 0 && line.as_str().get_char(0) != '#';
        if keep {
            let ghost before = out@;
            out.push(line.clone());
            assert(strings_view(out@) =~= strings_view(before).push(line@));
        }
        assert(strings_view(out@) =~= strings_view(old(out)@) + mirror_lines(strings_view(prefix)));
        i = i + 1;
    }
    assert(lines@.subrange(0, lines@.len() as int) =~= lines@);
}

/// The mirror list from the texts of the configuration files, taken in the
/// order given: every line that is neither empty nor a `#` comment.
pub fn mirrors_from_configs(files: &Vec<String>) -> (r: Vec<String>)
    ensures
        strings_view(r@) == configured_mirrors(strings_view(files@)),
{
    let mut out: Vec<String> = Vec::new();
    let mut i: usize = 0;
    while i < files.len()
        invariant
            0 <= i <= files@.len(),
            strings_view(out@) == configured_mirrors(strings_view(files@.subrange(0, i as int))),
        decreases files@.len() - i,
    {
        let lines = text_lines(files[i].as_str());
        let ghost prefix = files@.subrange(0, i + 1);
        assert(strings_view(prefix).drop_last() =~= strings_view(files@.subrange(0, i as int)));
        assert(strings_view(prefix).last() == files@[i as int]@);
        assert(strings_view(lines@) == lines_of(files@[i as int]@));
        push_mirror_lines(&lines, &mut out);
        i = i + 1;
    }
    assert(files@.subrange(0, files@.len() as int) =~= files@);
    out
}

} // verus!
