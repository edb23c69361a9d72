//! Turning the lines of a C resource header into Rust constants: a line
//! `#define NAME VALUE` becomes `pub const NAME: u32 = VALUE;`.

use vstd::prelude::*;

verus! {

/// Whether `c` is white space in Unicode (the `White_Space` property).
pub open spec fn is_white_space(c: char) -> bool {
    ||| '\u{9}' <= c <= '\u{d}'
    ||| c == ' '
    ||| c == '\u{85}'
    ||| c == '\u{a0}'
    ||| c == '\u{1680}'
    ||| '\u{2000}' <= c <= '\u{200a}'
    ||| c == '\u{2028}'
    ||| c == '\u{2029}'
    ||| c == '\u{202f}'
    ||| c == '\u{205f}'
    ||| c == '\u{3000}'
}

/// Whether `c` is white space in Unicode.
pub fn white_space(c: char) -> (b: bool)
    ensures
        b == is_white_space(c),
{
    ('\u{9}' <= c && c <= '\u{d}') || c == ' ' || c == '\u{85}' || c == '\u{a0}' || c == '\u{1680}'
        || ('\u{2000}' <= c && c <= '\u{200a}') || c == '\u{2028}' || c == '\u{2029}' || c
        == '\u{202f}' || c == '\u{205f}' || c == '\u{3000}'
}

/// Reading `s` from the left: the words already ended, and the word under
/// way (empty between words).
pub open spec fn scan(s: Seq<char>) -> (Seq<Seq<char>>, Seq<char>)
    decreases s.len(),
{
    if s.len() == 0 {
        (Seq::empty(), Seq::empty())
    } else {
        let (done, cur) = scan(s.drop_last());
        let c = s.last();
        if is_white_space(c) {
            if cur.len() > 0 {
                (done.push(cur), Seq::empty())
            } else {
                (done, Seq::empty())
            }
        } else {
            (done, cur.push(c))
        }
    }
}

/// The words of `s`: its longest runs of characters that are not white space,
/// in order.
pub open spec fn words(s: Seq<char>) -> Seq<Seq<char>> {
    let (done, cur) = scan(s);
    if cur.len() > 0 {
        done.push(cur)
    } else {
        done
    }
}

/// What a header line with these words becomes: `#define NAME VALUE` a
/// constant, a line without words or with an incomplete `#define` an empty
/// line, and any other line nothing.
pub open spec fn converted(w: Seq<Seq<char>>) -> Option<Seq<char>> {
    if w.len() == 0 {
        Some("\n"@)
    } else if w[0] != "#define"@ {
        None
    } else if w.len() == 3 {
        Some("pub const "@ + w[1] + ": u32 = "@ + w[2] + ";\n"@)
    } else if w.len() > 3 {
        None
    } else {
        Some("\n"@)
    }
}

/// The texts of a list of words.
pub open spec fn words_view(list: Seq<&str>) -> Seq<Seq<char>> {
    list.map_values(|w: &str| w@)
}

/// Splits `line` into its words.
fn split_words<'a>(line: &'a str) -> (r: Vec<&'a str>)
    ensures
        words_view(r@) == words(line@),
{
    let n = line.unicode_len();
    let ghost s = line@;
    let mut found: Vec<&'a str> = Vec::new();
    let mut start: usize = 0;
    assert(s.take(0) =~= Seq::<char>::empty());
    for i in 0..n
        invariant
            n == s.len(),
            s == line@,
            start <= i,
            scan(s.take(i as int)) == (words_view(found@), s.subrange(start as int, i as int)),
    {
        let c = line.get_char(i);
        assert(s.take(i + 1).drop_last() =~= s.take(i as int));
        assert(s.take(i + 1).last() == c);
        if white_space(c) {
            if start < i {
                let w = line.substring_char(start, i);
                let ghost before = found@;
                found.push(w);
                assert(words_view(found@) =~= words_view(before).push(w@));
            }
            start = i + 1;
            assert(s.subrange(start as int, i + 1) =~= Seq::<char>::empty());
        } else {
            assert(s.subrange(start as int, i + 1) =~= s.subrange(start as int, i as int).push(c));
        }
    }
    assert(s.take(n as int) =~= s);
    if start < n {
        let w = line.substring_char(start, n);
        let ghost before = found@;
        found.push(w);
        assert(words_view(found@) =~= words_view(before).push(w@));
    }
    found
}

/// The Rust line for one line of a C resource header: `#define NAME VALUE`
/// gives `pub const NAME: u32 = VALUE;`; a blank line or an incomplete
/// `#define` gives an empty line; any other line gives `None`.
pub fn convert_line(line: &str) -> (r: Option<String>)
    ensures
        match r {
            Some(out) => converted(words(line@)) == Some(out@),
            None => converted(words(line@)) is None,
        },
{
    let w = split_words(line);
    assert(w@.len() == words(line@).len());
    if w.len() == 0 {
        return Some("\n".to_owned());
    }
    assert(w@[0]@ == words(line@)[0]);
    if w[0].to_owned() != "#define".to_owned() {
        return None;
    }
    if w.len() == 3 {
        assert(w@[1]@ == words(line@)[1]);
        assert(w@[2]@ == words(line@)[2]);
        let mut out = "pub const ".to_owned();
        out.append(w[1]);
        out.append(": u32 = ");
        out.append(w[2]);
        out.append(";\n");
        Some(out)
    } else if w.len() > 3 {
        None
    } else {
        Some("\n".to_owned())
    }
}

proof fn lemma_scan_word(p: Seq<char>, w: Seq<char>)
    requires
        forall|i: int| 0 <= i < w.len() ==> !is_white_space(#[trigger] w[i]),
    ensures
        scan(p + w) == (scan(p).0, scan(p).1 + w),
    decreases w.len(),
{
    if w.len() == 0 {
        assert(p + w =~= p);
        assert(scan(p).1 + w =~= scan(p).1);
    } else {
        let init = w.drop_last();
        assert forall|i: int| 0 <= i < init.len() implies !is_white_space(#[trigger] init[i]) by {
            assert(init[i] == w[i]);
        }
        lemma_scan_word(p, init);
        assert((p + w).drop_last() =~= p + init);
        assert((p + w).last() == w[w.len() - 1]);
        assert(scan(p).1 + init.push(w.last()) =~= scan(p).1 + w);
        assert(init.push(w.last()) =~= w);
    }
}

/// A `#define` of a name to a value, one space apart, becomes the constant
/// `pub const NAME: u32 = VALUE;`.
pub proof fn define_becomes_constant(name: Seq<char>, value: Seq<char>)
    requires
        name.len() > 0,
        value.len() > 0,
        forall|i: int| 0 <= i < name.len() ==> !is_white_space(#[trigger] name[i]),
        forall|i: int| 0 <= i < value.len() ==> !is_white_space(#[trigger] value[i]),
    ensures
        converted(words("#define"@ + seq![' '] + name + seq![' '] + value)) == Some(
            "pub const "@ + name + ": u32 = "@ + value + ";\n"@,
        ),
{
    reveal_strlit("#define");
    let d = "#define"@;
    assert forall|i: int| 0 <= i < d.len() implies !is_white_space(#[trigger] d[i]) by {}
    let empty = Seq::<char>::empty();
    assert(scan(empty) == (Seq::<Seq<char>>::empty(), empty));
    lemma_scan_word(empty, d);
    assert(empty + d =~= d);
    assert(empty + d =~= d);
    let l1 = d.push(' ');
    assert(l1.drop_last() =~= d);
    assert(scan(d).1 =~= d);
    assert(scan(l1).0 =~= seq![d]);
    assert(scan(l1).1 =~= empty);
    lemma_scan_word(l1, name);
    let l2 = (l1 + name).push(' ');
    assert(empty + name =~= name);
    assert(scan(l1 + name).1 =~= name);
    assert(l2.drop_last() =~= l1 + name);
    assert(scan(l2).0 =~= seq![d, name]);
    assert(scan(l2).1 =~= empty);
    lemma_scan_word(l2, value);
    assert(empty + value =~= value);
    let line = l2 + value;
    assert(line =~= d + seq![' '] + name + seq![' '] + value);
    assert(scan(line).1 =~= value);
    assert(words(line) =~= seq![d, name, value]);
}

/// A line whose first word is not `#define` is dropped, whatever else it
/// holds; a line with no words becomes an empty line.
pub proof fn only_define_lines_are_kept(line: Seq<char>)
    ensures
        words(line).len() > 0 && words(line)[0] != "#define"@ ==> converted(words(line)) is None,
        words(line).len() == 0 ==> converted(words(line)) == Some("\n"@),
{
}

/// A `#define` line with more than a name and a value is dropped; one with
/// fewer becomes an empty line.
pub proof fn define_lines_need_a_name_and_a_value(line: Seq<char>)
    requires
        words(line).len() > 0,
        words(line)[0] == "#define"@,
    ensures
        words(line).len() > 3 ==> converted(words(line)) is None,
        words(line).len() < 3 ==> converted(words(line)) == Some("\n"@),
        words(line).len() == 3 ==> converted(words(line)) == Some(
            "pub const "@ + words(line)[1] + ": u32 = "@ + words(line)[2] + ";\n"@,
        ),
{
}

proof fn lemma_scan_after_break(q: Seq<char>, b: Seq<char>)
    requires
        scan(q).1.len() == 0,
    ensures
        scan(q + b).0 == scan(q).0 + scan(b).0,
        scan(q + b).1 == scan(b).1,
    decreases b.len(),
{
    if b.len() == 0 {
        assert(q + b =~= q);
        assert(scan(q).0 + scan(b).0 =~= scan(q).0);
    } else {
        let init = b.drop_last();
        lemma_scan_after_break(q, init);
        assert((q + b).drop_last() =~= q + init);
        assert((q + b).last() == b.last());
        let (d0, c0) = scan(init);
        if is_white_space(b.last()) && c0.len() > 0 {
            assert(scan(q).0 + d0.push(c0) =~= (scan(q).0 + d0).push(c0));
        }
    }
}

/// A run of characters without white space is one word.
pub proof fn one_run_is_one_word(w: Seq<char>)
    requires
        w.len() > 0,
        forall|i: int| 0 <= i < w.len() ==> !is_white_space(#[trigger] w[i]),
    ensures
        words(w) == seq![w],
{
    let empty = Seq::<char>::empty();
    lemma_scan_word(empty, w);
    assert(empty + w =~= w);
    assert(scan(empty).1 + w =~= w);
    assert(words(w) =~= seq![w]);
}

/// White space splits a text: the words of `a`, a white-space character and
/// `b` are the words of `a` followed by the words of `b`.
pub proof fn white_space_splits_words(a: Seq<char>, c: char, b: Seq<char>)
    requires
        is_white_space(c),
    ensures
        words(a.push(c) + b) == words(a) + words(b),
{
    let q = a.push(c);
    assert(q.drop_last() =~= a);
    assert(q.last() == c);
    lemma_scan_after_break(q, b);
    let (da, ca) = scan(a);
    assert(scan(q).0 == words(a));
    if scan(b).1.len() > 0 {
        assert(words(a) + scan(b).0.push(scan(b).1) =~= (words(a) + scan(b).0).push(scan(b).1));
    }
}

} // verus!
