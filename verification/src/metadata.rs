//! Gateway metadata: reading the output of the configured metadata commands.
use vstd::prelude::*;

use crate::text::{
    chars_of, find_from, find_from_exec, lemma_find_from, occurs_at, split_char, split_on,
    string_from_chars, sub_chars,
};

verus! {

/// The characters with the Unicode `White_Space` property, which
/// `char::is_whitespace` tests for.
pub open spec fn char_is_whitespace(c: char) -> bool {
    ||| '\u{09}' <= c <= '\u{0d}'
    ||| c == '\u{20}'
    ||| c == '\u{85}'
    ||| c == '\u{a0}'
    ||| c == '\u{1680}'
    ||| '\u{2000}' <= c <= '\u{200a}'
    ||| c == '\u{2028}'
    ||| c == '\u{2029}'
    ||| c == '\u{202f}'
    ||| c == '\u{205f}'
    ||| c == '\u{3000}'
}

/// Whether a character has the Unicode `White_Space` property.
fn is_whitespace(c: char) -> (res: bool)
    ensures
        res == char_is_whitespace(c),
{
    ('\u{09}' <= c && c <= '\u{0d}') || c == '\u{20}' || c == '\u{85}' || c == '\u{a0}'
        || c == '\u{1680}' || ('\u{2000}' <= c && c <= '\u{200a}') || c == '\u{2028}'
        || c == '\u{2029}' || c == '\u{202f}' || c == '\u{205f}' || c == '\u{3000}'
}

pub open spec fn trim_start(s: Seq<char>) -> Seq<char>
    decreases s.len(),
{
    if s.len() > 0 && char_is_whitespace(s[0]) {
        trim_start(s.drop_first())
    } else {
        s
    }
}

pub open spec fn trim_end(s: Seq<char>) -> Seq<char>
    decreases s.len(),
{
    if s.len() > 0 && char_is_whitespace(s.last()) {
        trim_end(s.drop_last())
    } else {
        s
    }
}

/// `str::trim`: without leading and trailing whitespace.
pub open spec fn trim(s: Seq<char>) -> Seq<char> {
    trim_end(trim_start(s))
}

/// A line without the `\r` of a `\r\n` ending.
pub open spec fn strip_cr(l: Seq<char>) -> Seq<char> {
    if l.len() > 0 && l.last() == '\r' {
        l.drop_last()
    } else {
        l
    }
}

/// `str::lines`: the text between `\n` (or `\r\n`) line endings; the final line
/// ending is optional.
pub open spec fn lines(s: Seq<char>) -> Seq<Seq<char>> {
    let p = split_char(s, '\n');
    let init = p.take(p.len() - 1).map_values(|l: Seq<char>| strip_cr(l));
    if p.last().len() == 0 {
        init
    } else {
        init.push(p.last())
    }
}

/// `str::split_once`: the text before and after the first occurrence of `d`.
pub open spec fn split_once(s: Seq<char>, d: Seq<char>) -> Option<(Seq<char>, Seq<char>)> {
    match find_from(s, d, 0) {
        Some(i) => Some((s.take(i), s.skip(i + d.len()))),
        None => None,
    }
}

/// The entry of a `key<delimiter>value` line of command `name`.
pub open spec fn prefixed_entry(name: Seq<char>, key: Seq<char>, value: Seq<char>) -> (Seq<char>, Seq<char>) {
    (name + "_"@ + trim(key), trim(value))
}

/// The entries of the lines from `i` on that hold the delimiter; others are skipped.
pub open spec fn multi_line_entries(name: Seq<char>, ls: Seq<Seq<char>>, d: Seq<char>, i: int) -> Seq<
    (Seq<char>, Seq<char>),
>
    decreases ls.len() - i,
{
    if i < 0 || i >= ls.len() {
        Seq::empty()
    } else {
        let rest = multi_line_entries(name, ls, d, i + 1);
        match split_once(ls[i], d) {
            Some((k, v)) => seq![prefixed_entry(name, k, v)] + rest,
            None => rest,
        }
    }
}

/// The metadata entries that the output of command `name` gives, in order:
/// with several lines, one `name_key` entry per `key<delimiter>value` line; with
/// one line, such an entry, or else the whole trimmed line under `name`.
pub open spec fn command_output_entries(name: Seq<char>, out: Seq<char>, d: Seq<char>) -> Seq<
    (Seq<char>, Seq<char>),
> {
    let ls = lines(out);
    if ls.len() > 1 {
        multi_line_entries(name, ls, d, 0)
    } else if ls.len() == 1 {
        match split_once(ls[0], d) {
            Some((k, v)) => seq![prefixed_entry(name, k, v)],
            None => seq![(name, trim(ls[0]))],
        }
    } else {
        Seq::empty()
    }
}

fn trim_chars(v: &[char]) -> (res: Vec<char>)
    ensures
        res@ == trim(v@),
{
    let mut i: usize = 0;
    assert(v@.skip(0) == v@);
    while i < v.len() && is_whitespace(v[i])
        invariant
            i <= v.len(),
            trim_start(v@) == trim_start(v@.skip(i as int)),
        decreases v.len() - i,
    {
        assert(v@.skip(i as int).drop_first() == v@.skip(i + 1));
        i = i + 1;
    }
    let ghost t = v@.skip(i as int);
    assert(trim_start(t) == t);
    let mut j: usize = v.len();
    while j > i && is_whitespace(v[j - 1])
        invariant
            i <= j <= v.len(),
            t == v@.skip(i as int),
            trim_end(t) == trim_end(v@.subrange(i as int, j as int)),
        decreases j - i,
    {
        assert(v@.subrange(i as int, j as int).drop_last() == v@.subrange(i as int, j - 1));
        j = j - 1;
    }
    assert(v@.skip(i as int) == v@.subrange(i as int, v.len() as int));
    sub_chars(v, i, j)
}

/// The lines of a text (`str::lines`).
pub fn lines_of(v: &[char]) -> (res: Vec<Vec<char>>)
    ensures
        res@.len() == lines(v@).len(),
        forall|i: int| 0 <= i < res@.len() ==> (#[trigger] res@[i])@ == lines(v@)[i],
{
    let parts = split_on(v, '\n');
    let ghost p = split_char(v@, '\n');
    proof {
        crate::text::lemma_split_nonempty(v@, '\n');
    }
    let n = parts.len();
    let mut out: Vec<Vec<char>> = Vec::new();
    let mut i: usize = 0;
    while i + 1 < n
        invariant
            n == parts@.len(),
            n == p.len(),
            n >= 1,
            i < n,
            forall|k: int| 0 <= k < n ==> (#[trigger] parts@[k])@ == p[k],
            out@.len() == i,
            forall|k: int| 0 <= k < i ==> (#[trigger] out@[k])@ == strip_cr(p[k]),
        decreases n - i,
    {
        let l = parts[i].as_slice();
        let line = if l.len() > 0 && l[l.len() - 1] == '\r' {
            sub_chars(l, 0, l.len() - 1)
        } else {
            sub_chars(l, 0, l.len())
        };
        proof {
            assert(l@.drop_last() == l@.subrange(0, l@.len() - 1));
            assert(l@ == l@.subrange(0, l@.len() as int));
        }
        out.push(line);
        i = i + 1;
    }
    let last = parts[n - 1].as_slice();
    if last.len() > 0 {
        out.push(sub_chars(last, 0, last.len()));
        assert(last@ == last@.subrange(0, last@.len() as int));
    }
    proof {
        let init = p.take(p.len() - 1).map_values(|l: Seq<char>| strip_cr(l));
        assert forall|k: int| 0 <= k < out@.len() implies (#[trigger] out@[k])@ == lines(v@)[k] by {
            if k < n - 1 {
                assert(init[k] == strip_cr(p[k]));
            }
        }
    }
    out
}

/// The text before and after the first occurrence of the delimiter.
fn split_once_chars(v: &[char], d: &[char]) -> (res: Option<(Vec<char>, Vec<char>)>)
    ensures
        match split_once(v@, d@) {
            Some((a, b)) => res matches Some(r) && r.0@ == a && r.1@ == b,
            None => res is None,
        },
{
    match find_from_exec(v, d, 0) {
        None => None,
        Some(i) => {
            proof {
                lemma_find_from(v@, d@, 0);
                assert(occurs_at(v@, d@, i as int));
                assert(i + d@.len() <= v@.len());
            }
            assert(i + d.len() <= v.len());
            let a = sub_chars(v, 0, i);
            let b = sub_chars(v, i + d.len(), v.len());
            assert(v@.take(i as int) == v@.subrange(0, i as int));
            assert(v@.skip(i + d.len()) == v@.subrange(i + d.len(), v.len() as int));
            Some((a, b))
        },
    }
}

fn entry_of(name: &str, key: &[char], value: &[char]) -> (res: (String, String))
    ensures
        res.0@ == prefixed_entry(name@, key@, value@).0,
        res.1@ == prefixed_entry(name@, key@, value@).1,
{
    let mut k = String::from_str(name);
    k.append("_");
    let tk = trim_chars(key);
    let tk = string_from_chars(tk.as_slice());
    k.append(tk.as_str());
    let tv = trim_chars(value);
    (k, string_from_chars(tv.as_slice()))
}

/// The metadata entries that the output of metadata command `name` gives, in the
/// order in which they are to be inserted (a later entry replaces an earlier one
/// with the same key).
pub fn parse_command_output(name: &str, output: &str, delimiter: &str) -> (res: Vec<(String, String)>)
    ensures
        res@.len() == command_output_entries(name@, output@, delimiter@).len(),
        forall|i: int|
            0 <= i < res@.len() ==> (#[trigger] res@[i]).0@ == command_output_entries(
                name@,
                output@,
                delimiter@,
            )[i].0 && res@[i].1@ == command_output_entries(name@, output@, delimiter@)[i].1,
{
    let out = chars_of(output);
    let d = chars_of(delimiter);
    let ls = lines_of(out.as_slice());
    let ghost lv = lines(output@);
    let mut res: Vec<(String, String)> = Vec::new();
    if ls.len() > 1 {
        let mut i: usize = ls.len();
        while i > 0
            invariant
                i <= ls@.len(),
                ls@.len() == lv.len(),
                lv.len() > 1,
                d@ == delimiter@,
                forall|k: int| 0 <= k < ls@.len() ==> (#[trigger] ls@[k])@ == lv[k],
                res@.len() == multi_line_entries(name@, lv, delimiter@, i as int).len(),
                forall|k: int|
                    0 <= k < res@.len() ==> (#[trigger] res@[k]).0@ == multi_line_entries(
                        name@,
                        lv,
                        delimiter@,
                        i as int,
                    )[res@.len() - 1 - k].0 && res@[k].1@ == multi_line_entries(
                        name@,
                        lv,
                        delimiter@,
                        i as int,
                    )[res@.len() - 1 - k].1,
            decreases i,
        {
            i = i - 1;
            let ghost rest = multi_line_entries(name@, lv, delimiter@, i + 1);
            match split_once_chars(ls[i].as_slice(), d.as_slice()) {
                Some((k, v)) => {
                    let e = entry_of(name, k.as_slice(), v.as_slice());
                    res.push(e);
                    proof {
                        let m = multi_line_entries(name@, lv, delimiter@, i as int);
                        assert(m == seq![prefixed_entry(name@, k@, v@)] + rest);
                    }
                },
                None => {},
            }
        }
        // The entries were collected from the last line back: reverse them.
        let mut out_entries: Vec<(String, String)> = Vec::new();
        let ghost m = multi_line_entries(name@, lv, delimiter@, 0);
        while res.len() > 0
            invariant
                res@.len() + out_entries@.len() == m.len(),
                forall|k: int|
                    0 <= k < res@.len() ==> (#[trigger] res@[k]).0@ == m[m.len() - 1 - k].0
                        && res@[k].1@ == m[m.len() - 1 - k].1,
                forall|k: int|
                    0 <= k < out_entries@.len() ==> (#[trigger] out_entries@[k]).0@ == m[k].0
                        && out_entries@[k].1@ == m[k].1,
            decreases res.len(),
        {
            let e = res.pop().unwrap();
            out_entries.push(e);
        }
        return out_entries;
    } else if ls.len() == 1 {
        match split_once_chars(ls[0].as_slice(), d.as_slice()) {
            Some((k, v)) => {
                res.push(entry_of(name, k.as_slice(), v.as_slice()));
            },
            None => {
                let t = trim_chars(ls[0].as_slice());
                res.push((String::from_str(name), string_from_chars(t.as_slice())));
            },
        }
    }
    res
}

/// The text of metadata entries.
pub open spec fn entry_texts(s: Seq<(String, String)>) -> Seq<(Seq<char>, Seq<char>)> {
    s.map_values(|e: (String, String)| (e.0@, e.1@))
}

/// The metadata a gateway reports, as entries in the order in which they are
/// inserted (a later entry replaces an earlier one with the same key): the
/// static values, the forwarder version, then the entries of the commands.
pub fn metadata_entries(
    static_values: &[(String, String)],
    version: &str,
    command_entries: &[(String, String)],
) -> (res: Vec<(String, String)>)
    ensures
        entry_texts(res@) == entry_texts(static_values@) + seq![
            ("mqtt_forwarder_version"@, version@),
        ] + entry_texts(command_entries@),
{
    let mut out: Vec<(String, String)> = Vec::new();
    let mut i: usize = 0;
    while i < static_values.len()
        invariant
            i <= static_values.len(),
            entry_texts(out@) == entry_texts(static_values@.take(i as int)),
        decreases static_values.len() - i,
    {
        let ghost prev = out@;
        let e = (static_values[i].0.clone(), static_values[i].1.clone());
        out.push(e);
        assert(static_values@.take(i + 1) == static_values@.take(i as int).push(static_values@[i as int]));
        assert(entry_texts(out@) =~= entry_texts(prev).push((e.0@, e.1@)));
        assert(entry_texts(static_values@.take(i + 1)) =~= entry_texts(static_values@.take(i as int)).push(
            (e.0@, e.1@),
        ));
        i = i + 1;
    }
    assert(static_values@.take(i as int) == static_values@);
    let ghost before = entry_texts(out@);
    out.push((String::from_str("mqtt_forwarder_version"), String::from_str(version)));
    assert(entry_texts(out@) =~= before + seq![("mqtt_forwarder_version"@, version@)]);
    let ghost mid = entry_texts(out@);
    let mut j: usize = 0;
    while j < command_entries.len()
        invariant
            j <= command_entries.len(),
            entry_texts(out@) == mid + entry_texts(command_entries@.take(j as int)),
        decreases command_entries.len() - j,
    {
        let ghost prev = out@;
        let e = (command_entries[j].0.clone(), command_entries[j].1.clone());
        out.push(e);
        assert(command_entries@.take(j + 1) == command_entries@.take(j as int).push(
            command_entries@[j as int],
        ));
        assert(entry_texts(out@) =~= entry_texts(prev).push((e.0@, e.1@)));
        assert(entry_texts(command_entries@.take(j + 1)) =~= entry_texts(command_entries@.take(j as int)).push(
            (e.0@, e.1@),
        ));
        assert(entry_texts(out@) =~= mid + entry_texts(command_entries@.take(j + 1)));
        j = j + 1;
    }
    assert(command_entries@.take(j as int) == command_entries@);
    out
}

} // verus!
