//! Editing one value in the TOML configuration as text, so that comments, the
//! order of tables and the line endings the user chose are kept.
use crate::text::{concat3, text_chars};
use vstd::prelude::*;

verus! {

/// Unicode's `White_Space` characters (what `str::trim` removes).
pub open spec fn is_white_space(c: char) -> bool {
    let u = c as u32;
    (0x09 <= u && u <= 0x0d) || u == 0x20 || u == 0x85 || u == 0xa0 || u == 0x1680 || (0x2000
        <= u && u <= 0x200a) || u == 0x2028 || u == 0x2029 || u == 0x202f || u == 0x205f || u
        == 0x3000
}

/// A text without its leading white space.
pub open spec fn trim_front(s: Seq<char>) -> Seq<char>
    decreases s.len(),
{
    if s.len() > 0 && is_white_space(s[0]) {
        trim_front(s.drop_first())
    } else {
        s
    }
}

/// A text without its trailing white space.
pub open spec fn trim_back(s: Seq<char>) -> Seq<char>
    decreases s.len(),
{
    if s.len() > 0 && is_white_space(s.last()) {
        trim_back(s.drop_last())
    } else {
        s
    }
}

/// A text without leading and trailing white space.
pub open spec fn trim(s: Seq<char>) -> Seq<char> {
    trim_back(trim_front(s))
}

/// The first index of `c` in `s`, or -1.
pub open spec fn find_char(s: Seq<char>, c: char) -> int
    decreases s.len(),
{
    if s.len() == 0 {
        -1
    } else if s[0] == c {
        0
    } else {
        let rest = find_char(s.drop_first(), c);
        if rest < 0 {
            -1
        } else {
            rest + 1
        }
    }
}

/// A line ended by `\n` loses one `\r` before it.
pub open spec fn strip_cr(line: Seq<char>) -> Seq<char> {
    if line.len() > 0 && line.last() == '\r' {
        line.drop_last()
    } else {
        line
    }
}

/// The lines of a text as `str::lines` yields them: split at each `\n`, a
/// `\r` right before it dropped, and no empty line after a final `\n`.
pub open spec fn split_lines(s: Seq<char>) -> Seq<Seq<char>>
    decreases s.len(),
{
    if s.len() == 0 {
        Seq::empty()
    } else {
        let i = find_char(s, '\n');
        if i < 0 || i >= s.len() {
            seq![s]
        } else {
            seq![strip_cr(s.subrange(0, i))] + split_lines(s.subrange(i + 1, s.len() as int))
        }
    }
}

/// Lines joined with `separator` between them.
pub open spec fn join(lines: Seq<Seq<char>>, separator: Seq<char>) -> Seq<char>
    decreases lines.len(),
{
    if lines.len() == 0 {
        Seq::empty()
    } else if lines.len() == 1 {
        lines[0]
    } else {
        join(lines.drop_last(), separator) + separator + lines.last()
    }
}

/// Whether `s` contains `\r\n`.
pub open spec fn has_crlf(s: Seq<char>) -> bool {
    exists|i: int| 0 <= i < s.len() - 1 && s[i] == '\r' && #[trigger] s[i + 1] == '\n'
}

/// The line ending a file uses: `\r\n` if it has one anywhere, else `\n`.
pub open spec fn line_ending(s: Seq<char>) -> Seq<char> {
    if has_crlf(s) {
        seq!['\r', '\n']
    } else {
        seq!['\n']
    }
}

/// Whether a line (once trimmed) is a table header such as `[layout]`.
pub open spec fn is_table_line(line: Seq<char>) -> bool {
    let t = trim(line);
    t.len() > 0 && t[0] == '[' && t.last() == ']'
}

/// Whether a line assigns `key`: what comes before its first `=` is `key`
/// once trimmed.
pub open spec fn assigns_key(line: Seq<char>, key: Seq<char>) -> bool {
    let i = find_char(line, '=');
    0 <= i && trim(line.subrange(0, i)) == key
}

/// The header line of `table`.
pub open spec fn header_of(table: Seq<char>) -> Seq<char> {
    seq!['['] + table + seq![']']
}

/// Whether a line is the header `header`.
pub open spec fn header_test(header: Seq<char>) -> spec_fn(Seq<char>) -> bool {
    |line: Seq<char>| trim(line) == header
}

/// Whether a line is a table header.
pub open spec fn table_test() -> spec_fn(Seq<char>) -> bool {
    |line: Seq<char>| is_table_line(line)
}

/// Whether a line assigns `key`.
pub open spec fn key_test(key: Seq<char>) -> spec_fn(Seq<char>) -> bool {
    |line: Seq<char>| assigns_key(line, key)
}

/// The first index from `from` on whose line satisfies `found`, or `lines.len()`.
pub open spec fn first_from(lines: Seq<Seq<char>>, from: int, found: spec_fn(Seq<char>) -> bool) -> int
    decreases lines.len() - from,
{
    if from >= lines.len() {
        lines.len() as int
    } else if found(lines[from]) {
        from
    } else {
        first_from(lines, from + 1, found)
    }
}

/// The table `table` located in the lines, appended (after a blank line when
/// the file does not end with one) when missing: the lines and the index of its
/// header.
pub open spec fn locate_table(lines: Seq<Seq<char>>, table: Seq<char>) -> (Seq<Seq<char>>, int) {
    let header = header_of(table);
    let h = first_from(lines, 0, header_test(header));
    if h < lines.len() {
        (lines, h)
    } else {
        let padded = if lines.len() > 0 && trim(lines.last()).len() != 0 {
            lines.push(Seq::empty())
        } else {
            lines
        };
        (padded.push(header), padded.len() as int)
    }
}

/// Where a new assignment goes in the table whose lines run from `start` (its
/// header) to `end`: after its last non-blank line.
pub open spec fn insertion_point(lines: Seq<Seq<char>>, start: int, p: int) -> int
    decreases p - start,
{
    if p > start + 1 && trim(lines[p - 1]).len() == 0 {
        insertion_point(lines, start, p - 1)
    } else {
        p
    }
}

/// One assignment placed in the table that runs from `start` to `end`: an
/// existing assignment of the key is replaced, otherwise the line is inserted
/// at `ins`. The lines, the new end and the new insertion point.
pub open spec fn place(
    lines: Seq<Seq<char>>,
    start: int,
    end: int,
    ins: int,
    key: Seq<char>,
    line: Seq<char>,
) -> (Seq<Seq<char>>, int, int) {
    let existing = first_from(lines.subrange(0, end), start + 1, key_test(key));
    if existing < end {
        (lines.update(existing, line), end, ins)
    } else {
        (lines.insert(ins, line), end + 1, ins + 1)
    }
}

/// The end of the table whose header is at `start`: the next table header, or
/// the end of the file.
pub open spec fn table_end(lines: Seq<Seq<char>>, start: int) -> int {
    first_from(lines, start + 1, table_test())
}

/// The rewritten text: lines joined with the file's line ending, which also
/// ends the text when the source ended with `\n` or was empty.
pub open spec fn finish_text(source: Seq<char>, lines: Seq<Seq<char>>) -> Seq<char> {
    let newline = line_ending(source);
    if (source.len() > 0 && source.last() == '\n') || source.len() == 0 {
        join(lines, newline) + newline
    } else {
        join(lines, newline)
    }
}

/// `key = value` set in `[table]` of a TOML text.
pub open spec fn spec_replace_table_value(
    source: Seq<char>,
    table: Seq<char>,
    key: Seq<char>,
    value: Seq<char>,
) -> Seq<char> {
    let (lines, start) = locate_table(split_lines(source), table);
    let end = table_end(lines, start);
    let ins = insertion_point(lines, start, end);
    let placed = place(lines, start, end, ins, key, key + " = "@ + value);
    finish_text(source, placed.0)
}

/// The two scroll directions set in `[session]` of a TOML text.
pub open spec fn spec_scroll_settings_source(
    source: Seq<char>,
    reverse_horizontal: bool,
    reverse_vertical: bool,
) -> Seq<char> {
    let (lines, start) = locate_table(split_lines(source), "session"@);
    let end = table_end(lines, start);
    let ins = insertion_point(lines, start, end);
    let first = place(
        lines,
        start,
        end,
        ins,
        "reverse_scroll_horizontal"@,
        "reverse_scroll_horizontal = "@ + bool_text(reverse_horizontal),
    );
    let second = place(
        first.0,
        start,
        first.1,
        first.2,
        "reverse_scroll_vertical"@,
        "reverse_scroll_vertical = "@ + bool_text(reverse_vertical),
    );
    finish_text(source, second.0)
}

pub open spec fn bool_text(b: bool) -> Seq<char> {
    if b {
        "true"@
    } else {
        "false"@
    }
}

proof fn lemma_trim_front_suffix(s: Seq<char>)
    ensures
        exists|i: int| 0 <= i <= s.len() && trim_front(s) == s.subrange(i, s.len() as int),
    decreases s.len(),
{
    if s.len() > 0 && is_white_space(s[0]) {
        lemma_trim_front_suffix(s.drop_first());
        let i = choose|i: int|
            0 <= i <= s.drop_first().len() && trim_front(s.drop_first()) == s.drop_first().subrange(
                i,
                s.drop_first().len() as int,
            );
        assert(s.drop_first().subrange(i, s.drop_first().len() as int) =~= s.subrange(
            i + 1,
            s.len() as int,
        ));
    } else {
        assert(s.subrange(0, s.len() as int) =~= s);
    }
}

/// The characters of `s` from `lo`, skipping white space at the front.
fn skip_front(s: &Vec<char>, lo: usize, hi: usize) -> (first: usize)
    requires
        lo <= hi <= s@.len(),
    ensures
        lo <= first <= hi,
        trim_front(s@.subrange(lo as int, hi as int)) == s@.subrange(first as int, hi as int),
    decreases hi - lo,
{
    if lo < hi && is_ws(s[lo]) {
        assert(s@.subrange(lo as int, hi as int).drop_first() =~= s@.subrange(lo + 1, hi as int));
        skip_front(s, lo + 1, hi)
    } else {
        lo
    }
}

/// The end of `s[lo..hi]` once white space at the back is skipped.
fn skip_back(s: &Vec<char>, lo: usize, hi: usize) -> (last: usize)
    requires
        lo <= hi <= s@.len(),
    ensures
        lo <= last <= hi,
        trim_back(s@.subrange(lo as int, hi as int)) == s@.subrange(lo as int, last as int),
    decreases hi - lo,
{
    if lo < hi && is_ws(s[hi - 1]) {
        assert(s@.subrange(lo as int, hi as int).drop_last() =~= s@.subrange(lo as int, hi - 1));
        skip_back(s, lo, hi - 1)
    } else {
        lo + (hi - lo)
    }
}

fn is_ws(c: char) -> (ws: bool)
    ensures
        ws == is_white_space(c),
{
    let u = c as u32;
    (0x09 <= u && u <= 0x0d) || u == 0x20 || u == 0x85 || u == 0xa0 || u == 0x1680 || (0x2000
        <= u && u <= 0x200a) || u == 0x2028 || u == 0x2029 || u == 0x202f || u == 0x205f || u
        == 0x3000
}

/// The bounds of `s[lo..hi]` once trimmed.
fn trimmed(s: &Vec<char>, lo: usize, hi: usize) -> (bounds: (usize, usize))
    requires
        lo <= hi <= s@.len(),
    ensures
        lo <= bounds.0 <= bounds.1 <= hi,
        trim(s@.subrange(lo as int, hi as int)) == s@.subrange(bounds.0 as int, bounds.1 as int),
{
    let first = skip_front(s, lo, hi);
    let last = skip_back(s, first, hi);
    (first, last)
}

/// Whether `s[lo..hi]` equals `expected`.
fn range_equals(s: &Vec<char>, lo: usize, hi: usize, expected: &Vec<char>) -> (equal: bool)
    requires
        lo <= hi <= s@.len(),
    ensures
        equal == (s@.subrange(lo as int, hi as int) == expected@),
{
    if hi - lo != expected.len() {
        return false;
    }
    let mut i: usize = 0;
    while i < expected.len()
        invariant
            lo <= hi <= s@.len(),
            hi - lo == expected@.len(),
            i <= expected@.len(),
            forall|j: int| 0 <= j < i ==> s@[lo + j] == expected@[j],
        decreases expected@.len() - i,
    {
        if s[lo + i] != expected[i] {
            assert(s@.subrange(lo as int, hi as int)[i as int] != expected@[i as int]);
            return false;
        }
        i = i + 1;
    }
    assert(s@.subrange(lo as int, hi as int) =~= expected@);
    true
}

/// A line of the file, kept as its characters.
fn line_is_header(line: &Vec<char>, header: &Vec<char>) -> (found: bool)
    ensures
        found == (trim(line@) == header@),
{
    let (a, b) = trimmed(line, 0, line.len());
    assert(line@.subrange(0, line@.len() as int) =~= line@);
    range_equals(line, a, b, header)
}

fn line_is_table(line: &Vec<char>) -> (found: bool)
    ensures
        found == is_table_line(line@),
{
    let (a, b) = trimmed(line, 0, line.len());
    assert(line@.subrange(0, line@.len() as int) =~= line@);
    a < b && line[a] == '[' && line[b - 1] == ']'
}

fn line_is_blank(line: &Vec<char>) -> (blank: bool)
    ensures
        blank == (trim(line@).len() == 0),
{
    let (a, b) = trimmed(line, 0, line.len());
    assert(line@.subrange(0, line@.len() as int) =~= line@);
    a == b
}

proof fn lemma_find_char(s: Seq<char>, c: char)
    ensures
        -1 <= find_char(s, c) < s.len(),
        find_char(s, c) >= 0 ==> s[find_char(s, c)] == c,
        forall|j: int|
            0 <= j < s.len() && (find_char(s, c) < 0 || j < find_char(s, c)) ==> s[j] != c,
    decreases s.len(),
{
    if s.len() > 0 && s[0] != c {
        lemma_find_char(s.drop_first(), c);
        assert forall|j: int|
            0 <= j < s.len() && (find_char(s, c) < 0 || j < find_char(s, c)) implies s[j] != c by {
            if j > 0 {
                assert(s[j] == s.drop_first()[j - 1]);
            }
        }
    }
}

fn find_in(line: &Vec<char>, c: char) -> (index: Option<usize>)
    ensures
        match index {
            Some(i) => i as int == find_char(line@, c),
            None => find_char(line@, c) < 0,
        },
{
    proof {
        lemma_find_char(line@, c);
    }
    let mut i: usize = 0;
    while i < line.len()
        invariant
            i <= line@.len(),
            forall|j: int| 0 <= j < i ==> line@[j] != c,
            -1 <= find_char(line@, c) < line@.len(),
            find_char(line@, c) >= 0 ==> line@[find_char(line@, c)] == c,
            forall|j: int|
                0 <= j < line@.len() && (find_char(line@, c) < 0 || j < find_char(line@, c))
                    ==> line@[j] != c,
        decreases line@.len() - i,
    {
        if line[i] == c {
            return Some(i);
        }
        i = i + 1;
    }
    None
}

fn line_assigns(line: &Vec<char>, key: &Vec<char>) -> (assigns: bool)
    ensures
        assigns == assigns_key(line@, key@),
{
    proof {
        lemma_find_char(line@, '=');
    }
    match find_in(line, '=') {
        None => false,
        Some(i) => {
            let (a, b) = trimmed(line, 0, i);
            range_equals(line, a, b, key)
        },
    }
}

proof fn lemma_first_from(lines: Seq<Seq<char>>, from: int, found: spec_fn(Seq<char>) -> bool)
    requires
        0 <= from <= lines.len(),
    ensures
        from <= first_from(lines, from, found) <= lines.len(),
        first_from(lines, from, found) < lines.len() ==> found(
            lines[first_from(lines, from, found)],
        ),
        forall|j: int| from <= j < first_from(lines, from, found) ==> !found(#[trigger] lines[j]),
    decreases lines.len() - from,
{
    if from < lines.len() && !found(lines[from]) {
        lemma_first_from(lines, from + 1, found);
    }
}

/// The characters of the lines.
pub open spec fn views(lines: Seq<String>) -> Seq<Seq<char>> {
    Seq::new(lines.len(), |i: int| lines[i]@)
}

fn chars_of(line: &String) -> (chars: Vec<char>)
    ensures
        chars@ == line@,
{
    text_chars(line.as_str())
}

/// The index of the first line from `from` satisfying `found` (the first line
/// for which `test` holds), or the number of lines.
fn first_header(lines: &Vec<String>, header: &Vec<char>) -> (index: usize)
    ensures
        index == first_from(views(lines@), 0, header_test(header@)),
{
    proof {
        lemma_first_from(views(lines@), 0, header_test(header@));
    }
    let mut i: usize = 0;
    while i < lines.len()
        invariant
            i <= lines@.len(),
            forall|j: int| 0 <= j < i ==> !header_test(header@)(#[trigger] views(lines@)[j]),
            0 <= first_from(views(lines@), 0, header_test(header@)) <= lines@.len(),
            first_from(views(lines@), 0, header_test(header@)) < lines@.len() ==> header_test(
                header@,
            )(views(lines@)[first_from(views(lines@), 0, header_test(header@))]),
            forall|j: int|
                0 <= j < first_from(views(lines@), 0, header_test(header@)) ==> !header_test(
                    header@,
                )(#[trigger] views(lines@)[j]),
        decreases lines@.len() - i,
    {
        let chars = chars_of(&lines[i]);
        if line_is_header(&chars, header) {
            assert(header_test(header@)(views(lines@)[i as int]));
            return i;
        }
        assert(!header_test(header@)(views(lines@)[i as int]));
        i = i + 1;
    }
    i
}

fn first_table(lines: &Vec<String>, from: usize) -> (index: usize)
    requires
        from <= lines@.len(),
    ensures
        index == first_from(views(lines@), from as int, table_test()),
{
    proof {
        lemma_first_from(views(lines@), from as int, table_test());
    }
    let mut i: usize = from;
    while i < lines.len()
        invariant
            from <= i <= lines@.len(),
            forall|j: int| from <= j < i ==> !table_test()(#[trigger] views(lines@)[j]),
            from <= first_from(views(lines@), from as int, table_test()) <= lines@.len(),
            first_from(views(lines@), from as int, table_test()) < lines@.len() ==> table_test()(
                views(lines@)[first_from(views(lines@), from as int, table_test())],
            ),
            forall|j: int|
                from <= j < first_from(views(lines@), from as int, table_test()) ==> !table_test()(
                    #[trigger] views(lines@)[j],
                ),
        decreases lines@.len() - i,
    {
        let chars = chars_of(&lines[i]);
        if line_is_table(&chars) {
            assert(table_test()(views(lines@)[i as int]));
            return i;
        }
        assert(!table_test()(views(lines@)[i as int]));
        i = i + 1;
    }
    i
}

fn first_assignment(lines: &Vec<String>, from: usize, end: usize, key: &Vec<char>) -> (index:
    usize)
    requires
        from <= end <= lines@.len(),
    ensures
        index == first_from(views(lines@).subrange(0, end as int), from as int, key_test(key@)),
{
    let ghost head = views(lines@).subrange(0, end as int);
    proof {
        lemma_first_from(head, from as int, key_test(key@));
    }
    let mut i: usize = from;
    while i < end
        invariant
            from <= i <= end <= lines@.len(),
            head == views(lines@).subrange(0, end as int),
            forall|j: int| from <= j < i ==> !key_test(key@)(#[trigger] head[j]),
            from <= first_from(head, from as int, key_test(key@)) <= head.len(),
            first_from(head, from as int, key_test(key@)) < head.len() ==> key_test(key@)(
                head[first_from(head, from as int, key_test(key@))],
            ),
            forall|j: int|
                from <= j < first_from(head, from as int, key_test(key@)) ==> !key_test(key@)(
                    #[trigger] head[j],
                ),
        decreases end - i,
    {
        let chars = chars_of(&lines[i]);
        if line_assigns(&chars, key) {
            assert(key_test(key@)(head[i as int]));
            return i;
        }
        assert(!key_test(key@)(head[i as int]));
        i = i + 1;
    }
    i
}

/// Splits a text into its lines.
fn split_into_lines(source: &str) -> (lines: Vec<String>)
    ensures
        views(lines@) == split_lines(source@),
{
    let chars = text_chars(source);
    let n = chars.len();
    let mut lines: Vec<String> = Vec::new();
    let mut start: usize = 0;
    let mut i: usize = 0;
    assert(source@.subrange(0, n as int) =~= source@);
    assert(views(lines@) + split_lines(source@) =~= split_lines(source@));
    while i < n
        invariant
            chars@ == source@,
            n == chars@.len(),
            start <= i <= n,
            forall|j: int| start <= j < i ==> chars@[j] != '\n',
            views(lines@) + split_lines(source@.subrange(start as int, n as int)) == split_lines(
                source@,
            ),
        decreases n - i,
    {
        if chars[i] == '\n' {
            let ghost rest = source@.subrange(start as int, n as int);
            proof {
                lemma_find_char(rest, '\n');
                assert(rest[i - start] == '\n');
                assert forall|j: int| 0 <= j < i - start implies rest[j] != '\n' by {
                    assert(rest[j] == chars@[start + j]);
                }
                assert(find_char(rest, '\n') == i - start);
                assert(rest.subrange(0, i - start) =~= source@.subrange(start as int, i as int));
                assert(rest.subrange(i - start + 1, rest.len() as int) =~= source@.subrange(
                    i + 1,
                    n as int,
                ));
            }
            let end: usize = if i > start && chars[i - 1] == '\r' {
                i - 1
            } else {
                i
            };
            let line = source.substring_char(start, end).to_owned();
            proof {
                assert(line@ == strip_cr(source@.subrange(start as int, i as int)));
            }
            let ghost before = views(lines@);
            lines.push(line);
            proof {
                assert(views(lines@) =~= before.push(line@));
                assert(views(lines@) + split_lines(source@.subrange(i + 1, n as int)) =~= before
                    + split_lines(rest));
            }
            start = i + 1;
        }
        i = i + 1;
    }
    if start < n {
        let ghost rest = source@.subrange(start as int, n as int);
        proof {
            lemma_find_char(rest, '\n');
            assert forall|j: int| 0 <= j < rest.len() implies rest[j] != '\n' by {
                assert(rest[j] == chars@[start + j]);
            }
            assert(find_char(rest, '\n') < 0);
        }
        let line = source.substring_char(start, n).to_owned();
        let ghost before = views(lines@);
        lines.push(line);
        assert(views(lines@) =~= before + split_lines(rest));
    } else {
        assert(source@.subrange(start as int, n as int).len() == 0);
        assert(views(lines@) =~= views(lines@) + split_lines(
            source@.subrange(start as int, n as int),
        ));
    }
    lines
}

/// Joins lines with `separator` between them.
fn join_lines(lines: &Vec<String>, separator: &str) -> (text: String)
    ensures
        text@ == join(views(lines@), separator@),
{
    if lines.len() == 0 {
        return String::new();
    }
    let mut text = lines[0].clone();
    let mut i: usize = 1;
    assert(views(lines@).subrange(0, 1) =~= seq![lines@[0]@]);
    while i < lines.len()
        invariant
            1 <= i <= lines@.len(),
            text@ == join(views(lines@).subrange(0, i as int), separator@),
        decreases lines@.len() - i,
    {
        text.append(separator);
        text.append(lines[i].as_str());
        assert(views(lines@).subrange(0, i + 1).drop_last() =~= views(lines@).subrange(
            0,
            i as int,
        ));
        i = i + 1;
    }
    assert(views(lines@).subrange(0, lines@.len() as int) =~= views(lines@));
    text
}

fn crlf_in(chars: &Vec<char>) -> (found: bool)
    ensures
        found == has_crlf(chars@),
{
    if chars.len() < 2 {
        return false;
    }
    let mut i: usize = 0;
    while i < chars.len() - 1
        invariant
            2 <= chars@.len(),
            i <= chars@.len() - 1,
            forall|j: int| 0 <= j < i && j < chars@.len() - 1 ==> !(chars@[j] == '\r' && #[trigger] chars@[j + 1] == '\n'),
        decreases chars@.len() - i,
    {
        if chars[i] == '\r' && chars[i + 1] == '\n' {
            return true;
        }
        i = i + 1;
    }
    false
}

/// The lines with `[table]` in them (appended when missing) and the index of
/// its header.
fn locate(lines: &mut Vec<String>, table: &str) -> (start: usize)
    ensures
        (views(final(lines)@), start as int) == locate_table(views(old(lines)@), table@),
        start < final(lines)@.len(),
{
    let header = concat3("[", table, "]");
    proof {
        reveal_strlit("[");
        reveal_strlit("]");
        assert(header@ =~= header_of(table@));
    }
    let header_chars = chars_of(&header);
    let found = first_header(lines, &header_chars);
    if found < lines.len() {
        return found;
    }
    let ghost initial = views(lines@);
    if lines.len() > 0 {
        let last = chars_of(&lines[lines.len() - 1]);
        if !line_is_blank(&last) {
            lines.push(String::new());
            assert(views(lines@) =~= initial.push(Seq::empty()));
        }
    }
    let ghost padded = views(lines@);
    lines.push(header);
    assert(views(lines@) =~= padded.push(header_of(table@)));
    lines.len() - 1
}

fn insertion_index(lines: &Vec<String>, start: usize, end: usize) -> (index: usize)
    requires
        start < end <= lines@.len(),
    ensures
        index == insertion_point(views(lines@), start as int, end as int),
        start + 1 <= index <= end,
{
    let mut p = end;
    while p > start + 1
        invariant
            start < p <= end <= lines@.len(),
            insertion_point(views(lines@), start as int, p as int) == insertion_point(
                views(lines@),
                start as int,
                end as int,
            ),
        decreases p,
    {
        let chars = chars_of(&lines[p - 1]);
        if !line_is_blank(&chars) {
            return p;
        }
        p = p - 1;
    }
    p
}

/// Places `line` (an assignment of `key`) in the table between `start` and
/// `end`, updating the end and insertion point.
fn place_line(
    lines: &mut Vec<String>,
    start: usize,
    end: &mut usize,
    ins: &mut usize,
    key: &str,
    line: String,
)
    requires
        start < *old(end) <= old(lines)@.len(),
        start < *old(ins) <= *old(end),
    ensures
        (views(final(lines)@), *final(end) as int, *final(ins) as int) == place(
            views(old(lines)@),
            start as int,
            *old(end) as int,
            *old(ins) as int,
            key@,
            line@,
        ),
        start < *final(end) <= final(lines)@.len(),
        start < *final(ins) <= *final(end),
{
    let key_chars = text_chars(key);
    let existing = first_assignment(lines, start + 1, *end, &key_chars);
    let ghost before = views(lines@);
    if existing < *end {
        let ghost line_view = line@;
        lines.set(existing, line);
        assert(views(lines@) =~= before.update(existing as int, line_view));
    } else {
        let ghost line_view = line@;
        lines.insert(*ins, line);
        assert(views(lines@) =~= before.insert(*ins as int, line_view));
        let count = lines.len();
        assert(*end < count);
        *end = *end + 1;
        *ins = *ins + 1;
    }
}

fn finish(source: &str, source_chars: &Vec<char>, lines: &Vec<String>) -> (text: String)
    requires
        source_chars@ == source@,
    ensures
        text@ == finish_text(source@, views(lines@)),
{
    let newline = if crlf_in(source_chars) {
        "\r\n"
    } else {
        "\n"
    };
    proof {
        reveal_strlit("\r\n");
        reveal_strlit("\n");
        assert(newline@ == line_ending(source@));
    }
    let mut text = join_lines(lines, newline);
    let n = source_chars.len();
    if n == 0 || source_chars[n - 1] == '\n' {
        text.append(newline);
    }
    text
}

/// Sets `key = value` in `[table]` of a TOML text, keeping everything else:
/// an existing assignment of the key in that table is replaced; otherwise the
/// assignment goes after the table's last non-blank line, and a missing table
/// is appended.
pub fn replace_table_value(source: &str, table: &str, key: &str, value: &str) -> (updated: String)
    ensures
        updated@ == spec_replace_table_value(source@, table@, key@, value@),
{
    let source_chars = text_chars(source);
    let mut lines = split_into_lines(source);
    let start = locate(&mut lines, table);
    let count = lines.len();
    assert(start < count);
    let mut end = first_table(&lines, start + 1);
    proof {
        lemma_first_from(views(lines@), start + 1, table_test());
    }
    let mut ins = insertion_index(&lines, start, end);
    let line = concat3(key, " = ", value);
    place_line(&mut lines, start, &mut end, &mut ins, key, line);
    finish(source, &source_chars, &lines)
}

fn bool_name(b: bool) -> (name: &'static str)
    ensures
        name@ == bool_text(b),
{
    if b {
        "true"
    } else {
        "false"
    }
}

/// Sets the two scroll directions in `[session]` of a TOML text, in the same
/// way as `replace_table_value`; both assignments that were missing are
/// inserted together, in order.
pub fn scroll_settings_source(source: &str, reverse_horizontal: bool, reverse_vertical: bool) -> (updated: String)
    ensures
        updated@ == spec_scroll_settings_source(source@, reverse_horizontal, reverse_vertical),
{
    let source_chars = text_chars(source);
    let mut lines = split_into_lines(source);
    let start = locate(&mut lines, "session");
    let count = lines.len();
    assert(start < count);
    let mut end = first_table(&lines, start + 1);
    proof {
        lemma_first_from(views(lines@), start + 1, table_test());
    }
    let mut ins = insertion_index(&lines, start, end);
    let horizontal = crate::text::concat2(
        "reverse_scroll_horizontal = ",
        bool_name(reverse_horizontal),
    );
    place_line(&mut lines, start, &mut end, &mut ins, "reverse_scroll_horizontal", horizontal);
    let vertical = crate::text::concat2(
        "reverse_scroll_vertical = ",
        bool_name(reverse_vertical),
    );
    place_line(&mut lines, start, &mut end, &mut ins, "reverse_scroll_vertical", vertical);
    finish(source, &source_chars, &lines)
}

/// Setting a value touches only its own table: every line up to the table's
/// header and every line from the next table on stays as it was (shifted by
/// at most the one inserted line), and the assignment line appears in the table.
pub proof fn law_place_keeps_other_tables(
    lines: Seq<Seq<char>>,
    start: int,
    end: int,
    ins: int,
    key: Seq<char>,
    line: Seq<char>,
)
    requires
        0 <= start < end <= lines.len(),
        start < ins <= end,
    ensures
        ({
            let (placed, new_end, new_ins) = place(lines, start, end, ins, key, line);
            &&& placed.len() == lines.len() + (new_end - end)
            &&& new_end == end || new_end == end + 1
            &&& placed.subrange(0, start + 1) == lines.subrange(0, start + 1)
            &&& placed.subrange(new_end, placed.len() as int) == lines.subrange(
                end,
                lines.len() as int,
            )
            &&& exists|i: int| start < i < new_end && placed[i] == line
        }),
{
    lemma_first_from(lines.subrange(0, end), start + 1, key_test(key));
    let (placed, new_end, new_ins) = place(lines, start, end, ins, key, line);
    let existing = first_from(lines.subrange(0, end), start + 1, key_test(key));
    if existing < end {
        assert(placed.subrange(0, start + 1) =~= lines.subrange(0, start + 1));
        assert(placed.subrange(new_end, placed.len() as int) =~= lines.subrange(
            end,
            lines.len() as int,
        ));
        assert(placed[existing] == line);
    } else {
        assert(placed.subrange(0, start + 1) =~= lines.subrange(0, start + 1));
        assert(placed.subrange(new_end, placed.len() as int) =~= lines.subrange(
            end,
            lines.len() as int,
        ));
        assert(placed[ins] == line);
    }
}


/// A line holds no line break.
pub open spec fn clean_line(line: Seq<char>) -> bool {
    forall|i: int| 0 <= i < line.len() ==> line[i] != '\n' && line[i] != '\r'
}

/// Every `\r` of a text starts a `\r\n`.
pub open spec fn no_lone_cr(s: Seq<char>) -> bool {
    forall|i: int| 0 <= i < s.len() && #[trigger] s[i] == '\r' ==> i + 1 < s.len() && s[i + 1] == '\n'
}

proof fn lemma_find_char_is(s: Seq<char>, c: char, k: int)
    requires
        k == -1 || (0 <= k < s.len() && s[k] == c),
        forall|j: int| 0 <= j < s.len() && (k < 0 || j < k) ==> s[j] != c,
    ensures
        find_char(s, c) == k,
{
    lemma_find_char(s, c);
    let f = find_char(s, c);
    if f >= 0 {
        assert(s[f] == c);
        if k >= 0 && k < f {
            assert(s[k] != c);
        }
    } else if k >= 0 {
        assert(s[k] != c);
    }
}

proof fn lemma_first_from_is(lines: Seq<Seq<char>>, from: int, found: spec_fn(Seq<char>) -> bool, k: int)
    requires
        0 <= from <= k <= lines.len(),
        k < lines.len() ==> found(lines[k]),
        forall|j: int| from <= j < k ==> !found(#[trigger] lines[j]),
    ensures
        first_from(lines, from, found) == k,
    decreases k - from,
{
    if from < k {
        assert(!found(lines[from]));
        lemma_first_from_is(lines, from + 1, found, k);
    }
}

/// The text of lines joined, seen from its first line.
proof fn lemma_join_front(lines: Seq<Seq<char>>, separator: Seq<char>)
    requires
        lines.len() >= 2,
    ensures
        join(lines, separator) == lines[0] + separator + join(lines.drop_first(), separator),
    decreases lines.len(),
{
    if lines.len() == 2 {
        assert(lines.drop_last() =~= seq![lines[0]]);
        assert(lines.drop_first() =~= seq![lines[1]]);
        assert(join(lines.drop_last(), separator) == lines[0]);
        assert(join(lines.drop_first(), separator) == lines[1]);
    } else {
        lemma_join_front(lines.drop_last(), separator);
        assert(lines.drop_last().drop_first() =~= lines.drop_first().drop_last());
        assert(lines.drop_first().last() == lines.last());
        assert(lines.drop_last()[0] == lines[0]);
        assert(join(lines.drop_first(), separator) == join(lines.drop_first().drop_last(), separator)
            + separator + lines.drop_first().last());
        assert(lines[0] + separator + join(lines.drop_first().drop_last(), separator) + separator
            + lines.last() =~= lines[0] + separator + (join(lines.drop_first().drop_last(), separator)
            + separator + lines.last()));
    }
}

/// The separator that `finish_text` joins with.
pub open spec fn is_newline(newline: Seq<char>) -> bool {
    newline == seq!['\n'] || newline == seq!['\r', '\n']
}

/// Splitting one clean line followed by a newline and more text.
proof fn lemma_split_first(first: Seq<char>, newline: Seq<char>, rest: Seq<char>)
    requires
        clean_line(first),
        is_newline(newline),
    ensures
        split_lines(first + newline + rest) == seq![first] + split_lines(rest),
{
    let s = first + newline + rest;
    let k = first.len() + newline.len() - 1;
    assert(s[k] == '\n');
    assert forall|j: int| 0 <= j < s.len() && j < k implies s[j] != '\n' by {
        if j < first.len() {
            assert(s[j] == first[j]);
        } else {
            assert(s[j] == '\r');
        }
    }
    lemma_find_char_is(s, '\n', k);
    assert(s.subrange(k + 1, s.len() as int) =~= rest);
    if newline.len() == 2 {
        assert(s.subrange(0, k) =~= first.push('\r'));
        assert(strip_cr(s.subrange(0, k)) =~= first);
    } else {
        assert(s.subrange(0, k) =~= first);
        if first.len() > 0 {
            assert(first.last() != '\r');
        }
    }
}

/// Lines joined and ended with a newline split back into the same lines.
proof fn lemma_split_join_ended(lines: Seq<Seq<char>>, newline: Seq<char>)
    requires
        lines.len() >= 1,
        forall|i: int| 0 <= i < lines.len() ==> clean_line(#[trigger] lines[i]),
        is_newline(newline),
    ensures
        split_lines(join(lines, newline) + newline) == lines,
    decreases lines.len(),
{
    assert(clean_line(lines[0]));
    if lines.len() == 1 {
        lemma_split_first(lines[0], newline, Seq::empty());
        assert(lines[0] + newline + Seq::<char>::empty() =~= join(lines, newline) + newline);
        assert(seq![lines[0]] + split_lines(Seq::empty()) =~= lines);
    } else {
        lemma_join_front(lines, newline);
        let rest = lines.drop_first();
        assert forall|i: int| 0 <= i < rest.len() implies clean_line(#[trigger] rest[i]) by {
            assert(rest[i] == lines[i + 1]);
        }
        lemma_split_join_ended(rest, newline);
        lemma_split_first(lines[0], newline, join(rest, newline) + newline);
        assert(join(lines, newline) + newline =~= lines[0] + newline + (join(rest, newline)
            + newline));
        assert(seq![lines[0]] + rest =~= lines);
    }
}

/// Lines joined without a final newline split back into the same lines when
/// the last one is not empty.
proof fn lemma_split_join_open(lines: Seq<Seq<char>>, newline: Seq<char>)
    requires
        lines.len() >= 1,
        lines.last().len() > 0,
        forall|i: int| 0 <= i < lines.len() ==> clean_line(#[trigger] lines[i]),
        is_newline(newline),
    ensures
        split_lines(join(lines, newline)) == lines,
    decreases lines.len(),
{
    assert(clean_line(lines[0]));
    if lines.len() == 1 {
        let s = lines[0];
        assert forall|j: int| 0 <= j < s.len() implies s[j] != '\n' by {}
        lemma_find_char_is(s, '\n', -1);
        assert(seq![s] =~= lines);
    } else {
        lemma_join_front(lines, newline);
        let rest = lines.drop_first();
        assert forall|i: int| 0 <= i < rest.len() implies clean_line(#[trigger] rest[i]) by {
            assert(rest[i] == lines[i + 1]);
        }
        assert(rest.last() == lines.last());
        lemma_split_join_open(rest, newline);
        lemma_split_first(lines[0], newline, join(rest, newline));
        assert(seq![lines[0]] + rest =~= lines);
    }
}

/// Lines joined by a separator without `\r` hold no `\r`.
proof fn lemma_join_no_cr(lines: Seq<Seq<char>>)
    requires
        forall|i: int| 0 <= i < lines.len() ==> clean_line(#[trigger] lines[i]),
    ensures
        forall|j: int| 0 <= j < join(lines, seq!['\n']).len() ==> join(lines, seq!['\n'])[j] != '\r',
    decreases lines.len(),
{
    if lines.len() == 1 {
        assert(clean_line(lines[0]));
    } else if lines.len() >= 2 {
        let earlier = lines.drop_last();
        assert forall|i: int| 0 <= i < earlier.len() implies clean_line(#[trigger] earlier[i]) by {
            assert(earlier[i] == lines[i]);
        }
        lemma_join_no_cr(earlier);
        assert(clean_line(lines[lines.len() - 1]));
        let a = join(earlier, seq!['\n']);
        let t = join(lines, seq!['\n']);
        assert forall|j: int| 0 <= j < t.len() implies t[j] != '\r' by {
            if j < a.len() {
                assert(t[j] == a[j]);
            } else if j > a.len() {
                assert(t[j] == lines.last()[j - a.len() - 1]);
            }
        }
    }
}

/// The last character of joined lines is that of the last line.
proof fn lemma_join_last(lines: Seq<Seq<char>>, separator: Seq<char>)
    requires
        lines.len() >= 1,
        lines.last().len() > 0,
    ensures
        join(lines, separator).len() > 0,
        join(lines, separator).last() == lines.last().last(),
{
}

/// The lines of a text without lone `\r` hold no line break; a text that
/// has a `\r\n` ends with a newline or has two lines or more; a text that
/// does not end with a newline ends with a line that is not empty.
proof fn lemma_split_facts(s: Seq<char>)
    requires
        no_lone_cr(s),
    ensures
        forall|i: int| 0 <= i < split_lines(s).len() ==> clean_line(#[trigger] split_lines(s)[i]),
        has_crlf(s) ==> (s.len() > 0 && s.last() == '\n') || split_lines(s).len() >= 2,
        s.len() > 0 && s.last() != '\n' ==> split_lines(s).len() >= 1 && split_lines(s).last().len()
            > 0,
    decreases s.len(),
{
    let lines = split_lines(s);
    if s.len() > 0 {
        lemma_find_char(s, '\n');
        let i = find_char(s, '\n');
        if i < 0 {
            assert forall|j: int| 0 <= j < s.len() implies s[j] != '\r' by {
                if s[j] == '\r' {
                    assert(s[j + 1] == '\n');
                }
            }
            assert(lines == seq![s]);
            assert(clean_line(s));
            if has_crlf(s) {
                let k = choose|k: int| 0 <= k < s.len() - 1 && s[k] == '\r' && #[trigger] s[k + 1]
                    == '\n';
                assert(s[k + 1] != '\n');
            }
        } else {
            let head = s.subrange(0, i);
            let rest = s.subrange(i + 1, s.len() as int);
            assert(no_lone_cr(rest)) by {
                assert forall|j: int| 0 <= j < rest.len() && #[trigger] rest[j] == '\r' implies j + 1 < rest.len()
                    && rest[j + 1] == '\n' by {
                    assert(rest[j] == s[i + 1 + j]);
                    assert(s[i + 1 + j + 1] == '\n');
                    assert(rest[j + 1] == s[i + 1 + j + 1]);
                }
            }
            lemma_split_facts(rest);
            let line = strip_cr(head);
            assert(clean_line(line)) by {
                assert forall|j: int| 0 <= j < line.len() implies line[j] != '\n' && line[j] != '\r' by {
                    assert(line[j] == s[j]);
                    if s[j] == '\r' {
                        assert(s[j + 1] == '\n');
                        assert(j + 1 >= i);
                        assert(j + 1 == i);
                        assert(head.last() == '\r');
                        assert(line.len() == head.len() - 1);
                    }
                }
            }
            assert(lines == seq![line] + split_lines(rest));
            assert forall|k: int| 0 <= k < lines.len() implies clean_line(#[trigger] lines[k]) by {
                if k > 0 {
                    assert(lines[k] == split_lines(rest)[k - 1]);
                }
            }
            if rest.len() > 0 {
                assert(split_lines(rest).len() >= 1);
                assert(lines.len() >= 2);
            } else {
                assert(s.last() == '\n');
            }
            if s.len() > 0 && s.last() != '\n' {
                assert(rest.len() > 0);
                assert(rest.last() == s.last());
                assert(lines.last() == split_lines(rest).last());
            }
        }
    }
}

/// A line that sets `key`.
proof fn lemma_assignment_assigns(key: Seq<char>, value: Seq<char>)
    requires
        trim(key) == key,
        forall|i: int| 0 <= i < key.len() ==> key[i] != '=',
    ensures
        assigns_key(key + " = "@ + value, key),
{
    reveal_strlit(" = ");
    let line = key + " = "@ + value;
    let n = key.len() as int;
    assert(line[n] == ' ');
    assert(line[n + 1] == '=');
    assert forall|j: int| 0 <= j < line.len() && j < key.len() + 1 implies line[j] != '=' by {
        if j < key.len() {
            assert(line[j] == key[j]);
        }
    }
    lemma_find_char_is(line, '=', n + 1);
    let before = line.subrange(0, n + 1);
    assert(before =~= key.push(' '));
    assert(is_white_space(' '));
    assert(find_char(line, '=') == n + 1);
    if key.len() == 0 {
        assert(before.drop_first() =~= Seq::<char>::empty());
        assert(trim_front(before) == trim_front(before.drop_first()));
        assert(trim_front(before) =~= Seq::<char>::empty());
        assert(trim(before) =~= key);
    } else {
        lemma_trim_front_len(key.drop_first());
        if is_white_space(key[0]) {
            assert(trim_front(key) == trim_front(key.drop_first()));
            lemma_trim_back_len(trim_front(key));
            assert(false);
        }
        assert(trim_front(before) == before);
        assert(trim_front(key) == key);
        assert(before.drop_last() =~= key);
        assert(before.last() == ' ');
        assert(trim_back(before) == trim_back(before.drop_last()));
        assert(trim(before) == key);
    }
}

proof fn lemma_trim_front_len(s: Seq<char>)
    ensures
        trim_front(s).len() <= s.len(),
    decreases s.len(),
{
    if s.len() > 0 && is_white_space(s[0]) {
        lemma_trim_front_len(s.drop_first());
    }
}

proof fn lemma_trim_back_len(s: Seq<char>)
    ensures
        trim_back(s).len() <= s.len(),
    decreases s.len(),
{
    if s.len() > 0 && is_white_space(s.last()) {
        lemma_trim_back_len(s.drop_last());
    }
}

proof fn lemma_insertion_point_bounds(lines: Seq<Seq<char>>, start: int, p: int)
    requires
        start < p,
    ensures
        start < insertion_point(lines, start, p) <= p,
    decreases p - start,
{
    if p > start + 1 && trim(lines[p - 1]).len() == 0 {
        lemma_insertion_point_bounds(lines, start, p - 1);
    }
}


/// What setting a value leaves in the file, line by line: the lines, where
/// the table starts, and where the assignment line is.
proof fn lemma_placed_lines(source: Seq<char>, table: Seq<char>, key: Seq<char>, value: Seq<char>)
    requires
        no_lone_cr(source),
        clean_line(table),
        clean_line(key),
        clean_line(value),
        trim(key) == key,
        forall|i: int| 0 <= i < key.len() ==> key[i] != '=',
        !is_table_line(key + " = "@ + value),
    ensures
        ({
            let (lines, start) = locate_table(split_lines(source), table);
            let end = table_end(lines, start);
            let ins = insertion_point(lines, start, end);
            let line = key + " = "@ + value;
            let (placed, new_end, new_ins) = place(lines, start, end, ins, key, line);
            &&& placed.len() >= 1
            &&& forall|i: int| 0 <= i < placed.len() ==> clean_line(#[trigger] placed[i])
            &&& (source.len() > 0 && source.last() != '\n') ==> placed.last().len() > 0
            &&& has_crlf(source) ==> (source.len() > 0 && source.last() == '\n') || placed.len() >= 2
            &&& locate_table(placed, table) == (placed, start)
            &&& table_end(placed, start) == new_end
            &&& insertion_point(placed, start, new_end) >= start + 1
            &&& place(placed, start, new_end, insertion_point(placed, start, new_end), key, line).0
                == placed
            &&& 0 <= start < end <= lines.len()
            &&& placed.subrange(0, start + 1) == lines.subrange(0, start + 1)
            &&& placed.subrange(new_end, placed.len() as int) == lines.subrange(end, lines.len() as int)
            &&& exists|i: int| start < i < new_end && placed[i] == line
        }),
{
    reveal_strlit(" = ");
    let split = split_lines(source);
    lemma_split_facts(source);
    let header = header_of(table);
    let h = first_from(split, 0, header_test(header));
    lemma_first_from(split, 0, header_test(header));
    let (lines, start) = locate_table(split, table);
    let line = key + " = "@ + value;
    assert(clean_line(line)) by {
        assert forall|i: int| 0 <= i < line.len() implies line[i] != '\n' && line[i] != '\r' by {
            if i < key.len() {
                assert(line[i] == key[i]);
            } else if i >= key.len() + 3 {
                assert(line[i] == value[i - key.len() - 3]);
            }
        }
    }
    assert(line.len() > 0);
    assert(clean_line(header)) by {
        assert forall|i: int| 0 <= i < header.len() implies header[i] != '\n' && header[i] != '\r' by {
            if 0 < i < header.len() - 1 {
                assert(header[i] == table[i - 1]);
            }
        }
    }
    // The header line is found where `locate_table` put it, and nowhere before.
    assert(trim_front(header) == header);
    assert(trim_back(header) == header);
    assert(header_test(header)(header));
    assert(forall|i: int| 0 <= i < lines.len() ==> clean_line(#[trigger] lines[i])) by {
        if h >= split.len() {
            let padded = if split.len() > 0 && trim(split.last()).len() != 0 {
                split.push(Seq::empty())
            } else {
                split
            };
            assert forall|i: int| 0 <= i < lines.len() implies clean_line(#[trigger] lines[i]) by {
                if i < split.len() {
                    assert(lines[i] == split[i]);
                } else if i == padded.len() {
                    assert(lines[i] == header);
                } else {
                    assert(lines[i] == Seq::<char>::empty());
                }
            }
        }
    }
    assert(0 <= start < lines.len());
    assert(header_test(header)(lines[start]));
    assert(forall|j: int| 0 <= j < start ==> !header_test(header)(#[trigger] lines[j])) by {
        if h >= split.len() {
            assert forall|j: int| 0 <= j < start implies !header_test(header)(#[trigger] lines[j]) by {
                if j < split.len() {
                    assert(lines[j] == split[j]);
                } else {
                    assert(lines[j] == Seq::<char>::empty());
                    assert(trim_front(Seq::<char>::empty()) == Seq::<char>::empty());
                    assert(trim(lines[j]).len() == 0);
                }
            }
        }
    }
    assert(source.len() > 0 && source.last() != '\n' ==> lines.last().len() > 0) by {
        if source.len() > 0 && source.last() != '\n' && h >= split.len() {
            assert(lines.last() == header);
        }
    }
    assert(has_crlf(source) ==> (source.len() > 0 && source.last() == '\n') || lines.len() >= 2);
    // The table's end.
    let end = table_end(lines, start);
    lemma_first_from(lines, start + 1, table_test());
    let ins = insertion_point(lines, start, end);
    lemma_insertion_point_bounds(lines, start, end);
    let within = lines.subrange(0, end);
    let existing = first_from(within, start + 1, key_test(key));
    lemma_first_from(within, start + 1, key_test(key));
    let (placed, new_end, new_ins) = place(lines, start, end, ins, key, line);
    law_place_keeps_other_tables(lines, start, end, ins, key, line);
    lemma_assignment_assigns(key, value);
    assert(key_test(key)(line));
    assert(!table_test()(line));
    // Where the assignment line stands.
    let q = if existing < end {
        existing
    } else {
        ins
    };
    assert(placed[q] == line);
    assert(forall|i: int| 0 <= i < placed.len() ==> clean_line(#[trigger] placed[i])) by {
        assert forall|i: int| 0 <= i < placed.len() implies clean_line(#[trigger] placed[i]) by {
            if existing < end {
                if i != existing {
                    assert(placed[i] == lines[i]);
                }
            } else if i < ins {
                assert(placed[i] == lines[i]);
            } else if i > ins {
                assert(placed[i] == lines[i - 1]);
            }
        }
    }
    assert(forall|j: int| 0 <= j < start + 1 ==> placed[j] == lines[j]);
    // The header is found again at the same place.
    assert forall|j: int| 0 <= j < start implies !header_test(header)(#[trigger] placed[j]) by {
        assert(placed[j] == lines[j]);
    }
    lemma_first_from_is(placed, 0, header_test(header), start);
    assert(locate_table(placed, table) == (placed, start));
    // The table ends where the placed table ends.
    assert forall|j: int| start + 1 <= j < new_end implies !table_test()(#[trigger] placed[j]) by {
        if existing < end {
            if j != existing {
                assert(placed[j] == lines[j]);
            }
        } else if j < ins {
            assert(placed[j] == lines[j]);
        } else if j > ins {
            assert(placed[j] == lines[j - 1]);
        }
    }
    if new_end < placed.len() {
        if existing < end {
            assert(placed[new_end] == lines[end]);
        } else {
            assert(placed[new_end] == lines[end]);
        }
    }
    lemma_first_from_is(placed, start + 1, table_test(), new_end);
    // Setting the value again finds the line it set.
    let within2 = placed.subrange(0, new_end);
    assert forall|j: int| start + 1 <= j < q implies !key_test(key)(#[trigger] within2[j]) by {
        assert(within2[j] == placed[j]);
        assert(placed[j] == lines[j]);
        assert(within[j] == lines[j]);
    }
    assert(within2[q] == line);
    lemma_first_from_is(within2, start + 1, key_test(key), q);
    lemma_insertion_point_bounds(placed, start, new_end);
    assert(placed.update(q, line) =~= placed);
    // The end of the file.
    assert((source.len() > 0 && source.last() != '\n') ==> placed.last().len() > 0) by {
        if source.len() > 0 && source.last() != '\n' {
            if existing < end {
                if existing != lines.len() - 1 {
                    assert(placed.last() == lines.last());
                }
            } else if ins < lines.len() {
                assert(placed.last() == lines.last());
            }
        }
    }
}

/// Setting a value again changes nothing, and setting it keeps the rest of
/// the file: the lines up to the table's header and from the next table on
/// stay as they were, the table holds the assignment line, and the file keeps
/// its line ending and whether it ends with one. This holds for a table, key
/// and value without line breaks, a key without `=` or surrounding white
/// space whose assignment line does not read as a table header, and a file
/// whose every `\r` starts a `\r\n`.
pub proof fn law_setting_a_value_again_changes_nothing(
    source: Seq<char>,
    table: Seq<char>,
    key: Seq<char>,
    value: Seq<char>,
)
    requires
        no_lone_cr(source),
        clean_line(table),
        clean_line(key),
        clean_line(value),
        trim(key) == key,
        forall|i: int| 0 <= i < key.len() ==> key[i] != '=',
        !is_table_line(key + " = "@ + value),
    ensures
        ({
            let updated = spec_replace_table_value(source, table, key, value);
            let (lines, start) = locate_table(split_lines(source), table);
            let end = table_end(lines, start);
            let after = split_lines(updated);
            &&& spec_replace_table_value(updated, table, key, value) == updated
            &&& line_ending(updated) == line_ending(source)
            &&& updated.len() > 0
            &&& (updated.last() == '\n' <==> (source.len() == 0 || source.last() == '\n'))
            &&& after.subrange(0, start + 1) == lines.subrange(0, start + 1)
            &&& after.subrange(table_end(after, start), after.len() as int) == lines.subrange(
                end,
                lines.len() as int,
            )
            &&& exists|i: int| start < i < table_end(after, start) && after[i] == key + " = "@ + value
        }),
{
    lemma_placed_lines(source, table, key, value);
    let (lines, start) = locate_table(split_lines(source), table);
    let end = table_end(lines, start);
    let ins = insertion_point(lines, start, end);
    let line = key + " = "@ + value;
    let (placed, new_end, new_ins) = place(lines, start, end, ins, key, line);
    let newline = line_ending(source);
    assert(is_newline(newline));
    let ended = (source.len() > 0 && source.last() == '\n') || source.len() == 0;
    let updated = finish_text(source, placed);
    assert(updated == spec_replace_table_value(source, table, key, value));
    if ended {
        lemma_split_join_ended(placed, newline);
        assert(updated.last() == '\n');
    } else {
        lemma_split_join_open(placed, newline);
        lemma_join_last(placed, newline);
        assert(clean_line(placed.last()));
        assert(updated.last() != '\n');
    }
    assert(split_lines(updated) == placed);
    // The line ending survives.
    if has_crlf(source) {
        assert(newline == seq!['\r', '\n']);
        if ended && source.len() > 0 {
            let k = updated.len() - 2;
            assert(updated[k] == '\r' && updated[k + 1] == '\n');
            assert(has_crlf(updated));
        } else {
            assert(placed.len() >= 2);
            let a = join(placed.drop_last(), newline);
            assert(join(placed, newline) == a + newline + placed.last());
            let m = a.len() as int;
            assert(updated[m] == '\r' && updated[m + 1] == '\n');
            assert(has_crlf(updated));
        }
    } else {
        assert(newline == seq!['\n']);
        lemma_join_no_cr(placed);
        if has_crlf(updated) {
            let k = choose|k: int| 0 <= k < updated.len() - 1 && updated[k] == '\r' && #[trigger] updated[
                k + 1] == '\n';
            assert(updated[k] == join(placed, newline)[k]);
        }
    }
    assert(line_ending(updated) == line_ending(source));
    assert(finish_text(updated, placed) == updated);
}

} // verus!
