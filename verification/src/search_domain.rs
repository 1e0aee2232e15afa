//! The search domain of a journal transaction column: a text of three terms
//! separated by commas, each a name and a value separated by `=`, such as
//! `journal_id = <uuid>, timestamp = 2024-01-31 10:00:00.000000,
//! template_column_id = <uuid>`. Spaces around names and values are ignored.
use vstd::prelude::*;
use vstd::string::{StrSliceExecFns, StringExecFns};
use crate::calendar::{parse_timestamp, parsed_timestamp, Timestamp, TIMESTAMP_FORMAT};
use crate::error::{error_matches, ErrorKind, OrmError};
use crate::ids::{parse_uuid, parsed_uuid, JournalId, TemplateColumnId};

verus! {

/// Whether a character is white space, as `char::is_whitespace` has it: the
/// characters with the Unicode `White_Space` property.
pub open spec fn is_space(c: char) -> bool {
    let n = c as u32;
    ||| 0x09 <= n <= 0x0D
    ||| n == 0x20
    ||| n == 0x85
    ||| n == 0xA0
    ||| n == 0x1680
    ||| 0x2000 <= n <= 0x200A
    ||| n == 0x2028
    ||| n == 0x2029
    ||| n == 0x202F
    ||| n == 0x205F
    ||| n == 0x3000
}

/// The text without its leading white space.
pub open spec fn trim_start(s: Seq<char>) -> Seq<char>
    decreases s.len(),
{
    if s.len() > 0 && is_space(s[0]) {
        trim_start(s.drop_first())
    } else {
        s
    }
}

/// The text without its trailing white space.
pub open spec fn trim_end(s: Seq<char>) -> Seq<char>
    decreases s.len(),
{
    if s.len() > 0 && is_space(s.last()) {
        trim_end(s.drop_last())
    } else {
        s
    }
}

/// The text without white space at either end.
pub open spec fn trim(s: Seq<char>) -> Seq<char> {
    trim_end(trim_start(s))
}

/// The pieces of a text between the separators, empty ones included; a text
/// without separators is one piece.
pub open spec fn split_on(s: Seq<char>, sep: char) -> Seq<Seq<char>>
    decreases s.len(),
{
    if s.len() == 0 {
        seq![Seq::<char>::empty()]
    } else {
        let p = split_on(s.drop_last(), sep);
        if s.last() == sep {
            p.push(Seq::<char>::empty())
        } else {
            p.update(p.len() - 1, p.last().push(s.last()))
        }
    }
}

/// The terms of a domain line: the pieces between `=` signs, trimmed.
pub open spec fn line_terms(line: Seq<char>) -> Seq<Seq<char>> {
    split_on(line, '=').map_values(|t: Seq<char>| trim(t))
}

/// What a search domain asks for; a term that the domain does not name is absent.
#[derive(Clone, Copy, Debug, PartialEq, Eq, Structural)]
pub struct ColumnDomain {
    pub journal_id: Option<JournalId>,
    pub timestamp: Option<Timestamp>,
    pub template_column_id: Option<TemplateColumnId>,
}

/// A domain that names no term.
pub open spec fn no_terms() -> ColumnDomain {
    ColumnDomain { journal_id: None, timestamp: None, template_column_id: None }
}

/// The domain after one line is read into it, or the text of the line's error.
pub open spec fn apply_line(acc: ColumnDomain, line: Seq<char>) -> Result<ColumnDomain, Seq<char>> {
    let terms = line_terms(line);
    if terms.len() != 2 {
        Err("invalid domain line"@)
    } else if terms[0] == "journal_id"@ {
        match parsed_uuid(terms[1]) {
            Ok(v) => Ok(ColumnDomain { journal_id: Some(JournalId { value: v }), ..acc }),
            Err(e) => Err(e),
        }
    } else if terms[0] == "timestamp"@ {
        match parsed_timestamp(terms[1], TIMESTAMP_FORMAT@) {
            Ok(m) => Ok(ColumnDomain { timestamp: Some(Timestamp { micros: m }), ..acc }),
            Err(e) => Err(e),
        }
    } else if terms[0] == "template_column_id"@ {
        match parsed_uuid(terms[1]) {
            Ok(v) => Ok(ColumnDomain { template_column_id: Some(TemplateColumnId { value: v }), ..acc }),
            Err(e) => Err(e),
        }
    } else {
        Err("unknown term '"@ + terms[0] + "' in domain"@)
    }
}

/// The domain after the lines are read into it in order, or the text of the
/// first line's error.
pub open spec fn apply_lines(acc: ColumnDomain, lines: Seq<Seq<char>>) -> Result<ColumnDomain, Seq<char>>
    decreases lines.len(),
{
    if lines.len() == 0 {
        Ok(acc)
    } else {
        match apply_line(acc, lines[0]) {
            Ok(next) => apply_lines(next, lines.drop_first()),
            Err(e) => Err(e),
        }
    }
}

/// What a search domain asks for, or the text of its error: it must have
/// exactly three lines, and each is read in turn.
pub open spec fn parse_domain_text(d: Seq<char>) -> Result<ColumnDomain, Seq<char>> {
    let lines = split_on(d, ',');
    if lines.len() != 3 {
        Err("invalid domain"@)
    } else {
        apply_lines(no_terms(), lines)
    }
}

/// A pair of positions in a text, the start and the end of a piece.
pub open spec fn pieces(s: Seq<char>, ranges: Seq<(usize, usize)>) -> Seq<Seq<char>> {
    ranges.map_values(|r: (usize, usize)| s.subrange(r.0 as int, r.1 as int))
}

/// The characters of a text.
fn chars_of(s: &str) -> (r: Vec<char>)
    ensures
        r@ == s@,
{
    let n = s.unicode_len();
    let mut r: Vec<char> = Vec::new();
    let mut i: usize = 0;
    while i < n
        invariant
            n == s@.len(),
            i <= n,
            r@ == s@.take(i as int),
        decreases n - i,
    {
        r.push(s.get_char(i));
        i = i + 1;
        assert(r@ =~= s@.take(i as int));
    }
    assert(s@.take(n as int) =~= s@);
    r
}

/// The positions of the pieces of a stretch of a text between the separators.
fn split_ranges(s: &Vec<char>, from: usize, to: usize, sep: char) -> (r: Vec<(usize, usize)>)
    requires
        from <= to <= s@.len(),
    ensures
        pieces(s@, r@) == split_on(s@.subrange(from as int, to as int), sep),
        forall|k: int| 0 <= k < r@.len() ==> from <= #[trigger] r@[k].0 <= r@[k].1 <= to,
{
    let mut r: Vec<(usize, usize)> = Vec::new();
    let mut start: usize = from;
    let mut i: usize = from;
    assert(s@.subrange(from as int, from as int) =~= Seq::<char>::empty());
    assert(pieces(s@, r@).push(s@.subrange(start as int, i as int)) =~= split_on(s@.subrange(from as int, i as int), sep));
    while i < to
        invariant
            from <= start <= i <= to <= s@.len(),
            pieces(s@, r@).push(s@.subrange(start as int, i as int)) == split_on(s@.subrange(from as int, i as int), sep),
            forall|k: int| 0 <= k < r@.len() ==> from <= #[trigger] r@[k].0 <= r@[k].1 <= i,
        decreases to - i,
    {
        let ghost sub = s@.subrange(from as int, i + 1);
        proof {
            assert(sub.drop_last() =~= s@.subrange(from as int, i as int));
            assert(sub.last() == s@[i as int]);
        }
        if s[i] == sep {
            let ghost r0 = r@;
            r.push((start, i));
            assert(forall|k: int| 0 <= k < r0.len() ==> r@[k] == r0[k]);
            start = i + 1;
            i = i + 1;
            assert(s@.subrange(start as int, i as int) =~= Seq::<char>::empty());
            assert(pieces(s@, r@).push(s@.subrange(start as int, i as int)) =~= split_on(s@.subrange(from as int, i as int), sep));
        } else {
            let ghost before = pieces(s@, r@).push(s@.subrange(start as int, i as int));
            i = i + 1;
            assert(s@.subrange(start as int, i as int) =~= s@.subrange(start as int, i - 1).push(s@[i - 1]));
            assert(pieces(s@, r@).push(s@.subrange(start as int, i as int)) =~= before.update(before.len() - 1, before.last().push(s@[i - 1])));
        }
    }
    r.push((start, to));
    assert(pieces(s@, r@) =~= split_on(s@.subrange(from as int, to as int), sep));
    r
}

/// The positions of a stretch of a text without white space at either end.
fn trim_range(s: &Vec<char>, from: usize, to: usize) -> (r: (usize, usize))
    requires
        from <= to <= s@.len(),
    ensures
        from <= r.0 <= r.1 <= to,
        s@.subrange(r.0 as int, r.1 as int) == trim(s@.subrange(from as int, to as int)),
{
    let mut a: usize = from;
    while a < to && is_space_exec(s[a])
        invariant
            from <= a <= to <= s@.len(),
            trim_start(s@.subrange(from as int, to as int)) == trim_start(s@.subrange(a as int, to as int)),
        decreases to - a,
    {
        assert(s@.subrange(a as int, to as int).drop_first() =~= s@.subrange(a + 1, to as int));
        a = a + 1;
    }
    let mut b: usize = to;
    while b > a && is_space_exec(s[b - 1])
        invariant
            from <= a <= b <= to <= s@.len(),
            trim_end(s@.subrange(a as int, to as int)) == trim_end(s@.subrange(a as int, b as int)),
        decreases b - a,
    {
        assert(s@.subrange(a as int, b as int).drop_last() =~= s@.subrange(a as int, b - 1));
        b = b - 1;
    }
    (a, b)
}

/// Whether a character is white space.
fn is_space_exec(c: char) -> (b: bool)
    ensures
        b == is_space(c),
{
    let n = c as u32;
    (0x09 <= n && n <= 0x0D) || n == 0x20 || n == 0x85 || n == 0xA0 || n == 0x1680 || (0x2000 <= n && n
        <= 0x200A) || n == 0x2028 || n == 0x2029 || n == 0x202F || n == 0x205F || n == 0x3000
}

/// Whether a stretch of a text reads as the given word.
fn stretch_is(s: &Vec<char>, from: usize, to: usize, word: &str) -> (b: bool)
    requires
        from <= to <= s@.len(),
    ensures
        b == (s@.subrange(from as int, to as int) == word@),
{
    let n = word.unicode_len();
    if to - from != n {
        return false;
    }
    let mut i: usize = 0;
    while i < n
        invariant
            n == word@.len(),
            to - from == n,
            from <= to <= s@.len(),
            i <= n,
            forall|k: int| 0 <= k < i ==> s@[from + k] == word@[k],
        decreases n - i,
    {
        if s[from + i] != word.get_char(i) {
            assert(s@.subrange(from as int, to as int)[i as int] != word@[i as int]);
            return false;
        }
        i = i + 1;
    }
    assert(s@.subrange(from as int, to as int) =~= word@);
    true
}

/// Reads one line of a domain into what the domain asks for.
fn read_line(domain: &str, s: &Vec<char>, from: usize, to: usize, acc: ColumnDomain) -> (r: Result<ColumnDomain, OrmError>)
    requires
        s@ == domain@,
        from <= to <= s@.len(),
    ensures
        match apply_line(acc, s@.subrange(from as int, to as int)) {
            Ok(next) => r == Ok::<ColumnDomain, OrmError>(next),
            Err(t) => r matches Err(e) && error_matches(e, ErrorKind::Validation, t),
        },
{
    let ghost line = s@.subrange(from as int, to as int);
    let parts = split_ranges(s, from, to, '=');
    proof {
        assert(pieces(s@, parts@).map_values(|t: Seq<char>| trim(t)) == line_terms(line));
    }
    if parts.len() != 2 {
        proof {
            assert(line_terms(line).len() == parts@.len());
        }
        return Err(OrmError::Validation(String::from_str("invalid domain line")));
    }
    let (k0, k1) = parts[0];
    let (v0, v1) = parts[1];
    let (ka, kb) = trim_range(s, k0, k1);
    let (va, vb) = trim_range(s, v0, v1);
    proof {
        assert(line_terms(line)[0] == trim(pieces(s@, parts@)[0]));
        assert(line_terms(line)[1] == trim(pieces(s@, parts@)[1]));
        assert(line_terms(line)[0] == s@.subrange(ka as int, kb as int));
        assert(line_terms(line)[1] == s@.subrange(va as int, vb as int));
    }
    let value = domain.substring_char(va, vb);
    if stretch_is(s, ka, kb, "journal_id") {
        match JournalId::parse_str(value) {
            Ok(id) => Ok(ColumnDomain { journal_id: Some(id), ..acc }),
            Err(e) => Err(OrmError::Validation(e)),
        }
    } else if stretch_is(s, ka, kb, "timestamp") {
        match parse_timestamp(value, TIMESTAMP_FORMAT) {
            Ok(t) => Ok(ColumnDomain { timestamp: Some(t), ..acc }),
            Err(e) => Err(OrmError::Validation(e)),
        }
    } else if stretch_is(s, ka, kb, "template_column_id") {
        match TemplateColumnId::parse_str(value) {
            Ok(id) => Ok(ColumnDomain { template_column_id: Some(id), ..acc }),
            Err(e) => Err(OrmError::Validation(e)),
        }
    } else {
        let head = String::from_str("unknown term '");
        let with_name = head.concat(domain.substring_char(ka, kb));
        Err(OrmError::Validation(with_name.concat("' in domain")))
    }
}

/// Reads a search domain: what it asks for, or the validation error of the
/// first thing wrong with it.
pub fn parse_domain(domain: &str) -> (r: Result<ColumnDomain, OrmError>)
    ensures
        match parse_domain_text(domain@) {
            Ok(c) => r == Ok::<ColumnDomain, OrmError>(c),
            Err(t) => r matches Err(e) && error_matches(e, ErrorKind::Validation, t),
        },
{
    let s = chars_of(domain);
    let lines = split_ranges(&s, 0, s.len(), ',');
    proof {
        assert(s@.subrange(0, s@.len() as int) =~= domain@);
    }
    if lines.len() != 3 {
        return Err(OrmError::Validation(String::from_str("invalid domain")));
    }
    let ghost ls = pieces(s@, lines@);
    let mut acc = ColumnDomain { journal_id: None, timestamp: None, template_column_id: None };
    let mut i: usize = 0;
    assert(ls.skip(0) =~= ls);
    while i < 3
        invariant
            s@ == domain@,
            lines@.len() == 3,
            ls == pieces(s@, lines@),
            ls == split_on(domain@, ','),
            forall|k: int| 0 <= k < lines@.len() ==> 0 <= #[trigger] lines@[k].0 <= lines@[k].1 <= s@.len(),
            i <= 3,
            apply_lines(no_terms(), ls) == apply_lines(acc, ls.skip(i as int)),
        decreases 3 - i,
    {
        let (a, b) = lines[i];
        proof {
            assert(ls.skip(i as int)[0] == s@.subrange(a as int, b as int));
            assert(ls.skip(i as int).drop_first() =~= ls.skip(i + 1));
        }
        match read_line(domain, &s, a, b, acc) {
            Ok(next) => {
                acc = next;
            },
            Err(e) => {
                return Err(e);
            },
        }
        i = i + 1;
    }
    assert(ls.skip(3).len() == 0);
    Ok(acc)
}

} // verus!
