use vstd::prelude::*;

verus! {

/// The fields of `s` split at every occurrence of the delimiter `d`.  An
/// empty sequence gives one empty field, and every delimiter ends a field,
/// so the result always holds exactly one field more than `s` holds
/// delimiters; empty fields are kept.
pub open spec fn split_seq(s: Seq<char>, d: char) -> Seq<Seq<char>>
    decreases s.len(),
{
    if s.len() == 0 {
        seq![Seq::<char>::empty()]
    } else if s[0] == d {
        seq![Seq::<char>::empty()] + split_seq(s.drop_first(), d)
    } else {
        let rest = split_seq(s.drop_first(), d);
        seq![seq![s[0]] + rest[0]] + rest.drop_first()
    }
}

pub proof fn lemma_split_seq_nonempty(s: Seq<char>, d: char)
    ensures
        split_seq(s, d).len() >= 1,
    decreases s.len(),
{
    if s.len() == 0 {
    } else {
        lemma_split_seq_nonempty(s.drop_first(), d);
    }
}

/// `split_seq(s, d)` with `cur` prepended onto its first field: the split of
/// a text whose first field began with `cur` before `s` was reached.
pub open spec fn split_with_prefix(cur: Seq<char>, s: Seq<char>, d: char) -> Seq<Seq<char>> {
    seq![cur + split_seq(s, d)[0]] + split_seq(s, d).drop_first()
}

proof fn lemma_split_with_prefix_empty(s: Seq<char>, d: char)
    ensures
        split_with_prefix(Seq::<char>::empty(), s, d) == split_seq(s, d),
{
    lemma_split_seq_nonempty(s, d);
    assert(Seq::<char>::empty() + split_seq(s, d)[0] =~= split_seq(s, d)[0]);
    assert(split_with_prefix(Seq::<char>::empty(), s, d) =~= split_seq(s, d));
}

proof fn lemma_split_with_prefix_delim(cur: Seq<char>, s: Seq<char>, d: char)
    requires
        s.len() > 0,
        s[0] == d,
    ensures
        split_with_prefix(cur, s, d) == seq![cur] + split_seq(s.drop_first(), d),
{
    lemma_split_seq_nonempty(s.drop_first(), d);
    assert(split_seq(s, d) == seq![Seq::<char>::empty()] + split_seq(s.drop_first(), d));
    assert(split_seq(s, d)[0] =~= Seq::<char>::empty());
    assert(cur + split_seq(s, d)[0] =~= cur);
    assert(split_seq(s, d).drop_first() =~= split_seq(s.drop_first(), d));
    assert(split_with_prefix(cur, s, d) =~= seq![cur] + split_seq(s.drop_first(), d));
}

proof fn lemma_split_with_prefix_char(cur: Seq<char>, s: Seq<char>, d: char)
    requires
        s.len() > 0,
        s[0] != d,
    ensures
        split_with_prefix(cur, s, d) == split_with_prefix(cur.push(s[0]), s.drop_first(), d),
{
    lemma_split_seq_nonempty(s.drop_first(), d);
    let rest = split_seq(s.drop_first(), d);
    assert(split_seq(s, d) == seq![seq![s[0]] + rest[0]] + rest.drop_first());
    assert(split_seq(s, d)[0] == seq![s[0]] + rest[0]);
    assert(cur + (seq![s[0]] + rest[0]) =~= cur.push(s[0]) + rest[0]);
    assert(split_seq(s, d).drop_first() =~= rest.drop_first());
    assert(split_with_prefix(cur, s, d) =~= split_with_prefix(cur.push(s[0]), s.drop_first(), d));
}

proof fn lemma_split_with_prefix_end(cur: Seq<char>, d: char)
    ensures
        split_with_prefix(cur, Seq::<char>::empty(), d) == seq![cur],
{
    assert(split_seq(Seq::<char>::empty(), d) == seq![Seq::<char>::empty()]);
    assert(cur + split_seq(Seq::<char>::empty(), d)[0] =~= cur);
    assert(split_with_prefix(cur, Seq::<char>::empty(), d) =~= seq![cur]);
}

/// Relies on `String::from_iter`: the string made of exactly the given
/// characters, in order.
#[verifier::external_body]
fn string_from_chars(v: Vec<char>) -> (r: String)
    ensures
        r@ == v@,
{
    String::from_iter(v)
}

/// The views of a vector of strings.
pub open spec fn string_views(v: Seq<String>) -> Seq<Seq<char>> {
    v.map_values(|f: String| f@)
}

/// Split `s` at every occurrence of `d`, keeping empty fields.
pub fn split_str(s: &str, d: char) -> (r: Vec<String>)
    ensures
        string_views(r@) == split_seq(s@, d),
        r@.len() >= 1,
{
    let mut fields: Vec<String> = Vec::new();
    let mut cur: Vec<char> = Vec::new();
    let ghost mut rest: Seq<char> = s@;
    proof {
        lemma_split_with_prefix_empty(s@, d);
        assert(string_views(fields@) =~= Seq::<Seq<char>>::empty());
        assert(s@.skip(0) =~= s@);
        assert(Seq::<Seq<char>>::empty() + split_seq(s@, d) =~= split_seq(s@, d));
    }
    for c in it: s.chars()
        invariant
            it.seq() == s@,
            rest == it.seq().skip(it.index() as int),
            string_views(fields@) + split_with_prefix(cur@, rest, d) == split_seq(s@, d),
    {
        proof {
            assert(rest.len() > 0);
            assert(rest[0] == c);
            if c == d {
                lemma_split_with_prefix_delim(cur@, rest, d);
            } else {
                lemma_split_with_prefix_char(cur@, rest, d);
            }
        }
        if c == d {
            let ghost old_fields = fields@;
            let ghost old_cur = cur@;
            let f = string_from_chars(cur);
            fields.push(f);
            cur = Vec::new();
            proof {
                assert(string_views(fields@) =~= string_views(old_fields).push(old_cur));
                assert(string_views(old_fields) + (seq![old_cur] + split_seq(
                    rest.drop_first(),
                    d,
                )) =~= string_views(fields@) + split_seq(rest.drop_first(), d));
                lemma_split_with_prefix_empty(rest.drop_first(), d);
            }
        } else {
            cur.push(c);
        }
        proof {
            rest = rest.drop_first();
            assert(rest =~= it.seq().skip(it.index() as int + 1));
        }
    }
    proof {
        assert(rest.len() == 0);
        assert(rest =~= Seq::<char>::empty());
        lemma_split_with_prefix_end(cur@, d);
    }
    let ghost old_fields = fields@;
    let ghost old_cur = cur@;
    let f = string_from_chars(cur);
    fields.push(f);
    proof {
        assert(string_views(fields@) =~= string_views(old_fields).push(old_cur));
        assert(string_views(old_fields) + seq![old_cur] =~= string_views(fields@));
        lemma_split_seq_nonempty(s@, d);
    }
    fields
}

/// A line without its trailing carriage return, if it has one: a row that
/// ends in "\r\n" parses the same as one that ends in "\n".
pub open spec fn strip_cr(line: Seq<char>) -> Seq<char> {
    if line.len() > 0 && line.last() == '\r' {
        line.drop_last()
    } else {
        line
    }
}

/// The newline-separated segments of a text, each without its trailing
/// carriage return.
pub open spec fn stripped_lines(s: Seq<char>) -> Seq<Seq<char>> {
    split_seq(s, '\n').map_values(|l: Seq<char>| strip_cr(l))
}

/// The data rows of a delimited text: the segments split at newlines, each
/// without a trailing carriage return, except that the empty segment after
/// a trailing line break is not a row.  Empty text has no rows; an empty
/// segment between two newlines is a row.
pub open spec fn line_seqs(s: Seq<char>) -> Seq<Seq<char>> {
    let raw = stripped_lines(s);
    if raw.last().len() == 0 {
        raw.drop_last()
    } else {
        raw
    }
}

/// The characters of a string, in order.
fn chars_of(s: &str) -> (r: Vec<char>)
    ensures
        r@ == s@,
{
    let mut out: Vec<char> = Vec::new();
    proof {
        assert(out@ =~= s@.take(0));
    }
    for c in it: s.chars()
        invariant
            it.seq() == s@,
            out@ == it.seq().take(it.index() as int),
    {
        out.push(c);
        proof {
            assert(out@ =~= it.seq().take(it.index() as int + 1));
        }
    }
    proof {
        assert(s@.take(s@.len() as int) =~= s@);
    }
    out
}

/// Copy a string, dropping its trailing carriage return if it has one.
fn strip_cr_str(s: &str) -> (r: String)
    ensures
        r@ == strip_cr(s@),
{
    let mut chars = chars_of(s);
    if chars.len() > 0 {
        let last = chars[chars.len() - 1];
        if last == '\r' {
            let ghost before = chars@;
            chars.pop();
            proof {
                assert(chars@ =~= before.drop_last());
            }
        }
    }
    string_from_chars(chars)
}

/// Split a text into its data rows.
pub fn split_lines(s: &str) -> (r: Vec<String>)
    ensures
        string_views(r@) == line_seqs(s@),
{
    let raw = split_str(s, '\n');
    let mut lines: Vec<String> = Vec::new();
    proof {
        assert(string_views(lines@) =~= stripped_lines(s@).take(0));
    }
    let n = raw.len();
    for i in 0..n
        invariant
            n == raw.len(),
            string_views(raw@) == split_seq(s@, '\n'),
            string_views(lines@) == stripped_lines(s@).take(i as int),
    {
        let line = strip_cr_str(raw[i].as_str());
        let ghost old_lines = lines@;
        let ghost lw = line@;
        lines.push(line);
        proof {
            assert(raw@[i as int]@ == split_seq(s@, '\n')[i as int]);
            assert(stripped_lines(s@)[i as int] == strip_cr(split_seq(s@, '\n')[i as int]));
            assert(string_views(lines@) =~= string_views(old_lines).push(lw));
            assert(string_views(lines@) =~= stripped_lines(s@).take(i as int + 1));
        }
    }
    proof {
        lemma_split_seq_nonempty(s@, '\n');
        assert(stripped_lines(s@).take(n as int) =~= stripped_lines(s@));
    }
    let last_is_empty = lines[lines.len() - 1].as_str().is_empty();
    if last_is_empty {
        let ghost before = lines@;
        lines.pop();
        proof {
            assert(string_views(lines@) =~= string_views(before).drop_last());
        }
    }
    lines
}

} // verus!
