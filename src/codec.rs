//! The alias file format: one mailbox per line, followed by a space and its
//! destinations separated by white space or commas; lines whose first non-blank
//! character is `#` are comments.

use vstd::prelude::*;

use crate::alias::{has_key, keys_unique, put, views, AliasTable, Entries};
use crate::text::{
    chars_of, is_whitespace, is_ws, lines, lines_from, split_lines, strip_cr, substring,
};

verus! {

/// A character that separates two destinations.
pub open spec fn is_sep(c: char) -> bool {
    is_ws(c) || c == ','
}

/// The token read so far, if it is not empty.
pub open spec fn flush(cur: Seq<char>) -> Seq<Seq<char>> {
    if cur.len() == 0 {
        seq![]
    } else {
        seq![cur]
    }
}

/// The maximal runs of non-separator characters of `s`, where `cur` has been
/// read of the current run already.
pub open spec fn tokens_from(s: Seq<char>, cur: Seq<char>) -> Seq<Seq<char>>
    decreases s.len(),
{
    if s.len() == 0 {
        flush(cur)
    } else if is_sep(s[0]) {
        flush(cur) + tokens_from(s.drop_first(), seq![])
    } else {
        tokens_from(s.drop_first(), cur.push(s[0]))
    }
}

/// The destinations written in `s`: split at separators, with empty pieces dropped.
pub open spec fn tokens(s: Seq<char>) -> Seq<Seq<char>> {
    tokens_from(s, seq![])
}

/// `s` with each run of equal neighbours collapsed into one element.
pub open spec fn dedup_adjacent(s: Seq<Seq<char>>) -> Seq<Seq<char>>
    decreases s.len(),
{
    if s.len() == 0 {
        s
    } else {
        let d = dedup_adjacent(s.drop_last());
        if d.len() > 0 && d.last() == s.last() {
            d
        } else {
            d.push(s.last())
        }
    }
}

/// The first character of `l` that is not white space is `#`.
pub open spec fn is_comment(l: Seq<char>) -> bool
    decreases l.len(),
{
    if l.len() == 0 {
        false
    } else if is_ws(l[0]) {
        is_comment(l.drop_first())
    } else {
        l[0] == '#'
    }
}

/// The number of characters of `l` before its first space (its length if it has none).
pub open spec fn space_index(l: Seq<char>) -> nat
    decreases l.len(),
{
    if l.len() == 0 || l[0] == ' ' {
        0
    } else {
        1 + space_index(l.drop_first())
    }
}

/// The entry that a non-comment line gives: the mailbox before the first space
/// and the destinations after it; none where the line has no space.
pub open spec fn line_entry(l: Seq<char>) -> Option<(Seq<char>, Seq<Seq<char>>)> {
    let p = space_index(l);
    if p >= l.len() {
        None
    } else {
        Some((l.take(p as int), dedup_adjacent(tokens(l.skip(p + 1 as int)))))
    }
}

/// The table that the lines `ls` describe, read in order, a later line of a
/// mailbox replacing an earlier one; none where a line is malformed.
pub open spec fn table_of_lines(ls: Seq<Seq<char>>) -> Option<Entries>
    decreases ls.len(),
{
    if ls.len() == 0 {
        Some(seq![])
    } else {
        match table_of_lines(ls.drop_last()) {
            None => None,
            Some(es) => if is_comment(ls.last()) {
                Some(es)
            } else {
                match line_entry(ls.last()) {
                    None => None,
                    Some(e) => Some(put(es, e.0, e.1)),
                }
            },
        }
    }
}

/// The table that the text of an alias file describes.
pub open spec fn table_of_text(s: Seq<char>) -> Option<Entries> {
    table_of_lines(lines(s))
}

/// The destinations `v`, separated by single spaces.
pub open spec fn join_spaced(v: Seq<Seq<char>>) -> Seq<char>
    decreases v.len(),
{
    if v.len() == 0 {
        seq![]
    } else if v.len() == 1 {
        v[0]
    } else {
        v[0] + seq![' '] + join_spaced(v.drop_first())
    }
}

/// The line that writes the entry `e`: its mailbox, a space, and its
/// destinations separated by spaces.
pub open spec fn line_of(e: (Seq<char>, Seq<Seq<char>>)) -> Seq<char> {
    e.0 + seq![' '] + join_spaced(e.1)
}

/// The text that writes the entries `es`, one line each, in order, each line
/// ended by a line feed.
pub open spec fn render_all(es: Entries) -> Seq<char>
    decreases es.len(),
{
    if es.len() == 0 {
        seq![]
    } else {
        line_of(es[0]) + seq!['\n'] + render_all(es.drop_first())
    }
}

/// The alias file holds a line that is neither a comment nor has a space.
pub struct ParseError;

impl ParseError {
    /// The message reported for a malformed file.
    pub fn message(&self) -> (r: String)
        ensures
            r@ == "Error parsing file"@,
    {
        String::from_str("Error parsing file")
    }
}

/// Whether the line `l` is a comment.
fn is_comment_line(l: &Vec<char>) -> (r: bool)
    ensures
        r == is_comment(l@),
{
    let mut i: usize = 0;
    assert(l@.skip(0) =~= l@);
    while i < l.len()
        invariant
            i <= l@.len(),
            is_comment(l@) == is_comment(l@.skip(i as int)),
        decreases l@.len() - i,
    {
        assert(l@.skip(i as int).drop_first() =~= l@.skip(i + 1));
        if !is_whitespace(l[i]) {
            return l[i] == '#';
        }
        i = i + 1;
    }
    false
}

/// The position of the first space of `l`, or its length.
fn find_space(l: &Vec<char>) -> (r: usize)
    ensures
        r == space_index(l@),
{
    let mut i: usize = 0;
    assert(l@.skip(0) =~= l@);
    while i < l.len()
        invariant
            i <= l@.len(),
            space_index(l@) == i + space_index(l@.skip(i as int)),
        decreases l@.len() - i,
    {
        assert(l@.skip(i as int).drop_first() =~= l@.skip(i + 1));
        if l[i] == ' ' {
            return i;
        }
        i = i + 1;
    }
    i
}

/// The destinations written in `s` from character `from` on.
pub fn split_destinations(s: &str, from: usize) -> (r: Vec<String>)
    requires
        from <= s@.len(),
    ensures
        views(r@) == tokens(s@.skip(from as int)),
{
    let cs = chars_of(s);
    let n = cs.len();
    let ghost whole = s@.skip(from as int);
    let mut r: Vec<String> = Vec::new();
    let mut start: usize = from;
    let mut i: usize = from;
    assert(s@.skip(from as int) =~= whole);
    assert(s@.subrange(from as int, from as int) =~= Seq::<char>::empty());
    assert(views(r@) + tokens(whole) =~= tokens(whole));
    while i < n
        invariant
            n == s@.len(),
            cs@ == s@,
            from <= start <= i <= n,
            whole == s@.skip(from as int),
            views(r@) + tokens_from(s@.skip(i as int), s@.subrange(start as int, i as int))
                == tokens(whole),
        decreases n - i,
    {
        let ghost cur = s@.subrange(start as int, i as int);
        let ghost rest = s@.skip(i as int);
        assert(rest.drop_first() =~= s@.skip(i + 1));
        if is_whitespace(cs[i]) || cs[i] == ',' {
            let ghost old_r = r@;
            if start < i {
                let tok = substring(s, start, i);
                r.push(tok);
                assert(views(r@) =~= views(old_r) + flush(cur));
            } else {
                assert(views(r@) =~= views(old_r) + flush(cur));
            }
            assert(s@.subrange((i + 1) as int, (i + 1) as int) =~= Seq::<char>::empty());
            assert(views(r@) + tokens_from(s@.skip(i + 1), seq![]) =~= views(old_r)
                + tokens_from(rest, cur));
            start = i + 1;
        } else {
            assert(cur.push(s@[i as int]) =~= s@.subrange(start as int, i + 1));
        }
        i = i + 1;
    }
    assert(s@.skip(n as int) =~= Seq::<char>::empty());
    let ghost old_r = r@;
    if start < n {
        let tok = substring(s, start, n);
        r.push(tok);
    }
    assert(views(r@) =~= views(old_r) + flush(s@.subrange(start as int, n as int)));
    r
}

/// `v` with each run of equal neighbours collapsed into one element.
pub fn dedup_destinations(v: Vec<String>) -> (r: Vec<String>)
    ensures
        views(r@) == dedup_adjacent(views(v@)),
{
    let mut r: Vec<String> = Vec::new();
    let mut i: usize = 0;
    assert(views(v@).take(0) =~= Seq::<Seq<char>>::empty());
    assert(views(r@) =~= Seq::<Seq<char>>::empty());
    while i < v.len()
        invariant
            i <= v@.len(),
            views(r@) == dedup_adjacent(views(v@).take(i as int)),
        decreases v@.len() - i,
    {
        let ghost pre = views(v@).take(i + 1);
        assert(pre.drop_last() =~= views(v@).take(i as int));
        let n = r.len();
        if n == 0 || r[n - 1] != v[i] {
            let ghost old_r = r@;
            r.push(v[i].clone());
            assert(views(r@) =~= views(old_r).push(v@[i as int]@));
        }
        i = i + 1;
    }
    assert(views(v@).take(v@.len() as int) =~= views(v@));
    r
}

/// The entry that the non-comment line `line` gives: its mailbox and its
/// destinations; none where the line has no space.
pub fn parse_line(line: &str) -> (r: Option<(String, Vec<String>)>)
    ensures
        match line_entry(line@) {
            Some(e) => match r {
                Some(kv) => kv.0@ == e.0 && views(kv.1@) == e.1,
                None => false,
            },
            None => r is None,
        },
{
    let cs = chars_of(line);
    let p = find_space(&cs);
    if p >= cs.len() {
        return None;
    }
    let key = substring(line, 0, p);
    assert(key@ =~= line@.take(p as int));
    let dests = dedup_destinations(split_destinations(line, p + 1));
    Some((key, dests))
}

/// A malformed line among the first `j` spoils every longer list of lines.
proof fn lemma_table_prefix_none(ls: Seq<Seq<char>>, j: int)
    requires
        0 <= j <= ls.len(),
        table_of_lines(ls.take(j)) is None,
    ensures
        table_of_lines(ls) is None,
    decreases ls.len(),
{
    if j < ls.len() {
        assert(ls.drop_last().take(j) =~= ls.take(j));
        lemma_table_prefix_none(ls.drop_last(), j);
    } else {
        assert(ls.take(j) =~= ls);
    }
}

/// Reads the text of an alias file into a table. The whole file is rejected
/// where one of its lines is neither a comment nor holds a space.
pub fn parse_table(text: &str) -> (r: Result<AliasTable, ParseError>)
    ensures
        match table_of_text(text@) {
            Some(es) => r is Ok && r->Ok_0.wf() && r->Ok_0@ == es,
            None => r is Err,
        },
{
    let ls = split_lines(text);
    let mut t = AliasTable::new();
    let mut i: usize = 0;
    assert(views(ls@).take(0) =~= Seq::<Seq<char>>::empty());
    while i < ls.len()
        invariant
            i <= ls@.len(),
            views(ls@) == lines(text@),
            t.wf(),
            table_of_lines(views(ls@).take(i as int)) == Some(t@),
        decreases ls@.len() - i,
    {
        let ghost pre = views(ls@).take(i + 1);
        assert(pre.drop_last() =~= views(ls@).take(i as int));
        assert(pre.last() == ls@[i as int]@);
        let lc = chars_of(ls[i].as_str());
        if !is_comment_line(&lc) {
            match parse_line(ls[i].as_str()) {
                Some((k, v)) => {
                    t.insert(k, v);
                },
                None => {
                    proof {
                        lemma_table_prefix_none(views(ls@), i + 1);
                    }
                    return Err(ParseError);
                },
            }
        }
        i = i + 1;
    }
    assert(views(ls@).take(ls@.len() as int) =~= views(ls@));
    Ok(t)
}

/// Appends the strings of `v` to `r`, separated by single spaces.
fn append_joined(r: &mut String, v: &Vec<String>)
    ensures
        final(r)@ == old(r)@ + join_spaced(views(v@)),
{
    let ghost vs = views(v@);
    let ghost target = old(r)@ + join_spaced(vs);
    if v.len() == 0 {
        assert(final(r)@ =~= target);
        return ;
    }
    r.append(v[0].as_str());
    if v.len() > 1 {
        assert(vs.drop_first() =~= vs.skip(1));
        assert(r@ + seq![' '] + join_spaced(vs.skip(1)) =~= target);
    } else {
        assert(r@ =~= target);
    }
    let mut j: usize = 1;
    while j < v.len()
        invariant
            1 <= j <= v@.len(),
            vs == views(v@),
            target == old(r)@ + join_spaced(vs),
            j < v@.len() ==> r@ + seq![' '] + join_spaced(vs.skip(j as int)) == target,
            j == v@.len() ==> r@ == target,
        decreases v@.len() - j,
    {
        let ghost rest = vs.skip(j as int);
        proof {
            reveal_strlit(" ");
        }
        r.append(" ");
        r.append(v[j].as_str());
        if j + 1 < v.len() {
            assert(rest.drop_first() =~= vs.skip(j + 1));
            assert(r@ + seq![' '] + join_spaced(vs.skip(j + 1)) =~= target);
        } else {
            assert(r@ =~= target);
        }
        j = j + 1;
    }
    assert(final(r)@ == target);
}

/// Writes the table as the text of an alias file: one line per mailbox, in the
/// table's order, holding the mailbox, a space and the destinations separated
/// by spaces.
pub fn serialize_table(t: &AliasTable) -> (r: String)
    ensures
        r@ == render_all(t@),
{
    let es = t.entries();
    let ghost m = t@;
    let mut r = String::new();
    let mut i: usize = 0;
    assert(m.skip(0) =~= m);
    assert(r@ + render_all(m) =~= render_all(m));
    while i < es.len()
        invariant
            i <= es@.len(),
            m == es@.map_values(|e: crate::alias::AliasEntry| e@),
            r@ + render_all(m.skip(i as int)) == render_all(m),
        decreases es@.len() - i,
    {
        let ghost before = r@;
        assert(m.skip(i as int).drop_first() =~= m.skip(i + 1));
        assert(m[i as int] == es@[i as int]@);
        proof {
            reveal_strlit(" ");
            reveal_strlit("\n");
        }
        r.append(es[i].mailbox.as_str());
        r.append(" ");
        append_joined(&mut r, &es[i].destinations);
        r.append("\n");
        assert(r@ =~= before + line_of(m[i as int]) + seq!['\n']);
        assert(r@ + render_all(m.skip(i + 1)) =~= before + render_all(m.skip(i as int)));
        i = i + 1;
    }
    assert(m.skip(es@.len() as int) =~= Seq::<(Seq<char>, Seq<Seq<char>>)>::empty());
    assert(r@ =~= r@ + render_all(m.skip(es@.len() as int)));
    r
}

/// A mailbox that a line can carry: not empty, without white space, and not
/// starting a comment.
pub open spec fn valid_mailbox(k: Seq<char>) -> bool {
    &&& k.len() > 0
    &&& k[0] != '#'
    &&& forall|i: int| 0 <= i < k.len() ==> !is_ws(#[trigger] k[i])
}

/// A destination that a line can carry: not empty, without white space or comma.
pub open spec fn valid_destination(d: Seq<char>) -> bool {
    &&& d.len() > 0
    &&& forall|i: int| 0 <= i < d.len() ==> !is_sep(#[trigger] d[i])
}

/// A destination list without empty or repeated entries.
pub open spec fn valid_destinations(v: Seq<Seq<char>>) -> bool {
    &&& v.no_duplicates()
    &&& forall|i: int| 0 <= i < v.len() ==> valid_destination(#[trigger] v[i])
}

/// A table whose every entry can be written as a line and read back.
pub open spec fn valid_entries(es: Entries) -> bool {
    &&& keys_unique(es)
    &&& forall|i: int|
        0 <= i < es.len() ==> valid_mailbox(#[trigger] es[i].0) && valid_destinations(es[i].1)
}

/// No line feed or carriage return in `s`.
pub open spec fn no_break(s: Seq<char>) -> bool {
    forall|i: int| 0 <= i < s.len() ==> #[trigger] s[i] != '\n' && s[i] != '\r'
}

/// No two neighbours of `s` are equal.
pub open spec fn no_adjacent_equal(s: Seq<Seq<char>>) -> bool {
    forall|i: int| 0 <= i < s.len() - 1 ==> #[trigger] s[i] != s[i + 1]
}

proof fn lemma_tokens_word(w: Seq<char>, rest: Seq<char>, cur: Seq<char>)
    requires
        forall|i: int| 0 <= i < w.len() ==> !is_sep(#[trigger] w[i]),
    ensures
        tokens_from(w + rest, cur) == tokens_from(rest, cur + w),
    decreases w.len(),
{
    if w.len() == 0 {
        assert(w + rest =~= rest);
        assert(cur + w =~= cur);
    } else {
        let wr = w + rest;
        assert(wr[0] == w[0]);
        assert(wr.drop_first() =~= w.drop_first() + rest);
        assert(cur.push(w[0]) + w.drop_first() =~= cur + w);
        assert forall|i: int| 0 <= i < w.drop_first().len() implies !is_sep(
            #[trigger] w.drop_first()[i],
        ) by {
            assert(w.drop_first()[i] == w[i + 1]);
        }
        lemma_tokens_word(w.drop_first(), rest, cur.push(w[0]));
    }
}

proof fn lemma_tokens_join(v: Seq<Seq<char>>)
    requires
        forall|i: int| 0 <= i < v.len() ==> valid_destination(#[trigger] v[i]),
    ensures
        tokens(join_spaced(v)) == v,
    decreases v.len(),
{
    if v.len() == 0 {
        assert(v =~= Seq::<Seq<char>>::empty());
    } else if v.len() == 1 {
        assert(valid_destination(v[0]));
        lemma_tokens_word(v[0], seq![], seq![]);
        assert(v[0] + Seq::<char>::empty() =~= v[0]);
        assert(Seq::<char>::empty() + v[0] =~= v[0]);
        assert(v =~= seq![v[0]]);
    } else {
        let j = join_spaced(v.drop_first());
        let tail = seq![' '] + j;
        assert(valid_destination(v[0]));
        assert(v[0] + seq![' '] + j =~= v[0] + tail);
        lemma_tokens_word(v[0], tail, seq![]);
        assert(Seq::<char>::empty() + v[0] =~= v[0]);
        assert(tail.drop_first() =~= j);
        assert forall|i: int| 0 <= i < v.drop_first().len() implies valid_destination(
            #[trigger] v.drop_first()[i],
        ) by {
            assert(v.drop_first()[i] == v[i + 1]);
        }
        lemma_tokens_join(v.drop_first());
        assert(v =~= seq![v[0]] + v.drop_first());
    }
}

proof fn lemma_dedup_keeps(v: Seq<Seq<char>>)
    requires
        no_adjacent_equal(v),
    ensures
        dedup_adjacent(v) == v,
    decreases v.len(),
{
    if v.len() > 0 {
        let p = v.drop_last();
        assert forall|i: int| 0 <= i < p.len() - 1 implies #[trigger] p[i] != p[i + 1] by {
            assert(v[i] != v[i + 1]);
        }
        lemma_dedup_keeps(p);
        if p.len() > 0 {
            assert(v[v.len() - 2] != v[v.len() - 1]);
        }
        assert(p.push(v.last()) =~= v);
    }
}

proof fn lemma_dedup_separates(v: Seq<Seq<char>>)
    ensures
        no_adjacent_equal(dedup_adjacent(v)),
    decreases v.len(),
{
    if v.len() > 0 {
        lemma_dedup_separates(v.drop_last());
    }
}

proof fn lemma_space_index(a: Seq<char>, b: Seq<char>)
    requires
        forall|i: int| 0 <= i < a.len() ==> #[trigger] a[i] != ' ',
    ensures
        space_index(a + b) == a.len() + space_index(b),
    decreases a.len(),
{
    if a.len() == 0 {
        assert(a + b =~= b);
    } else {
        assert((a + b)[0] == a[0]);
        assert((a + b).drop_first() =~= a.drop_first() + b);
        assert forall|i: int| 0 <= i < a.drop_first().len() implies #[trigger] a.drop_first()[i]
            != ' ' by {
            assert(a.drop_first()[i] == a[i + 1]);
        }
        lemma_space_index(a.drop_first(), b);
    }
}

proof fn lemma_lines_line(l: Seq<char>, rest: Seq<char>, cur: Seq<char>)
    requires
        no_break(l),
    ensures
        lines_from(l + seq!['\n'] + rest, cur) == seq![strip_cr(cur + l)] + lines_from(
            rest,
            seq![],
        ),
    decreases l.len(),
{
    let s = l + seq!['\n'] + rest;
    if l.len() == 0 {
        assert(s[0] == '\n');
        assert(s.drop_first() =~= rest);
        assert(cur + l =~= cur);
    } else {
        assert(s[0] == l[0]);
        assert(s.drop_first() =~= l.drop_first() + seq!['\n'] + rest);
        assert(cur.push(l[0]) + l.drop_first() =~= cur + l);
        assert forall|i: int| 0 <= i < l.drop_first().len() implies #[trigger] l.drop_first()[i]
            != '\n' && l.drop_first()[i] != '\r' by {
            assert(l.drop_first()[i] == l[i + 1]);
        }
        lemma_lines_line(l.drop_first(), rest, cur.push(l[0]));
    }
}

proof fn lemma_join_no_break(v: Seq<Seq<char>>)
    requires
        forall|i: int| 0 <= i < v.len() ==> valid_destination(#[trigger] v[i]),
    ensures
        no_break(join_spaced(v)),
    decreases v.len(),
{
    if v.len() == 1 {
        assert(valid_destination(v[0]));
    } else if v.len() > 1 {
        assert(valid_destination(v[0]));
        assert forall|i: int| 0 <= i < v.drop_first().len() implies valid_destination(
            #[trigger] v.drop_first()[i],
        ) by {
            assert(v.drop_first()[i] == v[i + 1]);
        }
        lemma_join_no_break(v.drop_first());
        let s = v[0] + seq![' '] + join_spaced(v.drop_first());
        assert forall|i: int| 0 <= i < s.len() implies #[trigger] s[i] != '\n' && s[i] != '\r' by {
            if i < v[0].len() {
                assert(s[i] == v[0][i]);
            } else if i > v[0].len() {
                assert(s[i] == join_spaced(v.drop_first())[i - v[0].len() - 1]);
            }
        }
    }
}

/// The line of a valid entry holds no line break, is no comment, and reads back
/// as the entry.
proof fn lemma_line_reads_back(e: (Seq<char>, Seq<Seq<char>>))
    requires
        valid_mailbox(e.0),
        valid_destinations(e.1),
    ensures
        no_break(line_of(e)),
        line_of(e).len() > 0,
        !is_comment(line_of(e)),
        line_entry(line_of(e)) == Some(e),
{
    let k = e.0;
    let j = join_spaced(e.1);
    let l = line_of(e);
    lemma_join_no_break(e.1);
    assert forall|i: int| 0 <= i < l.len() implies #[trigger] l[i] != '\n' && l[i] != '\r' by {
        if i < k.len() {
            assert(l[i] == k[i]);
            assert(!is_ws(k[i]));
        } else if i > k.len() {
            assert(l[i] == j[i - k.len() - 1]);
        }
    }
    assert(l[0] == k[0]);
    assert(!is_ws(k[0]));
    assert(k + seq![' '] + j =~= k + (seq![' '] + j));
    assert forall|i: int| 0 <= i < k.len() implies #[trigger] k[i] != ' ' by {
        assert(!is_ws(k[i]));
    }
    lemma_space_index(k, seq![' '] + j);
    assert((seq![' '] + j)[0] == ' ');
    assert(l.take(k.len() as int) =~= k);
    assert(l.skip(k.len() + 1 as int) =~= j);
    lemma_tokens_join(e.1);
    assert forall|i: int| 0 <= i < e.1.len() - 1 implies #[trigger] e.1[i] != e.1[i + 1] by {
        assert(e.1.no_duplicates());
    }
    lemma_dedup_keeps(e.1);
}

proof fn lemma_lines_render(es: Entries)
    requires
        forall|i: int|
            0 <= i < es.len() ==> valid_mailbox(#[trigger] es[i].0) && valid_destinations(
                es[i].1,
            ),
    ensures
        lines(render_all(es)) == es.map_values(|e: (Seq<char>, Seq<Seq<char>>)| line_of(e)),
    decreases es.len(),
{
    if es.len() == 0 {
        assert(es.map_values(|e: (Seq<char>, Seq<Seq<char>>)| line_of(e)) =~= Seq::<
            Seq<char>,
        >::empty());
    } else {
        let l = line_of(es[0]);
        let r = render_all(es.drop_first());
        assert(valid_mailbox(es[0].0) && valid_destinations(es[0].1));
        lemma_line_reads_back(es[0]);
        lemma_lines_line(l, r, seq![]);
        assert(Seq::<char>::empty() + l =~= l);
        assert forall|i: int| 0 <= i < es.drop_first().len() implies valid_mailbox(
            #[trigger] es.drop_first()[i].0,
        ) && valid_destinations(es.drop_first()[i].1) by {
            assert(es.drop_first()[i] == es[i + 1]);
        }
        lemma_lines_render(es.drop_first());
        assert(es.map_values(|e: (Seq<char>, Seq<Seq<char>>)| line_of(e)) =~= seq![l]
            + es.drop_first().map_values(|e: (Seq<char>, Seq<Seq<char>>)| line_of(e)));
    }
}

proof fn lemma_table_lines(es: Entries)
    requires
        valid_entries(es),
    ensures
        table_of_lines(es.map_values(|e: (Seq<char>, Seq<Seq<char>>)| line_of(e))) == Some(es),
    decreases es.len(),
{
    let ls = es.map_values(|e: (Seq<char>, Seq<Seq<char>>)| line_of(e));
    if es.len() == 0 {
        assert(es =~= Seq::<(Seq<char>, Seq<Seq<char>>)>::empty());
    } else {
        let p = es.drop_last();
        assert(ls.drop_last() =~= p.map_values(|e: (Seq<char>, Seq<Seq<char>>)| line_of(e)));
        assert forall|i: int| 0 <= i < p.len() implies valid_mailbox(#[trigger] p[i].0)
            && valid_destinations(p[i].1) by {
            assert(p[i] == es[i]);
        }
        lemma_table_lines(p);
        let e = es.last();
        assert(valid_mailbox(es[es.len() - 1].0) && valid_destinations(es[es.len() - 1].1));
        lemma_line_reads_back(e);
        assert(!has_key(p, e.0)) by {
            if has_key(p, e.0) {
                let i = choose|i: int| 0 <= i < p.len() && p[i].0 == e.0;
                assert(es[i].0 != es[es.len() - 1].0);
            }
        }
        assert(p.push((e.0, e.1)) =~= es);
    }
}

/// Writing a valid table and reading the text back gives the same table: the
/// same mailboxes with the same destinations, in the same order.
pub proof fn lemma_round_trip(es: Entries)
    requires
        valid_entries(es),
    ensures
        table_of_text(render_all(es)) == Some(es),
{
    lemma_lines_render(es);
    lemma_table_lines(es);
}

/// A text with a line that is neither a comment nor holds a space is rejected
/// as a whole.
pub proof fn lemma_rejects_line_without_space(s: Seq<char>, i: int)
    requires
        0 <= i < lines(s).len(),
        !is_comment(lines(s)[i]),
        forall|j: int| 0 <= j < lines(s)[i].len() ==> #[trigger] lines(s)[i][j] != ' ',
    ensures
        table_of_text(s) is None,
{
    let ls = lines(s);
    let l = ls[i];
    lemma_space_index(l, seq![]);
    assert(l + Seq::<char>::empty() =~= l);
    let pre = ls.take(i + 1);
    assert(pre.last() == l);
    lemma_table_prefix_none(ls, i + 1);
}

/// Only equal neighbours collapse: the destinations read have no two equal
/// neighbours, and a list without equal neighbours is kept whole, repeated
/// entries that stand apart included.
pub proof fn lemma_dedup_adjacent_only(s: Seq<Seq<char>>)
    ensures
        no_adjacent_equal(dedup_adjacent(s)),
        no_adjacent_equal(s) ==> dedup_adjacent(s) == s,
{
    lemma_dedup_separates(s);
    if no_adjacent_equal(s) {
        lemma_dedup_keeps(s);
    }
}

} // verus!
