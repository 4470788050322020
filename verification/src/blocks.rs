//! Projection of a block sequence to plain text, and its lossy inverse.
//!
//! The projector reads each block's kind, concatenates the plain-text
//! fragments of the kind's rich-text array into one line, drops blocks of
//! unrecognized or malformed shape, and joins the lines with a blank-line
//! separator.  The builder splits a text on the blank-line separator and
//! emits one minimal paragraph block per segment.

use vstd::prelude::*;
use vstd::string::StrSliceExecFns;
use vstd::string::StringExecFns;
use crate::strlib::{str_eq, str_views};
use crate::value::{DocValue, is_text_value, obj_lookup, spec_get, spec_str, spec_items};

verus! {

/// The blank-line separator: a double line break.
pub open spec fn sep() -> Seq<char> {
    seq!['\n', '\n']
}

/// Whether a blank-line separator begins at position `i` of `s`.
pub open spec fn is_sep_at(s: Seq<char>, i: int) -> bool {
    0 <= i && i + 2 <= s.len() && s[i] == '\n' && s[i + 1] == '\n'
}

/// Whether `s` contains no blank-line separator.
pub open spec fn sep_free(s: Seq<char>) -> bool {
    forall|i: int| !is_sep_at(s, i)
}

/// Whether `s` contains no line break at all.
pub open spec fn newline_free(s: Seq<char>) -> bool {
    forall|i: int| 0 <= i < s.len() ==> s[i] != '\n'
}

/// The segments of `s` between blank-line separators, leftmost first,
/// matching a non-overlapping leftmost split.  Always at least one segment;
/// the empty text yields one empty segment.
pub open spec fn split_text(s: Seq<char>) -> Seq<Seq<char>>
    decreases s.len(),
{
    if s.len() < 2 {
        seq![s]
    } else if s[0] == '\n' && s[1] == '\n' {
        seq![Seq::<char>::empty()] + split_text(s.skip(2))
    } else {
        let rest = split_text(s.skip(1));
        seq![seq![s[0]] + rest[0]] + rest.drop_first()
    }
}

/// The segments of `ps` joined with the blank-line separator.
pub open spec fn join_text(ps: Seq<Seq<char>>) -> Seq<char>
    decreases ps.len(),
{
    if ps.len() == 0 {
        Seq::empty()
    } else if ps.len() == 1 {
        ps[0]
    } else {
        ps[0] + sep() + join_text(ps.drop_first())
    }
}

/// The number of non-overlapping blank-line separators in `s`, counted
/// leftmost first.
pub open spec fn sep_count(s: Seq<char>) -> nat
    decreases s.len(),
{
    if s.len() < 2 {
        0
    } else if s[0] == '\n' && s[1] == '\n' {
        1 + sep_count(s.skip(2))
    } else {
        sep_count(s.skip(1))
    }
}

/// Splitting yields at least one segment.
pub proof fn lemma_split_len(s: Seq<char>)
    ensures
        split_text(s).len() >= 1,
    decreases s.len(),
{
    if s.len() < 2 {
    } else if s[0] == '\n' && s[1] == '\n' {
        lemma_split_len(s.skip(2));
    } else {
        lemma_split_len(s.skip(1));
    }
}

/// A text with no blank-line separator splits into itself alone.
pub proof fn lemma_split_nosep(s: Seq<char>)
    requires
        sep_free(s),
    ensures
        split_text(s) =~= seq![s],
    decreases s.len(),
{
    if s.len() < 2 {
    } else {
        assert(!is_sep_at(s, 0));
        assert forall|i: int| !is_sep_at(s.skip(1), i) by {
            if is_sep_at(s.skip(1), i) {
                assert(s.skip(1)[i] == s[i + 1]);
                assert(s.skip(1)[i + 1] == s[i + 2]);
                assert(is_sep_at(s, i + 1));
            }
        }
        lemma_split_nosep(s.skip(1));
        let rest = split_text(s.skip(1));
        assert(rest[0] == s.skip(1));
        assert(seq![s[0]] + s.skip(1) =~= s);
        assert(rest.drop_first() =~= Seq::<Seq<char>>::empty());
        assert(split_text(s) =~= seq![s]);
    }
}

/// Splitting at the leftmost separator: the head segment is everything
/// before it, and the rest is the split of everything after it.
pub proof fn lemma_split_first(s: Seq<char>, i: int)
    requires
        is_sep_at(s, i),
        forall|j: int| 0 <= j < i ==> !is_sep_at(s, j),
    ensures
        split_text(s) =~= seq![s.take(i)] + split_text(s.skip(i + 2)),
    decreases i,
{
    if i == 0 {
        assert(s.take(0) =~= Seq::<char>::empty());
        assert(split_text(s) == seq![Seq::<char>::empty()] + split_text(s.skip(2)));
    } else {
        assert(!is_sep_at(s, 0));
        assert(s.len() >= 2);
        let t = s.skip(1);
        assert(t[i - 1] == s[i]);
        assert(t[i] == s[i + 1]);
        assert(is_sep_at(t, i - 1));
        assert forall|j: int| 0 <= j < i - 1 implies !is_sep_at(t, j) by {
            if is_sep_at(t, j) {
                assert(t[j] == s[j + 1]);
                assert(t[j + 1] == s[j + 2]);
                assert(is_sep_at(s, j + 1));
            }
        }
        lemma_split_first(t, i - 1);
        let rest = split_text(t);
        lemma_split_len(t.skip(i + 1));
        assert(rest =~= seq![t.take(i - 1)] + split_text(t.skip(i + 1)));
        assert(rest[0] == t.take(i - 1));
        assert(seq![s[0]] + t.take(i - 1) =~= s.take(i));
        assert(t.skip(i + 1) =~= s.skip(i + 2));
        assert(rest.drop_first() =~= split_text(s.skip(i + 2)));
    }
}

/// Joining the split of a text gives the text back, for every text.
pub proof fn lemma_join_split(s: Seq<char>)
    ensures
        join_text(split_text(s)) == s,
    decreases s.len(),
{
    if s.len() < 2 {
        assert(join_text(seq![s]) == s);
    } else if s[0] == '\n' && s[1] == '\n' {
        lemma_join_split(s.skip(2));
        let tail = split_text(s.skip(2));
        lemma_split_len(s.skip(2));
        let ps = seq![Seq::<char>::empty()] + tail;
        assert(ps.len() >= 2);
        assert(ps[0] == Seq::<char>::empty());
        assert(ps.drop_first() =~= tail);
        assert(join_text(ps) == Seq::<char>::empty() + sep() + join_text(tail));
        assert(Seq::<char>::empty() + sep() + s.skip(2) =~= s);
    } else {
        lemma_join_split(s.skip(1));
        let rest = split_text(s.skip(1));
        lemma_split_len(s.skip(1));
        let ps = seq![seq![s[0]] + rest[0]] + rest.drop_first();
        if rest.len() == 1 {
            assert(join_text(rest) == rest[0]);
            assert(ps.len() == 1);
            assert(join_text(ps) == seq![s[0]] + rest[0]);
            assert(seq![s[0]] + s.skip(1) =~= s);
        } else {
            assert(ps.len() >= 2);
            assert(ps[0] == seq![s[0]] + rest[0]);
            assert(ps.drop_first() =~= rest.drop_first());
            assert(join_text(ps) == (seq![s[0]] + rest[0]) + sep() + join_text(rest.drop_first()));
            assert(join_text(rest) == rest[0] + sep() + join_text(rest.drop_first()));
            assert((seq![s[0]] + rest[0]) + sep() + join_text(rest.drop_first())
                =~= seq![s[0]] + (rest[0] + sep() + join_text(rest.drop_first())));
            assert(seq![s[0]] + s.skip(1) =~= s);
        }
    }
}

/// Appending a segment to a join: the separator stands between the old
/// join and the new segment whenever the old join was not empty of segments.
pub proof fn lemma_join_push(ps: Seq<Seq<char>>, p: Seq<char>)
    ensures
        ps.len() == 0 ==> join_text(ps.push(p)) == p,
        ps.len() > 0 ==> join_text(ps.push(p)) == join_text(ps) + sep() + p,
    decreases ps.len(),
{
    if ps.len() == 0 {
        assert(ps.push(p) =~= seq![p]);
    } else if ps.len() == 1 {
        let q = ps.push(p);
        assert(q.len() == 2);
        assert(q[0] == ps[0]);
        assert(q.drop_first() =~= seq![p]);
        assert(join_text(seq![p]) == p);
        assert(join_text(q) == q[0] + sep() + join_text(q.drop_first()));
        assert(join_text(q) == ps[0] + sep() + p);
    } else {
        let q = ps.push(p);
        assert(q.len() == ps.len() + 1);
        assert(q[0] == ps[0]);
        assert(q.drop_first() =~= ps.drop_first().push(p));
        lemma_join_push(ps.drop_first(), p);
        assert(join_text(q) == ps[0] + sep() + (join_text(ps.drop_first()) + sep() + p));
        assert(ps[0] + sep() + (join_text(ps.drop_first()) + sep() + p)
            =~= (ps[0] + sep() + join_text(ps.drop_first())) + sep() + p);
    }
}

/// A text without line breaks holds no separator.
pub proof fn lemma_count_nlfree(s: Seq<char>)
    requires
        newline_free(s),
    ensures
        sep_count(s) == 0,
    decreases s.len(),
{
    if s.len() < 2 {
    } else {
        assert(s[0] != '\n');
        assert(newline_free(s.skip(1))) by {
            assert(forall|i: int| 0 <= i < s.skip(1).len() ==> s.skip(1)[i] == s[i + 1]);
        }
        lemma_count_nlfree(s.skip(1));
    }
}

/// Prepending line-break-free text does not change the separator count.
pub proof fn lemma_count_prefix(a: Seq<char>, b: Seq<char>)
    requires
        newline_free(a),
    ensures
        sep_count(a + b) == sep_count(b),
    decreases a.len(),
{
    if a.len() == 0 {
        assert(a + b =~= b);
    } else {
        let s = a + b;
        assert(s[0] == a[0]);
        assert(a[0] != '\n');
        if s.len() < 2 {
            assert(b.len() < 2);
        } else {
            assert(s.skip(1) =~= a.skip(1) + b);
            assert(newline_free(a.skip(1))) by {
                assert(forall|i: int| 0 <= i < a.skip(1).len() ==> a.skip(1)[i] == a[i + 1]);
            }
            lemma_count_prefix(a.skip(1), b);
        }
    }
}

/// Law: joining `n` line-break-free segments produces exactly `n - 1`
/// blank-line separators.
pub proof fn lemma_count_join(ps: Seq<Seq<char>>)
    requires
        ps.len() >= 1,
        forall|i: int| 0 <= i < ps.len() ==> newline_free(#[trigger] ps[i]),
    ensures
        sep_count(join_text(ps)) == ps.len() - 1,
    decreases ps.len(),
{
    if ps.len() == 1 {
        lemma_count_nlfree(ps[0]);
    } else {
        let s = join_text(ps);
        assert(s == ps[0] + sep() + join_text(ps.drop_first()));
        lemma_count_prefix(ps[0], sep() + join_text(ps.drop_first()));
        assert(ps[0] + sep() + join_text(ps.drop_first())
            =~= ps[0] + (sep() + join_text(ps.drop_first())));
        let t = sep() + join_text(ps.drop_first());
        assert(t[0] == '\n');
        assert(t[1] == '\n');
        assert(t.skip(2) =~= join_text(ps.drop_first()));
        assert(sep_count(t) == 1 + sep_count(join_text(ps.drop_first())));
        assert(forall|i: int| 0 <= i < ps.drop_first().len()
            ==> newline_free(#[trigger] ps.drop_first()[i]));
        lemma_count_join(ps.drop_first());
    }
}

/// The block kinds whose rich-text array the projector reads.
pub open spec fn recognized_kind(k: Seq<char>) -> bool {
    ||| k == "paragraph"@
    ||| k == "heading_1"@
    ||| k == "heading_2"@
    ||| k == "heading_3"@
    ||| k == "bulleted_list_item"@
    ||| k == "numbered_list_item"@
}

/// The plain-text fragment one rich-text run contributes: the string under
/// its `text.content`, or nothing when that path is absent or not a string.
pub open spec fn run_text(run: DocValue) -> Seq<char> {
    match spec_get(run, "text"@) {
        Some(t) => match spec_get(t, "content"@) {
            Some(c) => match spec_str(c) {
                Some(s) => s,
                None => Seq::empty(),
            },
            None => Seq::empty(),
        },
        None => Seq::empty(),
    }
}

/// The concatenation of the fragments of a rich-text array, in order.
pub open spec fn runs_text(runs: Seq<DocValue>) -> Seq<char>
    decreases runs.len(),
{
    if runs.len() == 0 {
        Seq::empty()
    } else {
        run_text(runs[0]) + runs_text(runs.drop_first())
    }
}

/// The line a block contributes: for a recognized kind with a rich-text
/// array under the kind's own key, the concatenated run fragments; `None`
/// (the block is dropped) otherwise.
pub open spec fn block_line(b: DocValue) -> Option<Seq<char>> {
    match spec_get(b, "type"@) {
        Some(t) => match spec_str(t) {
            Some(k) => if recognized_kind(k) {
                match spec_get(b, k) {
                    Some(payload) => match spec_get(payload, "rich_text"@) {
                        Some(rt) => match spec_items(rt) {
                            Some(runs) => Some(runs_text(runs)),
                            None => None,
                        },
                        None => None,
                    },
                    None => None,
                }
            } else {
                None
            },
            None => None,
        },
        None => None,
    }
}

/// The lines of the blocks that contribute one, in block order.
pub open spec fn blocks_lines(bs: Seq<DocValue>) -> Seq<Seq<char>>
    decreases bs.len(),
{
    if bs.len() == 0 {
        Seq::empty()
    } else {
        match block_line(bs[0]) {
            Some(l) => seq![l] + blocks_lines(bs.drop_first()),
            None => blocks_lines(bs.drop_first()),
        }
    }
}

/// The plain text of a block sequence: its lines joined with the
/// blank-line separator.
pub open spec fn blocks_text(bs: Seq<DocValue>) -> Seq<char> {
    join_text(blocks_lines(bs))
}

proof fn lemma_runs_text_snoc(runs: Seq<DocValue>, r: DocValue)
    ensures
        runs_text(runs.push(r)) == runs_text(runs) + run_text(r),
    decreases runs.len(),
{
    if runs.len() == 0 {
        assert(runs.push(r) =~= seq![r]);
        assert(seq![r].drop_first() =~= Seq::<DocValue>::empty());
        assert(runs_text(Seq::<DocValue>::empty()) == Seq::<char>::empty());
        assert(runs_text(seq![r]) == run_text(r) + runs_text(seq![r].drop_first()));
        assert(run_text(r) + Seq::<char>::empty() =~= run_text(r));
        assert(Seq::<char>::empty() + run_text(r) =~= run_text(r));
    } else {
        let q = runs.push(r);
        assert(q[0] == runs[0]);
        assert(q.drop_first() =~= runs.drop_first().push(r));
        lemma_runs_text_snoc(runs.drop_first(), r);
        assert(run_text(runs[0]) + (runs_text(runs.drop_first()) + run_text(r))
            =~= (run_text(runs[0]) + runs_text(runs.drop_first())) + run_text(r));
    }
}

proof fn lemma_blocks_lines_snoc(bs: Seq<DocValue>, b: DocValue)
    ensures
        blocks_lines(bs.push(b)) =~= blocks_lines(bs) + match block_line(b) {
            Some(l) => seq![l],
            None => Seq::<Seq<char>>::empty(),
        },
    decreases bs.len(),
{
    let tail = match block_line(b) {
        Some(l) => seq![l],
        None => Seq::<Seq<char>>::empty(),
    };
    if bs.len() == 0 {
        assert(bs.push(b) =~= seq![b]);
        assert(seq![b].drop_first() =~= Seq::<DocValue>::empty());
        assert(blocks_lines(Seq::<DocValue>::empty()) =~= Seq::<Seq<char>>::empty());
        if block_line(b) is Some {
            assert(blocks_lines(seq![b]) =~= seq![block_line(b).unwrap()]);
        } else {
            assert(blocks_lines(seq![b]) =~= Seq::<Seq<char>>::empty());
        }
    } else {
        let q = bs.push(b);
        assert(q[0] == bs[0]);
        assert(q.drop_first() =~= bs.drop_first().push(b));
        lemma_blocks_lines_snoc(bs.drop_first(), b);
        assert(blocks_lines(q.drop_first()) =~= blocks_lines(bs.drop_first()) + tail);
        if block_line(bs[0]) is Some {
            assert(blocks_lines(q) =~= seq![block_line(bs[0]).unwrap()]
                + blocks_lines(q.drop_first()));
            assert(blocks_lines(bs) =~= seq![block_line(bs[0]).unwrap()]
                + blocks_lines(bs.drop_first()));
        } else {
            assert(blocks_lines(q) =~= blocks_lines(q.drop_first()));
            assert(blocks_lines(bs) =~= blocks_lines(bs.drop_first()));
        }
    }
}

/// The concatenated `text.content` fragments of one rich-text array.
fn runs_text_exec(runs: &Vec<DocValue>) -> (r: String)
    ensures
        r@ == runs_text(runs@),
{
    let mut out = String::new();
    let n = runs.len();
    let mut i: usize = 0;
    proof {
        assert(runs@.take(0) =~= Seq::<DocValue>::empty());
    }
    while i < n
        invariant
            n == runs@.len(),
            i <= n,
            out@ == runs_text(runs@.take(i as int)),
        decreases n - i,
    {
        let run = &runs[i];
        match run.get("text") {
            Some(t) => match t.get("content") {
                Some(c) => match c.as_str() {
                    Some(s) => {
                        out.append(s.as_str());
                    },
                    None => {},
                },
                None => {},
            },
            None => {},
        }
        proof {
            lemma_runs_text_snoc(runs@.take(i as int), runs@[i as int]);
            assert(runs@.take(i as int).push(runs@[i as int]) =~= runs@.take(i as int + 1));
            assert(out@ =~= runs_text(runs@.take(i as int)) + run_text(runs@[i as int]));
        }
        i += 1;
    }
    proof {
        assert(runs@.take(n as int) =~= runs@);
    }
    out
}

/// The line a block contributes, or `None` when the block is dropped.
fn block_line_exec(b: &DocValue) -> (r: Option<String>)
    ensures
        match r {
            Some(l) => block_line(*b) == Some(l@),
            None => block_line(*b) is None,
        },
{
    let t = match b.get("type") {
        Some(t) => t,
        None => {
            return None;
        },
    };
    let k = match t.as_str() {
        Some(k) => k,
        None => {
            return None;
        },
    };
    let recognized = str_eq(k.as_str(), "paragraph") || str_eq(k.as_str(), "heading_1")
        || str_eq(k.as_str(), "heading_2") || str_eq(k.as_str(), "heading_3")
        || str_eq(k.as_str(), "bulleted_list_item") || str_eq(k.as_str(), "numbered_list_item");
    if !recognized {
        return None;
    }
    let payload = match b.get(k.as_str()) {
        Some(p) => p,
        None => {
            return None;
        },
    };
    let rt = match payload.get("rich_text") {
        Some(rt) => rt,
        None => {
            return None;
        },
    };
    let runs = match rt.as_array() {
        Some(rs) => rs,
        None => {
            return None;
        },
    };
    Some(runs_text_exec(runs))
}

/// The lines joined with the blank-line separator.
fn join_lines(lines: &Vec<String>) -> (r: String)
    ensures
        r@ == join_text(str_views(lines@)),
{
    let mut out = String::new();
    let n = lines.len();
    let mut i: usize = 0;
    proof {
        assert(str_views(lines@).take(0) =~= Seq::<Seq<char>>::empty());
    }
    while i < n
        invariant
            n == lines@.len(),
            i <= n,
            out@ == join_text(str_views(lines@).take(i as int)),
        decreases n - i,
    {
        if i > 0 {
            out.append("\n\n");
            proof {
                reveal_strlit("\n\n");
                assert("\n\n"@ =~= sep());
            }
        }
        out.append(lines[i].as_str());
        proof {
            lemma_join_push(str_views(lines@).take(i as int), str_views(lines@)[i as int]);
            assert(str_views(lines@).take(i as int).push(str_views(lines@)[i as int])
                =~= str_views(lines@).take(i as int + 1));
        }
        i += 1;
    }
    proof {
        assert(str_views(lines@).take(n as int) =~= str_views(lines@));
    }
    out
}

/// Projects an ordered block sequence to one plain-text document: each
/// recognized, well-formed block contributes the concatenation of its
/// rich-text fragments as one line; every other block contributes nothing;
/// the lines are joined with a blank-line separator.  An empty sequence
/// yields the empty string.
pub fn extract_text_from_blocks(blocks: &Vec<DocValue>) -> (r: String)
    ensures
        r@ == blocks_text(blocks@),
{
    let mut lines: Vec<String> = Vec::new();
    let n = blocks.len();
    let mut i: usize = 0;
    proof {
        assert(blocks@.take(0) =~= Seq::<DocValue>::empty());
    }
    while i < n
        invariant
            n == blocks@.len(),
            i <= n,
            str_views(lines@) =~= blocks_lines(blocks@.take(i as int)),
        decreases n - i,
    {
        let ghost old_lines = lines@;
        match block_line_exec(&blocks[i]) {
            Some(line) => {
                lines.push(line);
                proof {
                    assert(str_views(lines@) =~= str_views(old_lines).push(lines@.last()@));
                }
            },
            None => {},
        }
        proof {
            lemma_blocks_lines_snoc(blocks@.take(i as int), blocks@[i as int]);
            assert(blocks@.take(i as int).push(blocks@[i as int]) =~= blocks@.take(i as int + 1));
        }
        i += 1;
    }
    proof {
        assert(blocks@.take(n as int) =~= blocks@);
    }
    join_lines(&lines)
}

/// Whether `r` is a minimal rich-text run holding `text` verbatim.
pub open spec fn is_rich_run(r: DocValue, text: Seq<char>) -> bool {
    match r {
        DocValue::Object(pairs) => {
            &&& pairs@.len() == 2
            &&& pairs@[0].0@ == "type"@
            &&& is_text_value(pairs@[0].1, "text"@)
            &&& pairs@[1].0@ == "text"@
            &&& match pairs@[1].1 {
                DocValue::Object(inner) => {
                    &&& inner@.len() == 1
                    &&& inner@[0].0@ == "content"@
                    &&& is_text_value(inner@[0].1, text)
                },
                _ => false,
            }
        },
        _ => false,
    }
}

/// Whether `b` is a minimal paragraph block whose single rich-text run
/// holds `text` verbatim.
pub open spec fn is_paragraph_block(b: DocValue, text: Seq<char>) -> bool {
    match b {
        DocValue::Object(pairs) => {
            &&& pairs@.len() == 3
            &&& pairs@[0].0@ == "object"@
            &&& is_text_value(pairs@[0].1, "block"@)
            &&& pairs@[1].0@ == "type"@
            &&& is_text_value(pairs@[1].1, "paragraph"@)
            &&& pairs@[2].0@ == "paragraph"@
            &&& match pairs@[2].1 {
                DocValue::Object(para) => {
                    &&& para@.len() == 1
                    &&& para@[0].0@ == "rich_text"@
                    &&& match para@[0].1 {
                        DocValue::Array(runs) => {
                            &&& runs@.len() == 1
                            &&& is_rich_run(runs@[0], text)
                        },
                        _ => false,
                    }
                },
                _ => false,
            }
        },
        _ => false,
    }
}

/// A minimal paragraph block contributes exactly its text as its line.
pub proof fn lemma_paragraph_block_line(b: DocValue, text: Seq<char>)
    requires
        is_paragraph_block(b, text),
    ensures
        block_line(b) == Some(text),
{
    reveal_strlit("object");
    reveal_strlit("block");
    reveal_strlit("type");
    reveal_strlit("paragraph");
    reveal_strlit("rich_text");
    reveal_strlit("text");
    reveal_strlit("content");
    let pairs = b->Object_0;
    assert("object"@.len() == 6);
    assert("type"@.len() == 4);
    assert("paragraph"@.len() == 9);
    assert("rich_text"@.len() == 9);
    assert("text"@.len() == 4);
    assert("content"@.len() == 7);
    assert("rich_text"@[0] == 'r' && "paragraph"@[0] == 'p');
    assert("type"@[2] == 'p' && "text"@[2] == 'x');
    // the block's type is "paragraph"
    assert(spec_get(b, "type"@) == obj_lookup(pairs@, "type"@));
    assert(pairs@.drop_first()[0] == pairs@[1]);
    assert(obj_lookup(pairs@, "type"@) == obj_lookup(pairs@.drop_first(), "type"@));
    assert(obj_lookup(pairs@.drop_first(), "type"@) == Some(pairs@[1].1));
    assert(spec_str(pairs@[1].1) == Some("paragraph"@));
    assert(recognized_kind("paragraph"@));
    // the paragraph payload sits under the key "paragraph"
    assert(obj_lookup(pairs@, "paragraph"@) == obj_lookup(pairs@.drop_first(), "paragraph"@));
    assert(pairs@.drop_first().drop_first()[0] == pairs@[2]);
    assert(obj_lookup(pairs@.drop_first(), "paragraph"@)
        == obj_lookup(pairs@.drop_first().drop_first(), "paragraph"@));
    assert(obj_lookup(pairs@.drop_first().drop_first(), "paragraph"@) == Some(pairs@[2].1));
    let payload = pairs@[2].1;
    let para = payload->Object_0;
    assert(obj_lookup(para@, "rich_text"@) == Some(para@[0].1));
    let runs = para@[0].1->Array_0;
    assert(spec_items(para@[0].1) == Some(runs@));
    // the single run holds the text
    let run = runs@[0];
    let rp = run->Object_0;
    assert(obj_lookup(rp@, "text"@) == obj_lookup(rp@.drop_first(), "text"@));
    assert(rp@.drop_first()[0] == rp@[1]);
    assert(obj_lookup(rp@.drop_first(), "text"@) == Some(rp@[1].1));
    let inner = rp@[1].1->Object_0;
    assert(obj_lookup(inner@, "content"@) == Some(inner@[0].1));
    assert(run_text(run) == text);
    assert(runs@.drop_first() =~= Seq::<DocValue>::empty());
    assert(runs_text(runs@) == run_text(run) + runs_text(Seq::<DocValue>::empty()));
    assert(run_text(run) + Seq::<char>::empty() =~= run_text(run));
    assert(block_line(b) == Some(text));
}

/// One minimal paragraph block holding `seg` verbatim.
fn make_paragraph_block(seg: String) -> (b: DocValue)
    ensures
        is_paragraph_block(b, seg@),
{
    let mut content: Vec<(String, DocValue)> = Vec::new();
    content.push((String::from_str("content"), DocValue::Text(seg)));
    let mut textobj: Vec<(String, DocValue)> = Vec::new();
    textobj.push((String::from_str("type"), DocValue::Text(String::from_str("text"))));
    textobj.push((String::from_str("text"), DocValue::Object(content)));
    let mut runs: Vec<DocValue> = Vec::new();
    runs.push(DocValue::Object(textobj));
    let mut para: Vec<(String, DocValue)> = Vec::new();
    para.push((String::from_str("rich_text"), DocValue::Array(runs)));
    let mut pairs: Vec<(String, DocValue)> = Vec::new();
    pairs.push((String::from_str("object"), DocValue::Text(String::from_str("block"))));
    pairs.push((String::from_str("type"), DocValue::Text(String::from_str("paragraph"))));
    pairs.push((String::from_str("paragraph"), DocValue::Object(para)));
    DocValue::Object(pairs)
}

/// The segments of `text` between blank-line separators, verbatim, in order.
fn split_blank_lines(text: &str) -> (segs: Vec<String>)
    ensures
        str_views(segs@) =~= split_text(text@),
{
    let n = text.unicode_len();
    let mut segs: Vec<String> = Vec::new();
    let mut start: usize = 0;
    let mut i: usize = 0;
    proof {
        assert(text@.skip(0) =~= text@);
        assert(str_views(segs@) =~= Seq::<Seq<char>>::empty());
    }
    while i < n && i + 1 < n
        invariant
            n == text@.len(),
            start <= i,
            i <= n,
            split_text(text@) =~= str_views(segs@) + split_text(text@.skip(start as int)),
            forall|j: int| start <= j < i ==> !is_sep_at(text@, j),
        decreases n - i,
    {
        let c0 = text.get_char(i);
        let c1 = text.get_char(i + 1);
        if c0 == '\n' && c1 == '\n' {
            let seg = text.substring_char(start, i);
            let ghost old_segs = segs@;
            segs.push(String::from_str(seg));
            proof {
                let rem = text@.skip(start as int);
                assert(is_sep_at(rem, i - start)) by {
                    assert(rem[i - start] == text@[i as int]);
                    assert(rem[i - start + 1] == text@[i as int + 1]);
                }
                assert forall|j: int| 0 <= j < i - start implies !is_sep_at(rem, j) by {
                    if is_sep_at(rem, j) {
                        assert(rem[j] == text@[start + j]);
                        assert(rem[j + 1] == text@[start + j + 1]);
                        assert(is_sep_at(text@, start + j));
                    }
                }
                lemma_split_first(rem, i - start);
                assert(rem.take(i - start) =~= text@.subrange(start as int, i as int));
                assert(rem.skip(i - start + 2) =~= text@.skip(i as int + 2));
                assert(str_views(segs@) =~= str_views(old_segs).push(seg@));
                assert(str_views(old_segs) + split_text(rem)
                    =~= str_views(segs@) + split_text(text@.skip(i as int + 2)));
            }
            start = i + 2;
            i = i + 2;
        } else {
            proof {
                assert(!is_sep_at(text@, i as int));
            }
            i = i + 1;
        }
    }
    let seg = text.substring_char(start, n);
    let ghost old_segs = segs@;
    segs.push(String::from_str(seg));
    proof {
        let rem = text@.skip(start as int);
        assert forall|j: int| !is_sep_at(rem, j) by {
            if is_sep_at(rem, j) {
                assert(rem[j] == text@[start + j]);
                assert(rem[j + 1] == text@[start + j + 1]);
                assert(is_sep_at(text@, start + j));
                assert(start + j < i);
            }
        }
        lemma_split_nosep(rem);
        assert(rem =~= text@.subrange(start as int, n as int));
        assert(str_views(segs@) =~= str_views(old_segs).push(seg@));
    }
    segs
}

/// Builds the ordered minimal block sequence of a plain text: one paragraph
/// block per segment between blank-line separators, each holding its
/// segment verbatim, empty segments included.  The empty string yields a
/// single empty paragraph block.
pub fn text_to_blocks(text: &str) -> (r: Vec<DocValue>)
    ensures
        r@.len() == split_text(text@).len(),
        forall|i: int| 0 <= i < r@.len()
            ==> is_paragraph_block(#[trigger] r@[i], split_text(text@)[i]),
{
    let segs = split_blank_lines(text);
    let mut blocks: Vec<DocValue> = Vec::new();
    let n = segs.len();
    let mut i: usize = 0;
    while i < n
        invariant
            n == segs@.len(),
            i <= n,
            blocks@.len() == i,
            str_views(segs@) =~= split_text(text@),
            forall|j: int| 0 <= j < i
                ==> is_paragraph_block(#[trigger] blocks@[j], split_text(text@)[j]),
        decreases n - i,
    {
        let seg = segs[i].clone();
        proof {
            assert(seg@ == segs@[i as int]@);
            assert(str_views(segs@)[i as int] == segs@[i as int]@);
        }
        let b = make_paragraph_block(seg);
        blocks.push(b);
        i += 1;
    }
    blocks
}

/// Law: projecting any block sequence that the builder's contract
/// describes for a text yields that text again; composed with the builder
/// and projector contracts this is the round trip from text to blocks and
/// back.
pub proof fn lemma_text_round_trip(blocks: Seq<DocValue>, text: Seq<char>)
    requires
        blocks.len() == split_text(text).len(),
        forall|i: int| 0 <= i < blocks.len()
            ==> is_paragraph_block(#[trigger] blocks[i], split_text(text)[i]),
    ensures
        blocks_text(blocks) == text,
{
    lemma_lines_of_paragraphs(blocks, split_text(text));
    lemma_join_split(text);
}

proof fn lemma_lines_of_paragraphs(blocks: Seq<DocValue>, lines: Seq<Seq<char>>)
    requires
        blocks.len() == lines.len(),
        forall|i: int| 0 <= i < blocks.len()
            ==> is_paragraph_block(#[trigger] blocks[i], lines[i]),
    ensures
        blocks_lines(blocks) =~= lines,
    decreases blocks.len(),
{
    if blocks.len() == 0 {
    } else {
        lemma_paragraph_block_line(blocks[0], lines[0]);
        assert(forall|i: int| 0 <= i < blocks.drop_first().len()
            ==> blocks.drop_first()[i] == blocks[i + 1]);
        assert forall|i: int| 0 <= i < blocks.drop_first().len()
            implies is_paragraph_block(#[trigger] blocks.drop_first()[i], lines.drop_first()[i]) by {
            assert(lines.drop_first()[i] == lines[i + 1]);
        }
        lemma_lines_of_paragraphs(blocks.drop_first(), lines.drop_first());
    }
}

/// Law: over a non-empty sequence of recognized, well-formed blocks whose
/// lines hold no line break, the projector's output holds exactly one
/// blank-line separator fewer than there are blocks.
pub proof fn lemma_separator_count(blocks: Seq<DocValue>)
    requires
        blocks.len() >= 1,
        forall|i: int| 0 <= i < blocks.len() ==> (#[trigger] block_line(blocks[i])) is Some,
        forall|i: int| 0 <= i < blocks.len()
            ==> newline_free((#[trigger] block_line(blocks[i])).unwrap()),
    ensures
        sep_count(blocks_text(blocks)) == blocks.len() - 1,
{
    lemma_lines_of_somes(blocks);
    assert forall|i: int| 0 <= i < blocks_lines(blocks).len()
        implies newline_free(#[trigger] blocks_lines(blocks)[i]) by {
        assert(blocks_lines(blocks)[i] == block_line(blocks[i]).unwrap());
        assert(newline_free(block_line(blocks[i]).unwrap()));
    }
    lemma_count_join(blocks_lines(blocks));
}

proof fn lemma_lines_of_somes(blocks: Seq<DocValue>)
    requires
        forall|i: int| 0 <= i < blocks.len() ==> (#[trigger] block_line(blocks[i])) is Some,
    ensures
        blocks_lines(blocks).len() == blocks.len(),
        forall|i: int| 0 <= i < blocks.len()
            ==> blocks_lines(blocks)[i] == (#[trigger] block_line(blocks[i])).unwrap(),
    decreases blocks.len(),
{
    if blocks.len() == 0 {
    } else {
        assert(forall|i: int| 0 <= i < blocks.drop_first().len()
            ==> blocks.drop_first()[i] == blocks[i + 1]);
        lemma_lines_of_somes(blocks.drop_first());
        assert(blocks_lines(blocks) =~= seq![block_line(blocks[0]).unwrap()]
            + blocks_lines(blocks.drop_first()));
        assert forall|i: int| 0 <= i < blocks.len()
            implies blocks_lines(blocks)[i] == (#[trigger] block_line(blocks[i])).unwrap() by {
            if i > 0 {
                assert(blocks_lines(blocks)[i] == blocks_lines(blocks.drop_first())[i - 1]);
                assert(blocks.drop_first()[i - 1] == blocks[i]);
            }
        }
    }
}

} // verus!
