//! The vocabulary entry format that the chat model answers with.
//!
//! An entry is seven labelled fields:
//!
//! ```text
//! 单词：<word>
//! 英式音标：<soundmark>
//! 词根词缀：<roots>
//! 中文释义：<paraphrase>
//! 常用搭配：<collocations>
//! 近义词：<synonyms>
//! 例句：<examples, to the end of the text>
//! ```
//!
//! Each of the first six values is the rest of its line and is not
//! empty; one or more line breaks separate it from the next label. The
//! examples are everything after their label and are not empty. The
//! entry is looked for in the trimmed answer; text before the first
//! label is ignored, and the entry that starts earliest is taken.
use vstd::prelude::*;

use crate::model::{Error, Vocabulary};
use crate::text::{chars_of, lemma_trim_idempotent, string_of_range, trim, trim_bounds};

verus! {

/// The label in front of field `k`.
pub open spec fn label(k: int) -> Seq<char> {
    if k == 0 {
        seq!['单', '词', '：']
    } else if k == 1 {
        seq!['英', '式', '音', '标', '：']
    } else if k == 2 {
        seq!['词', '根', '词', '缀', '：']
    } else if k == 3 {
        seq!['中', '文', '释', '义', '：']
    } else if k == 4 {
        seq!['常', '用', '搭', '配', '：']
    } else if k == 5 {
        seq!['近', '义', '词', '：']
    } else {
        seq!['例', '句', '：']
    }
}

/// Whether `l` stands in `s` at position `i`.
pub open spec fn occurs_at(s: Seq<char>, i: int, l: Seq<char>) -> bool {
    0 <= i && i + l.len() <= s.len() && s.subrange(i, i + l.len()) == l
}

/// The position of the first `'\n'` at or after `i`, or the end of `s`.
pub open spec fn line_end(s: Seq<char>, i: int) -> int
    decreases s.len() - i,
{
    if i >= s.len() {
        s.len() as int
    } else if s[i] == '\n' {
        i
    } else {
        line_end(s, i + 1)
    }
}

/// The position after the run of `'\n'` that starts at `i`.
pub open spec fn breaks_end(s: Seq<char>, i: int) -> int
    decreases s.len() - i,
{
    if 0 <= i < s.len() && s[i] == '\n' {
        breaks_end(s, i + 1)
    } else {
        i
    }
}

/// The values of fields `k..7` of an entry whose field `k` starts (with
/// its label) at position `i` of `s`, or `None` if no such entry is there.
pub open spec fn fields_at(s: Seq<char>, i: int, k: int) -> Option<Seq<Seq<char>>>
    decreases 6 - k,
{
    let v = i + label(k).len();
    if !occurs_at(s, i, label(k)) {
        None
    } else if k >= 6 {
        if v < s.len() {
            Some(seq![s.subrange(v, s.len() as int)])
        } else {
            None
        }
    } else {
        let e = line_end(s, v);
        let m = breaks_end(s, e);
        if e > v && m > e {
            match fields_at(s, m, k + 1) {
                Some(rest) => Some(seq![s.subrange(v, e)] + rest),
                None => None,
            }
        } else {
            None
        }
    }
}

/// The values of the entry that starts earliest at or after position `i`.
pub open spec fn first_entry_from(s: Seq<char>, i: int) -> Option<Seq<Seq<char>>>
    decreases s.len() + 1 - i,
{
    if i < 0 || i > s.len() {
        None
    } else if fields_at(s, i, 0) is Some {
        fields_at(s, i, 0)
    } else {
        first_entry_from(s, i + 1)
    }
}

/// The field values of the vocabulary entry in the chat model's answer
/// `content`, or `None` if it holds none.
pub open spec fn entry_fields(content: Seq<char>) -> Option<Seq<Seq<char>>> {
    first_entry_from(trim(content), 0)
}

/// The spans `(from, to)` of `s`, as text.
pub open spec fn spans_text(s: Seq<char>, r: Seq<(usize, usize)>) -> Seq<Seq<char>> {
    r.map_values(|p: (usize, usize)| s.subrange(p.0 as int, p.1 as int))
}

/// Every span of `r` lies within `s`.
pub open spec fn spans_valid(s: Seq<char>, r: Seq<(usize, usize)>) -> bool {
    forall|j: int| #![trigger r[j]] 0 <= j < r.len() ==> r[j].0 <= r[j].1 <= s.len()
}

proof fn lemma_fields_at_len(s: Seq<char>, i: int, k: int)
    requires
        0 <= k <= 6,
    ensures
        fields_at(s, i, k) matches Some(f) ==> f.len() == 7 - k,
    decreases 6 - k,
{
    if k < 6 {
        lemma_fields_at_len(s, breaks_end(s, line_end(s, i + label(k).len())), k + 1);
    }
}

fn label_of(k: usize) -> (res: Vec<char>)
    ensures
        res@ == label(k as int),
{
    let res = if k == 0 {
        vec!['单', '词', '：']
    } else if k == 1 {
        vec!['英', '式', '音', '标', '：']
    } else if k == 2 {
        vec!['词', '根', '词', '缀', '：']
    } else if k == 3 {
        vec!['中', '文', '释', '义', '：']
    } else if k == 4 {
        vec!['常', '用', '搭', '配', '：']
    } else if k == 5 {
        vec!['近', '义', '词', '：']
    } else {
        vec!['例', '句', '：']
    };
    assert(res@ =~= label(k as int));
    res
}

fn occurs_at_exec(s: &Vec<char>, i: usize, l: &Vec<char>) -> (res: bool)
    ensures
        res == occurs_at(s@, i as int, l@),
{
    if i > s.len() || l.len() > s.len() - i {
        return false;
    }
    let mut j: usize = 0;
    while j < l.len()
        invariant
            i + l@.len() <= s@.len() <= usize::MAX,
            j <= l@.len(),
            forall|k: int| 0 <= k < j ==> s@[i + k] == l@[k],
        decreases l@.len() - j,
    {
        assert(i + j < s@.len());
        if s[i + j] != l[j] {
            assert(s@.subrange(i as int, i + l@.len())[j as int] != l@[j as int]);
            return false;
        }
        j += 1;
    }
    assert(s@.subrange(i as int, i + l@.len()) =~= l@);
    true
}

fn line_end_exec(s: &Vec<char>, i: usize) -> (res: usize)
    requires
        i <= s@.len(),
    ensures
        res == line_end(s@, i as int),
        i <= res <= s@.len(),
{
    let mut j = i;
    while j < s.len() && s[j] != '\n'
        invariant
            i <= j <= s@.len(),
            line_end(s@, i as int) == line_end(s@, j as int),
        decreases s@.len() - j,
    {
        j += 1;
    }
    j
}

fn breaks_end_exec(s: &Vec<char>, i: usize) -> (res: usize)
    requires
        i <= s@.len(),
    ensures
        res == breaks_end(s@, i as int),
        i <= res <= s@.len(),
{
    let mut j = i;
    while j < s.len() && s[j] == '\n'
        invariant
            i <= j <= s@.len(),
            breaks_end(s@, i as int) == breaks_end(s@, j as int),
        decreases s@.len() - j,
    {
        j += 1;
    }
    j
}

/// The spans of the values of fields `k..7` of an entry whose field `k`
/// starts at position `i` of `s`.
fn fields_at_exec(s: &Vec<char>, i: usize, k: usize) -> (res: Option<Vec<(usize, usize)>>)
    requires
        i <= s@.len(),
        k <= 6,
    ensures
        match res {
            Some(r) => spans_valid(s@, r@) && fields_at(s@, i as int, k as int) == Some(
                spans_text(s@, r@),
            ),
            None => fields_at(s@, i as int, k as int) is None,
        },
    decreases 6 - k,
{
    let l = label_of(k);
    if !occurs_at_exec(s, i, &l) {
        return None;
    }
    let n = s.len();
    assert(i + l@.len() <= n);
    let v = i + l.len();
    if k >= 6 {
        if v < s.len() {
            let mut r: Vec<(usize, usize)> = Vec::new();
            r.push((v, s.len()));
            assert(spans_text(s@, r@) =~= seq![s@.subrange(v as int, s@.len() as int)]);
            return Some(r);
        } else {
            return None;
        }
    }
    let e = line_end_exec(s, v);
    let m = breaks_end_exec(s, e);
    if e > v && m > e {
        match fields_at_exec(s, m, k + 1) {
            Some(rest) => {
                let mut r = rest;
                let ghost old_r = r@;
                r.insert(0, (v, e));
                assert(r@ =~= seq![(v, e)] + old_r);
                assert(spans_text(s@, r@) =~= seq![s@.subrange(v as int, e as int)] + spans_text(
                    s@,
                    old_r,
                ));
                assert forall|j: int| 0 <= j < r@.len() implies r@[j].0 <= #[trigger] r@[j].1
                    <= s@.len() by {
                    if j > 0 {
                        assert(r@[j] == old_r[j - 1]);
                    }
                }
                Some(r)
            },
            None => None,
        }
    } else {
        None
    }
}

/// The spans of the values of the entry that starts earliest in `s`.
fn first_entry_exec(s: &Vec<char>) -> (res: Option<Vec<(usize, usize)>>)
    ensures
        match res {
            Some(r) => spans_valid(s@, r@) && first_entry_from(s@, 0) == Some(spans_text(s@, r@))
                && exists|i: int|
                0 <= i <= s@.len() && #[trigger] fields_at(s@, i, 0) == Some(spans_text(s@, r@))
                    && is_earliest_entry(s@, i),
            None => first_entry_from(s@, 0) is None && forall|i: int|
                0 <= i <= s@.len() ==> #[trigger] fields_at(s@, i, 0) is None,
        },
{
    let n = s.len();
    let mut i: usize = 0;
    loop
        invariant
            i <= n == s@.len(),
            first_entry_from(s@, 0) == first_entry_from(s@, i as int),
            forall|j: int| 0 <= j < i ==> #[trigger] fields_at(s@, j, 0) is None,
        decreases n - i,
    {
        match fields_at_exec(s, i, 0) {
            Some(r) => {
                assert(fields_at(s@, i as int, 0) == Some(spans_text(s@, r@)));
                assert(is_earliest_entry(s@, i as int));
                return Some(r);
            },
            None => {},
        }
        if i == n {
            assert(first_entry_from(s@, n + 1) is None);
            return None;
        }
        i += 1;
    }
}

/// No entry of `s` starts before position `i`.
pub open spec fn is_earliest_entry(s: Seq<char>, i: int) -> bool {
    forall|j: int| 0 <= j < i ==> #[trigger] fields_at(s, j, 0) is None
}

proof fn lemma_first_entry_from_earliest(s: Seq<char>, k: int, i: int)
    requires
        0 <= k <= i <= s.len(),
        fields_at(s, i, 0) is Some,
        forall|j: int| k <= j < i ==> #[trigger] fields_at(s, j, 0) is None,
    ensures
        first_entry_from(s, k) == fields_at(s, i, 0),
    decreases i - k,
{
    if k < i {
        lemma_first_entry_from_earliest(s, k + 1, i);
    }
}

proof fn lemma_first_entry_from_none(s: Seq<char>, k: int)
    requires
        0 <= k,
        forall|j: int| k <= j <= s.len() ==> #[trigger] fields_at(s, j, 0) is None,
    ensures
        first_entry_from(s, k) is None,
    decreases s.len() + 1 - k,
{
    if k <= s.len() {
        lemma_first_entry_from_none(s, k + 1);
    }
}

/// The entry read from a text is the one that starts earliest, wherever
/// it starts: at the beginning, after a line break, or in the middle of a
/// line.
pub proof fn lemma_earliest_entry_is_read(s: Seq<char>, i: int)
    requires
        0 <= i <= s.len(),
        fields_at(s, i, 0) is Some,
        is_earliest_entry(s, i),
    ensures
        first_entry_from(s, 0) == fields_at(s, i, 0),
{
    lemma_first_entry_from_earliest(s, 0, i);
}

/// A text where no entry starts at any position holds no entry.
pub proof fn lemma_no_entry_read(s: Seq<char>)
    requires
        forall|i: int| 0 <= i <= s.len() ==> #[trigger] fields_at(s, i, 0) is None,
    ensures
        first_entry_from(s, 0) is None,
{
    lemma_first_entry_from_none(s, 0);
}

/// Reads the vocabulary entry in the chat model's answer `content`: the
/// entry's seven field values, with id 0 and no timestamps, or
/// `Error::NoMatch` with the trimmed answer if it holds no entry.
pub fn parse_vocabulary(content: &str) -> (res: Result<Vocabulary, Error>)
    ensures
        match entry_fields(content@) {
            Some(f) => res matches Ok(v) && v.text_fields() == f && v.id == 0
                && v.created_at is None && v.updated_at is None,
            None => res matches Err(Error::NoMatch(t)) && t@ == trim(content@),
        },
        forall|i: int|
            0 <= i <= trim(content@).len() && is_earliest_entry(trim(content@), i)
                && #[trigger] fields_at(trim(content@), i, 0) is Some ==> (res matches Ok(v)
                && Some(v.text_fields()) == fields_at(trim(content@), i, 0)),
        (forall|i: int|
            0 <= i <= trim(content@).len() ==> #[trigger] fields_at(trim(content@), i, 0) is None)
            ==> res is Err,
{
    let cs = chars_of(content);
    let (a, b) = trim_bounds(&cs);
    let mut t: Vec<char> = Vec::new();
    let mut j = a;
    while j < b
        invariant
            a <= j <= b <= cs@.len(),
            t@ == cs@.subrange(a as int, j as int),
        decreases b - j,
    {
        t.push(cs[j]);
        j += 1;
    }
    assert(t@ == trim(content@));
    match first_entry_exec(&t) {
        Some(r) => {
            assert(r@.len() == 7) by {
                lemma_first_entry_len(t@, 0);
            }
            let ghost f = spans_text(t@, r@);
            assert(r@[0].0 <= r@[0].1 <= t@.len());
            assert(r@[1].0 <= r@[1].1 <= t@.len());
            assert(r@[2].0 <= r@[2].1 <= t@.len());
            assert(r@[3].0 <= r@[3].1 <= t@.len());
            assert(r@[4].0 <= r@[4].1 <= t@.len());
            assert(r@[5].0 <= r@[5].1 <= t@.len());
            assert(r@[6].0 <= r@[6].1 <= t@.len());
            let v = Vocabulary {
                id: 0,
                word: string_of_range(&t, r[0].0, r[0].1),
                soundmark: string_of_range(&t, r[1].0, r[1].1),
                roots: string_of_range(&t, r[2].0, r[2].1),
                paraphrase: string_of_range(&t, r[3].0, r[3].1),
                collocations: string_of_range(&t, r[4].0, r[4].1),
                synonyms: string_of_range(&t, r[5].0, r[5].1),
                examples: string_of_range(&t, r[6].0, r[6].1),
                created_at: None,
                updated_at: None,
            };
            assert(v.text_fields() =~= f);
            assert forall|i: int|
                0 <= i <= t@.len() && is_earliest_entry(t@, i)
                    && #[trigger] fields_at(t@, i, 0) is Some implies Some(v.text_fields())
                == fields_at(t@, i, 0) by {
                let i0 = choose|i0: int|
                    0 <= i0 <= t@.len() && #[trigger] fields_at(t@, i0, 0) == Some(
                        spans_text(t@, r@),
                    ) && is_earliest_entry(t@, i0);
                if i < i0 {
                    assert(fields_at(t@, i, 0) is None);
                } else if i0 < i {
                    assert(fields_at(t@, i0, 0) is None);
                }
            }
            Ok(v)
        },
        None => Err(Error::NoMatch(string_of_range(&cs, a, b))),
    }
}

proof fn lemma_line_end(s: Seq<char>, i: int)
    requires
        0 <= i <= s.len(),
    ensures
        i <= line_end(s, i) <= s.len(),
        forall|j: int| i <= j < line_end(s, i) ==> s[j] != '\n',
    decreases s.len() - i,
{
    if i < s.len() && s[i] != '\n' {
        lemma_line_end(s, i + 1);
    }
}

proof fn lemma_breaks_end(s: Seq<char>, i: int)
    requires
        0 <= i <= s.len(),
    ensures
        i <= breaks_end(s, i) <= s.len(),
    decreases s.len() - i,
{
    if i < s.len() && s[i] == '\n' {
        lemma_breaks_end(s, i + 1);
    }
}

/// Value `j` of the values of fields `k..7` is not empty, and holds no
/// line break unless it is the examples.
pub open spec fn value_shape_ok(f: Seq<Seq<char>>, k: int, j: int) -> bool {
    f[j].len() > 0 && (k + j < 6 ==> !f[j].contains('\n'))
}

proof fn lemma_fields_at_shape(s: Seq<char>, i: int, k: int)
    requires
        0 <= k <= 6,
    ensures
        fields_at(s, i, k) matches Some(f) ==> f.len() == 7 - k && forall|j: int|
            0 <= j < f.len() ==> #[trigger] value_shape_ok(f, k, j),
    decreases 6 - k,
{
    let v = i + label(k).len();
    if occurs_at(s, i, label(k)) && k < 6 {
        lemma_line_end(s, v);
        let e = line_end(s, v);
        lemma_breaks_end(s, e);
        let m = breaks_end(s, e);
        lemma_fields_at_shape(s, m, k + 1);
        if let Some(f) = fields_at(s, i, k) {
            let rest = fields_at(s, m, k + 1).unwrap();
            let w = s.subrange(v, e);
            assert(f == seq![w] + rest);
            assert forall|j: int| 0 <= j < f.len() implies #[trigger] value_shape_ok(f, k, j) by {
                if j == 0 {
                    assert(f[0] == w);
                    if w.contains('\n') {
                        let x = choose|x: int| 0 <= x < w.len() && w[x] == '\n';
                        assert(s[v + x] == '\n');
                    }
                } else {
                    assert(f[j] == rest[j - 1]);
                    assert(value_shape_ok(rest, k + 1, j - 1));
                }
            }
        }
    }
}

/// An entry has seven values; none is empty, and the first six (all but
/// the examples) hold no line break.
pub proof fn lemma_entry_shape(content: Seq<char>)
    ensures
        entry_fields(content) matches Some(f) ==> f.len() == 7 && forall|j: int|
            0 <= j < 7 ==> #[trigger] value_shape_ok(f, 0, j),
{
    lemma_first_entry_shape(trim(content), 0);
}

proof fn lemma_first_entry_shape(s: Seq<char>, i: int)
    ensures
        first_entry_from(s, i) matches Some(f) ==> f.len() == 7 && forall|j: int|
            0 <= j < 7 ==> #[trigger] value_shape_ok(f, 0, j),
    decreases s.len() + 1 - i,
{
    if 0 <= i <= s.len() {
        lemma_fields_at_shape(s, i, 0);
        lemma_first_entry_shape(s, i + 1);
    }
}

/// White space around the answer does not change the entry read from it.
pub proof fn lemma_entry_ignores_surrounding_space(content: Seq<char>)
    ensures
        entry_fields(trim(content)) == entry_fields(content),
{
    lemma_trim_idempotent(content);
}

proof fn lemma_first_entry_len(s: Seq<char>, i: int)
    ensures
        first_entry_from(s, i) matches Some(f) ==> f.len() == 7,
    decreases s.len() + 1 - i,
{
    if 0 <= i <= s.len() {
        lemma_fields_at_len(s, i, 0);
        lemma_first_entry_len(s, i + 1);
    }
}

} // verus!
