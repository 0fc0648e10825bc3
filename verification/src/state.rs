//! The traversal accumulator: the single mutable side-channel threaded
//! through one transducer pass and consumed afterwards by the footnote
//! resolver, the table-of-contents builder and the document assembler.

use vstd::prelude::*;

verus! {

use crate::html::{Element, ElemV, elems_view};

/// Document metadata parsed from the front-matter block.
#[derive(Debug)]
pub struct FrontMatter {
    pub title: String,
    pub tags: Vec<String>,
    pub author: String,
    pub avatar: String,
}

/// The model of the front matter.
#[verifier::ext_equal]
pub ghost struct FrontMatterV {
    pub title: Seq<char>,
    pub tags: Seq<Seq<char>>,
    pub author: Seq<char>,
    pub avatar: Seq<char>,
}

impl View for FrontMatter {
    type V = FrontMatterV;

    open spec fn view(&self) -> FrontMatterV {
        FrontMatterV {
            title: self.title@,
            tags: self.tags.deep_view(),
            author: self.author@,
            avatar: self.avatar@,
        }
    }
}

/// The document timestamp, already rendered by the caller's clock: a short
/// date line for the reader and a full stamp for the generated-by comment.
#[derive(Debug)]
pub struct Timestamp {
    pub date_line: String,
    pub stamp: String,
}

/// The model of a timestamp.
#[verifier::ext_equal]
pub ghost struct TimestampV {
    pub date_line: Seq<char>,
    pub stamp: Seq<char>,
}

impl View for Timestamp {
    type V = TimestampV;

    open spec fn view(&self) -> TimestampV {
        TimestampV { date_line: self.date_line@, stamp: self.stamp@ }
    }
}

/// The accumulator.  It is created empty (the domain seeded from caller
/// configuration) immediately before the traversal, written only during that
/// one pass, and read only afterwards.
#[derive(Debug)]
pub struct State {
    /// Number of tables seen so far; gives each table its class name.
    pub table_counter: usize,
    /// Set when the front-matter block is transduced; a later block
    /// overwrites an earlier value silently.
    pub front_matter: Option<FrontMatter>,
    /// For each footnote label, in order of first reference: how many
    /// references to it have been seen.  Keys are never repeated.
    pub footnote_counter: Vec<(String, usize)>,
    /// The document timestamp, set when the front matter is parsed.
    pub date: Timestamp,
    /// Footnote definitions in document order: label and content nodes.
    pub definitions: Vec<(String, Vec<Element>)>,
    /// CSS rules collected during traversal, append-only.
    pub styles: Vec<String>,
    /// Whitespace-delimited words seen in text nodes, saturating at the
    /// machine limit.
    pub word_count: usize,
    /// Headings in document order: level (1-6), id, title.
    pub headings: Vec<(u8, String, String)>,
    /// The site's own domain, used to mark external links.
    pub domain: String,
}

/// The model of the accumulator.
#[verifier::ext_equal]
pub ghost struct StateV {
    pub table_counter: usize,
    pub front_matter: Option<FrontMatterV>,
    pub footnote_counter: Seq<(Seq<char>, usize)>,
    pub date: TimestampV,
    pub definitions: Seq<(Seq<char>, Seq<ElemV>)>,
    pub styles: Seq<Seq<char>>,
    pub word_count: usize,
    pub headings: Seq<(u8, Seq<char>, Seq<char>)>,
    pub domain: Seq<char>,
}

/// The models of the recorded definitions, in order.
pub open spec fn defs_view(defs: Seq<(String, Vec<Element>)>) -> Seq<(Seq<char>, Seq<ElemV>)> {
    Seq::new(defs.len(), |i: int| (defs[i].0@, elems_view(defs[i].1@)))
}

impl View for State {
    type V = StateV;

    open spec fn view(&self) -> StateV {
        StateV {
            table_counter: self.table_counter,
            front_matter: match self.front_matter {
                Option::Some(fm) => Option::Some(fm@),
                Option::None => Option::None,
            },
            footnote_counter: self.footnote_counter.deep_view(),
            date: self.date@,
            definitions: defs_view(self.definitions@),
            styles: self.styles.deep_view(),
            word_count: self.word_count,
            headings: self.headings.deep_view(),
            domain: self.domain@,
        }
    }
}

impl State {
    /// The empty accumulator for one document, seeded with the site domain.
    pub fn new(domain: String) -> (r: State)
        ensures
            r@.table_counter == 0,
            r@.front_matter is None,
            r@.footnote_counter.len() == 0,
            r@.date.date_line.len() == 0,
            r@.date.stamp.len() == 0,
            r@.definitions.len() == 0,
            r@.styles.len() == 0,
            r@.word_count == 0,
            r@.headings.len() == 0,
            r@.domain == domain@,
    {
        State {
            table_counter: 0,
            front_matter: Option::None,
            footnote_counter: Vec::new(),
            date: Timestamp { date_line: String::new(), stamp: String::new() },
            definitions: Vec::new(),
            styles: Vec::new(),
            word_count: 0,
            headings: Vec::new(),
            domain,
        }
    }
}

/// Increment that stops at the machine limit.
pub open spec fn sat_inc(c: usize) -> usize {
    if c == usize::MAX {
        c
    } else {
        (c + 1) as usize
    }
}

/// Saturating addition on machine integers.
pub open spec fn sat_add(a: usize, b: usize) -> usize {
    if a + b > usize::MAX {
        usize::MAX
    } else {
        (a + b) as usize
    }
}

/// The count recorded for a label: the first matching entry's count.
pub open spec fn fc_lookup(m: Seq<(Seq<char>, usize)>, k: Seq<char>) -> Option<usize>
    decreases m.len(),
{
    if m.len() == 0 {
        Option::None
    } else if m[0].0 == k {
        Option::Some(m[0].1)
    } else {
        fc_lookup(m.drop_first(), k)
    }
}

/// The counter list after one more reference to `k`: the first entry for `k`
/// is incremented; everything else is unchanged.
pub open spec fn fc_bump(m: Seq<(Seq<char>, usize)>, k: Seq<char>) -> Seq<(Seq<char>, usize)>
    decreases m.len(),
{
    if m.len() == 0 {
        m
    } else if m[0].0 == k {
        seq![(k, sat_inc(m[0].1))] + m.drop_first()
    } else {
        seq![m[0]] + fc_bump(m.drop_first(), k)
    }
}

/// What one footnote reference does to the counter list: a first reference
/// records a count of one and no suffix; a later reference returns the old
/// count as the suffix index and increments the count.
pub open spec fn fc_advance_spec(m: Seq<(Seq<char>, usize)>, k: Seq<char>) -> (
    Option<usize>,
    Seq<(Seq<char>, usize)>,
) {
    match fc_lookup(m, k) {
        Option::Some(c) => (Option::Some(c), fc_bump(m, k)),
        Option::None => (Option::None, m.push((k, 1))),
    }
}

proof fn lemma_fc_first_match(m: Seq<(Seq<char>, usize)>, k: Seq<char>, j: int)
    requires
        0 <= j < m.len(),
        m[j].0 == k,
        forall|q: int| 0 <= q < j ==> m[q].0 != k,
    ensures
        fc_lookup(m, k) == Option::Some(m[j].1),
        fc_bump(m, k) =~= m.update(j, (k, sat_inc(m[j].1))),
    decreases j,
{
    if j == 0 {
        assert(fc_bump(m, k) == seq![(k, sat_inc(m[0].1))] + m.drop_first());
        assert(seq![(k, sat_inc(m[0].1))] + m.drop_first() =~= m.update(0, (k, sat_inc(m[0].1))));
    } else {
        let d = m.drop_first();
        assert(d[j - 1].0 == k);
        assert(forall|q: int| 0 <= q < j - 1 ==> d[q] == m[q + 1] && #[trigger] d[q].0 != k);
        lemma_fc_first_match(d, k, j - 1);
        assert(fc_bump(m, k) == seq![m[0]] + fc_bump(d, k));
        assert(seq![m[0]] + d.update(j - 1, (k, sat_inc(d[j - 1].1))) =~= m.update(
            j,
            (k, sat_inc(m[j].1)),
        ));
    }
}

proof fn lemma_fc_absent(m: Seq<(Seq<char>, usize)>, k: Seq<char>)
    requires
        forall|q: int| 0 <= q < m.len() ==> (#[trigger] m[q].0) != k,
    ensures
        fc_lookup(m, k) is None,
    decreases m.len(),
{
    if m.len() > 0 {
        let d = m.drop_first();
        assert(forall|q: int| 0 <= q < d.len() ==> d[q] == m[q + 1] && (#[trigger] d[q].0) != k);
        lemma_fc_absent(d, k);
    }
}

/// Record one reference to `label`: the returned value is the suffix index
/// (`None` on first use), and the counter list moves as `fc_advance_spec`
/// says.
pub fn fc_advance(counter: &mut Vec<(String, usize)>, label: &String) -> (r: Option<usize>)
    ensures
        r == fc_advance_spec(old(counter).deep_view(), label@).0,
        final(counter).deep_view() == fc_advance_spec(old(counter).deep_view(), label@).1,
{
    let ghost m = counter.deep_view();
    let n = counter.len();
    let mut j: usize = 0;
    proof {
        assert(m.len() == n);
        assert(forall|q: int| 0 <= q < n ==> (#[trigger] m[q]) == (counter@[q].0@, counter@[q].1));
    }
    while j < n && !(counter[j].0 == *label)
        invariant
            j <= n,
            n == counter@.len(),
            m == counter.deep_view(),
            m.len() == n,
            forall|q: int| 0 <= q < n ==> (#[trigger] m[q]) == (counter@[q].0@, counter@[q].1),
            forall|q: int| 0 <= q < j ==> (#[trigger] m[q].0) != label@,
        decreases n - j,
    {
        j = j + 1;
    }
    if j < n {
        let c = counter[j].1;
        let newc = if c == usize::MAX {
            c
        } else {
            c + 1
        };
        counter.set(j, (label.clone(), newc));
        proof {
            lemma_fc_first_match(m, label@, j as int);
            assert(counter.deep_view() =~= m.update(j as int, (label@, sat_inc(c))));
        }
        Option::Some(c)
    } else {
        counter.push((label.clone(), 1));
        proof {
            lemma_fc_absent(m, label@);
            assert(counter.deep_view() =~= m.push((label@, 1)));
        }
        Option::None
    }
}


/// Read the count recorded for a label, without changing anything.
pub fn fc_get(counter: &Vec<(String, usize)>, label: &String) -> (r: Option<usize>)
    ensures
        r == fc_lookup(counter.deep_view(), label@),
{
    let ghost m = counter.deep_view();
    let n = counter.len();
    let mut j: usize = 0;
    proof {
        assert(m.len() == n);
        assert(forall|q: int| 0 <= q < n ==> (#[trigger] m[q]) == (counter@[q].0@, counter@[q].1));
    }
    while j < n && !(counter[j].0 == *label)
        invariant
            j <= n,
            n == counter@.len(),
            m == counter.deep_view(),
            m.len() == n,
            forall|q: int| 0 <= q < n ==> (#[trigger] m[q]) == (counter@[q].0@, counter@[q].1),
            forall|q: int| 0 <= q < j ==> (#[trigger] m[q].0) != label@,
        decreases n - j,
    {
        j = j + 1;
    }
    if j < n {
        proof {
            lemma_fc_first_match(m, label@, j as int);
        }
        Option::Some(counter[j].1)
    } else {
        proof {
            lemma_fc_absent(m, label@);
        }
        Option::None
    }
}


proof fn lemma_fc_lookup_push(m: Seq<(Seq<char>, usize)>, k: Seq<char>, c: usize)
    requires
        fc_lookup(m, k) is None,
    ensures
        fc_lookup(m.push((k, c)), k) == Option::Some(c),
    decreases m.len(),
{
    if m.len() == 0 {
        assert(m.push((k, c)).drop_first() =~= Seq::<(Seq<char>, usize)>::empty());
    } else {
        assert(m[0].0 != k);
        lemma_fc_lookup_push(m.drop_first(), k, c);
        assert(m.push((k, c)).drop_first() =~= m.drop_first().push((k, c)));
    }
}

proof fn lemma_fc_lookup_bump(m: Seq<(Seq<char>, usize)>, k: Seq<char>, c: usize)
    requires
        fc_lookup(m, k) == Option::Some(c),
    ensures
        fc_lookup(fc_bump(m, k), k) == Option::Some(sat_inc(c)),
    decreases m.len(),
{
    if m.len() > 0 {
        if m[0].0 == k {
            assert(fc_bump(m, k) == seq![(k, sat_inc(m[0].1))] + m.drop_first());
            assert((seq![(k, sat_inc(m[0].1))] + m.drop_first())[0] == (k, sat_inc(c)));
        } else {
            lemma_fc_lookup_bump(m.drop_first(), k, c);
            assert(fc_bump(m, k) == seq![m[0]] + fc_bump(m.drop_first(), k));
            assert((seq![m[0]] + fc_bump(m.drop_first(), k))[0] == m[0]);
            assert((seq![m[0]] + fc_bump(m.drop_first(), k)).drop_first() =~= fc_bump(
                m.drop_first(),
                k,
            ));
        }
    }
}

/// The counter list after `k` more references to `label`.
pub open spec fn fc_after(m: Seq<(Seq<char>, usize)>, label: Seq<char>, k: nat) -> Seq<
    (Seq<char>, usize),
>
    decreases k,
{
    if k == 0 {
        m
    } else {
        fc_advance_spec(fc_after(m, label, (k - 1) as nat), label).1
    }
}

/// Footnote reference numbering: starting from a counter that does not know
/// `label`, the first reference gets no suffix, and for every later
/// reference the suffix index counts up by one: the `k+1`-th reference gets
/// suffix index `k`.
pub proof fn lemma_reference_numbering(m: Seq<(Seq<char>, usize)>, label: Seq<char>, k: nat)
    requires
        fc_lookup(m, label) is None,
        k < usize::MAX,
    ensures
        fc_advance_spec(fc_after(m, label, k), label).0 == (if k == 0 {
            Option::<usize>::None
        } else {
            Option::Some(k as usize)
        }),
    decreases k,
{
    lemma_fc_count_after(m, label, k);
}

/// After `k` references the recorded count is exactly `k`.
proof fn lemma_fc_count_after(m: Seq<(Seq<char>, usize)>, label: Seq<char>, k: nat)
    requires
        fc_lookup(m, label) is None,
        k < usize::MAX,
    ensures
        k > 0 ==> fc_lookup(fc_after(m, label, k), label) == Option::Some(k as usize),
    decreases k,
{
    if k == 1 {
        lemma_fc_lookup_push(m, label, 1);
    } else if k > 1 {
        lemma_fc_count_after(m, label, (k - 1) as nat);
        lemma_fc_lookup_bump(fc_after(m, label, (k - 1) as nat), label, (k - 1) as usize);
    }
}


/// The frame of one traversal step: the domain is untouched, the counters
/// never decrease, and the collected lists only grow at the end.  This holds
/// of the accumulator across every transduction, aborted or not.
pub open spec fn state_extends(post: StateV, pre: StateV) -> bool {
    &&& post.domain == pre.domain
    &&& post.table_counter >= pre.table_counter
    &&& post.word_count >= pre.word_count
    &&& post.footnote_counter.len() >= pre.footnote_counter.len()
    &&& pre.styles.is_prefix_of(post.styles)
    &&& pre.definitions.is_prefix_of(post.definitions)
    &&& pre.headings.is_prefix_of(post.headings)
}

/// Every list is a prefix of itself.
pub proof fn lemma_prefix_refl<T>(s: Seq<T>)
    ensures
        s.is_prefix_of(s),
{
    assert(s.subrange(0, s.len() as int) =~= s);
}

/// A list is a prefix of itself with one more entry.
pub proof fn lemma_prefix_push<T>(s: Seq<T>, x: T)
    ensures
        s.is_prefix_of(s.push(x)),
{
    assert(s.push(x).subrange(0, s.len() as int) =~= s);
}

/// A list is a prefix of itself with more entries appended.
pub proof fn lemma_prefix_concat<T>(s: Seq<T>, t: Seq<T>)
    ensures
        s.is_prefix_of(s + t),
{
    assert((s + t).subrange(0, s.len() as int) =~= s);
}

/// Prefixes chain.
pub proof fn lemma_prefix_trans<T>(a: Seq<T>, b: Seq<T>, c: Seq<T>)
    requires
        a.is_prefix_of(b),
        b.is_prefix_of(c),
    ensures
        a.is_prefix_of(c),
{
    assert forall|i: int| 0 <= i < a.len() implies c.subrange(0, a.len() as int)[i] == a[i] by {
        assert(a[i] == b.subrange(0, a.len() as int)[i]);
        assert(b[i] == c.subrange(0, b.len() as int)[i]);
    }
    assert(c.subrange(0, a.len() as int) =~= a);
}

/// The frame relation holds of an unchanged accumulator.
pub proof fn lemma_extends_refl(a: StateV)
    ensures
        state_extends(a, a),
{
    lemma_prefix_refl(a.styles);
    lemma_prefix_refl(a.definitions);
    lemma_prefix_refl(a.headings);
}

/// The frame relation chains across steps.
pub proof fn lemma_extends_trans(c: StateV, b: StateV, a: StateV)
    requires
        state_extends(c, b),
        state_extends(b, a),
    ensures
        state_extends(c, a),
{
    lemma_prefix_trans(a.styles, b.styles, c.styles);
    lemma_prefix_trans(a.definitions, b.definitions, c.definitions);
    lemma_prefix_trans(a.headings, b.headings, c.headings);
}

/// The frame relation holds when only the plain counters moved.
pub proof fn lemma_extends_counters(post: StateV, pre: StateV)
    requires
        post.domain == pre.domain,
        post.table_counter >= pre.table_counter,
        post.word_count >= pre.word_count,
        post.footnote_counter.len() >= pre.footnote_counter.len(),
        post.styles == pre.styles,
        post.definitions == pre.definitions,
        post.headings == pre.headings,
    ensures
        state_extends(post, pre),
{
    lemma_prefix_refl(pre.styles);
    lemma_prefix_refl(pre.definitions);
    lemma_prefix_refl(pre.headings);
}

/// Bumping a label's count keeps the counter list's length.
pub proof fn lemma_fc_bump_len(m: Seq<(Seq<char>, usize)>, k: Seq<char>)
    ensures
        fc_bump(m, k).len() == m.len(),
    decreases m.len(),
{
    if m.len() > 0 && m[0].0 != k {
        lemma_fc_bump_len(m.drop_first(), k);
    }
}

} // verus!
