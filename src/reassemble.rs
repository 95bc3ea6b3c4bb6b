use vstd::prelude::*;
use crate::text::{chapter_text, render_chapter, strings_view};
use crate::worker::ChapterResult;

verus! {

/// Why a result set cannot be put back in order.
#[derive(PartialEq, Eq, Structural, Clone, Copy, Debug)]
pub enum ReassembleError {
    /// A result's index is not below the number of chapters dispatched.
    IndexOutOfRange,
    /// Two results carry the same index.
    DuplicateIndex,
}

/// One chapter ready to be appended to the output.
pub struct PlannedChapter {
    pub index: usize,
    pub text: String,
}

/// The output in chapter order, and how many failed results were left out.
pub struct WritePlan {
    pub chapters: Vec<PlannedChapter>,
    pub skipped: usize,
}

/// Counts of a finished write.
pub struct WriteSummary {
    pub success_count: usize,
    pub failure_count: usize,
}

pub open spec fn indices_in_range(s: Seq<ChapterResult>, total: nat) -> bool {
    forall|j: int| 0 <= j < s.len() ==> (#[trigger] s[j]).index < total
}

pub open spec fn indices_distinct(s: Seq<ChapterResult>) -> bool {
    forall|j1: int, j2: int|
        0 <= j1 < s.len() && 0 <= j2 < s.len() && j1 != j2 ==> (#[trigger] s[j1]).index
            != (#[trigger] s[j2]).index
}

/// Each result has its own index, and every index names a dispatched chapter.
pub open spec fn indices_valid(s: Seq<ChapterResult>, total: nat) -> bool {
    indices_in_range(s, total) && indices_distinct(s)
}

/// The result in `rs` for chapter `i`, if any.
pub open spec fn entry_for(rs: Set<ChapterResult>, i: nat) -> Option<ChapterResult> {
    if exists|r: ChapterResult| rs.contains(r) && r.index == i {
        Some(choose|r: ChapterResult| rs.contains(r) && r.index == i)
    } else {
        None
    }
}

pub open spec fn block_of(r: ChapterResult) -> Seq<char> {
    chapter_text(r.title@, strings_view(r.paragraphs@))
}

/// The blocks of the successful results among chapters `0..n`, by index.
pub open spec fn document_blocks(rs: Set<ChapterResult>, n: nat) -> Seq<Seq<char>>
    decreases n,
{
    if n == 0 {
        Seq::empty()
    } else {
        let before = document_blocks(rs, (n - 1) as nat);
        match entry_for(rs, (n - 1) as nat) {
            Some(r) => if r.success {
                before.push(block_of(r))
            } else {
                before
            },
            None => before,
        }
    }
}

/// The indices of the successful results among chapters `0..n`, ascending.
pub open spec fn document_indices(rs: Set<ChapterResult>, n: nat) -> Seq<usize>
    decreases n,
{
    if n == 0 {
        Seq::empty()
    } else {
        let before = document_indices(rs, (n - 1) as nat);
        match entry_for(rs, (n - 1) as nat) {
            Some(r) => if r.success {
                before.push(r.index)
            } else {
                before
            },
            None => before,
        }
    }
}

/// How many of chapters `0..n` have a failed result.
pub open spec fn failed_count(rs: Set<ChapterResult>, n: nat) -> nat
    decreases n,
{
    if n == 0 {
        0
    } else {
        let before = failed_count(rs, (n - 1) as nat);
        match entry_for(rs, (n - 1) as nat) {
            Some(r) => if r.success {
                before
            } else {
                before + 1
            },
            None => before,
        }
    }
}

/// The whole written document: the blocks one after another.
pub open spec fn concat_blocks(blocks: Seq<Seq<char>>) -> Seq<char>
    decreases blocks.len(),
{
    if blocks.len() == 0 {
        Seq::empty()
    } else {
        concat_blocks(blocks.drop_last()) + blocks.last()
    }
}

pub open spec fn plan_texts(v: Seq<PlannedChapter>) -> Seq<Seq<char>> {
    v.map_values(|c: PlannedChapter| c.text@)
}

pub open spec fn plan_indices(v: Seq<PlannedChapter>) -> Seq<usize> {
    v.map_values(|c: PlannedChapter| c.index)
}

pub open spec fn count_some(s: Seq<Option<usize>>) -> nat
    decreases s.len(),
{
    if s.len() == 0 {
        0
    } else {
        count_some(s.drop_last()) + if s.last() is Some {
            1nat
        } else {
            0nat
        }
    }
}

pub open spec fn count_true(s: Seq<bool>) -> nat
    decreases s.len(),
{
    if s.len() == 0 {
        0
    } else {
        count_true(s.drop_last()) + if s.last() {
            1nat
        } else {
            0nat
        }
    }
}

proof fn lemma_count_some_fill(s: Seq<Option<usize>>, i: int, x: usize)
    requires
        0 <= i < s.len(),
        s[i] is None,
    ensures
        count_some(s.update(i, Some(x))) == count_some(s) + 1,
    decreases s.len(),
{
    let t = s.update(i, Some(x));
    if i == s.len() - 1 {
        assert(t.drop_last() =~= s.drop_last());
    } else {
        assert(t.drop_last() =~= s.drop_last().update(i, Some(x)));
        lemma_count_some_fill(s.drop_last(), i, x);
    }
}

proof fn lemma_count_some_le(s: Seq<Option<usize>>)
    ensures
        count_some(s) <= s.len(),
    decreases s.len(),
{
    if s.len() > 0 {
        lemma_count_some_le(s.drop_last());
    }
}

/// With distinct indices, the slot table names the one result for chapter `i`.
proof fn lemma_entry_from_slot(s: Seq<ChapterResult>, slots: Seq<Option<usize>>, i: int)
    requires
        indices_distinct(s),
        0 <= i < slots.len(),
        slots[i] is Some ==> slots[i]->Some_0 < s.len() && s[slots[i]->Some_0 as int].index == i,
        slots[i] is None ==> forall|j: int| 0 <= j < s.len() ==> (#[trigger] s[j]).index != i,
    ensures
        entry_for(s.to_set(), i as nat) == match slots[i] {
            Some(j) => Some(s[j as int]),
            None => None::<ChapterResult>,
        },
{
    let rs = s.to_set();
    match slots[i] {
        Some(j) => {
            assert(rs.contains(s[j as int]));
            let r = choose|r: ChapterResult| rs.contains(r) && r.index == i;
            assert(s.contains(r));
            let k = choose|k: int| 0 <= k < s.len() && s[k] == r;
            assert(s[k].index == s[j as int].index);
        },
        None => {
            if exists|r: ChapterResult| rs.contains(r) && r.index == i {
                let r = choose|r: ChapterResult| rs.contains(r) && r.index == i;
                assert(s.contains(r));
                let k = choose|k: int| 0 <= k < s.len() && s[k] == r;
                assert(s[k].index != i);
            }
        },
    }
}

/// For each chapter `0..total`, the position in `results` of its result:
/// the buffer that restores document order whatever order results came in.
pub fn slot_positions(results: &Vec<ChapterResult>, total: usize) -> (r: Result<
    Vec<Option<usize>>,
    ReassembleError,
>)
    ensures
        r == Err::<Vec<Option<usize>>, ReassembleError>(ReassembleError::IndexOutOfRange)
            <==> !indices_in_range(results@, total as nat),
        r == Err::<Vec<Option<usize>>, ReassembleError>(ReassembleError::DuplicateIndex)
            <==> indices_in_range(results@, total as nat) && !indices_distinct(results@),
        r is Ok ==> {
            let slots = r->Ok_0@;
            &&& indices_valid(results@, total as nat)
            &&& slots.len() == total
            &&& count_some(slots) == results.len()
            &&& forall|i: int|
                0 <= i < total ==> (#[trigger] slots[i] is Some ==> slots[i]->Some_0
                    < results.len() && results@[slots[i]->Some_0 as int].index == i)
            &&& forall|i: int|
                0 <= i < total ==> (#[trigger] slots[i] is None ==> forall|j: int|
                    0 <= j < results.len() ==> (#[trigger] results@[j]).index != i)
        },
{
    let mut j: usize = 0;
    while j < results.len()
        invariant
            j <= results.len(),
            forall|k: int| 0 <= k < j ==> (#[trigger] results@[k]).index < total,
        decreases results.len() - j,
    {
        if results[j].index >= total {
            return Err(ReassembleError::IndexOutOfRange);
        }
        j = j + 1;
    }
    let mut slots: Vec<Option<usize>> = Vec::new();
    let mut i: usize = 0;
    while i < total
        invariant
            i <= total,
            slots.len() == i,
            forall|k: int| 0 <= k < i ==> (#[trigger] slots@[k]) is None,
            count_some(slots@) == 0,
        decreases total - i,
    {
        let ghost prev = slots@;
        slots.push(None);
        assert(slots@.drop_last() =~= prev);
        i = i + 1;
    }
    let mut j: usize = 0;
    while j < results.len()
        invariant
            j <= results.len(),
            indices_in_range(results@, total as nat),
            slots.len() == total,
            count_some(slots@) == j,
            forall|i: int|
                0 <= i < total ==> (#[trigger] slots@[i] is Some ==> slots@[i]->Some_0 < j
                    && results@[slots@[i]->Some_0 as int].index == i),
            forall|k: int|
                0 <= k < j ==> slots@[(#[trigger] results@[k]).index as int] == Some(k as usize),
            forall|k1: int, k2: int|
                0 <= k1 < j && 0 <= k2 < j && k1 != k2 ==> (#[trigger] results@[k1]).index
                    != (#[trigger] results@[k2]).index,
        decreases results.len() - j,
    {
        let i = results[j].index;
        match slots[i] {
            Some(k) => {
                assert(results@[k as int].index == results@[j as int].index);
                return Err(ReassembleError::DuplicateIndex);
            },
            None => {},
        }
        proof {
            lemma_count_some_fill(slots@, i as int, j);
        }
        slots.set(i, Some(j));
        j = j + 1;
    }
    proof {
        assert forall|i: int| 0 <= i < total && (#[trigger] slots@[i]) is None implies forall|
            j: int,
        | 0 <= j < results.len() ==> (#[trigger] results@[j]).index != i by {
            assert forall|j: int| 0 <= j < results.len() implies (#[trigger] results@[j]).index
                != i by {
                assert(slots@[results@[j].index as int] == Some(j as usize));
            }
        }
    }
    Ok(slots)
}

/// Puts a collected result set back in chapter order and lays out the
/// successful chapters for writing; failed results are left out and counted.
pub fn reassemble(results: &Vec<ChapterResult>, total: usize) -> (r: Result<
    WritePlan,
    ReassembleError,
>)
    ensures
        r is Err ==> !indices_valid(results@, total as nat),
        r == Err::<WritePlan, ReassembleError>(ReassembleError::IndexOutOfRange)
            <==> !indices_in_range(results@, total as nat),
        r == Err::<WritePlan, ReassembleError>(ReassembleError::DuplicateIndex)
            <==> indices_in_range(results@, total as nat) && !indices_distinct(results@),
        r is Ok ==> {
            let plan = r->Ok_0;
            &&& indices_valid(results@, total as nat)
            &&& plan_texts(plan.chapters@) == document_blocks(results@.to_set(), total as nat)
            &&& plan_indices(plan.chapters@) == document_indices(results@.to_set(), total as nat)
            &&& plan.skipped == failed_count(results@.to_set(), total as nat)
            &&& plan.chapters.len() + plan.skipped == results.len()
            &&& forall|a: int, b: int|
                0 <= a < b < plan.chapters.len() ==> (#[trigger] plan.chapters@[a]).index
                    < (#[trigger] plan.chapters@[b]).index
        },
{
    let slots = match slot_positions(results, total) {
        Ok(s) => s,
        Err(e) => {
            return Err(e);
        },
    };
    let ghost rs = results@.to_set();
    let mut chapters: Vec<PlannedChapter> = Vec::new();
    let mut skipped: usize = 0;
    let mut i: usize = 0;
    proof {
        lemma_count_some_le(slots@.take(0));
    }
    while i < total
        invariant
            i <= total,
            rs == results@.to_set(),
            slots.len() == total,
            indices_valid(results@, total as nat),
            count_some(slots@) == results.len(),
            forall|k: int|
                0 <= k < total ==> (#[trigger] slots@[k] is Some ==> slots@[k]->Some_0
                    < results.len() && results@[slots@[k]->Some_0 as int].index == k),
            forall|k: int|
                0 <= k < total ==> (#[trigger] slots@[k] is None ==> forall|j: int|
                    0 <= j < results.len() ==> (#[trigger] results@[j]).index != k),
            plan_texts(chapters@) == document_blocks(rs, i as nat),
            plan_indices(chapters@) == document_indices(rs, i as nat),
            skipped == failed_count(rs, i as nat),
            chapters.len() + skipped == count_some(slots@.take(i as int)),
            forall|k: int| 0 <= k < chapters.len() ==> (#[trigger] chapters@[k]).index < i,
            forall|a: int, b: int|
                0 <= a < b < chapters.len() ==> (#[trigger] chapters@[a]).index
                    < (#[trigger] chapters@[b]).index,
        decreases total - i,
    {
        proof {
            lemma_entry_from_slot(results@, slots@, i as int);
            assert(slots@.take(i as int + 1).drop_last() =~= slots@.take(i as int));
            lemma_count_some_le(slots@.take(i as int + 1));
            assert(slots@.take(i as int + 1).last() == slots@[i as int]);
        }
        match slots[i] {
            Some(j) => {
                let r = &results[j];
                if r.success {
                    let text = render_chapter(&r.title, &r.paragraphs);
                    let ghost prev = chapters@;
                    chapters.push(PlannedChapter { index: i, text });
                    assert(plan_texts(chapters@) =~= plan_texts(prev).push(block_of(*r)));
                    assert(plan_indices(chapters@) =~= plan_indices(prev).push(r.index));
                } else {
                    skipped = skipped + 1;
                }
            },
            None => {},
        }
        i = i + 1;
    }
    proof {
        assert(slots@.take(total as int) =~= slots@);
    }
    Ok(WritePlan { chapters, skipped })
}

/// The counts of a write: a chapter counts as a success when its block was
/// written, as a failure when its result failed or its write failed.
pub fn tally(plan: &WritePlan, write_ok: &Vec<bool>) -> (r: WriteSummary)
    requires
        write_ok.len() == plan.chapters.len(),
        plan.chapters.len() + plan.skipped <= usize::MAX,
    ensures
        r.success_count == count_true(write_ok@),
        r.failure_count == plan.skipped + (write_ok.len() - count_true(write_ok@)),
        r.success_count + r.failure_count == plan.chapters.len() + plan.skipped,
{
    let mut ok: usize = 0;
    let mut failed: usize = plan.skipped;
    let mut i: usize = 0;
    while i < write_ok.len()
        invariant
            i <= write_ok.len(),
            write_ok.len() == plan.chapters.len(),
            plan.chapters.len() + plan.skipped <= usize::MAX,
            ok == count_true(write_ok@.take(i as int)),
            ok + failed == plan.skipped + i,
            ok <= i,
        decreases write_ok.len() - i,
    {
        proof {
            assert(write_ok@.take(i as int + 1).drop_last() =~= write_ok@.take(i as int));
        }
        if write_ok[i] {
            ok = ok + 1;
        } else {
            failed = failed + 1;
        }
        i = i + 1;
    }
    proof {
        assert(write_ok@.take(write_ok.len() as int) =~= write_ok@);
    }
    WriteSummary { success_count: ok, failure_count: failed }
}

/// Reassembly does not depend on the order in which results completed: any
/// permutation of a valid result set yields the same chapters in the same
/// order, and the same count of failures, as the set in index order does.
pub proof fn lemma_order_independent(s1: Seq<ChapterResult>, s2: Seq<ChapterResult>, total: nat)
    requires
        indices_valid(s1, total),
        indices_valid(s2, total),
        s1.to_multiset() =~= s2.to_multiset(),
    ensures
        document_blocks(s1.to_set(), total) == document_blocks(s2.to_set(), total),
        document_indices(s1.to_set(), total) == document_indices(s2.to_set(), total),
        failed_count(s1.to_set(), total) == failed_count(s2.to_set(), total),
        concat_blocks(document_blocks(s1.to_set(), total)) == concat_blocks(
            document_blocks(s2.to_set(), total),
        ),
{
    s1.to_multiset_ensures();
    s2.to_multiset_ensures();
    assert forall|r: ChapterResult| s1.contains(r) <==> s2.contains(r) by {
        assert(s1.contains(r) <==> s1.to_multiset().count(r) > 0);
        assert(s2.contains(r) <==> s2.to_multiset().count(r) > 0);
    }
    assert(s1.to_set() =~= s2.to_set());
}

/// Writing twice from the same result set, truncating the output first,
/// gives byte-identical documents: the plan is determined by the set alone.
pub proof fn lemma_rewrite_identical(s: Seq<ChapterResult>, total: nat, p1: WritePlan, p2: WritePlan)
    requires
        plan_texts(p1.chapters@) == document_blocks(s.to_set(), total),
        plan_texts(p2.chapters@) == document_blocks(s.to_set(), total),
    ensures
        concat_blocks(plan_texts(p1.chapters@)) == concat_blocks(plan_texts(p2.chapters@)),
{
}

} // verus!
