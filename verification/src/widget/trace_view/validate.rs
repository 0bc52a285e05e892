//! Bounded admission of trace data: size limits first, then identities.

use vstd::prelude::*;
use vstd::utf8::encode_utf8;

use crate::widget::trace_view::data::{
    TraceCategory, TraceData, TraceDetailBlock, TraceError, TraceGroup, TraceItem, TraceTrack,
};

verus! {

/// Most UTF-8 bytes in one text field.
pub const MAX_FIELD_BYTES: usize = 4096;
/// Most UTF-8 bytes of text in a whole dataset.
pub const MAX_TEXT_BYTES: usize = 8388608;

/// UTF-8 length of a text in bytes, as `str::len` reports it.
pub open spec fn blen(s: Seq<char>) -> nat {
    (encode_utf8(s).len() as usize) as nat
}

/// Sum of `f` over a sequence.
pub open spec fn sum_of<T>(s: Seq<T>, f: spec_fn(T) -> nat) -> nat
    decreases s.len(),
{
    if s.len() == 0 { 0 } else { sum_of(s.drop_last(), f) + f(s.last()) }
}

pub(crate) proof fn lemma_sum_push<T>(s: Seq<T>, f: spec_fn(T) -> nat, k: int)
    requires
        0 <= k < s.len(),
    ensures
        sum_of(s.subrange(0, k + 1), f) == sum_of(s.subrange(0, k), f) + f(s[k]),
{
    assert(s.subrange(0, k + 1).drop_last() =~= s.subrange(0, k));
}

pub(crate) proof fn lemma_sum_prefix_le<T>(s: Seq<T>, f: spec_fn(T) -> nat, k: int)
    requires
        0 <= k <= s.len(),
    ensures
        sum_of(s.subrange(0, k), f) <= sum_of(s, f),
    decreases s.len() - k,
{
    if k < s.len() {
        lemma_sum_push(s, f, k);
        lemma_sum_prefix_le(s, f, k + 1);
    } else {
        assert(s.subrange(0, k) =~= s);
    }
}

/// Text fields within the per-field limit.
pub open spec fn strs_ok(s: Seq<String>) -> bool {
    forall|i: int| 0 <= i < s.len() ==> blen(#[trigger] s[i]@) <= MAX_FIELD_BYTES
}

/// Total bytes of a list of texts.
pub open spec fn strs_text(s: Seq<String>) -> nat {
    sum_of(s, |x: String| blen(x@))
}

/// A key/value pair within the per-field limit.
pub open spec fn pair_ok(p: (String, String)) -> bool {
    blen(p.0@) <= MAX_FIELD_BYTES && blen(p.1@) <= MAX_FIELD_BYTES
}

/// Key/value pairs within the per-field limit.
pub open spec fn pairs_ok(s: Seq<(String, String)>) -> bool {
    forall|i: int| 0 <= i < s.len() ==> blen(#[trigger] s[i].0@) <= MAX_FIELD_BYTES && blen(s[i].1@) <= MAX_FIELD_BYTES
}

/// Total bytes of a list of key/value pairs.
pub open spec fn pairs_text(s: Seq<(String, String)>) -> nat {
    sum_of(s, |p: (String, String)| blen(p.0@) + blen(p.1@))
}

/// Table rows within their limits.
pub open spec fn rows_ok(rows: Seq<Vec<String>>) -> bool {
    forall|i: int| 0 <= i < rows.len() ==> (#[trigger] rows[i])@.len() <= 32 && strs_ok(rows[i]@)
}

/// Total bytes of table rows.
pub open spec fn rows_text(rows: Seq<Vec<String>>) -> nat {
    sum_of(rows, |r: Vec<String>| strs_text(r@))
}

/// A detail block at nesting `depth` within its limits.
pub open spec fn block_ok(b: TraceDetailBlock, depth: int) -> bool
    decreases b, 0nat,
{
    match b {
        TraceDetailBlock::Attribute { name, value } => blen(name@) <= MAX_FIELD_BYTES && blen(value@)
            <= MAX_FIELD_BYTES,
        TraceDetailBlock::Text { name, value } => blen(name@) <= MAX_FIELD_BYTES && blen(value@)
            <= MAX_FIELD_BYTES,
        TraceDetailBlock::Json { name, value } => blen(name@) <= MAX_FIELD_BYTES && blen(value@)
            <= MAX_FIELD_BYTES,
        TraceDetailBlock::Section { title, blocks } => blen(title@) <= MAX_FIELD_BYTES && blocks_ok(
            blocks@,
            depth + 1,
        ),
        TraceDetailBlock::Table { title, columns, rows } => {
            &&& (title matches Some(t) ==> blen(t@) <= MAX_FIELD_BYTES)
            &&& columns@.len() <= 32
            &&& rows@.len() <= 256
            &&& strs_ok(columns@)
            &&& rows_ok(rows@)
        },
    }
}

/// A list of detail blocks at nesting `depth` within its limits: at most 8
/// levels of nesting below the top and 32 blocks per list.
pub open spec fn blocks_ok(bs: Seq<TraceDetailBlock>, depth: int) -> bool
    decreases bs, 1nat,
{
    &&& depth <= 8
    &&& bs.len() <= 32
    &&& forall|i: int| 0 <= i < bs.len() ==> block_ok(#[trigger] bs[i], depth)
}

/// Bytes of text in a detail block.
pub open spec fn block_text(b: TraceDetailBlock) -> nat
    decreases b, 0nat,
{
    match b {
        TraceDetailBlock::Attribute { name, value } => blen(name@) + blen(value@),
        TraceDetailBlock::Text { name, value } => blen(name@) + blen(value@),
        TraceDetailBlock::Json { name, value } => blen(name@) + blen(value@),
        TraceDetailBlock::Section { title, blocks } => blen(title@) + blocks_text(blocks@),
        TraceDetailBlock::Table { title, columns, rows } => (match title {
            Some(t) => blen(t@),
            None => 0,
        }) + strs_text(columns@) + rows_text(rows@),
    }
}

/// Bytes of text in a list of detail blocks.
pub open spec fn blocks_text(bs: Seq<TraceDetailBlock>) -> nat
    decreases bs, 1nat,
{
    if bs.len() == 0 { 0 } else { blocks_text(bs.drop_last()) + block_text(bs.last()) }
}

proof fn lemma_blocks_text_push(bs: Seq<TraceDetailBlock>, k: int)
    requires
        0 <= k < bs.len(),
    ensures
        blocks_text(bs.subrange(0, k + 1)) == blocks_text(bs.subrange(0, k)) + block_text(bs[k]),
{
    assert(bs.subrange(0, k + 1).drop_last() =~= bs.subrange(0, k));
}

proof fn lemma_blocks_text_prefix_le(bs: Seq<TraceDetailBlock>, k: int)
    requires
        0 <= k <= bs.len(),
    ensures
        blocks_text(bs.subrange(0, k)) <= blocks_text(bs),
    decreases bs.len() - k,
{
    if k < bs.len() {
        lemma_blocks_text_push(bs, k);
        lemma_blocks_text_prefix_le(bs, k + 1);
    } else {
        assert(bs.subrange(0, k) =~= bs);
    }
}

/// Whether a result is a limit error.
pub open spec fn is_limit_error(r: Result<(), TraceError>) -> bool {
    r matches Err(TraceError::LimitExceeded(_))
}

/// Whether a result is the limit error named `n`.
pub open spec fn names_limit(r: Result<(), TraceError>, n: &'static str) -> bool {
    r == Err::<(), TraceError>(TraceError::LimitExceeded(n))
}

/// Accounting one text field against a running total `t`: the per-field
/// bound is checked first, then the total; the new total, or the name of
/// the bound broken.
pub open spec fn text_step(s: Seq<char>, t: nat) -> Result<nat, &'static str> {
    if blen(s) > MAX_FIELD_BYTES {
        Err("bytes per field (4096)")
    } else if t + blen(s) > MAX_TEXT_BYTES {
        Err("total text bytes (8 MiB)")
    } else {
        Ok(t + blen(s))
    }
}

/// Accounting a list of texts in order: the first bound broken, or the
/// final total.
pub open spec fn strs_acc(s: Seq<String>, t: nat) -> Result<nat, &'static str>
    decreases s.len(),
{
    if s.len() == 0 {
        Ok(t)
    } else {
        match text_step(s[0]@, t) {
            Ok(t1) => strs_acc(s.drop_first(), t1),
            Err(e) => Err(e),
        }
    }
}

/// Accounting key/value pairs in order, key before value.
pub open spec fn pairs_acc(s: Seq<(String, String)>, t: nat) -> Result<nat, &'static str>
    decreases s.len(),
{
    if s.len() == 0 {
        Ok(t)
    } else {
        match text_step(s[0].0@, t) {
            Ok(t1) => match text_step(s[0].1@, t1) {
                Ok(t2) => pairs_acc(s.drop_first(), t2),
                Err(e) => Err(e),
            },
            Err(e) => Err(e),
        }
    }
}

/// Accounting table rows in order: each row's cell count, then its cells.
pub open spec fn rows_acc(s: Seq<Vec<String>>, t: nat) -> Result<nat, &'static str>
    decreases s.len(),
{
    if s.len() == 0 {
        Ok(t)
    } else if s[0]@.len() > 32 {
        Err("detail table cells per row (32)")
    } else {
        match strs_acc(s[0]@, t) {
            Ok(t1) => rows_acc(s.drop_first(), t1),
            Err(e) => Err(e),
        }
    }
}

/// Accounting one detail block at nesting `depth`, its fields in order.
pub open spec fn block_acc(b: TraceDetailBlock, t: nat, depth: int) -> Result<nat, &'static str>
    decreases b, 0nat,
{
    match b {
        TraceDetailBlock::Attribute { name, value } => match text_step(name@, t) {
            Ok(t1) => text_step(value@, t1),
            Err(e) => Err(e),
        },
        TraceDetailBlock::Text { name, value } => match text_step(name@, t) {
            Ok(t1) => text_step(value@, t1),
            Err(e) => Err(e),
        },
        TraceDetailBlock::Json { name, value } => match text_step(name@, t) {
            Ok(t1) => text_step(value@, t1),
            Err(e) => Err(e),
        },
        TraceDetailBlock::Section { title, blocks } => match text_step(title@, t) {
            Ok(t1) => blocks_acc(blocks@, t1, depth + 1),
            Err(e) => Err(e),
        },
        TraceDetailBlock::Table { title, columns, rows } => {
            let after_title = match title {
                Some(tt) => text_step(tt@, t),
                None => Ok(t),
            };
            match after_title {
                Err(e) => Err(e),
                Ok(t1) => if columns@.len() > 32 {
                    Err("detail table columns (32)")
                } else if rows@.len() > 256 {
                    Err("detail table rows (256)")
                } else {
                    match strs_acc(columns@, t1) {
                        Ok(t2) => rows_acc(rows@, t2),
                        Err(e) => Err(e),
                    }
                },
            }
        },
    }
}

/// Accounting the blocks of a list in order.
pub open spec fn blocks_seq(bs: Seq<TraceDetailBlock>, t: nat, depth: int) -> Result<nat, &'static str>
    decreases bs, 1nat,
{
    if bs.len() == 0 {
        Ok(t)
    } else {
        match block_acc(bs[0], t, depth) {
            Ok(t1) => blocks_seq(bs.drop_first(), t1, depth),
            Err(e) => Err(e),
        }
    }
}

/// Accounting a list of detail blocks at nesting `depth`: the depth and
/// the number of blocks first, then the blocks in order.
pub open spec fn blocks_acc(bs: Seq<TraceDetailBlock>, t: nat, depth: int) -> Result<nat, &'static str>
    decreases bs, 2nat,
{
    if depth > 8 {
        Err("detail section depth (8)")
    } else if bs.len() > 32 {
        Err("detail blocks per section (32)")
    } else {
        blocks_seq(bs, t, depth)
    }
}

/// Reject `value` above `limit` with the limit's name.
fn check_limit(value: usize, limit: usize, name: &'static str) -> (r: Result<(), TraceError>)
    ensures
        r is Ok <==> value <= limit,
        r is Err ==> r == Err::<(), TraceError>(TraceError::LimitExceeded(name)),
{
    if value > limit {
        Err(TraceError::LimitExceeded(name))
    } else {
        Ok(())
    }
}

/// Account the UTF-8 bytes of one field against the per-field and total limits.
fn check_text(text: &str, total: &mut usize) -> (r: Result<(), TraceError>)
    requires
        *old(total) <= MAX_TEXT_BYTES,
    ensures
        r is Ok <==> blen(text@) <= MAX_FIELD_BYTES && *old(total) + blen(text@) <= MAX_TEXT_BYTES,
        r is Ok ==> *final(total) == *old(total) + blen(text@),
        r is Err ==> is_limit_error(r),
        *final(total) <= MAX_TEXT_BYTES,
        match text_step(text@, *old(total) as nat) {
            Ok(t) => r is Ok && *final(total) == t,
            Err(n) => names_limit(r, n),
        },
{
    let n = text.len();
    check_limit(n, MAX_FIELD_BYTES, "bytes per field (4096)")?;
    let next = *total + n;
    check_limit(next, MAX_TEXT_BYTES, "total text bytes (8 MiB)")?;
    *total = next;
    Ok(())
}

/// Account every text of a list.
fn check_strs(strs: &[String], total: &mut usize) -> (r: Result<(), TraceError>)
    requires
        *old(total) <= MAX_TEXT_BYTES,
    ensures
        r is Ok <==> strs_ok(strs@) && *old(total) + strs_text(strs@) <= MAX_TEXT_BYTES,
        r is Ok ==> *final(total) == *old(total) + strs_text(strs@),
        r is Err ==> is_limit_error(r),
        *final(total) <= MAX_TEXT_BYTES,
        match strs_acc(strs@, *old(total) as nat) {
            Ok(t) => r is Ok && *final(total) == t,
            Err(n) => names_limit(r, n),
        },
{
    let ghost f = |x: String| blen(x@);
    let ghost t0 = *old(total);
    let mut i: usize = 0;
    assert(strs@.skip(0) =~= strs@);
    while i < strs.len()
        invariant
            i <= strs@.len(),
            f == (|x: String| blen(x@)),
            t0 == *old(total),
            forall|j: int| 0 <= j < i ==> blen(#[trigger] strs@[j]@) <= MAX_FIELD_BYTES,
            *total == t0 + sum_of(strs@.subrange(0, i as int), f),
            *total <= MAX_TEXT_BYTES,
            strs_acc(strs@, t0 as nat) == strs_acc(strs@.skip(i as int), *total as nat),
        decreases strs@.len() - i,
    {
        proof {
            lemma_sum_push(strs@, f, i as int);
            lemma_sum_prefix_le(strs@, f, i + 1);
            assert(strs@.skip(i as int)[0] == strs@[i as int]);
            assert(strs@.skip(i as int).drop_first() =~= strs@.skip(i + 1));
        }
        let r = check_text(strs[i].as_str(), total);
        if r.is_err() {
            return r;
        }
        i += 1;
    }
    assert(strs@.skip(i as int).len() == 0);
    assert(strs@.subrange(0, i as int) =~= strs@);
    Ok(())
}

/// Account every key and value of a list of pairs.
fn check_pairs(pairs: &[(String, String)], total: &mut usize) -> (r: Result<(), TraceError>)
    requires
        *old(total) <= MAX_TEXT_BYTES,
    ensures
        r is Ok <==> pairs_ok(pairs@) && *old(total) + pairs_text(pairs@) <= MAX_TEXT_BYTES,
        r is Ok ==> *final(total) == *old(total) + pairs_text(pairs@),
        r is Err ==> is_limit_error(r),
        *final(total) <= MAX_TEXT_BYTES,
        match pairs_acc(pairs@, *old(total) as nat) {
            Ok(t) => r is Ok && *final(total) == t,
            Err(n) => names_limit(r, n),
        },
{
    let ghost f = |p: (String, String)| blen(p.0@) + blen(p.1@);
    let ghost t0 = *old(total);
    let mut i: usize = 0;
    assert(pairs@.skip(0) =~= pairs@);
    while i < pairs.len()
        invariant
            i <= pairs@.len(),
            f == (|p: (String, String)| blen(p.0@) + blen(p.1@)),
            t0 == *old(total),
            forall|j: int| 0 <= j < i ==> pair_ok(#[trigger] pairs@[j]),
            *total == t0 + sum_of(pairs@.subrange(0, i as int), f),
            *total <= MAX_TEXT_BYTES,
            pairs_acc(pairs@, t0 as nat) == pairs_acc(pairs@.skip(i as int), *total as nat),
        decreases pairs@.len() - i,
    {
        proof {
            lemma_sum_push(pairs@, f, i as int);
            lemma_sum_prefix_le(pairs@, f, i + 1);
            assert(pairs@.skip(i as int)[0] == pairs@[i as int]);
            assert(pairs@.skip(i as int).drop_first() =~= pairs@.skip(i + 1));
        }
        let r = check_text(pairs[i].0.as_str(), total);
        if r.is_err() {
            return r;
        }
        let r = check_text(pairs[i].1.as_str(), total);
        if r.is_err() {
            return r;
        }
        assert(pair_ok(pairs@[i as int]));
        i += 1;
    }
    assert(pairs@.subrange(0, i as int) =~= pairs@);
    assert(pairs@.skip(i as int).len() == 0);
    assert(pairs_ok(pairs@)) by {
        assert forall|j: int| 0 <= j < pairs@.len() implies blen(#[trigger] pairs@[j].0@) <= MAX_FIELD_BYTES
            && blen(pairs@[j].1@) <= MAX_FIELD_BYTES by {
            assert(pair_ok(pairs@[j]));
        }
    }
    Ok(())
}

/// Account every row of a table.
fn check_rows(rows: &[Vec<String>], total: &mut usize) -> (r: Result<(), TraceError>)
    requires
        *old(total) <= MAX_TEXT_BYTES,
    ensures
        r is Ok <==> rows_ok(rows@) && *old(total) + rows_text(rows@) <= MAX_TEXT_BYTES,
        r is Ok ==> *final(total) == *old(total) + rows_text(rows@),
        r is Err ==> is_limit_error(r),
        *final(total) <= MAX_TEXT_BYTES,
        match rows_acc(rows@, *old(total) as nat) {
            Ok(t) => r is Ok && *final(total) == t,
            Err(n) => names_limit(r, n),
        },
{
    let ghost f = |r: Vec<String>| strs_text(r@);
    let ghost t0 = *old(total);
    let mut i: usize = 0;
    assert(rows@.skip(0) =~= rows@);
    while i < rows.len()
        invariant
            i <= rows@.len(),
            f == (|r: Vec<String>| strs_text(r@)),
            t0 == *old(total),
            forall|j: int| 0 <= j < i ==> (#[trigger] rows@[j])@.len() <= 32 && strs_ok(rows@[j]@),
            *total == t0 + sum_of(rows@.subrange(0, i as int), f),
            *total <= MAX_TEXT_BYTES,
            rows_acc(rows@, t0 as nat) == rows_acc(rows@.skip(i as int), *total as nat),
        decreases rows@.len() - i,
    {
        proof {
            lemma_sum_push(rows@, f, i as int);
            lemma_sum_prefix_le(rows@, f, i + 1);
            assert(rows@.skip(i as int)[0] == rows@[i as int]);
            assert(rows@.skip(i as int).drop_first() =~= rows@.skip(i + 1));
        }
        let r = check_limit(rows[i].len(), 32, "detail table cells per row (32)");
        if r.is_err() {
            return r;
        }
        let r = check_strs(rows[i].as_slice(), total);
        if r.is_err() {
            return r;
        }
        i += 1;
    }
    assert(rows@.subrange(0, i as int) =~= rows@);
    assert(rows@.skip(i as int).len() == 0);
    Ok(())
}

/// Check one detail block at nesting `depth`.
fn check_block(block: &TraceDetailBlock, total: &mut usize, depth: usize) -> (r: Result<(), TraceError>)
    requires
        *old(total) <= MAX_TEXT_BYTES,
        depth <= 8,
    ensures
        r is Ok <==> block_ok(*block, depth as int) && *old(total) + block_text(*block) <= MAX_TEXT_BYTES,
        r is Ok ==> *final(total) == *old(total) + block_text(*block),
        r is Err ==> is_limit_error(r),
        *final(total) <= MAX_TEXT_BYTES,
        match block_acc(*block, *old(total) as nat, depth as int) {
            Ok(t) => r is Ok && *final(total) == t,
            Err(n) => names_limit(r, n),
        },
    decreases *block, 0nat,
{
    match block {
        TraceDetailBlock::Attribute { name, value } | TraceDetailBlock::Text { name, value }
        | TraceDetailBlock::Json { name, value } => {
            check_text(name.as_str(), total)?;
            check_text(value.as_str(), total)
        },
        TraceDetailBlock::Section { title, blocks } => {
            check_text(title.as_str(), total)?;
            validate_detail_blocks(blocks.as_slice(), total, depth + 1)
        },
        TraceDetailBlock::Table { title, columns, rows } => {
            if let Some(t) = title {
                check_text(t.as_str(), total)?;
            }
            let ghost after_title = *total;
            if columns.len() > 32 {
                return Err(TraceError::LimitExceeded("detail table columns (32)"));
            }
            if rows.len() > 256 {
                return Err(TraceError::LimitExceeded("detail table rows (256)"));
            }
            check_strs(columns.as_slice(), total)?;
            check_rows(rows.as_slice(), total)
        },
    }
}

/// Check a list of detail blocks at nesting `depth`: at most 8 levels below
/// the top, at most 32 blocks per list, every field within its limits.
fn validate_detail_blocks(blocks: &[TraceDetailBlock], total: &mut usize, depth: usize) -> (r: Result<(), TraceError>)
    requires
        *old(total) <= MAX_TEXT_BYTES,
    ensures
        r is Ok <==> blocks_ok(blocks@, depth as int) && *old(total) + blocks_text(blocks@) <= MAX_TEXT_BYTES,
        r is Ok ==> *final(total) == *old(total) + blocks_text(blocks@),
        r is Err ==> is_limit_error(r),
        *final(total) <= MAX_TEXT_BYTES,
        match blocks_acc(blocks@, *old(total) as nat, depth as int) {
            Ok(t) => r is Ok && *final(total) == t,
            Err(n) => names_limit(r, n),
        },
    decreases blocks@, 1nat,
{
    check_limit(depth, 8, "detail section depth (8)")?;
    check_limit(blocks.len(), 32, "detail blocks per section (32)")?;
    let ghost t0 = *old(total);
    let mut i: usize = 0;
    assert(blocks@.skip(0) =~= blocks@);
    while i < blocks.len()
        invariant
            i <= blocks@.len() <= 32,
            depth <= 8,
            t0 == *old(total),
            forall|j: int| 0 <= j < i ==> block_ok(#[trigger] blocks@[j], depth as int),
            *total == t0 + blocks_text(blocks@.subrange(0, i as int)),
            *total <= MAX_TEXT_BYTES,
            blocks_seq(blocks@, t0 as nat, depth as int) == blocks_seq(blocks@.skip(i as int), *total as nat, depth as int),
        decreases blocks@.len() - i,
    {
        proof {
            lemma_blocks_text_push(blocks@, i as int);
            lemma_blocks_text_prefix_le(blocks@, i + 1);
            assert(blocks@.skip(i as int)[0] == blocks@[i as int]);
            assert(blocks@.skip(i as int).drop_first() =~= blocks@.skip(i + 1));
        }
        let r = check_block(&blocks[i], total, depth);
        if r.is_err() {
            return r;
        }
        i += 1;
    }
    assert(blocks@.subrange(0, i as int) =~= blocks@);
    assert(blocks@.skip(i as int).len() == 0);
    Ok(())
}

/// Most items, counting nested ones, in a dataset.
pub const MAX_ITEMS: usize = 65536;

/// An item and its nested items within their limits.
pub open spec fn item_ok(it: TraceItem) -> bool
    decreases it,
{
    &&& it.details@.len() <= 32
    &&& it.detail_blocks@.len() <= 32
    &&& blen(it.label@) <= MAX_FIELD_BYTES
    &&& pairs_ok(it.details@)
    &&& blocks_ok(it.detail_blocks@, 0)
    &&& forall|i: int| 0 <= i < it.children@.len() ==> item_ok(#[trigger] it.children@[i])
}

/// Number of items in an item's subtree (the item included).
pub open spec fn item_count(it: TraceItem) -> nat
    decreases it, 0nat,
{
    1 + items_count(it.children@)
}

/// Number of items in a list of subtrees.
pub open spec fn items_count(s: Seq<TraceItem>) -> nat
    decreases s, 1nat,
{
    if s.len() == 0 { 0 } else { items_count(s.drop_last()) + item_count(s.last()) }
}

/// Bytes of text in an item's subtree.
pub open spec fn item_text(it: TraceItem) -> nat
    decreases it, 0nat,
{
    blen(it.label@) + pairs_text(it.details@) + blocks_text(it.detail_blocks@) + items_text(it.children@)
}

/// Bytes of text in a list of subtrees.
pub open spec fn items_text(s: Seq<TraceItem>) -> nat
    decreases s, 1nat,
{
    if s.len() == 0 { 0 } else { items_text(s.drop_last()) + item_text(s.last()) }
}

proof fn lemma_items_push(s: Seq<TraceItem>, k: int)
    requires
        0 <= k < s.len(),
    ensures
        items_count(s.subrange(0, k + 1)) == items_count(s.subrange(0, k)) + item_count(s[k]),
        items_text(s.subrange(0, k + 1)) == items_text(s.subrange(0, k)) + item_text(s[k]),
{
    assert(s.subrange(0, k + 1).drop_last() =~= s.subrange(0, k));
}

proof fn lemma_items_prefix_le(s: Seq<TraceItem>, k: int)
    requires
        0 <= k <= s.len(),
    ensures
        items_count(s.subrange(0, k)) <= items_count(s),
        items_text(s.subrange(0, k)) <= items_text(s),
    decreases s.len() - k,
{
    if k < s.len() {
        lemma_items_push(s, k);
        lemma_items_prefix_le(s, k + 1);
    } else {
        assert(s.subrange(0, k) =~= s);
    }
}

/// A track within its limits.
pub open spec fn track_ok(t: TraceTrack) -> bool {
    &&& t.details@.len() <= 32
    &&& t.detail_blocks@.len() <= 32
    &&& blen(t.label@) <= MAX_FIELD_BYTES
    &&& pairs_ok(t.details@)
    &&& blocks_ok(t.detail_blocks@, 0)
    &&& forall|i: int| 0 <= i < t.items@.len() ==> item_ok(#[trigger] t.items@[i])
}

/// Bytes of text in a track.
pub open spec fn track_text(t: TraceTrack) -> nat {
    blen(t.label@) + pairs_text(t.details@) + blocks_text(t.detail_blocks@) + items_text(t.items@)
}

/// Total bytes of text in a dataset.
pub open spec fn data_text(d: TraceData) -> nat {
    sum_of(d.categories@, |c: TraceCategory| blen(c.label@)) + sum_of(d.groups@, |g: TraceGroup| blen(g.label@))
        + sum_of(d.tracks@, |t: TraceTrack| track_text(t))
}

/// Total number of items (nested ones included) in a dataset.
pub open spec fn data_items(d: TraceData) -> nat {
    sum_of(d.tracks@, |t: TraceTrack| items_count(t.items@))
}

/// Whether a dataset respects every documented admission bound: at most
/// 4096 groups, 256 categories and 4096 tracks; at most 32 detail pairs and
/// 32 detail blocks per item and track; every field at most 4096 bytes;
/// detail sections nested at most 8 levels, with at most 32 blocks, 32
/// table columns, 256 rows and 32 cells per row; at most 65536 items in
/// all; at most 8 MiB of text in all.
pub open spec fn size_ok(d: TraceData) -> bool {
    &&& d.groups@.len() <= 4096
    &&& d.categories@.len() <= 256
    &&& d.tracks@.len() <= 4096
    &&& forall|i: int| 0 <= i < d.categories@.len() ==> blen((#[trigger] d.categories@[i]).label@) <= MAX_FIELD_BYTES
    &&& forall|i: int| 0 <= i < d.groups@.len() ==> blen((#[trigger] d.groups@[i]).label@) <= MAX_FIELD_BYTES
    &&& forall|i: int| 0 <= i < d.tracks@.len() ==> track_ok(#[trigger] d.tracks@[i])
    &&& data_items(d) <= MAX_ITEMS
    &&& data_text(d) <= MAX_TEXT_BYTES
}

/// Accounting an item with running item count `c` and text total `t`: the
/// item itself is counted first, then its detail counts, label, pairs and
/// blocks, then its nested items in order.
pub open spec fn item_acc(it: TraceItem, c: nat, t: nat) -> Result<(nat, nat), &'static str>
    decreases it, 0nat,
{
    if c + 1 > MAX_ITEMS {
        Err("items (65536)")
    } else if it.details@.len() > 32 {
        Err("detail pairs per item (32)")
    } else if it.detail_blocks@.len() > 32 {
        Err("detail blocks per item (32)")
    } else {
        match text_step(it.label@, t) {
            Err(e) => Err(e),
            Ok(t1) => match pairs_acc(it.details@, t1) {
                Err(e) => Err(e),
                Ok(t2) => match blocks_acc(it.detail_blocks@, t2, 0) {
                    Err(e) => Err(e),
                    Ok(t3) => items_acc(it.children@, c + 1, t3),
                },
            },
        }
    }
}

/// Accounting a list of items in order.
pub open spec fn items_acc(s: Seq<TraceItem>, c: nat, t: nat) -> Result<(nat, nat), &'static str>
    decreases s, 1nat,
{
    if s.len() == 0 {
        Ok((c, t))
    } else {
        match item_acc(s[0], c, t) {
            Ok((c1, t1)) => items_acc(s.drop_first(), c1, t1),
            Err(e) => Err(e),
        }
    }
}

/// Accounting a track: its detail counts, label, pairs and blocks, then its
/// items in order.
pub open spec fn track_acc(tr: TraceTrack, c: nat, t: nat) -> Result<(nat, nat), &'static str> {
    if tr.details@.len() > 32 {
        Err("detail pairs per track (32)")
    } else if tr.detail_blocks@.len() > 32 {
        Err("detail blocks per track (32)")
    } else {
        match text_step(tr.label@, t) {
            Err(e) => Err(e),
            Ok(t1) => match pairs_acc(tr.details@, t1) {
                Err(e) => Err(e),
                Ok(t2) => match blocks_acc(tr.detail_blocks@, t2, 0) {
                    Err(e) => Err(e),
                    Ok(t3) => items_acc(tr.items@, c, t3),
                },
            },
        }
    }
}

/// Accounting tracks in order.
pub open spec fn tracks_acc(s: Seq<TraceTrack>, c: nat, t: nat) -> Result<(nat, nat), &'static str>
    decreases s.len(),
{
    if s.len() == 0 {
        Ok((c, t))
    } else {
        match track_acc(s[0], c, t) {
            Ok((c1, t1)) => tracks_acc(s.drop_first(), c1, t1),
            Err(e) => Err(e),
        }
    }
}

/// Accounting category labels in order.
pub open spec fn categories_acc(s: Seq<TraceCategory>, t: nat) -> Result<nat, &'static str>
    decreases s.len(),
{
    if s.len() == 0 {
        Ok(t)
    } else {
        match text_step(s[0].label@, t) {
            Ok(t1) => categories_acc(s.drop_first(), t1),
            Err(e) => Err(e),
        }
    }
}

/// Accounting group labels in order.
pub open spec fn groups_acc(s: Seq<TraceGroup>, t: nat) -> Result<nat, &'static str>
    decreases s.len(),
{
    if s.len() == 0 {
        Ok(t)
    } else {
        match text_step(s[0].label@, t) {
            Ok(t1) => groups_acc(s.drop_first(), t1),
            Err(e) => Err(e),
        }
    }
}

/// The first admission bound a dataset breaks, in the order `validate_size`
/// checks them: the group, category and track counts; the category labels;
/// the group labels; then each track in order, and within it the item
/// count and every text field as they come. `None` when none is broken.
pub open spec fn first_limit(d: TraceData) -> Option<&'static str> {
    match count_limit(d) {
        Some(n) => Some(n),
        None => match categories_acc(d.categories@, 0) {
            Err(e) => Some(e),
            Ok(t1) => match groups_acc(d.groups@, t1) {
                Err(e) => Some(e),
                Ok(t2) => match tracks_acc(d.tracks@, 0, t2) {
                    Err(e) => Some(e),
                    Ok(_) => None,
                },
            },
        },
    }
}

/// Check an item and its nested items, counting them.
fn validate_item_size(item: &TraceItem, count: &mut usize, total: &mut usize) -> (r: Result<(), TraceError>)
    requires
        *old(count) <= MAX_ITEMS,
        *old(total) <= MAX_TEXT_BYTES,
    ensures
        r is Ok <==> item_ok(*item) && *old(count) + item_count(*item) <= MAX_ITEMS && *old(total) + item_text(
            *item,
        ) <= MAX_TEXT_BYTES,
        r is Ok ==> *final(count) == *old(count) + item_count(*item) && *final(total) == *old(total)
            + item_text(*item),
        r is Err ==> is_limit_error(r),
        *final(count) <= MAX_ITEMS,
        *final(total) <= MAX_TEXT_BYTES,
        match item_acc(*item, *old(count) as nat, *old(total) as nat) {
            Ok((c, t)) => r is Ok && *final(count) == c && *final(total) == t,
            Err(n) => names_limit(r, n),
        },
    decreases *item,
{
    let next = *count + 1;
    check_limit(next, MAX_ITEMS, "items (65536)")?;
    *count = next;
    check_limit(item.details.len(), 32, "detail pairs per item (32)")?;
    check_limit(item.detail_blocks.len(), 32, "detail blocks per item (32)")?;
    check_text(item.label.as_str(), total)?;
    check_pairs(item.details.as_slice(), total)?;
    validate_detail_blocks(item.detail_blocks.as_slice(), total, 0)?;
    let ghost c0 = *count;
    let ghost t0 = *total;
    let ghost kids = item.children@;
    let mut i: usize = 0;
    assert(kids.skip(0) =~= kids);
    while i < item.children.len()
        invariant
            i <= kids.len(),
            kids == item.children@,
            item_acc(*item, *old(count) as nat, *old(total) as nat) == items_acc(kids.skip(i as int), *count as nat, *total as nat),
            c0 == *old(count) + 1,
            t0 == *old(total) + blen(item.label@) + pairs_text(item.details@) + blocks_text(item.detail_blocks@),
            item.details@.len() <= 32,
            item.detail_blocks@.len() <= 32,
            blen(item.label@) <= MAX_FIELD_BYTES,
            pairs_ok(item.details@),
            blocks_ok(item.detail_blocks@, 0),
            forall|j: int| 0 <= j < i ==> item_ok(#[trigger] kids[j]),
            *count == c0 + items_count(kids.subrange(0, i as int)),
            *total == t0 + items_text(kids.subrange(0, i as int)),
            *count <= MAX_ITEMS,
            *total <= MAX_TEXT_BYTES,
        decreases kids.len() - i,
    {
        proof {
            lemma_items_push(kids, i as int);
            lemma_items_prefix_le(kids, i + 1);
            assert(kids.skip(i as int)[0] == kids[i as int]);
            assert(kids.skip(i as int).drop_first() =~= kids.skip(i + 1));
        }
        let ghost ci = *count;
        let ghost ti = *total;
        let r = validate_item_size(&item.children[i], count, total);
        if r.is_err() {
            proof {
                assert(!item_ok(kids[i as int]) || ci + item_count(kids[i as int]) > MAX_ITEMS || ti + item_text(
                    kids[i as int],
                ) > MAX_TEXT_BYTES);
                assert(item_count(*item) == 1 + items_count(kids));
                assert(item_text(*item) == blen(item.label@) + pairs_text(item.details@) + blocks_text(
                    item.detail_blocks@,
                ) + items_text(kids));
            }
            return r;
        }
        i += 1;
    }
    assert(kids.subrange(0, i as int) =~= kids);
    assert(kids.skip(i as int).len() == 0);
    Ok(())
}

/// Check a track's own fields and items.
fn validate_track_size(track: &TraceTrack, count: &mut usize, total: &mut usize) -> (r: Result<(), TraceError>)
    requires
        *old(count) <= MAX_ITEMS,
        *old(total) <= MAX_TEXT_BYTES,
    ensures
        r is Ok <==> track_ok(*track) && *old(count) + items_count(track.items@) <= MAX_ITEMS
            && *old(total) + track_text(*track) <= MAX_TEXT_BYTES,
        r is Ok ==> *final(count) == *old(count) + items_count(track.items@) && *final(total) == *old(total)
            + track_text(*track),
        r is Err ==> is_limit_error(r),
        *final(count) <= MAX_ITEMS,
        *final(total) <= MAX_TEXT_BYTES,
        match track_acc(*track, *old(count) as nat, *old(total) as nat) {
            Ok((c, t)) => r is Ok && *final(count) == c && *final(total) == t,
            Err(n) => names_limit(r, n),
        },
{
    check_limit(track.details.len(), 32, "detail pairs per track (32)")?;
    check_limit(track.detail_blocks.len(), 32, "detail blocks per track (32)")?;
    check_text(track.label.as_str(), total)?;
    check_pairs(track.details.as_slice(), total)?;
    validate_detail_blocks(track.detail_blocks.as_slice(), total, 0)?;
    let ghost c0 = *count;
    let ghost t0 = *total;
    let ghost its = track.items@;
    let mut i: usize = 0;
    assert(its.skip(0) =~= its);
    while i < track.items.len()
        invariant
            i <= its.len(),
            its == track.items@,
            track_acc(*track, *old(count) as nat, *old(total) as nat) == items_acc(its.skip(i as int), *count as nat, *total as nat),
            c0 == *old(count),
            t0 == *old(total) + blen(track.label@) + pairs_text(track.details@) + blocks_text(track.detail_blocks@),
            track.details@.len() <= 32,
            track.detail_blocks@.len() <= 32,
            blen(track.label@) <= MAX_FIELD_BYTES,
            pairs_ok(track.details@),
            blocks_ok(track.detail_blocks@, 0),
            forall|j: int| 0 <= j < i ==> item_ok(#[trigger] its[j]),
            *count == c0 + items_count(its.subrange(0, i as int)),
            *total == t0 + items_text(its.subrange(0, i as int)),
            *count <= MAX_ITEMS,
            *total <= MAX_TEXT_BYTES,
        decreases its.len() - i,
    {
        proof {
            lemma_items_push(its, i as int);
            lemma_items_prefix_le(its, i + 1);
            assert(its.skip(i as int)[0] == its[i as int]);
            assert(its.skip(i as int).drop_first() =~= its.skip(i + 1));
        }
        let ghost ci = *count;
        let ghost ti = *total;
        let r = validate_item_size(&track.items[i], count, total);
        if r.is_err() {
            proof {
                assert(!item_ok(its[i as int]) || ci + item_count(its[i as int]) > MAX_ITEMS || ti + item_text(
                    its[i as int],
                ) > MAX_TEXT_BYTES);
            }
            return r;
        }
        i += 1;
    }
    assert(its.subrange(0, i as int) =~= its);
    assert(its.skip(i as int).len() == 0);
    Ok(())
}

/// The first collection-count bound a dataset breaks, in the order they are
/// checked: groups, categories, tracks.
pub open spec fn count_limit(d: TraceData) -> Option<&'static str> {
    if d.groups@.len() > 4096 {
        Some("groups (4096)")
    } else if d.categories@.len() > 256 {
        Some("categories (256)")
    } else if d.tracks@.len() > 4096 {
        Some("tracks (4096)")
    } else {
        None
    }
}

/// Check every admission bound before any identity index is built: the
/// collection counts first, then the texts and nested contents in order.
pub fn validate_size(data: &TraceData) -> (r: Result<(), TraceError>)
    ensures
        r is Ok <==> size_ok(*data),
        r is Err ==> is_limit_error(r),
        first_limit(*data) matches Some(n) ==> names_limit(r, n),
        first_limit(*data) is None ==> r is Ok,
{
    if data.groups.len() > 4096 {
        return Err(TraceError::LimitExceeded("groups (4096)"));
    }
    if data.categories.len() > 256 {
        return Err(TraceError::LimitExceeded("categories (256)"));
    }
    if data.tracks.len() > 4096 {
        return Err(TraceError::LimitExceeded("tracks (4096)"));
    }
    let mut items: usize = 0;
    let mut text_bytes: usize = 0;
    let ghost fc = |c: TraceCategory| blen(c.label@);
    let ghost fg = |g: TraceGroup| blen(g.label@);
    let ghost ft = |t: TraceTrack| track_text(t);
    let ghost fi = |t: TraceTrack| items_count(t.items@);
    let ghost cats = data.categories@;
    let ghost groups = data.groups@;
    let ghost tracks = data.tracks@;
    let mut i: usize = 0;
    assert(cats.skip(0) =~= cats);
    while i < data.categories.len()
        invariant
            i <= cats.len(),
            cats == data.categories@,
            count_limit(*data) is None,
            fc == (|c: TraceCategory| blen(c.label@)),
            forall|j: int| 0 <= j < i ==> blen((#[trigger] cats[j]).label@) <= MAX_FIELD_BYTES,
            text_bytes == sum_of(cats.subrange(0, i as int), fc),
            text_bytes <= MAX_TEXT_BYTES,
            categories_acc(cats, 0) == categories_acc(cats.skip(i as int), text_bytes as nat),
        decreases cats.len() - i,
    {
        proof {
            lemma_sum_push(cats, fc, i as int);
            lemma_sum_prefix_le(cats, fc, i + 1);
            assert(cats.skip(i as int)[0] == cats[i as int]);
            assert(cats.skip(i as int).drop_first() =~= cats.skip(i + 1));
        }
        let ghost ti = text_bytes;
        let r = check_text(data.categories[i].label.as_str(), &mut text_bytes);
        if r.is_err() {
            proof {
                assert(!(blen(cats[i as int].label@) <= MAX_FIELD_BYTES) || ti + blen(cats[i as int].label@)
                    > MAX_TEXT_BYTES);
                assert(data_text(*data) >= sum_of(cats, fc));
            }
            return r;
        }
        i += 1;
    }
    assert(cats.subrange(0, i as int) =~= cats);
    assert(cats.skip(i as int).len() == 0);
    let ghost t_cats = text_bytes;
    assert(groups.skip(0) =~= groups);
    let mut i: usize = 0;
    while i < data.groups.len()
        invariant
            i <= groups.len(),
            groups == data.groups@,
            count_limit(*data) is None,
            cats == data.categories@,
            fc == (|c: TraceCategory| blen(c.label@)),
            fg == (|g: TraceGroup| blen(g.label@)),
            t_cats == sum_of(cats, fc),
            forall|j: int| 0 <= j < cats.len() ==> blen((#[trigger] cats[j]).label@) <= MAX_FIELD_BYTES,
            forall|j: int| 0 <= j < i ==> blen((#[trigger] groups[j]).label@) <= MAX_FIELD_BYTES,
            text_bytes == t_cats + sum_of(groups.subrange(0, i as int), fg),
            text_bytes <= MAX_TEXT_BYTES,
            categories_acc(cats, 0) == Ok::<nat, &'static str>(t_cats as nat),
            groups_acc(groups, t_cats as nat) == groups_acc(groups.skip(i as int), text_bytes as nat),
        decreases groups.len() - i,
    {
        proof {
            lemma_sum_push(groups, fg, i as int);
            lemma_sum_prefix_le(groups, fg, i + 1);
            assert(groups.skip(i as int)[0] == groups[i as int]);
            assert(groups.skip(i as int).drop_first() =~= groups.skip(i + 1));
        }
        let ghost ti = text_bytes;
        let r = check_text(data.groups[i].label.as_str(), &mut text_bytes);
        if r.is_err() {
            proof {
                assert(!(blen(groups[i as int].label@) <= MAX_FIELD_BYTES) || ti + blen(groups[i as int].label@)
                    > MAX_TEXT_BYTES);
                assert(data_text(*data) >= t_cats + sum_of(groups, fg));
            }
            return r;
        }
        i += 1;
    }
    assert(groups.subrange(0, i as int) =~= groups);
    assert(groups.skip(i as int).len() == 0);
    let ghost t_groups = text_bytes;
    assert(tracks.skip(0) =~= tracks);
    let mut i: usize = 0;
    while i < data.tracks.len()
        invariant
            i <= tracks.len(),
            tracks == data.tracks@,
            count_limit(*data) is None,
            groups == data.groups@,
            cats == data.categories@,
            fc == (|c: TraceCategory| blen(c.label@)),
            fg == (|g: TraceGroup| blen(g.label@)),
            t_cats == sum_of(cats, fc),
            t_groups == t_cats + sum_of(groups, fg),
            forall|j: int| 0 <= j < cats.len() ==> blen((#[trigger] cats[j]).label@) <= MAX_FIELD_BYTES,
            forall|j: int| 0 <= j < groups.len() ==> blen((#[trigger] groups[j]).label@) <= MAX_FIELD_BYTES,
            data.groups@.len() <= 4096,
            data.categories@.len() <= 256,
            data.tracks@.len() <= 4096,
            ft == (|t: TraceTrack| track_text(t)),
            fi == (|t: TraceTrack| items_count(t.items@)),
            forall|j: int| 0 <= j < i ==> track_ok(#[trigger] tracks[j]),
            text_bytes == t_groups + sum_of(tracks.subrange(0, i as int), ft),
            items == sum_of(tracks.subrange(0, i as int), fi),
            text_bytes <= MAX_TEXT_BYTES,
            items <= MAX_ITEMS,
            categories_acc(cats, 0) == Ok::<nat, &'static str>(t_cats as nat),
            groups_acc(groups, t_cats as nat) == Ok::<nat, &'static str>(t_groups as nat),
            tracks_acc(tracks, 0, t_groups as nat) == tracks_acc(tracks.skip(i as int), items as nat, text_bytes as nat),
        decreases tracks.len() - i,
    {
        proof {
            assert(tracks.skip(i as int)[0] == tracks[i as int]);
            assert(tracks.skip(i as int).drop_first() =~= tracks.skip(i + 1));
            lemma_sum_push(tracks, ft, i as int);
            lemma_sum_prefix_le(tracks, ft, i + 1);
            lemma_sum_push(tracks, fi, i as int);
            lemma_sum_prefix_le(tracks, fi, i + 1);
        }
        let ghost ci = items;
        let ghost ti = text_bytes;
        let r = validate_track_size(&data.tracks[i], &mut items, &mut text_bytes);
        if r.is_err() {
            proof {
                assert(!track_ok(tracks[i as int]) || ci + items_count(tracks[i as int].items@) > MAX_ITEMS || ti
                    + track_text(tracks[i as int]) > MAX_TEXT_BYTES);
                assert(data_text(*data) == t_groups + sum_of(tracks, ft));
                assert(data_items(*data) == sum_of(tracks, fi));
            }
            return r;
        }
        i += 1;
    }
    assert(tracks.subrange(0, i as int) =~= tracks);
    assert(tracks.skip(i as int).len() == 0);
    Ok(())
}

} // verus!
