//! Columns of sample lists, stored in contiguous chunks, and the handling of missing entries.
use vstd::prelude::*;

verus! {

/// The declared element type of a list column.
pub enum ElementType {
    /// Single-precision floats.
    Float32,
    /// Any other type, by its display name.
    Other(String),
}

/// One row of a list column: missing, or a list whose entries may be missing.
pub type ListRow = Option<Vec<Option<u32>>>;

/// The view of one row.
pub type RowView = Option<Seq<Option<u32>>>;

/// A column whose rows are lists of single-precision values (as bit patterns), stored as a
/// sequence of contiguous chunks of rows.
pub struct ListColumn {
    pub element: ElementType,
    pub chunks: Vec<Vec<ListRow>>,
}

/// The view of a row.
pub open spec fn row_view(r: ListRow) -> RowView {
    match r {
        Some(v) => Some(v@),
        None => None,
    }
}

/// The rows of one chunk, in order.
pub open spec fn chunk_view(c: Vec<ListRow>) -> Seq<RowView> {
    c@.map_values(|r: ListRow| row_view(r))
}

/// The rows of a sequence of chunks, in order, whatever the chunk boundaries.
pub open spec fn flat_rows(chunks: Seq<Vec<ListRow>>) -> Seq<RowView>
    decreases chunks.len(),
{
    if chunks.len() == 0 {
        Seq::empty()
    } else {
        flat_rows(chunks.drop_last()) + chunk_view(chunks.last())
    }
}

impl ListColumn {
    /// The logical rows of the column.
    pub open spec fn rows(&self) -> Seq<RowView> {
        flat_rows(self.chunks@)
    }
}

/// The rows of the first `c + 1` chunks are those of the first `c` followed by chunk `c`.
pub proof fn lemma_flat_rows_step(chunks: Seq<Vec<ListRow>>, c: int)
    requires
        0 <= c < chunks.len(),
    ensures
        flat_rows(chunks.subrange(0, c + 1)) == flat_rows(chunks.subrange(0, c)) + chunk_view(chunks[c]),
{
    assert(chunks.subrange(0, c + 1).drop_last() =~= chunks.subrange(0, c));
}

/// A prefix of the chunks holds no more rows than all of them.
pub proof fn lemma_flat_rows_prefix_len(chunks: Seq<Vec<ListRow>>, c: int)
    requires
        0 <= c <= chunks.len(),
    ensures
        flat_rows(chunks.subrange(0, c)).len() <= flat_rows(chunks).len(),
    decreases chunks.len() - c,
{
    if c < chunks.len() {
        lemma_flat_rows_step(chunks, c);
        lemma_flat_rows_prefix_len(chunks, c + 1);
    } else {
        assert(chunks.subrange(0, c) =~= chunks);
    }
}

/// The entries of `s` that are present, in order.
pub open spec fn present(s: Seq<Option<u32>>) -> Seq<u32>
    decreases s.len(),
{
    if s.len() == 0 {
        Seq::empty()
    } else {
        match s.last() {
            Some(v) => present(s.drop_last()).push(v),
            None => present(s.drop_last()),
        }
    }
}

/// Which entries of `s` are present.
pub open spec fn presence(s: Seq<Option<u32>>) -> Seq<bool> {
    s.map_values(|x: Option<u32>| x.is_some())
}

/// The entries of `s` that are present, in order: missing entries are dropped.
pub fn drop_missing(s: &Vec<Option<u32>>) -> (r: Vec<u32>)
    ensures
        r@ == present(s@),
{
    let mut r: Vec<u32> = Vec::new();
    let mut i: usize = 0;
    while i < s.len()
        invariant
            i <= s@.len(),
            r@ == present(s@.subrange(0, i as int)),
        decreases s@.len() - i,
    {
        assert(s@.subrange(0, i as int + 1).drop_last() =~= s@.subrange(0, i as int));
        match s[i] {
            Some(v) => r.push(v),
            None => {},
        }
        i = i + 1;
    }
    assert(s@.subrange(0, s@.len() as int) =~= s@);
    r
}

/// Which entries of `s` are present, in order.
pub fn presence_of(s: &Vec<Option<u32>>) -> (r: Vec<bool>)
    ensures
        r@ == presence(s@),
{
    let mut r: Vec<bool> = Vec::new();
    let mut i: usize = 0;
    while i < s.len()
        invariant
            i <= s@.len(),
            r@ == presence(s@.subrange(0, i as int)),
        decreases s@.len() - i,
    {
        r.push(s[i].is_some());
        i = i + 1;
        assert(r@ =~= presence(s@.subrange(0, i as int)));
    }
    assert(s@.subrange(0, s@.len() as int) =~= s@);
    r
}

/// A copy of `s`.
pub fn copy_bits(s: &Vec<u32>) -> (r: Vec<u32>)
    ensures
        r@ == s@,
{
    let mut r: Vec<u32> = Vec::new();
    let mut i: usize = 0;
    while i < s.len()
        invariant
            i <= s@.len(),
            r@ == s@.subrange(0, i as int),
        decreases s@.len() - i,
    {
        r.push(s[i]);
        i = i + 1;
        assert(r@ =~= s@.subrange(0, i as int));
    }
    assert(s@.subrange(0, s@.len() as int) =~= s@);
    r
}

} // verus!
