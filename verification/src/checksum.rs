use vstd::prelude::*;
use crate::row::{CellMeta, CellView, RowMeta, RowView};

verus! {

/// Seed of the content hash.
pub const CHECKSUM_SEED: u64 = 1469598103934665603;

/// Marks the end of one hashed string.
pub const FIELD_MARK: u64 = 31;

/// Marks the end of one hashed row.
pub const ROW_MARK: u64 = 30;

/// One mixing step of the content hash: multiply and add, both wrapping.
pub open spec fn mix(h: u64, x: u64) -> u64 {
    vstd::wrapping::u64_specs::wrapping_add(vstd::wrapping::u64_specs::wrapping_mul(h, 31), x)
}

/// Folds a character sequence into the hash.
pub open spec fn hash_chars(h: u64, s: Seq<char>) -> u64
    decreases s.len(),
{
    if s.len() == 0 {
        h
    } else {
        hash_chars(mix(h, s[0] as u64), s.skip(1))
    }
}

/// Folds one delimited string into the hash.
pub open spec fn hash_str(h: u64, s: Seq<char>) -> u64 {
    mix(hash_chars(h, s), FIELD_MARK)
}

/// Folds one cell (its field id, then its value) into the hash.
pub open spec fn hash_cell(h: u64, c: CellView) -> u64 {
    hash_str(hash_str(h, c.field_id), c.data)
}

/// Folds an ordered cell list into the hash.
pub open spec fn hash_cells(h: u64, cells: Seq<CellView>) -> u64
    decreases cells.len(),
{
    if cells.len() == 0 {
        h
    } else {
        hash_cells(hash_cell(h, cells[0]), cells.skip(1))
    }
}

/// Folds one row (block id, row id, then its cells) into the hash.
pub open spec fn hash_row(h: u64, r: RowView) -> u64 {
    mix(hash_cells(hash_str(hash_str(h, r.block_id), r.id), r.cells), ROW_MARK)
}

/// Folds an ordered row collection into the hash.
pub open spec fn hash_rows(h: u64, rows: Seq<RowView>) -> u64
    decreases rows.len(),
{
    if rows.len() == 0 {
        h
    } else {
        hash_rows(hash_row(h, rows[0]), rows.skip(1))
    }
}

/// The content checksum of a materialized row collection: a pure function of
/// the rows, so that replaying equal histories always yields equal checksums.
pub open spec fn state_checksum(rows: Seq<RowView>) -> u64 {
    hash_rows(CHECKSUM_SEED, rows)
}

fn mix_exec(h: u64, x: u64) -> (r: u64)
    ensures
        r == mix(h, x),
{
    h.wrapping_mul(31).wrapping_add(x)
}

fn hash_str_exec(h: u64, s: &String) -> (r: u64)
    ensures
        r == hash_str(h, s@),
{
    let n = s.as_str().unicode_len();
    let mut acc = h;
    let mut i: usize = 0;
    proof {
        assert(s@.skip(0) =~= s@);
    }
    while i < n
        invariant
            i <= n,
            n == s@.len(),
            hash_chars(h, s@) == hash_chars(acc, s@.skip(i as int)),
        decreases n - i,
    {
        let c = s.as_str().get_char(i);
        proof {
            assert(s@.skip(i as int)[0] == s@[i as int]);
            assert(s@.skip(i as int).skip(1) =~= s@.skip(i as int + 1));
        }
        acc = mix_exec(acc, c as u64);
        i += 1;
    }
    proof {
        assert(s@.skip(n as int) =~= Seq::<char>::empty());
    }
    mix_exec(acc, FIELD_MARK)
}

fn hash_cells_exec(h: u64, cells: &Vec<CellMeta>) -> (r: u64)
    ensures
        r == hash_cells(h, cells.deep_view()),
{
    let ghost cs = cells.deep_view();
    let mut acc = h;
    let mut i: usize = 0;
    proof {
        assert(cs.skip(0) =~= cs);
    }
    while i < cells.len()
        invariant
            i <= cells@.len(),
            cs == cells.deep_view(),
            hash_cells(h, cs) == hash_cells(acc, cs.skip(i as int)),
        decreases cells@.len() - i,
    {
        proof {
            assert(cs.skip(i as int)[0] == cs[i as int]);
            assert(cs.skip(i as int).skip(1) =~= cs.skip(i as int + 1));
        }
        let c = &cells[i];
        acc = hash_str_exec(hash_str_exec(acc, &c.field_id), &c.data);
        i += 1;
    }
    proof {
        assert(cs.skip(cells@.len() as int) =~= Seq::<CellView>::empty());
    }
    acc
}

fn hash_row_exec(h: u64, row: &RowMeta) -> (r: u64)
    ensures
        r == hash_row(h, row@),
{
    let a = hash_str_exec(h, &row.block_id);
    let b = hash_str_exec(a, &row.id);
    let c = hash_cells_exec(b, &row.cells);
    mix_exec(c, ROW_MARK)
}

/// The content checksum of a row collection, as `state_checksum` says.
pub fn checksum_rows(rows: &Vec<RowMeta>) -> (r: u64)
    ensures
        r == state_checksum(rows.deep_view()),
{
    let ghost rs = rows.deep_view();
    let mut acc = CHECKSUM_SEED;
    let mut i: usize = 0;
    proof {
        assert(rs.skip(0) =~= rs);
    }
    while i < rows.len()
        invariant
            i <= rows@.len(),
            rs == rows.deep_view(),
            hash_rows(CHECKSUM_SEED, rs) == hash_rows(acc, rs.skip(i as int)),
        decreases rows@.len() - i,
    {
        proof {
            assert(rs.skip(i as int)[0] == rs[i as int]);
            assert(rs.skip(i as int).skip(1) =~= rs.skip(i as int + 1));
        }
        acc = hash_row_exec(acc, &rows[i]);
        i += 1;
    }
    proof {
        assert(rs.skip(rows@.len() as int) =~= Seq::<RowView>::empty());
    }
    acc
}

} // verus!
