use vstd::prelude::*;
use crate::registry::{contains_name, names_of};

verus! {

#[derive(Debug, PartialEq, Eq)]
pub struct ProgramIndicatorRow {
    pub id: String,
    pub program_id: String,
    pub code: Option<String>,
    pub is_active: bool,
}

#[derive(Debug, PartialEq, Eq)]
pub struct IndicatorLineRow {
    pub id: String,
    pub program_indicator_id: String,
    pub code: String,
}

#[derive(Debug, PartialEq, Eq)]
pub struct IndicatorColumnRow {
    pub id: String,
    pub program_indicator_id: String,
    pub header: String,
}

impl IndicatorColumnRow {
    pub fn duplicate(&self) -> (r: Self)
        ensures
            r == *self,
    {
        IndicatorColumnRow {
            id: self.id.clone(),
            program_indicator_id: self.program_indicator_id.clone(),
            header: self.header.clone(),
        }
    }
}

impl IndicatorLineRow {
    pub fn duplicate(&self) -> (r: Self)
        ensures
            r == *self,
    {
        IndicatorLineRow {
            id: self.id.clone(),
            program_indicator_id: self.program_indicator_id.clone(),
            code: self.code.clone(),
        }
    }
}

/// One indicator line with every column of its indicator.
#[derive(Debug, PartialEq, Eq)]
pub struct IndicatorLine {
    pub line: IndicatorLineRow,
    pub columns: Vec<IndicatorColumnRow>,
}

#[derive(Debug, PartialEq, Eq)]
pub struct ProgramIndicator {
    pub program_indicator: ProgramIndicatorRow,
    pub lines: Vec<IndicatorLine>,
}

/// Some indicator before position `i` has the id `id`.
pub open spec fn claimed_before(inds: Seq<ProgramIndicatorRow>, i: int, id: Seq<char>) -> bool {
    exists|j: int| 0 <= j < i && #[trigger] inds[j].id@ == id
}

/// The lines of the indicator with id `id`, in their order.
pub open spec fn lines_of(lines: Seq<IndicatorLineRow>, id: Seq<char>) -> Seq<IndicatorLineRow>
    decreases lines.len(),
{
    if lines.len() == 0 {
        Seq::empty()
    } else if lines.last().program_indicator_id@ == id {
        lines_of(lines.drop_last(), id).push(lines.last())
    } else {
        lines_of(lines.drop_last(), id)
    }
}

/// The columns of the indicator with id `id`, in their order.
pub open spec fn columns_of(columns: Seq<IndicatorColumnRow>, id: Seq<char>) -> Seq<
    IndicatorColumnRow,
>
    decreases columns.len(),
{
    if columns.len() == 0 {
        Seq::empty()
    } else if columns.last().program_indicator_id@ == id {
        columns_of(columns.drop_last(), id).push(columns.last())
    } else {
        columns_of(columns.drop_last(), id)
    }
}

fn select_lines(lines: &Vec<IndicatorLineRow>, id: &String) -> (r: Vec<IndicatorLineRow>)
    ensures
        r@ == lines_of(lines@, id@),
{
    let mut r: Vec<IndicatorLineRow> = Vec::new();
    let mut i: usize = 0;
    proof {
        assert(lines@.take(0) =~= Seq::<IndicatorLineRow>::empty());
    }
    while i < lines.len()
        invariant
            i <= lines@.len(),
            r@ == lines_of(lines@.take(i as int), id@),
        decreases lines@.len() - i,
    {
        proof {
            assert(lines@.take(i + 1).drop_last() =~= lines@.take(i as int));
            assert(lines@.take(i + 1).last() == lines@[i as int]);
        }
        if lines[i].program_indicator_id == *id {
            r.push(lines[i].duplicate());
        }
        i = i + 1;
    }
    assert(lines@.take(i as int) =~= lines@);
    r
}

fn select_columns(columns: &Vec<IndicatorColumnRow>, id: &String) -> (r: Vec<IndicatorColumnRow>)
    ensures
        r@ == columns_of(columns@, id@),
{
    let mut r: Vec<IndicatorColumnRow> = Vec::new();
    let mut i: usize = 0;
    proof {
        assert(columns@.take(0) =~= Seq::<IndicatorColumnRow>::empty());
    }
    while i < columns.len()
        invariant
            i <= columns@.len(),
            r@ == columns_of(columns@.take(i as int), id@),
        decreases columns@.len() - i,
    {
        proof {
            assert(columns@.take(i + 1).drop_last() =~= columns@.take(i as int));
            assert(columns@.take(i + 1).last() == columns@[i as int]);
        }
        if columns[i].program_indicator_id == *id {
            r.push(columns[i].duplicate());
        }
        i = i + 1;
    }
    assert(columns@.take(i as int) =~= columns@);
    r
}

/// Groups queried lines and columns under their indicators, in indicator order. Each line
/// carries every column of its indicator. Lines and columns go to the first indicator with
/// their indicator id; a later indicator with the same id gets none.
pub fn program_indicators(
    indicators: Vec<ProgramIndicatorRow>,
    lines: Vec<IndicatorLineRow>,
    columns: Vec<IndicatorColumnRow>,
) -> (r: Vec<ProgramIndicator>)
    ensures
        r@.len() == indicators@.len(),
        forall|i: int|
            0 <= i < r@.len() ==> {
                let id = indicators@[i].id@;
                let own_lines = if claimed_before(indicators@, i, id) {
                    Seq::empty()
                } else {
                    lines_of(lines@, id)
                };
                &&& (#[trigger] r@[i]).program_indicator == indicators@[i]
                &&& r@[i].lines@.len() == own_lines.len()
                &&& forall|k: int|
                    0 <= k < own_lines.len() ==> (#[trigger] r@[i].lines@[k]).line == own_lines[k]
                        && r@[i].lines@[k].columns@ == columns_of(columns@, id)
            },
{
    let ghost inds = indicators@;
    let mut result: Vec<ProgramIndicator> = Vec::new();
    let mut seen: Vec<String> = Vec::new();
    let mut remaining = indicators;
    let mut i: usize = 0;
    let n = remaining.len();
    proof {
        assert(inds.skip(0) =~= inds);
    }
    while i < n
        invariant
            n == inds.len(),
            i <= n,
            remaining@ == inds.skip(i as int),
            names_of(seen@) =~= inds.take(i as int).map_values(|p: ProgramIndicatorRow| p.id@),
            result@.len() == i,
            forall|j: int|
                0 <= j < i ==> {
                    let id = inds[j].id@;
                    let own_lines = if claimed_before(inds, j, id) {
                        Seq::empty()
                    } else {
                        lines_of(lines@, id)
                    };
                    &&& (#[trigger] result@[j]).program_indicator == inds[j]
                    &&& result@[j].lines@.len() == own_lines.len()
                    &&& forall|k: int|
                        0 <= k < own_lines.len() ==> (#[trigger] result@[j].lines@[k]).line
                            == own_lines[k] && result@[j].lines@[k].columns@ == columns_of(
                            columns@,
                            id,
                        )
                },
        decreases n - i,
    {
        let indicator = remaining.remove(0);
        proof {
            assert(indicator == inds[i as int]);
            assert(remaining@ =~= inds.skip(i + 1));
        }
        let claimed = contains_name(&seen, &indicator.id);
        proof {
            let id = indicator.id@;
            if claimed {
                let j = choose|j: int| 0 <= j < names_of(seen@).len() && names_of(seen@)[j] == id;
                assert(inds.take(i as int)[j].id@ == id);
                assert(inds[j].id@ == id);
            }
            if claimed_before(inds, i as int, id) {
                let j = choose|j: int| 0 <= j < i && #[trigger] inds[j].id@ == id;
                assert(inds.take(i as int)[j].id@ == id);
                assert(names_of(seen@)[j] == id);
            }
        }
        let mut own: Vec<IndicatorLine> = Vec::new();
        if !claimed {
            let selected = select_lines(&lines, &indicator.id);
            let cols = select_columns(&columns, &indicator.id);
            let mut k: usize = 0;
            while k < selected.len()
                invariant
                    k <= selected@.len(),
                    selected@ == lines_of(lines@, indicator.id@),
                    cols@ == columns_of(columns@, indicator.id@),
                    own@.len() == k,
                    forall|m: int|
                        0 <= m < k ==> (#[trigger] own@[m]).line == selected@[m] && own@[m].columns@
                            == cols@,
                decreases selected@.len() - k,
            {
                own.push(IndicatorLine { line: selected[k].duplicate(), columns: duplicate_columns(&cols) });
                k = k + 1;
            }
        }
        let ghost before_seen = seen@;
        seen.push(indicator.id.clone());
        proof {
            assert(names_of(seen@) =~= names_of(before_seen).push(indicator.id@));
            assert(inds.take(i + 1) =~= inds.take(i as int).push(inds[i as int]));
        }
        result.push(ProgramIndicator { program_indicator: indicator, lines: own });
        i = i + 1;
    }
    result
}

fn duplicate_columns(v: &Vec<IndicatorColumnRow>) -> (r: Vec<IndicatorColumnRow>)
    ensures
        r@ == v@,
{
    let mut r: Vec<IndicatorColumnRow> = Vec::new();
    let mut i: usize = 0;
    while i < v.len()
        invariant
            i <= v@.len(),
            r@ == v@.take(i as int),
        decreases v@.len() - i,
    {
        r.push(v[i].duplicate());
        proof {
            assert(v@.take(i + 1) =~= v@.take(i as int).push(v@[i as int]));
        }
        i = i + 1;
    }
    assert(v@.take(i as int) =~= v@);
    r
}

} // verus!
