use vstd::prelude::*;
use crate::loader::{
    codes_of_lines, codes_of_table, json_line_of, row_fields, table_well_formed, warnings_of_lines,
    JsonFieldView, WarningView,
};
use crate::records::CodeView;

verus! {

/// How many warnings cite the given 1-based line number.
pub open spec fn warning_count_for_line(ws: Seq<WarningView>, line: int) -> int
    decreases ws.len(),
{
    if ws.len() == 0 {
        0
    } else {
        warning_count_for_line(ws.drop_last(), line) + if ws.last().line == line {
            1int
        } else {
            0int
        }
    }
}

proof fn lemma_count_zero_when_absent(ws: Seq<WarningView>, line: int)
    requires
        forall|k: int| 0 <= k < ws.len() ==> (#[trigger] ws[k]).line != line,
    ensures
        warning_count_for_line(ws, line) == 0,
    decreases ws.len(),
{
    if ws.len() == 0 {
    } else {
        assert(forall|k: int|
            0 <= k < ws.drop_last().len() ==> (#[trigger] ws.drop_last()[k]).line != line);
        lemma_count_zero_when_absent(ws.drop_last(), line);
    }
}

/// Every warning for `lines` cites a 1-based line number within the input.
proof fn lemma_warning_line_bounds(lines: Seq<Seq<char>>, d: char)
    ensures
        forall|k: int|
            0 <= k < warnings_of_lines(lines, d).len() ==> 1 <= (#[trigger] warnings_of_lines(
                lines,
                d,
            )[k]).line <= lines.len(),
    decreases lines.len(),
{
    if lines.len() == 0 {
    } else {
        lemma_warning_line_bounds(lines.drop_last(), d);
        let pre = warnings_of_lines(lines.drop_last(), d);
        let all = warnings_of_lines(lines, d);
        assert forall|k: int| 0 <= k < all.len() implies 1 <= (#[trigger] all[k]).line
            <= lines.len() by {
            if k < pre.len() {
                assert(all[k] == pre[k]);
            }
        }
    }
}

/// Well-formed delimited content of N rows, each with at least two fields,
/// yields exactly N codes in input order — row i's first two fields become
/// code i — and no warnings.
pub proof fn lemma_well_formed_rows(lines: Seq<Seq<char>>, d: char, sys: Seq<char>)
    requires
        forall|i: int| 0 <= i < lines.len() ==> row_fields(#[trigger] lines[i], d).len() >= 2,
    ensures
        codes_of_lines(lines, d, sys).len() == lines.len(),
        forall|i: int|
            0 <= i < lines.len() ==> #[trigger] codes_of_lines(lines, d, sys)[i] == (CodeView {
                code: row_fields(lines[i], d)[0],
                title: row_fields(lines[i], d)[1],
                coding_system: sys,
            }),
        warnings_of_lines(lines, d).len() == 0,
    decreases lines.len(),
{
    if lines.len() == 0 {
    } else {
        assert(forall|i: int|
            0 <= i < lines.drop_last().len() ==> row_fields(
                #[trigger] lines.drop_last()[i],
                d,
            ).len() >= 2);
        lemma_well_formed_rows(lines.drop_last(), d, sys);
        let pre = codes_of_lines(lines.drop_last(), d, sys);
        let all = codes_of_lines(lines, d, sys);
        assert(row_fields(lines.last(), d).len() >= 2);
        assert(all.len() == lines.len());
        assert forall|i: int| 0 <= i < lines.len() implies #[trigger] all[i] == (CodeView {
            code: row_fields(lines[i], d)[0],
            title: row_fields(lines[i], d)[1],
            coding_system: sys,
        }) by {
            if i < pre.len() {
                assert(all[i] == pre[i]);
                assert(lines.drop_last()[i] == lines[i]);
            } else {
                assert(lines[i] == lines.last());
            }
        }
    }
}

/// A delimited row with fewer than two fields contributes no code — the
/// other rows parse exactly as if it were absent — and exactly one warning
/// cites its 1-based line number.
pub proof fn lemma_short_row_recovery(lines: Seq<Seq<char>>, d: char, sys: Seq<char>, i: int)
    requires
        0 <= i < lines.len(),
        row_fields(lines[i], d).len() < 2,
    ensures
        codes_of_lines(lines, d, sys) == codes_of_lines(lines.remove(i), d, sys),
        warning_count_for_line(warnings_of_lines(lines, d), i + 1) == 1,
    decreases lines.len(),
{
    let butlast = lines.drop_last();
    let wb = warnings_of_lines(butlast, d);
    if i == lines.len() - 1 {
        assert(lines.remove(i) =~= butlast);
        assert(codes_of_lines(lines, d, sys) =~= codes_of_lines(butlast, d, sys));
        let all = warnings_of_lines(lines, d);
        assert(all == wb + seq![
            WarningView {
                line: lines.len() as int,
                fault: crate::loader::fault_of(row_fields(lines.last(), d)),
            },
        ]);
        assert(all.drop_last() =~= wb);
        assert(all.last().line == i + 1);
        lemma_warning_line_bounds(butlast, d);
        lemma_count_zero_when_absent(wb, i + 1);
    } else {
        assert(butlast[i] == lines[i]);
        lemma_short_row_recovery(butlast, d, sys, i);
        // the codes of the whole input
        let removed = lines.remove(i);
        assert(removed.drop_last() =~= butlast.remove(i));
        assert(removed.last() == lines.last());
        assert(codes_of_lines(removed, d, sys) == codes_of_lines(butlast.remove(i), d, sys) + (
        if row_fields(lines.last(), d).len() >= 2 {
            seq![
                CodeView {
                    code: row_fields(lines.last(), d)[0],
                    title: row_fields(lines.last(), d)[1],
                    coding_system: sys,
                },
            ]
        } else {
            Seq::<CodeView>::empty()
        }));
        assert(codes_of_lines(lines, d, sys) == codes_of_lines(removed, d, sys));
        // the warnings of the whole input
        let all = warnings_of_lines(lines, d);
        if row_fields(lines.last(), d).len() < 2 {
            assert(all.drop_last() =~= wb);
            assert(all.last().line == lines.len() as int);
            assert(warning_count_for_line(all, i + 1) == warning_count_for_line(wb, i + 1));
        } else {
            assert(all =~= wb);
        }
    }
}

/// A well-formed decoded JSON table of K objects yields exactly K codes,
/// in order: object i's soc_code becomes code i's code, its title the
/// title, and every code carries the system name.
pub proof fn lemma_json_table_mapping(t: Seq<Seq<JsonFieldView>>, sys: Seq<char>)
    requires
        table_well_formed(t),
    ensures
        codes_of_table(t, sys).len() == t.len(),
        forall|i: int|
            0 <= i < t.len() ==> #[trigger] codes_of_table(t, sys)[i] == (CodeView {
                code: json_line_of(t[i]).unwrap().0,
                title: json_line_of(t[i]).unwrap().1,
                coding_system: sys,
            }),
{
}

} // verus!
