//! The date-grouped two-dimensional cursor over the top-fixture list.
//!
//! The flat list is grouped by its exact display-date strings, groups in
//! first-seen order, each group recording the ordered flat indices that
//! belong to it. A group is a column; moving the cursor resolves through the
//! `(column, row)` position of the current flat index. Groups are recomputed
//! from scratch on every move, since the list can be replaced wholesale
//! between ticks.

use vstd::prelude::*;
use crate::models::TopMatch;

verus! {

/// A navigation key on the top-fixtures screen.
#[derive(Debug, Clone, Copy, PartialEq, Eq, Structural)]
pub enum NavDir {
    Up,
    Down,
    Left,
    Right,
}

/// The grouping keys of a top-fixture list: its date strings, in order.
pub open spec fn dates_of(tops: Seq<TopMatch>) -> Seq<Seq<char>> {
    Seq::new(tops.len(), |i: int| tops[i].date@)
}

/// The mathematical shape of a grouping: per column, its date key and the
/// flat indices that fall in it.
pub type Groups = Seq<(Seq<char>, Seq<int>)>;

/// Whether some column of `g` carries the key `d`.
pub open spec fn has_key(g: Groups, d: Seq<char>) -> bool {
    exists|c: int| 0 <= c < g.len() && g[c].0 == d
}

/// The column of `g` carrying the key `d` (unique when the keys are distinct).
pub open spec fn key_index(g: Groups, d: Seq<char>) -> int {
    choose|c: int| 0 <= c < g.len() && g[c].0 == d
}

/// The canonical grouping of `dates`: walk the list once; an index whose
/// date was seen before joins that group, a fresh date opens a new group at
/// the end.
pub open spec fn date_groups_spec(dates: Seq<Seq<char>>) -> Groups
    decreases dates.len(),
{
    if dates.len() == 0 {
        Seq::empty()
    } else {
        let prev = date_groups_spec(dates.drop_last());
        let d = dates.last();
        let i = dates.len() - 1;
        if has_key(prev, d) {
            let c = key_index(prev, d);
            prev.update(c, (d, prev[c].1.push(i)))
        } else {
            prev.push((d, seq![i]))
        }
    }
}

/// Whether `(c, r)` is a position of the grid `g`.
pub open spec fn valid_pos(g: Groups, c: int, r: int) -> bool {
    0 <= c < g.len() && 0 <= r < g[c].1.len()
}

/// Whether the flat index `i` appears somewhere in the grid.
pub open spec fn in_groups(g: Groups, i: int) -> bool {
    exists|c: int, r: int| valid_pos(g, c, r) && #[trigger] g[c].1[r] == i
}

/// What makes `g` the date grouping of `dates`: non-empty columns whose
/// indices are in range and carry the column's key, every flat index placed,
/// indices ascending within a column, keys distinct across columns, and
/// columns ordered by first appearance.
pub open spec fn groups_wf(dates: Seq<Seq<char>>, g: Groups) -> bool {
    &&& forall|c: int| 0 <= c < g.len() ==> (#[trigger] g[c].1).len() > 0
    &&& forall|c: int, r: int|
        valid_pos(g, c, r) ==> 0 <= #[trigger] g[c].1[r] < dates.len() && dates[g[c].1[r]]
            == g[c].0
    &&& forall|i: int| 0 <= i < dates.len() ==> #[trigger] in_groups(g, i)
    &&& forall|c: int, r1: int, r2: int|
        valid_pos(g, c, r1) && valid_pos(g, c, r2) && r1 < r2 ==> #[trigger] g[c].1[r1]
            < #[trigger] g[c].1[r2]
    &&& forall|c1: int, c2: int|
        0 <= c1 < g.len() && 0 <= c2 < g.len() && c1 != c2 ==> (#[trigger] g[c1].0)
            != (#[trigger] g[c2].0)
    &&& forall|c1: int, c2: int|
        0 <= c1 < g.len() && 0 <= c2 < g.len() && c1 < c2 ==> (#[trigger] g[c1].1)[0]
            < (#[trigger] g[c2].1)[0]
}

/// The canonical grouping is well-formed.
pub proof fn lemma_date_groups_wf(dates: Seq<Seq<char>>)
    ensures
        groups_wf(dates, date_groups_spec(dates)),
    decreases dates.len(),
{
    if dates.len() == 0 {
    } else {
        let front = dates.drop_last();
        lemma_date_groups_wf(front);
        let prev = date_groups_spec(front);
        let d = dates.last();
        let i = dates.len() - 1;
        let g = date_groups_spec(dates);
        assert(forall|j: int| 0 <= j < front.len() ==> front[j] == dates[j]);
        if has_key(prev, d) {
            let c = key_index(prev, d);
            assert(0 <= c < prev.len() && prev[c].0 == d);
            assert(g == prev.update(c, (d, prev[c].1.push(i))));
            // every old position keeps its index; the one new position holds i
            assert forall|i0: int| 0 <= i0 < dates.len() implies #[trigger] in_groups(g, i0) by {
                if i0 < front.len() {
                    assert(in_groups(prev, i0));
                    let (c0, r0) = choose|c0: int, r0: int|
                        valid_pos(prev, c0, r0) && #[trigger] prev[c0].1[r0] == i0;
                    assert(valid_pos(g, c0, r0) && g[c0].1[r0] == i0);
                } else {
                    let r0 = g[c].1.len() - 1;
                    assert(valid_pos(g, c, r0) && g[c].1[r0] == i0);
                }
            }
            assert forall|c0: int, r1: int, r2: int|
                valid_pos(g, c0, r1) && valid_pos(g, c0, r2) && r1 < r2 implies #[trigger] g[c0].1[r1]
                < #[trigger] g[c0].1[r2] by {
                if c0 == c && r2 == g[c].1.len() - 1 {
                    assert(g[c].1[r1] == prev[c].1[r1]);
                    assert(0 <= prev[c].1[r1] < front.len());
                    assert(g[c].1[r2] == i);
                } else {
                    assert(valid_pos(prev, c0, r1) && valid_pos(prev, c0, r2));
                    assert(g[c0].1[r1] == prev[c0].1[r1] && g[c0].1[r2] == prev[c0].1[r2]);
                }
            }
            assert(g[c].1[0] == prev[c].1[0]);
        } else {
            assert(g == prev.push((d, seq![i])));
            assert forall|i0: int| 0 <= i0 < dates.len() implies #[trigger] in_groups(g, i0) by {
                if i0 < front.len() {
                    assert(in_groups(prev, i0));
                    let (c0, r0) = choose|c0: int, r0: int|
                        valid_pos(prev, c0, r0) && #[trigger] prev[c0].1[r0] == i0;
                    assert(valid_pos(g, c0, r0) && g[c0].1[r0] == i0);
                } else {
                    assert(valid_pos(g, g.len() - 1, 0) && g[g.len() - 1].1[0] == i0);
                }
            }
            assert forall|c1: int, c2: int|
                0 <= c1 < g.len() && 0 <= c2 < g.len() && c1 != c2 implies (#[trigger] g[c1].0)
                != (#[trigger] g[c2].0) by {
                if c2 == g.len() - 1 && c1 < c2 {
                    assert(g[c1].0 == prev[c1].0);
                    assert(!(0 <= c1 < prev.len() && prev[c1].0 == d));
                } else if c1 == g.len() - 1 && c2 < c1 {
                    assert(g[c2].0 == prev[c2].0);
                    assert(!(0 <= c2 < prev.len() && prev[c2].0 == d));
                }
            }
            assert forall|c1: int, c2: int|
                0 <= c1 < g.len() && 0 <= c2 < g.len() && c1 < c2 implies (#[trigger] g[c1].1)[0]
                < (#[trigger] g[c2].1)[0] by {
                if c2 == g.len() - 1 {
                    assert(g[c1].1[0] == prev[c1].1[0]);
                    assert(valid_pos(prev, c1, 0));
                    assert(0 <= prev[c1].1[0] < front.len());
                    assert(g[c2].1[0] == i);
                }
            }
        }
    }
}

/// The `(column, row)` position of flat index `i` (unique in a well-formed
/// grid).
pub open spec fn position_of(g: Groups, i: int) -> (int, int) {
    choose|c: int, r: int| valid_pos(g, c, r) && #[trigger] g[c].1[r] == i
}

/// In a well-formed grid, a flat index names exactly one position.
pub proof fn lemma_position_unique(dates: Seq<Seq<char>>, g: Groups, c: int, r: int)
    requires
        groups_wf(dates, g),
        valid_pos(g, c, r),
    ensures
        position_of(g, g[c].1[r]) == (c, r),
{
    let i = g[c].1[r];
    assert(in_groups(g, i));
    let (pc, pr) = choose|pc: int, pr: int| valid_pos(g, pc, pr) && #[trigger] g[pc].1[pr] == i;
    let p = position_of(g, i);
    assert(p == (pc, pr));
    assert(valid_pos(g, p.0, p.1) && g[p.0].1[p.1] == i);
    if p.0 != c {
        assert(dates[i] == g[p.0].0);
        assert(dates[i] == g[c].0);
        assert(false);
    }
    if p.1 != r {
        if p.1 < r {
            assert(g[c].1[p.1] < g[c].1[r]);
        } else {
            assert(g[c].1[r] < g[c].1[p.1]);
        }
        assert(false);
    }
}

pub open spec fn min_int(a: int, b: int) -> int {
    if a <= b {
        a
    } else {
        b
    }
}

/// Where one navigation key moves the cursor in grid `g`: Left/Right change
/// column, landing on `min(row, target length - 1)`; Up/Down change row
/// within the column; each is clamped at the edge, and a flat index outside
/// the grid does not move.
pub open spec fn nav_spec(g: Groups, sel: int, dir: NavDir) -> int {
    if !in_groups(g, sel) {
        sel
    } else {
        let p = position_of(g, sel);
        let c = p.0;
        let r = p.1;
        match dir {
            NavDir::Up => if r > 0 {
                g[c].1[r - 1]
            } else {
                sel
            },
            NavDir::Down => if r + 1 < g[c].1.len() {
                g[c].1[r + 1]
            } else {
                sel
            },
            NavDir::Left => if c > 0 {
                g[c - 1].1[min_int(r, g[c - 1].1.len() - 1)]
            } else {
                sel
            },
            NavDir::Right => if c + 1 < g.len() {
                g[c + 1].1[min_int(r, g[c + 1].1.len() - 1)]
            } else {
                sel
            },
        }
    }
}

/// Where one navigation key moves the cursor over the top-fixture list.
pub open spec fn navigate_spec(tops: Seq<TopMatch>, sel: int, dir: NavDir) -> int {
    nav_spec(date_groups_spec(dates_of(tops)), sel, dir)
}

/// The view of an executable grouping in the mathematical shape.
pub open spec fn groups_view(g: Seq<(String, Vec<usize>)>) -> Groups {
    Seq::new(g.len(), |c: int| (g[c].0@, Seq::new(g[c].1@.len(), |r: int| g[c].1@[r] as int)))
}

/// Groups the top fixtures by date, returning per group its date string and
/// the flat indices that belong to it, groups in first-seen order.
pub fn date_groups(matches: &Vec<TopMatch>) -> (g: Vec<(String, Vec<usize>)>)
    ensures
        groups_view(g@) == date_groups_spec(dates_of(matches@)),
{
    let ghost dates = dates_of(matches@);
    let mut groups: Vec<(String, Vec<usize>)> = Vec::new();
    let mut i: usize = 0;
    proof {
        assert(groups_view(groups@) =~= date_groups_spec(dates.take(0)));
    }
    while i < matches.len()
        invariant
            0 <= i <= matches.len(),
            dates == dates_of(matches@),
            dates.len() == matches.len(),
            groups_view(groups@) == date_groups_spec(dates.take(i as int)),
        decreases matches.len() - i,
    {
        let ghost front = dates.take(i as int);
        let ghost gv = groups_view(groups@);
        proof {
            lemma_date_groups_wf(front);
            assert(dates.take(i + 1).drop_last() =~= front);
            assert(dates.take(i + 1).last() == dates[i as int]);
        }
        let mut c: usize = 0;
        let mut found = false;
        while c < groups.len() && !found
            invariant
                0 <= c <= groups.len(),
                i < matches.len(),
                gv == groups_view(groups@),
                dates == dates_of(matches@),
                dates.len() == matches.len(),
                !found ==> forall|c0: int|
                    0 <= c0 < c ==> (#[trigger] gv[c0].0) != dates[i as int],
                found ==> c < groups.len() && gv[c as int].0 == dates[i as int],
            decreases groups.len() - c + (if found { 0int } else { 1int }),
        {
            if groups[c].0 == matches[i].date {
                found = true;
            } else {
                c += 1;
            }
        }
        if found {
            proof {
                assert(has_key(gv, dates[i as int]));
                let ck = key_index(gv, dates[i as int]);
                assert(0 <= ck < gv.len() && gv[ck].0 == dates[i as int]);
                // keys are distinct, so the column the scan found is the one
                // the canonical grouping extends
                assert(groups_wf(front, gv));
                assert(ck == c as int);
            }
            let ghost old_groups = groups@;
            groups[c].1.push(i);
            proof {
                let d = dates[i as int];
                assert(groups@.len() == old_groups.len());
                assert(groups@[c as int].0 == old_groups[c as int].0);
                assert(groups@[c as int].1@ == old_groups[c as int].1@.push(i));
                assert(forall|j: int|
                    0 <= j < old_groups.len() && j != c ==> groups@[j] == old_groups[j]);
                assert(groups_view(groups@) =~~= gv.update(
                    c as int,
                    (d, gv[c as int].1.push(i as int)),
                ));
                assert(groups_view(groups@) == date_groups_spec(dates.take(i + 1)));
            }
        } else {
            proof {
                assert(!has_key(gv, dates[i as int]));
            }
            let date = matches[i].date.clone();
            let mut idxs: Vec<usize> = Vec::new();
            idxs.push(i);
            groups.push((date, idxs));
            proof {
                assert(groups_view(groups@) =~~= gv.push((dates[i as int], seq![i as int])));
                assert(groups_view(groups@) == date_groups_spec(dates.take(i + 1)));
            }
        }
        i += 1;
    }
    proof {
        assert(dates.take(matches@.len() as int) =~= dates);
    }
    groups
}

/// Finds the `(column, row)` position of a flat index in the grouping, or
/// `None` when the index appears in no group.
pub fn flat_to_col_row(groups: &Vec<(String, Vec<usize>)>, flat_idx: usize) -> (r: Option<
    (usize, usize),
>)
    ensures
        ({
            let gv = groups_view(groups@);
            match r {
                Some(p) => valid_pos(gv, p.0 as int, p.1 as int) && gv[p.0 as int].1[p.1 as int]
                    == flat_idx as int,
                None => !in_groups(gv, flat_idx as int),
            }
        }),
{
    let ghost gv = groups_view(groups@);
    let mut c: usize = 0;
    while c < groups.len()
        invariant
            0 <= c <= groups.len(),
            gv == groups_view(groups@),
            forall|c0: int, r0: int|
                0 <= c0 < c && 0 <= r0 < gv[c0].1.len() ==> (#[trigger] gv[c0].1[r0])
                    != flat_idx as int,
        decreases groups.len() - c,
    {
        let col = &groups[c].1;
        let mut r: usize = 0;
        while r < col.len()
            invariant
                0 <= r <= col.len(),
                c < groups.len(),
                gv == groups_view(groups@),
                col == groups@[c as int].1,
                forall|r0: int| 0 <= r0 < r ==> (#[trigger] gv[c as int].1[r0]) != flat_idx as int,
            decreases col.len() - r,
        {
            if col[r] == flat_idx {
                return Some((c, r));
            }
            r += 1;
        }
        c += 1;
    }
    proof {
        assert forall|c0: int, r0: int| !(valid_pos(gv, c0, r0) && #[trigger] gv[c0].1[r0]
            == flat_idx as int) by {
            if valid_pos(gv, c0, r0) {
                assert(gv[c0].1[r0] != flat_idx as int);
            }
        }
        assert(!in_groups(gv, flat_idx as int));
    }
    None
}

/// Moves the top-fixture cursor one step, recomputing the date grid from
/// scratch, clamping at every edge, and landing on `min(row, target length
/// - 1)` when changing column.
pub fn navigate(matches: &Vec<TopMatch>, selected: usize, dir: NavDir) -> (r: usize)
    ensures
        r as int == navigate_spec(matches@, selected as int, dir),
        selected < matches@.len() ==> r < matches@.len(),
        selected >= matches@.len() ==> r == selected,
{
    let ghost dates = dates_of(matches@);
    let ghost g = date_groups_spec(dates);
    proof {
        lemma_date_groups_wf(dates);
    }
    let groups = date_groups(matches);
    let pos = flat_to_col_row(&groups, selected);
    match pos {
        None => {
            proof {
                if selected < matches@.len() {
                    assert(in_groups(g, selected as int));
                    assert(false);
                }
            }
            selected
        },
        Some((c, r)) => {
            proof {
                lemma_position_unique(dates, g, c as int, r as int);
                assert(valid_pos(g, c as int, r as int) && g[c as int].1[r as int] == selected
                    as int);
                assert(in_groups(g, selected as int));
                assert(0 <= selected < dates.len());
                assert(position_of(g, selected as int) == (c as int, r as int));
                assert(groups_view(groups@)[c as int].1[r as int] == g[c as int].1[r as int]);
                assert((c as int) < groups@.len());
                assert((r as int) < groups@[c as int].1@.len());
            }
            let result: usize = match dir {
                NavDir::Up => {
                    if r > 0 {
                        let v = groups[c].1[r - 1];
                        proof {
                            assert(v as int == groups_view(groups@)[c as int].1[r as int - 1]);
                            assert(v as int == g[c as int].1[r as int - 1]);
                            assert(valid_pos(g, c as int, r as int - 1));
                        }
                        v
                    } else {
                        selected
                    }
                },
                NavDir::Down => {
                    proof {
                        assert(groups@[c as int].1@.len() == g[c as int].1.len());
                    }
                    if r < groups[c].1.len() - 1 {
                        let v = groups[c].1[r + 1];
                        proof {
                            assert(v as int == groups_view(groups@)[c as int].1[r as int + 1]);
                            assert(v as int == g[c as int].1[r as int + 1]);
                            assert(valid_pos(g, c as int, r as int + 1));
                        }
                        v
                    } else {
                        selected
                    }
                },
                NavDir::Left => {
                    if c > 0 {
                        proof {
                            assert(groups@[c as int - 1].1@.len() == g[c as int - 1].1.len());
                            assert(g[c as int - 1].1.len() > 0);
                        }
                        let tlen = groups[c - 1].1.len();
                        let tr = if r < tlen - 1 {
                            r
                        } else {
                            tlen - 1
                        };
                        let v = groups[c - 1].1[tr];
                        proof {
                            assert(tr as int == min_int(r as int, g[c as int - 1].1.len() - 1));
                            assert(v as int == groups_view(groups@)[c as int - 1].1[tr as int]);
                            assert(v as int == g[c as int - 1].1[tr as int]);
                            assert(valid_pos(g, c as int - 1, tr as int));
                        }
                        v
                    } else {
                        selected
                    }
                },
                NavDir::Right => {
                    if c < groups.len() - 1 {
                        proof {
                            assert(groups@[c as int + 1].1@.len() == g[c as int + 1].1.len());
                            assert(g[c as int + 1].1.len() > 0);
                        }
                        let tlen = groups[c + 1].1.len();
                        let tr = if r < tlen - 1 {
                            r
                        } else {
                            tlen - 1
                        };
                        let v = groups[c + 1].1[tr];
                        proof {
                            assert(tr as int == min_int(r as int, g[c as int + 1].1.len() - 1));
                            assert(v as int == groups_view(groups@)[c as int + 1].1[tr as int]);
                            assert(v as int == g[c as int + 1].1[tr as int]);
                            assert(valid_pos(g, c as int + 1, tr as int));
                        }
                        v
                    } else {
                        selected
                    }
                },
            };
            result
        },
    }
}

/// A valid cursor stays a valid index into the top-fixture list under every
/// navigation step.
pub proof fn lemma_navigation_preserves_validity(tops: Seq<TopMatch>, sel: int, dir: NavDir)
    requires
        0 <= sel < tops.len(),
    ensures
        0 <= navigate_spec(tops, sel, dir) < tops.len(),
{
    let dates = dates_of(tops);
    let g = date_groups_spec(dates);
    lemma_date_groups_wf(dates);
    assert(in_groups(g, sel));
    let (pc, pr) = choose|pc: int, pr: int| valid_pos(g, pc, pr) && #[trigger] g[pc].1[pr] == sel;
    assert(valid_pos(g, pc, pr) && g[pc].1[pr] == sel);
    lemma_position_unique(dates, g, pc, pr);
    let p = position_of(g, sel);
    let c = p.0;
    let r = p.1;
    match dir {
        NavDir::Up => {
            if r > 0 {
                assert(valid_pos(g, c, r - 1));
            }
        },
        NavDir::Down => {
            if r + 1 < g[c].1.len() {
                assert(valid_pos(g, c, r + 1));
            }
        },
        NavDir::Left => {
            if c > 0 {
                assert(valid_pos(g, c - 1, min_int(r, g[c - 1].1.len() - 1)));
            }
        },
        NavDir::Right => {
            if c + 1 < g.len() {
                assert(valid_pos(g, c + 1, min_int(r, g[c + 1].1.len() - 1)));
            }
        },
    }
}

/// Moving Left and then Right returns to the original flat index whenever
/// the column to the left exists and holds the cursor's row (neither hop
/// clamps).
pub proof fn lemma_left_then_right_round_trip(tops: Seq<TopMatch>, sel: int)
    requires
        in_groups(date_groups_spec(dates_of(tops)), sel),
        ({
            let g = date_groups_spec(dates_of(tops));
            let p = position_of(g, sel);
            p.0 > 0 && p.1 < g[p.0 - 1].1.len()
        }),
    ensures
        navigate_spec(tops, navigate_spec(tops, sel, NavDir::Left), NavDir::Right) == sel,
{
    let dates = dates_of(tops);
    let g = date_groups_spec(dates);
    lemma_date_groups_wf(dates);
    let p = position_of(g, sel);
    let c = p.0;
    let r = p.1;
    assert(valid_pos(g, c, r) && g[c].1[r] == sel) by {
        let (qc, qr) = choose|qc: int, qr: int|
            valid_pos(g, qc, qr) && #[trigger] g[qc].1[qr] == sel;
        assert(valid_pos(g, qc, qr) && g[qc].1[qr] == sel);
        lemma_position_unique(dates, g, qc, qr);
    }
    let mid = nav_spec(g, sel, NavDir::Left);
    assert(min_int(r, g[c - 1].1.len() - 1) == r);
    assert(mid == g[c - 1].1[r]);
    lemma_position_unique(dates, g, c - 1, r);
    assert(in_groups(g, mid));
    assert(nav_spec(g, mid, NavDir::Right) == g[c].1[min_int(r, g[c].1.len() - 1)]);
    assert(min_int(r, g[c].1.len() - 1) == r);
}

/// Moving Down and then Up returns to the original flat index whenever the
/// row below exists (neither hop clamps).
pub proof fn lemma_down_then_up_round_trip(tops: Seq<TopMatch>, sel: int)
    requires
        in_groups(date_groups_spec(dates_of(tops)), sel),
        ({
            let g = date_groups_spec(dates_of(tops));
            let p = position_of(g, sel);
            p.1 + 1 < g[p.0].1.len()
        }),
    ensures
        navigate_spec(tops, navigate_spec(tops, sel, NavDir::Down), NavDir::Up) == sel,
{
    let dates = dates_of(tops);
    let g = date_groups_spec(dates);
    lemma_date_groups_wf(dates);
    let p = position_of(g, sel);
    let c = p.0;
    let r = p.1;
    assert(valid_pos(g, c, r) && g[c].1[r] == sel) by {
        let (qc, qr) = choose|qc: int, qr: int|
            valid_pos(g, qc, qr) && #[trigger] g[qc].1[qr] == sel;
        assert(valid_pos(g, qc, qr) && g[qc].1[qr] == sel);
        lemma_position_unique(dates, g, qc, qr);
    }
    let mid = nav_spec(g, sel, NavDir::Down);
    assert(mid == g[c].1[r + 1]);
    lemma_position_unique(dates, g, c, r + 1);
    assert(nav_spec(g, mid, NavDir::Up) == g[c].1[r]);
}

} // verus!
