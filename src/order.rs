use vstd::prelude::*;

use crate::commit::{Commit, CommitView};

verus! {

broadcast use vstd::seq_lib::group_to_multiset_ensures, vstd::multiset::group_multiset_axioms;

/// The values of a sequence of commits.
pub open spec fn views(s: Seq<Commit>) -> Seq<CommitView> {
    s.map_values(|c: Commit| c@)
}

/// `c` holds exactly the versions `1..=v`, the `i`-th commit having version `i + 1`.
pub open spec fn consecutive(c: Seq<CommitView>, v: nat) -> bool {
    &&& c.len() == v
    &&& forall|i: int| 0 <= i < c.len() ==> #[trigger] c[i].version == i + 1
}

/// The versions of `c` never decrease.
pub open spec fn ascending(c: Seq<CommitView>) -> bool {
    forall|i: int, j: int| 0 <= i < j < c.len() ==> c[i].version <= c[j].version
}

/// The commits of `s`, in some order, form the history of versions `1..=v`.
pub open spec fn arrangeable(s: Seq<CommitView>, v: nat) -> bool {
    exists|t: Seq<CommitView>| t.to_multiset() == s.to_multiset() && consecutive(t, v)
}

/// A sequence whose versions strictly increase from at least 1 and end at
/// most at its length holds the versions `1..=len`.
proof fn lemma_strictly_increasing_fills(s: Seq<CommitView>)
    requires
        forall|i: int, j: int| 0 <= i < j < s.len() ==> s[i].version < s[j].version,
        forall|i: int| 0 <= i < s.len() ==> 1 <= #[trigger] s[i].version <= s.len(),
    ensures
        forall|i: int| 0 <= i < s.len() ==> #[trigger] s[i].version == i + 1,
    decreases s.len(),
{
    if s.len() > 0 {
        let t = s.drop_last();
        let n = s.len() as int;
        assert forall|i: int| 0 <= i < t.len() implies 1 <= #[trigger] t[i].version <= t.len() by {
            assert(s[i].version < s[n - 1].version);
        }
        lemma_strictly_increasing_fills(t);
        assert forall|i: int| 0 <= i < s.len() implies #[trigger] s[i].version == i + 1 by {
            if i < n - 1 {
                assert(t[i].version == i + 1);
            } else if n >= 2 {
                assert(t[n - 2].version == n - 1);
                assert(s[n - 2].version < s[n - 1].version);
            }
        }
    }
}

/// A commit sequence in ascending order of versions that is a rearrangement
/// of a consecutive history is that history itself.
pub proof fn lemma_ascending_arrangement(sorted: Seq<CommitView>, t: Seq<CommitView>, v: nat)
    requires
        ascending(sorted),
        sorted.to_multiset() == t.to_multiset(),
        consecutive(t, v),
    ensures
        sorted == t,
{
    assert(sorted.len() == t.len()) by {
        vstd::seq_lib::to_multiset_len(sorted);
        vstd::seq_lib::to_multiset_len(t);
    }
    assert(t.no_duplicates()) by {
        assert forall|i: int, j: int| 0 <= i < t.len() && 0 <= j < t.len() && i != j implies t[i] != t[j] by {
            assert(t[i].version == i + 1);
            assert(t[j].version == j + 1);
        }
    }
    t.lemma_multiset_has_no_duplicates();
    sorted.lemma_multiset_has_no_duplicates_conv();
    // each element of `sorted` is the element of `t` at the place its version gives
    assert forall|i: int| 0 <= i < sorted.len() implies 1 <= #[trigger] sorted[i].version <= sorted.len()
        && sorted[i] == t[sorted[i].version - 1] by {
        assert(sorted.to_multiset().count(sorted[i]) > 0);
        assert(t.contains(sorted[i]));
        let k = choose|k: int| 0 <= k < t.len() && t[k] == sorted[i];
        assert(t[k].version == k + 1);
    }
    assert forall|i: int, j: int| 0 <= i < j < sorted.len() implies sorted[i].version < sorted[j].version by {
        if sorted[i].version == sorted[j].version {
            assert(sorted[i] == t[sorted[i].version - 1]);
            assert(sorted[j] == t[sorted[j].version - 1]);
            assert(sorted[i] == sorted[j]);
        }
    }
    lemma_strictly_increasing_fills(sorted);
    assert forall|i: int| 0 <= i < sorted.len() implies sorted[i] == t[i] by {
        assert(sorted[i].version == i + 1);
        assert(sorted[i] == t[sorted[i].version - 1]);
    }
    assert(sorted =~= t);
}

/// Returns the commits of `commits` ordered by ascending version.
pub fn sort_by_version(commits: Vec<Commit>) -> (r: Vec<Commit>)
    ensures
        views(r@).to_multiset() == views(commits@).to_multiset(),
        ascending(views(r@)),
{
    let ghost all = views(commits@);
    let mut rest = commits;
    let mut out: Vec<Commit> = Vec::new();
    assert(views(out@) =~= Seq::<CommitView>::empty());
    while rest.len() > 0
        invariant
            ascending(views(out@)),
            views(out@).to_multiset().add(views(rest@).to_multiset()) == all.to_multiset(),
        decreases rest@.len(),
    {
        let ghost rest_before = rest@;
        let c = rest.pop().unwrap();
        assert(views(rest_before) =~= views(rest@).push(c@));
        let mut j: usize = 0;
        while j < out.len() && out[j].version <= c.version
            invariant
                j <= out@.len(),
                forall|k: int| 0 <= k < j ==> out@[k].version <= c.version,
            decreases out@.len() - j,
        {
            j = j + 1;
        }
        let ghost before = views(out@);
        assert(forall|k: int| j <= k < before.len() ==> before[k].version > c.version) by {
            if j < before.len() {
                assert(before[j as int].version > c.version);
            }
        }
        out.insert(j, c);
        assert(views(out@) =~= before.insert(j as int, c@));
        assert(ascending(views(out@))) by {
            let now = views(out@);
            assert forall|a: int, b: int| 0 <= a < b < now.len() implies now[a].version <= now[b].version by {
                if b < j {
                    assert(now[a] == before[a] && now[b] == before[b]);
                } else if b == j {
                    assert(now[a] == before[a]);
                } else if a == j {
                    assert(now[b] == before[b - 1]);
                } else if a < j {
                    assert(now[a] == before[a] && now[b] == before[b - 1]);
                } else {
                    assert(now[a] == before[a - 1] && now[b] == before[b - 1]);
                }
            }
        }
        assert(views(out@).to_multiset().add(views(rest@).to_multiset()) =~= all.to_multiset());
    }
    assert(views(rest@) =~= Seq::<CommitView>::empty());
    assert(views(out@).to_multiset() =~= all.to_multiset());
    out
}

} // verus!
