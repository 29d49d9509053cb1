//! The list of projects: the directories directly under the projects root.
use vstd::prelude::*;
use crate::classify::{hidden, is_hidden};
use crate::order::{lemma_name_order, name_less, name_lt};

verus! {

/// A project and whether its root holds the two well-known marker files.
pub struct Project {
    pub name: String,
    pub has_readme: bool,
    pub has_claude: bool,
}

/// One entry of the projects root as read from disk.
pub struct ProjectCandidate {
    pub name: String,
    pub is_dir: bool,
    pub has_readme: bool,
    pub has_claude: bool,
}

/// A directory whose name is not hidden is a project.
pub open spec fn is_project(c: ProjectCandidate) -> bool {
    c.is_dir && !hidden(c.name@)
}

pub open spec fn project_of(c: ProjectCandidate, p: Project) -> bool {
    p.name@ == c.name@ && p.has_readme == c.has_readme && p.has_claude == c.has_claude
}

/// Names ascend strictly.
pub open spec fn by_name(out: Seq<Project>) -> bool {
    forall|a: int, b: int| 0 <= a < b < out.len() ==> name_lt(#[trigger] out[a].name@, #[trigger] out[b].name@)
}

pub open spec fn distinct_names(cs: Seq<ProjectCandidate>) -> bool {
    forall|i: int, j: int|
        0 <= i < cs.len() && 0 <= j < cs.len() && i != j ==> #[trigger] cs[i].name@
            != #[trigger] cs[j].name@
}

/// `p` is the project of some candidate that is a project.
pub open spec fn from_candidates(cs: Seq<ProjectCandidate>, p: Project) -> bool {
    exists|i: int| 0 <= i < cs.len() && #[trigger] is_project(cs[i]) && project_of(cs[i], p)
}

/// `out` lists one project for each candidate that is a project, and
/// nothing else, in ascending order of names.
pub open spec fn project_list_of(cs: Seq<ProjectCandidate>, out: Seq<Project>) -> bool {
    (forall|j: int| 0 <= j < out.len() ==> from_candidates(cs, #[trigger] out[j]))
        && (forall|i: int|
        0 <= i < cs.len() && #[trigger] is_project(cs[i]) ==> exists|j: int|
            0 <= j < out.len() && project_of(cs[i], #[trigger] out[j])) && by_name(out)
}

fn insert_by_name(out: &mut Vec<Project>, x: Project) -> (k: usize)
    requires
        by_name(old(out)@),
        forall|j: int| 0 <= j < old(out)@.len() ==> #[trigger] old(out)@[j].name@ != x.name@,
    ensures
        k <= old(out)@.len(),
        final(out)@ == old(out)@.insert(k as int, x),
        by_name(final(out)@),
{
    let mut p: usize = 0;
    while p < out.len() && name_less(&out[p].name, &x.name)
        invariant
            p <= out@.len(),
            forall|j: int| 0 <= j < p ==> name_lt(#[trigger] out@[j].name@, x.name@),
        decreases out@.len() - p,
    {
        p = p + 1;
    }
    let ghost before = out@;
    proof {
        assert forall|j: int| p <= j < before.len() implies name_lt(
            x.name@,
            #[trigger] before[j].name@,
        ) by {
            let q = before[p as int];
            lemma_name_order(x.name@, q.name@, before[j].name@);
        }
    }
    out.insert(p, x);
    proof {
        let after = out@;
        assert forall|a: int, b: int| 0 <= a < b < after.len() implies name_lt(
            #[trigger] after[a].name@,
            #[trigger] after[b].name@,
        ) by {
            if a < p && b > p {
                lemma_name_order(before[a].name@, x.name@, after[b].name@);
            } else if a > p {
                assert(after[a] == before[a - 1]);
                assert(after[b] == before[b - 1]);
            }
        }
    }
    p
}

/// The projects among the entries of the projects root: directories that
/// are not hidden, sorted by name.
pub fn project_list(candidates: Vec<ProjectCandidate>) -> (r: Vec<Project>)
    requires
        distinct_names(candidates@),
    ensures
        project_list_of(candidates@, r@),
{
    let mut out: Vec<Project> = Vec::new();
    let mut i: usize = 0;
    while i < candidates.len()
        invariant
            i <= candidates@.len(),
            distinct_names(candidates@),
            by_name(out@),
            forall|j: int| 0 <= j < out@.len() ==> from_candidates(candidates@, #[trigger] out@[j]),
            forall|j: int, m: int|
                0 <= j < out@.len() && i <= m < candidates@.len() ==> #[trigger] out@[j].name@
                    != #[trigger] candidates@[m].name@,
            forall|m: int|
                0 <= m < i && #[trigger] is_project(candidates@[m]) ==> exists|j: int|
                    0 <= j < out@.len() && project_of(candidates@[m], #[trigger] out@[j]),
        decreases candidates@.len() - i,
    {
        let c = &candidates[i];
        if c.is_dir && !is_hidden(&c.name) {
            let x = Project { name: c.name.clone(), has_readme: c.has_readme, has_claude: c.has_claude };
            let ghost prev = out@;
            let ghost gx = x;
            proof {
                assert forall|j: int| 0 <= j < prev.len() implies #[trigger] prev[j].name@
                    != gx.name@ by {
                    assert(prev[j].name@ != candidates@[i as int].name@);
                }
            }
            let k = insert_by_name(&mut out, x);
            proof {
                assert forall|j: int| 0 <= j < out@.len() implies from_candidates(
                    candidates@,
                    #[trigger] out@[j],
                ) by {
                    if j < k {
                        assert(out@[j] == prev[j]);
                    } else if j > k {
                        assert(out@[j] == prev[j - 1]);
                    } else {
                        assert(is_project(candidates@[i as int]));
                        assert(project_of(candidates@[i as int], out@[j]));
                    }
                }
                assert forall|j: int, m: int|
                    0 <= j < out@.len() && i + 1 <= m < candidates@.len() implies #[trigger] out@[j].name@
                    != #[trigger] candidates@[m].name@ by {
                    if j < k {
                        assert(out@[j] == prev[j]);
                    } else if j > k {
                        assert(out@[j] == prev[j - 1]);
                    } else {
                        assert(candidates@[i as int].name@ != candidates@[m].name@);
                    }
                }
                assert forall|m: int|
                    0 <= m < i + 1 && #[trigger] is_project(candidates@[m]) implies exists|j: int|
                    0 <= j < out@.len() && project_of(candidates@[m], #[trigger] out@[j]) by {
                    if m == i {
                        assert(project_of(candidates@[m], out@[k as int]));
                    } else {
                        let j0 = choose|j0: int|
                            0 <= j0 < prev.len() && project_of(candidates@[m], #[trigger] prev[j0]);
                        if j0 < k {
                            assert(out@[j0] == prev[j0]);
                        } else {
                            assert(out@[j0 + 1] == prev[j0]);
                        }
                    }
                }
            }
        }
        i = i + 1;
    }
    out
}

} // verus!
