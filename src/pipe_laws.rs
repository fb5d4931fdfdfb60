use vstd::prelude::*;

use crate::jobs::{JobSpec, is_pipe_spec, disabled};
use crate::pipes::{
    lemma_sweep_only_disables, stream, shares, has_user, sweep, uniqueness_pass, pipe_check, pipes_consistent, only_disables,
    duplicate_claim,
};

verus! {

proof fn lemma_sweep_unchanged(base: Seq<JobSpec>, k: int, out: bool)
    requires
        0 <= k <= base.len(),
        forall|idx: int|
            0 <= idx < k && #[trigger] base[idx].runnable && is_pipe_spec(stream(base[idx], out)) ==> has_user(
                base,
                stream(base[idx], out),
                !out,
            ),
    ensures
        sweep(base, k, out) == base,
    decreases k,
{
    if k > 0 {
        lemma_sweep_unchanged(base, k - 1, out);
    }
}

proof fn lemma_sweep_grows(base: Seq<JobSpec>, k1: int, k2: int, out: bool)
    requires
        0 <= k1 <= k2 <= base.len(),
    ensures
        only_disables(sweep(base, k1, out), sweep(base, k2, out)),
    decreases k2,
{
    if k2 > k1 {
        lemma_sweep_grows(base, k1, k2 - 1, out);
        lemma_sweep_len(base, k2 - 1, out);
        let a = sweep(base, k1, out);
        let b = sweep(base, k2 - 1, out);
        let c = sweep(base, k2, out);
        assert forall|i: int| 0 <= i < a.len() implies (c[i] == a[i] || c[i] == disabled(a[i])) by {
            assert(b[i] == a[i] || b[i] == disabled(a[i]));
        }
    }
}

proof fn lemma_sweep_len(base: Seq<JobSpec>, k: int, out: bool)
    requires
        0 <= k <= base.len(),
    ensures
        sweep(base, k, out).len() == base.len(),
    decreases k,
{
    if k > 0 {
        lemma_sweep_len(base, k - 1, out);
    }
}

/// Where every runnable job's pipes are claimed by it alone in their role and each
/// has a runnable partner in the other role, the validator disables no job.
pub proof fn lemma_consistent_pipes_kept(s: Seq<JobSpec>)
    requires
        pipes_consistent(s),
    ensures
        pipe_check(s) == s,
{
    assert(uniqueness_pass(s) =~= s);
    lemma_sweep_unchanged(s, s.len() as int, false);
    lemma_sweep_unchanged(s, s.len() as int, true);
}

/// Running the validator on its own result changes nothing exactly when that result
/// leaves each runnable pipe with one runnable partner. (A consumer checked before its
/// producer, where the producer is then disabled for a pipe of its own, is left
/// without one; a second run disables it.)
pub proof fn lemma_check_idempotent(s: Seq<JobSpec>)
    ensures
        (pipe_check(pipe_check(s)) == pipe_check(s)) <==> pipes_consistent(pipe_check(s)),
{
    let r = pipe_check(s);
    if pipes_consistent(r) {
        lemma_consistent_pipes_kept(r);
    } else {
        lemma_check_leaves_no_duplicates(s);
        lemma_inconsistent_result_changes(r);
    }
}

/// A collection without duplicated claims whose pipes are not consistent is changed
/// by the validator.
proof fn lemma_inconsistent_result_changes(r: Seq<JobSpec>)
    requires
        !pipes_consistent(r),
        uniqueness_pass(r) == r,
    ensures
        pipe_check(r) != r,
{
    let n = r.len() as int;
    let i = choose|i: int|
        !(0 <= i < n && #[trigger] r[i].runnable ==> {
            &&& is_pipe_spec(r[i].stdin) ==> has_user(r, r[i].stdin, true) && !shares(r, i, false)
            &&& is_pipe_spec(r[i].stdout) ==> has_user(r, r[i].stdout, false) && !shares(r, i, true)
        });
    if shares(r, i, false) && is_pipe_spec(r[i].stdin) || shares(r, i, true) && is_pipe_spec(r[i].stdout) {
        assert(duplicate_claim(r, i));
        assert(uniqueness_pass(r)[i] == disabled(r[i]));
    } else {
        lemma_sweep_len(r, n, false);
        let v = sweep(r, n, false);
        lemma_sweep_len(v, n, true);
        lemma_sweep_grows(v, 0, n, true);
        let w = sweep(v, n, true);
        assert(w == pipe_check(r));
        if is_pipe_spec(r[i].stdin) && !has_user(r, r[i].stdin, true) {
            lemma_sweep_len(r, i, false);
            lemma_sweep_grows(r, 0, i, false);
            let t = sweep(r, i, false);
            assert(t[i] == r[i] || t[i] == disabled(r[i]));
            assert(!has_user(t, r[i].stdin, true)) by {
                assert forall|o: int| 0 <= o < n && t[o].runnable implies stream(t[o], true) != r[i].stdin by {
                    assert(t[o] == r[o] || t[o] == disabled(r[o]));
                }
            }
            lemma_sweep_grows(r, i + 1, n, false);
            assert(!v[i].runnable);
        } else {
            lemma_sweep_grows(r, 0, n, false);
            lemma_sweep_len(v, i, true);
            lemma_sweep_grows(v, 0, i, true);
            let t = sweep(v, i, true);
            assert(!has_user(t, r[i].stdout, false)) by {
                assert forall|o: int| 0 <= o < n && t[o].runnable implies stream(t[o], false) != r[i].stdout by {
                    assert(t[o] == v[o] || t[o] == disabled(v[o]));
                    assert(v[o] == r[o] || v[o] == disabled(r[o]));
                }
            }
            lemma_sweep_grows(v, i + 1, n, true);
            assert(t[i] == v[i] || t[i] == disabled(v[i]));
        }
        assert(!w[i].runnable);
    }
}

/// After one run of the validator no runnable job claims a pipe that another runnable
/// job claims in the same role, so its first pass would change nothing.
pub proof fn lemma_check_leaves_no_duplicates(s: Seq<JobSpec>)
    ensures
        uniqueness_pass(pipe_check(s)) == pipe_check(s),
{
    let u = uniqueness_pass(s);
    let n = s.len() as int;
    lemma_sweep_only_disables(u, n, false);
    let v = sweep(u, n, false);
    lemma_sweep_only_disables(v, n, true);
    let r = pipe_check(s);
    assert forall|i: int| 0 <= i < n implies !duplicate_claim(r, i) by {
        if duplicate_claim(r, i) {
            let out = !(is_pipe_spec(r[i].stdin) && shares(r, i, false));
            let j = choose|j: int| 0 <= j < r.len() && j != i && r[j].runnable && stream(r[j], out) == stream(r[i], out);
            assert(u[i].runnable && u[j].runnable);
            assert(s[i].runnable && s[j].runnable);
            assert(shares(s, i, out));
            assert(duplicate_claim(s, i));
        }
    }
    assert(uniqueness_pass(r) =~= r);
}

/// Where two runnable jobs write to the same pipe, every job that reads or writes
/// that pipe is disabled by the validator.
pub proof fn lemma_duplicate_producer_disables_all(s: Seq<JobSpec>, a: int, b: int)
    requires
        0 <= a < s.len(),
        0 <= b < s.len(),
        a != b,
        s[a].runnable,
        s[b].runnable,
        is_pipe_spec(s[a].stdout),
        s[a].stdout == s[b].stdout,
    ensures
        forall|j: int|
            0 <= j < s.len() && (s[j].stdout == s[a].stdout || s[j].stdin == s[a].stdout) ==> !(
            #[trigger] pipe_check(s)[j]).runnable,
{
    let name = s[a].stdout;
    let n = s.len() as int;
    let u = uniqueness_pass(s);
    // No runnable producer of the pipe survives the first pass.
    assert forall|o: int| 0 <= o < n && u[o].stdout == name implies !u[o].runnable by {
        if s[o].runnable {
            if o != a {
                assert(stream(s[a], true) == stream(s[o], true));
                assert(shares(s, o, true));
            } else {
                assert(stream(s[b], true) == stream(s[o], true));
                assert(shares(s, o, true));
            }
            assert(duplicate_claim(s, o));
        }
    }
    lemma_sweep_len(u, n, false);
    let v = sweep(u, n, false);
    lemma_sweep_grows(u, 0, n, false);
    lemma_sweep_len(v, n, true);
    lemma_sweep_grows(v, 0, n, true);
    let w = sweep(v, n, true);
    assert(w == pipe_check(s));
    assert forall|j: int| 0 <= j < n && (s[j].stdout == name || s[j].stdin == name) implies !(
    #[trigger] pipe_check(s)[j]).runnable by {
        if s[j].stdout == name {
            assert(!u[j].runnable);
        } else {
            lemma_sweep_len(u, j, false);
            lemma_sweep_grows(u, 0, j, false);
            let t = sweep(u, j, false);
            assert(!has_user(t, name, true)) by {
                assert forall|o: int| 0 <= o < n && t[o].runnable implies stream(t[o], true) != name by {
                    assert(t[o] == u[o] || t[o] == disabled(u[o]));
                }
            }
            lemma_sweep_grows(u, j + 1, n, false);
            assert(!sweep(u, j + 1, false)[j].runnable);
        }
    }
}

/// Where one runnable job reads a pipe that no runnable job writes and no other
/// runnable job reads, while every other runnable job's pipes are consistent, the
/// validator disables that job and changes no other. (A job after it that reads a
/// pipe it writes loses its producer, and is disabled too.)
pub proof fn lemma_unmatched_consumer_disabled_alone(s: Seq<JobSpec>, i: int)
    requires
        0 <= i < s.len(),
        s[i].runnable,
        is_pipe_spec(s[i].stdin),
        forall|j: int| i < j < s.len() && s[j].runnable && is_pipe_spec(s[i].stdout) ==> s[j].stdin != s[i].stdout,
        forall|j: int| 0 <= j < s.len() && s[j].runnable ==> s[j].stdout != s[i].stdin,
        forall|j: int| 0 <= j < s.len() && j != i && s[j].runnable ==> s[j].stdin != s[i].stdin,
        forall|j: int|
            0 <= j < s.len() && j != i && #[trigger] s[j].runnable ==> {
                &&& is_pipe_spec(s[j].stdin) ==> has_user(s, s[j].stdin, true) && !shares(s, j, false)
                &&& is_pipe_spec(s[j].stdout) ==> has_user(s, s[j].stdout, false) && !shares(s, j, true)
            },
    ensures
        pipe_check(s) == s.update(i, disabled(s[i])),
{
    let n = s.len() as int;
    let t = s.update(i, disabled(s[i]));
    assert(uniqueness_pass(s) =~= s) by {
        assert forall|k: int| 0 <= k < n implies !duplicate_claim(s, k) by {
            if k == i {
                assert(!shares(s, i, false));
                if shares(s, i, true) {
                    let j = choose|j: int| 0 <= j < n && j != i && s[j].runnable && stream(s[j], true) == stream(s[i], true);
                    assert(shares(s, j, true));
                }
            }
        }
    }
    lemma_input_sweep_alone(s, i, n);
    assert forall|idx: int|
        0 <= idx < n && #[trigger] t[idx].runnable && is_pipe_spec(stream(t[idx], true)) implies has_user(
        t,
        stream(t[idx], true),
        false,
    ) by {
        assert(idx != i);
        let c = choose|c: int| 0 <= c < n && s[c].runnable && stream(s[c], false) == s[idx].stdout;
        assert(c != i);
        assert(t[c] == s[c]);
    }
    lemma_sweep_unchanged(t, n, true);
}

proof fn lemma_input_sweep_alone(s: Seq<JobSpec>, i: int, k: int)
    requires
        0 <= i < s.len(),
        0 <= k <= s.len(),
        s[i].runnable,
        is_pipe_spec(s[i].stdin),
        forall|j: int| i < j < s.len() && s[j].runnable && is_pipe_spec(s[i].stdout) ==> s[j].stdin != s[i].stdout,
        forall|j: int| 0 <= j < s.len() && s[j].runnable ==> s[j].stdout != s[i].stdin,
        forall|j: int|
            0 <= j < s.len() && j != i && #[trigger] s[j].runnable ==> {
                &&& is_pipe_spec(s[j].stdin) ==> has_user(s, s[j].stdin, true) && !shares(s, j, false)
                &&& is_pipe_spec(s[j].stdout) ==> has_user(s, s[j].stdout, false) && !shares(s, j, true)
            },
    ensures
        sweep(s, k, false) == (if k > i { s.update(i, disabled(s[i])) } else { s }),
    decreases k,
{
    if k > 0 {
        lemma_input_sweep_alone(s, i, k - 1);
        let idx = k - 1;
        let cur = sweep(s, k - 1, false);
        if idx == i {
            assert(!has_user(cur, s[i].stdin, true));
        } else if cur[idx].runnable && is_pipe_spec(cur[idx].stdin) {
            assert(cur[idx] == s[idx]);
            let o = choose|o: int| 0 <= o < s.len() && s[o].runnable && stream(s[o], true) == s[idx].stdin;
            if o == i {
                assert(idx < i);
                assert(cur == s);
            } else {
                assert(cur[o] == s[o]);
            }
            assert(has_user(cur, cur[idx].stdin, true));
        }
    }
}

} // verus!
