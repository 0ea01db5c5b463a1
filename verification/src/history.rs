use vstd::prelude::*;
use crate::text::{copy_string, str_eq};

verus! {

broadcast use vstd::string::group_string_axioms;

/// Most targets the history keeps.
pub const MAX_HISTORY: usize = 10;

/// Recently used connection targets, newest first.
#[derive(Debug, Clone)]
pub struct ConnectionHistory {
    pub targets: Vec<String>,
}

/// The characters of each string.
pub open spec fn views(v: Seq<String>) -> Seq<Seq<char>> {
    v.map_values(|s: String| s@)
}

/// `s` without the entries equal to `t`, in order.
pub open spec fn without(s: Seq<Seq<char>>, t: Seq<char>) -> Seq<Seq<char>>
    decreases s.len(),
{
    if s.len() == 0 {
        s
    } else if s.last() == t {
        without(s.drop_last(), t)
    } else {
        without(s.drop_last(), t).push(s.last())
    }
}

impl ConnectionHistory {
    /// A fresh history holds `localhost`.
    pub fn new() -> (r: ConnectionHistory)
        ensures
            views(r.targets@) == seq!["localhost"@],
    {
        let mut targets: Vec<String> = Vec::new();
        targets.push("localhost".to_string());
        assert(views(targets@) =~= seq!["localhost"@]);
        ConnectionHistory { targets }
    }
}

impl Default for ConnectionHistory {
    fn default() -> (r: ConnectionHistory)
        ensures
            views(r.targets@) == seq!["localhost"@],
    {
        ConnectionHistory::new()
    }
}

/// Moves the entries of `targets` not equal to `target` into a new vector, in order.
fn retain_other(targets: Vec<String>, target: &str) -> (r: Vec<String>)
    ensures
        views(r@) == without(views(targets@), target@),
{
    let ghost all = targets@;
    let mut kept: Vec<String> = Vec::new();
    for t in it: targets.into_iter()
        invariant
            it.seq() == all,
            views(kept@) == without(views(all.take(it.index() as int)), target@),
    {
        let ghost i = it.index();
        assert(views(all.take(i + 1)).drop_last() =~= views(all.take(i as int)));
        assert(views(all.take(i + 1)).last() == t@);
        if !str_eq(t.as_str(), target) {
            kept.push(t);
            assert(views(kept@) =~= without(views(all.take(i as int)), target@).push(t@));
        }
    }
    assert(all.take(all.len() as int) =~= all);
    kept
}

/// The history after using `target`: `target` first, then the other entries, at most ten.
pub open spec fn saved(old_targets: Seq<Seq<char>>, target: Seq<char>) -> Seq<Seq<char>> {
    let all = seq![target] + without(old_targets, target);
    if all.len() > MAX_HISTORY { all.take(MAX_HISTORY as int) } else { all }
}

/// Records `target` as the most recently used one.
pub fn save_history(history: &mut ConnectionHistory, target: &str)
    ensures
        views(final(history).targets@) == saved(views(old(history).targets@), target@),
{
    let mut old_targets: Vec<String> = Vec::new();
    std::mem::swap(&mut old_targets, &mut history.targets);
    let mut kept = retain_other(old_targets, target);
    kept.insert(0, copy_string(target));
    let ghost all = kept@;
    kept.truncate(MAX_HISTORY);
    proof {
        assert(views(all) =~= seq![target@] + without(views(old(history).targets@), target@));
        assert(views(kept@) =~= saved(views(old(history).targets@), target@));
    }
    history.targets = kept;
}

/// Adds a target (as the most recently used one).
pub fn add_target(history: &mut ConnectionHistory, target: &str)
    ensures
        views(final(history).targets@) == saved(views(old(history).targets@), target@),
{
    save_history(history, target);
}

/// The history after removing `target`; it never becomes empty.
pub open spec fn removed(old_targets: Seq<Seq<char>>, target: Seq<char>) -> Seq<Seq<char>> {
    let rest = without(old_targets, target);
    if rest.len() == 0 { seq!["localhost"@] } else { rest }
}

/// Removes `target`; an emptied history falls back to `localhost`. Returns whether the history got shorter.
pub fn remove_target(history: &mut ConnectionHistory, target: &str) -> (r: bool)
    ensures
        views(final(history).targets@) == removed(views(old(history).targets@), target@),
        r == (final(history).targets@.len() < old(history).targets@.len()),
{
    let before = history.targets.len();
    let mut old_targets: Vec<String> = Vec::new();
    std::mem::swap(&mut old_targets, &mut history.targets);
    let mut kept = retain_other(old_targets, target);
    if kept.len() == 0 {
        kept.push("localhost".to_string());
        assert(views(kept@) =~= seq!["localhost"@]);
    }
    let removed = kept.len() < before;
    history.targets = kept;
    removed
}

/// The saved targets, newest first.
pub fn list_targets(history: &ConnectionHistory) -> (r: Vec<String>)
    ensures
        views(r@) == views(history.targets@),
{
    let mut out: Vec<String> = Vec::new();
    let mut i: usize = 0;
    while i < history.targets.len()
        invariant
            i <= history.targets@.len(),
            views(out@) =~= views(history.targets@).take(i as int),
        decreases history.targets.len() - i,
    {
        let c = copy_string(history.targets[i].as_str());
        let ghost o0 = out@;
        out.push(c);
        assert(views(out@) =~= views(o0).push(history.targets@[i as int]@));
        assert(views(history.targets@).take(i + 1) =~= views(history.targets@).take(i as int).push(history.targets@[i as int]@));
        i = i + 1;
    }
    assert(views(history.targets@).take(i as int) =~= views(history.targets@));
    out
}

/// No entry occurs twice.
pub open spec fn distinct(s: Seq<Seq<char>>) -> bool {
    forall|i: int, j: int| 0 <= i < j < s.len() ==> s[i] != s[j]
}

/// What `without` keeps: exactly the entries other than `t`, each as often as before, in order.
pub proof fn lemma_without_contents(s: Seq<Seq<char>>, t: Seq<char>)
    ensures
        forall|x: Seq<char>| #[trigger] without(s, t).contains(x) <==> (s.contains(x) && x != t),
        without(s, t).len() <= s.len(),
        distinct(s) ==> distinct(without(s, t)),
    decreases s.len(),
{
    if s.len() > 0 {
        let p = s.drop_last();
        lemma_without_contents(p, t);
        assert forall|x: Seq<char>| s.contains(x) <==> (p.contains(x) || x == s.last()) by {
            if s.contains(x) {
                let i = choose|i: int| 0 <= i < s.len() && s[i] == x;
                if i < s.len() - 1 {
                    assert(p[i] == x);
                }
            }
            if p.contains(x) {
                let i = choose|i: int| 0 <= i < p.len() && p[i] == x;
                assert(s[i] == x);
            }
            if x == s.last() {
                assert(s[s.len() - 1] == x);
            }
        }
        if s.last() == t {
            assert(without(s, t) == without(p, t));
            assert forall|x: Seq<char>| #[trigger] without(s, t).contains(x) <==> (s.contains(x) && x != t) by {
                assert(without(p, t).contains(x) <==> (p.contains(x) && x != t));
            }
        }
        if s.last() != t {
            let w = without(p, t);
            assert(without(s, t) == w.push(s.last()));
            assert forall|x: Seq<char>| w.push(s.last()).contains(x) <==> (w.contains(x) || x == s.last()) by {
                if w.push(s.last()).contains(x) {
                    let i = choose|i: int| 0 <= i < w.push(s.last()).len() && w.push(s.last())[i] == x;
                    if i < w.len() {
                        assert(w[i] == x);
                    }
                }
                if w.contains(x) {
                    let i = choose|i: int| 0 <= i < w.len() && w[i] == x;
                    assert(w.push(s.last())[i] == x);
                }
                if x == s.last() {
                    assert(w.push(s.last())[w.len() as int] == x);
                }
            }
            assert forall|x: Seq<char>| #[trigger] without(s, t).contains(x) <==> (s.contains(x) && x != t) by {
                assert(w.contains(x) <==> (p.contains(x) && x != t));
                assert(w.push(s.last()).contains(x) <==> (w.contains(x) || x == s.last()));
            }
            if distinct(s) {
                assert(distinct(p)) by {
                    assert forall|i: int, j: int| 0 <= i < j < p.len() implies p[i] != p[j] by {
                        assert(s[i] == p[i] && s[j] == p[j]);
                    }
                }
                assert(!p.contains(s.last())) by {
                    if p.contains(s.last()) {
                        let i = choose|i: int| 0 <= i < p.len() && p[i] == s.last();
                        assert(s[i] == s[s.len() - 1]);
                    }
                }
                assert(!w.contains(s.last()));
                assert forall|i: int, j: int| 0 <= i < j < w.push(s.last()).len() implies w.push(
                    s.last(),
                )[i] != w.push(s.last())[j] by {
                    if j == w.len() {
                        assert(w.contains(w[i]));
                    }
                }
            }
        }
    }
}

/// Saving a target makes it the most recent entry, followed by the other entries in their old
/// order, keeps at most ten entries (the ten newest), and leaves no other copy of it.
pub proof fn lemma_saved_target_first(old_targets: Seq<Seq<char>>, target: Seq<char>)
    ensures
        saved(old_targets, target).len() >= 1,
        saved(old_targets, target)[0] == target,
        saved(old_targets, target).len() <= 10,
        forall|i: int| 1 <= i < saved(old_targets, target).len() ==> #[trigger] saved(old_targets, target)[i] != target,
        without(old_targets, target).len() >= 9 ==> saved(old_targets, target).len() == 10,
        without(old_targets, target).len() < 9 ==> saved(old_targets, target).len() == without(
            old_targets,
            target,
        ).len() + 1,
        forall|i: int| 1 <= i < saved(old_targets, target).len() ==> #[trigger] saved(old_targets, target)[i]
            == without(old_targets, target)[i - 1],
{
    lemma_without_contents(old_targets, target);
    let w = without(old_targets, target);
    let all = seq![target] + w;
    assert forall|i: int| 1 <= i < saved(old_targets, target).len() implies #[trigger] saved(old_targets, target)[i] != target by {
        assert(saved(old_targets, target)[i] == all[i]);
        assert(all[i] == w[i - 1]);
        assert(w.contains(w[i - 1]));
    }
}

/// Saving keeps the history free of repeats: each target is listed once.
pub proof fn lemma_saved_distinct(old_targets: Seq<Seq<char>>, target: Seq<char>)
    requires
        distinct(old_targets),
    ensures
        distinct(saved(old_targets, target)),
{
    lemma_without_contents(old_targets, target);
    let w = without(old_targets, target);
    let all = seq![target] + w;
    assert forall|i: int, j: int| 0 <= i < j < all.len() implies all[i] != all[j] by {
        if i == 0 {
            assert(all[j] == w[j - 1]);
            assert(w.contains(w[j - 1]));
        } else {
            assert(all[i] == w[i - 1] && all[j] == w[j - 1]);
        }
    }
    let r = saved(old_targets, target);
    assert forall|i: int, j: int| 0 <= i < j < r.len() implies r[i] != r[j] by {
        assert(r[i] == all[i] && r[j] == all[j]);
    }
}

/// Removing a target leaves at least one entry, and the target is gone unless it is the
/// `localhost` fallback.
pub proof fn lemma_removed_target_gone(old_targets: Seq<Seq<char>>, target: Seq<char>)
    ensures
        removed(old_targets, target).len() >= 1,
        target != "localhost"@ ==> !removed(old_targets, target).contains(target),
{
    lemma_without_contents(old_targets, target);
    let r = removed(old_targets, target);
    if without(old_targets, target).len() == 0 && target != "localhost"@ {
        assert(r =~= seq!["localhost"@]);
        if r.contains(target) {
            let i = choose|i: int| 0 <= i < r.len() && r[i] == target;
            assert(r[i] == "localhost"@);
        }
    }
}

} // verus!
