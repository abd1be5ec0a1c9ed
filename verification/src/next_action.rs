use vstd::prelude::*;

use crate::ids::TmplID;
use crate::input::VirtualKey;

verus! {

/// What the choice of the next action reads of the current action.
#[derive(Debug, Clone, Copy, PartialEq, Eq, Structural)]
pub struct CurrentAction {
    pub tmpl_id: TmplID,
    /// The current action may derive into itself.
    pub derive_self: bool,
    pub derive_level: u16,
    /// The current action is running (its derive level only counts then).
    pub running: bool,
}

/// A way into an action: a derive rule of the current action, or an action
/// that a key enters directly.  `action` is the handle of the action's
/// template, `enter_level` the level that action enters at, `level` the
/// level this way enters at, and `dir_ok` whether the input direction lies
/// in the range the way asks for (true when it asks for none).
#[derive(Debug, Clone, Copy)]
pub struct EnterRule<A> {
    pub action: A,
    pub tmpl_id: TmplID,
    pub enter_level: u16,
    pub level: u16,
    pub dir_ok: bool,
}

/// The action a character is about to switch to, with the level its
/// template enters at, the key that led to it, the input direction and
/// whether it switches at once.
#[derive(Debug, Clone, Copy)]
pub struct NextAction<A, D> {
    pub action: A,
    pub enter_level: u16,
    pub key: VirtualKey,
    pub dir: Option<D>,
    pub quick_switch: bool,
}

impl<A, D> NextAction<A, D> {
    /// An action entered by `key` in the direction `dir`.
    pub fn new(action: A, enter_level: u16, key: VirtualKey, dir: D, quick_switch: bool) -> (r: Self)
        ensures
            r == (NextAction { action, enter_level, key, dir: Some(dir), quick_switch }),
    {
        NextAction { action, enter_level, key, dir: Some(dir), quick_switch }
    }

    /// The idle action, entered by the idle key without a direction.
    pub fn new_idle(action: A, enter_level: u16) -> (r: Self)
        ensures
            r == (NextAction::<A, D> { action, enter_level, key: VirtualKey::Idle, dir: None, quick_switch: false }),
    {
        NextAction { action, enter_level, key: VirtualKey::Idle, dir: None, quick_switch: false }
    }
}

/// Whether a way may be taken from the current action whose derive level
/// counts as `derive_level`: it leads to another action (or the current one
/// derives into itself), it enters above that level, and the direction fits.
pub open spec fn may_enter<A>(cur: CurrentAction, derive_level: u16, rule: EnterRule<A>) -> bool {
    &&& cur.derive_self || rule.tmpl_id != cur.tmpl_id
    &&& rule.level > derive_level
    &&& rule.dir_ok
}

/// The position of the first way in `rules` that may be taken.
pub open spec fn first_enterable<A>(cur: CurrentAction, derive_level: u16, rules: Seq<EnterRule<A>>) -> Option<
    int,
>
    decreases rules.len(),
{
    if rules.len() == 0 {
        None
    } else {
        match first_enterable(cur, derive_level, rules.drop_last()) {
            Some(i) => Some(i),
            None => if may_enter(cur, derive_level, rules.last()) {
                Some(rules.len() - 1)
            } else {
                None
            },
        }
    }
}

/// What taking `rule` gives when `candidate` was found before: the candidate
/// stays when its action enters at least as high as the way does.
pub open spec fn prefer<A, D>(candidate: Option<NextAction<A, D>>, rule: EnterRule<A>, key: VirtualKey, dir: D) -> Option<
    NextAction<A, D>,
> {
    match candidate {
        Some(c) => if c.enter_level >= rule.level {
            candidate
        } else {
            Some(NextAction { action: rule.action, enter_level: rule.enter_level, key, dir: Some(dir), quick_switch: true })
        },
        None => Some(
            NextAction { action: rule.action, enter_level: rule.enter_level, key, dir: Some(dir), quick_switch: true },
        ),
    }
}

/// The derive level that counts for the current action.
pub open spec fn counted_level(cur: CurrentAction) -> u16 {
    if cur.running {
        cur.derive_level
    } else {
        0
    }
}

/// The next action for one input key: first the ways kept from an earlier
/// action (when `keeping_level` holds that action's derive level), then the
/// current action's derive rules, then the actions the key enters directly.
/// The first way that may be taken is weighed against `candidate`; when no
/// way may be taken, `candidate` stays.
pub open spec fn spec_find_next_action<A, D>(
    cur: CurrentAction,
    candidate: Option<NextAction<A, D>>,
    keeping_level: Option<u16>,
    keeping_rules: Seq<EnterRule<A>>,
    derive_rules: Seq<EnterRule<A>>,
    primary_rules: Seq<EnterRule<A>>,
    key: VirtualKey,
    dir: D,
) -> Option<NextAction<A, D>> {
    let kept = match keeping_level {
        Some(kl) => first_enterable(cur, kl, keeping_rules),
        None => None,
    };
    match kept {
        Some(i) => prefer(candidate, keeping_rules[i], key, dir),
        None => match first_enterable(cur, counted_level(cur), derive_rules) {
            Some(i) => prefer(candidate, derive_rules[i], key, dir),
            None => match first_enterable(cur, counted_level(cur), primary_rules) {
                Some(i) => prefer(candidate, primary_rules[i], key, dir),
                None => candidate,
            },
        },
    }
}

proof fn lemma_first_enterable_bound<A>(cur: CurrentAction, derive_level: u16, rules: Seq<EnterRule<A>>)
    ensures
        first_enterable(cur, derive_level, rules) matches Some(i) ==> 0 <= i < rules.len() && may_enter(
            cur,
            derive_level,
            rules[i],
        ),
    decreases rules.len(),
{
    if rules.len() > 0 {
        lemma_first_enterable_bound(cur, derive_level, rules.drop_last());
        if let Some(i) = first_enterable(cur, derive_level, rules.drop_last()) {
            assert(rules.drop_last()[i] == rules[i]);
        }
    }
}

/// The position of the first way in `rules` that may be taken.
fn find_enterable<A>(cur: &CurrentAction, derive_level: u16, rules: &Vec<EnterRule<A>>) -> (r: Option<usize>)
    ensures
        r matches Some(i) ==> first_enterable(*cur, derive_level, rules@) == Some(i as int),
        r is None ==> first_enterable(*cur, derive_level, rules@) is None,
{
    let mut i: usize = 0;
    while i < rules.len()
        invariant
            i <= rules@.len(),
            first_enterable(*cur, derive_level, rules@.take(i as int)) is None,
        decreases rules@.len() - i,
    {
        proof {
            assert(rules@.take(i + 1).drop_last() =~= rules@.take(i as int));
            assert(rules@.take(i + 1).last() == rules@[i as int]);
        }
        let rule = &rules[i];
        if (cur.derive_self || rule.tmpl_id != cur.tmpl_id) && rule.level > derive_level && rule.dir_ok {
            proof {
                lemma_first_prefix(*cur, derive_level, rules@, i + 1);
            }
            return Some(i);
        }
        i = i + 1;
    }
    proof {
        assert(rules@.take(rules@.len() as int) =~= rules@);
    }
    None
}

/// A way found in a prefix is the first of the whole sequence too.
proof fn lemma_first_prefix<A>(cur: CurrentAction, derive_level: u16, rules: Seq<EnterRule<A>>, k: int)
    requires
        0 <= k <= rules.len(),
        first_enterable(cur, derive_level, rules.take(k)) is Some,
    ensures
        first_enterable(cur, derive_level, rules) == first_enterable(cur, derive_level, rules.take(k)),
    decreases rules.len(),
{
    if rules.len() == k {
        assert(rules.take(k) =~= rules);
    } else {
        assert(rules.drop_last().take(k) =~= rules.take(k));
        lemma_first_prefix(cur, derive_level, rules.drop_last(), k);
    }
}

/// Weighs the way `rule` against the action found before.
fn prefer_rule<A: Copy, D>(candidate: Option<NextAction<A, D>>, rule: &EnterRule<A>, key: VirtualKey, dir: D) -> (r: Option<
    NextAction<A, D>,
>)
    ensures
        r == prefer(candidate, *rule, key, dir),
{
    match &candidate {
        Some(c) => {
            if c.enter_level >= rule.level {
                return candidate;
            }
        },
        None => {},
    }
    Some(NextAction { action: rule.action, enter_level: rule.enter_level, key, dir: Some(dir), quick_switch: true })
}

/// Picks the action that an input key leads to from the current action.
pub fn find_next_action<A: Copy, D>(
    cur: &CurrentAction,
    candidate: Option<NextAction<A, D>>,
    keeping_level: Option<u16>,
    keeping_rules: &Vec<EnterRule<A>>,
    derive_rules: &Vec<EnterRule<A>>,
    primary_rules: &Vec<EnterRule<A>>,
    key: VirtualKey,
    dir: D,
) -> (r: Option<NextAction<A, D>>)
    ensures
        r == spec_find_next_action(
            *cur,
            candidate,
            keeping_level,
            keeping_rules@,
            derive_rules@,
            primary_rules@,
            key,
            dir,
        ),
{
    proof {
        lemma_first_enterable_bound(*cur, counted_level(*cur), derive_rules@);
        lemma_first_enterable_bound(*cur, counted_level(*cur), primary_rules@);
    }
    let ghost kept = match keeping_level {
        Some(kl) => first_enterable(*cur, kl, keeping_rules@),
        None => None,
    };
    match keeping_level {
        Some(kl) => {
            proof {
                lemma_first_enterable_bound(*cur, kl, keeping_rules@);
            }
            match find_enterable(cur, kl, keeping_rules) {
                Some(i) => {
                    assert(kept == Some(i as int));
                    return prefer_rule(candidate, &keeping_rules[i], key, dir);
                },
                None => {},
            }
        },
        None => {},
    }
    assert(kept is None);
    let derive_level = if cur.running {
        cur.derive_level
    } else {
        0
    };
    match find_enterable(cur, derive_level, derive_rules) {
        Some(i) => {
            assert(first_enterable(*cur, counted_level(*cur), derive_rules@) == Some(i as int));
            return prefer_rule(candidate, &derive_rules[i], key, dir);
        },
        None => {},
    }
    assert(first_enterable(*cur, counted_level(*cur), derive_rules@) is None);
    match find_enterable(cur, derive_level, primary_rules) {
        Some(i) => {
            assert(first_enterable(*cur, counted_level(*cur), primary_rules@) == Some(i as int));
            prefer_rule(candidate, &primary_rules[i], key, dir)
        },
        None => candidate,
    }
}

/// Whatever the key, the next action is either the candidate found before
/// or an action whose way enters strictly above the derive level that
/// counts (the current action's while it runs, else 0) or above the kept
/// level, and a candidate is only replaced by one that enters higher than
/// it.
pub proof fn lemma_next_action_enters_higher<A, D>(
    cur: CurrentAction,
    candidate: Option<NextAction<A, D>>,
    keeping_level: Option<u16>,
    keeping_rules: Seq<EnterRule<A>>,
    derive_rules: Seq<EnterRule<A>>,
    primary_rules: Seq<EnterRule<A>>,
    key: VirtualKey,
    dir: D,
)
    ensures
        ({
            let r = spec_find_next_action(
                cur,
                candidate,
                keeping_level,
                keeping_rules,
                derive_rules,
                primary_rules,
                key,
                dir,
            );
            r == candidate || exists|rule: EnterRule<A>|
                #![trigger prefer(candidate, rule, key, dir)]
                {
                    &&& r == prefer(candidate, rule, key, dir)
                    &&& rule.dir_ok
                    &&& cur.derive_self || rule.tmpl_id != cur.tmpl_id
                    &&& r != candidate ==> r == Some(
                        NextAction { action: rule.action, enter_level: rule.enter_level, key, dir: Some(dir), quick_switch: true },
                    )
                    &&& r != candidate && candidate is Some ==> candidate->Some_0.enter_level < rule.level
                    &&& r != candidate ==> rule.level > (if cur.running {
                        cur.derive_level
                    } else {
                        0u16
                    }) || (keeping_level matches Some(kl) && rule.level > kl)
                }
        }),
{
    lemma_first_enterable_bound(cur, counted_level(cur), derive_rules);
    lemma_first_enterable_bound(cur, counted_level(cur), primary_rules);
    if let Some(kl) = keeping_level {
        lemma_first_enterable_bound(cur, kl, keeping_rules);
    }
    let kept = match keeping_level {
        Some(kl) => first_enterable(cur, kl, keeping_rules),
        None => None,
    };
    match kept {
        Some(i) => {
            let rule = keeping_rules[i];
            assert(prefer(candidate, rule, key, dir) == prefer(candidate, rule, key, dir));
        },
        None => match first_enterable(cur, counted_level(cur), derive_rules) {
            Some(i) => {
                let rule = derive_rules[i];
                assert(prefer(candidate, rule, key, dir) == prefer(candidate, rule, key, dir));
            },
            None => match first_enterable(cur, counted_level(cur), primary_rules) {
                Some(i) => {
                    let rule = primary_rules[i];
                    assert(prefer(candidate, rule, key, dir) == prefer(candidate, rule, key, dir));
                },
                None => {},
            },
        },
    }
}

/// The first way of a list that may be taken is the one at `i` exactly when
/// it may be taken and no way before it may; there is none exactly when no
/// way of the list may be taken.
proof fn lemma_first_enterable_explicit<A>(cur: CurrentAction, level: u16, rules: Seq<EnterRule<A>>)
    ensures
        match first_enterable(cur, level, rules) {
            Some(i) => first_open(cur, level, rules, i),
            None => none_open(cur, level, rules),
        },
    decreases rules.len(),
{
    if rules.len() > 0 {
        let prev = rules.drop_last();
        lemma_first_enterable_explicit(cur, level, prev);
        let n = rules.len() - 1;
        match first_enterable(cur, level, prev) {
            Some(i) => {
                assert(prev[i] == rules[i]);
                assert forall|j: int| 0 <= j < i implies !way_open(cur, level, #[trigger] rules[j]) by {
                    assert(prev[j] == rules[j]);
                }
            },
            None => {
                assert(rules.last() == rules[n]);
                assert forall|j: int| 0 <= j < n implies !way_open(cur, level, #[trigger] rules[j]) by {
                    assert(prev[j] == rules[j]);
                }
            },
        }
    }
}

/// Whether the way `rule` may be taken from `cur` when the derive level
/// that counts is `level`.
pub open spec fn way_open<A>(cur: CurrentAction, level: u16, rule: EnterRule<A>) -> bool {
    (cur.derive_self || rule.tmpl_id != cur.tmpl_id) && rule.level > level && rule.dir_ok
}

/// The `i`-th way of `rules` is the first that may be taken.
pub open spec fn first_open<A>(cur: CurrentAction, level: u16, rules: Seq<EnterRule<A>>, i: int) -> bool {
    &&& 0 <= i < rules.len()
    &&& way_open(cur, level, rules[i])
    &&& forall|j: int| 0 <= j < i ==> !way_open(cur, level, #[trigger] rules[j])
}

/// No way of `rules` may be taken.
pub open spec fn none_open<A>(cur: CurrentAction, level: u16, rules: Seq<EnterRule<A>>) -> bool {
    forall|j: int| 0 <= j < rules.len() ==> !way_open(cur, level, #[trigger] rules[j])
}

/// What taking `rule` by `key` in `dir` gives after `candidate`: the
/// candidate when its action enters at least as high as the way, else the
/// way's action, entered at once.
pub open spec fn taken<A, D>(candidate: Option<NextAction<A, D>>, rule: EnterRule<A>, key: VirtualKey, dir: D) -> Option<
    NextAction<A, D>,
> {
    if candidate is Some && candidate->Some_0.enter_level >= rule.level {
        candidate
    } else {
        Some(NextAction { action: rule.action, enter_level: rule.enter_level, key, dir: Some(dir), quick_switch: true })
    }
}

/// The choice of the next action, rule by rule.  The derive level that
/// counts is the current action's while it runs and 0 otherwise.  The ways
/// kept from an earlier action are tried first, against the kept level;
/// then the current action's derive rules and then the actions the key
/// enters directly, both against the counted level.  The first way that may
/// be taken (it leads elsewhere unless the action derives into itself, it
/// enters strictly above the level, and the direction fits) is weighed
/// against the candidate; when no way may be taken, the candidate stays.
pub proof fn lemma_next_action_choice<A, D>(
    cur: CurrentAction,
    candidate: Option<NextAction<A, D>>,
    keeping_level: Option<u16>,
    keeping_rules: Seq<EnterRule<A>>,
    derive_rules: Seq<EnterRule<A>>,
    primary_rules: Seq<EnterRule<A>>,
    key: VirtualKey,
    dir: D,
)
    ensures
        ({
            let r = spec_find_next_action(
                cur,
                candidate,
                keeping_level,
                keeping_rules,
                derive_rules,
                primary_rules,
                key,
                dir,
            );
            let level: u16 = if cur.running {
                cur.derive_level
            } else {
                0
            };
            let kept_closed = match keeping_level {
                Some(kl) => none_open(cur, kl, keeping_rules),
                None => true,
            };
            &&& forall|i: int|
                #![trigger keeping_rules[i]]
                keeping_level matches Some(kl) && first_open(cur, kl, keeping_rules, i) ==> r == taken(
                    candidate,
                    keeping_rules[i],
                    key,
                    dir,
                )
            &&& forall|i: int|
                #![trigger derive_rules[i]]
                kept_closed && first_open(cur, level, derive_rules, i) ==> r == taken(
                    candidate,
                    derive_rules[i],
                    key,
                    dir,
                )
            &&& forall|i: int|
                #![trigger primary_rules[i]]
                kept_closed && none_open(cur, level, derive_rules) && first_open(
                    cur,
                    level,
                    primary_rules,
                    i,
                ) ==> r == taken(candidate, primary_rules[i], key, dir)
            &&& kept_closed && none_open(cur, level, derive_rules) && none_open(cur, level, primary_rules)
                ==> r == candidate
        }),
{
    let level = counted_level(cur);
    lemma_first_enterable_explicit(cur, level, derive_rules);
    lemma_first_enterable_explicit(cur, level, primary_rules);
    if let Some(kl) = keeping_level {
        lemma_first_enterable_explicit(cur, kl, keeping_rules);
        first_unique(cur, kl, keeping_rules);
    }
    first_unique(cur, level, derive_rules);
    first_unique(cur, level, primary_rules);
}

proof fn first_unique<A>(cur: CurrentAction, level: u16, rules: Seq<EnterRule<A>>)
    ensures
        forall|i: int| #[trigger] first_open(cur, level, rules, i) ==> first_enterable(cur, level, rules) == Some(i),
        none_open(cur, level, rules) ==> first_enterable(cur, level, rules) is None,
{
    lemma_first_enterable_explicit(cur, level, rules);
    assert forall|i: int| #[trigger] first_open(cur, level, rules, i) implies first_enterable(cur, level, rules)
        == Some(i) by {
        match first_enterable(cur, level, rules) {
            Some(k) => {
                if k < i {
                    assert(!way_open(cur, level, rules[k]));
                } else if k > i {
                    assert(!way_open(cur, level, rules[i]));
                }
            },
            None => {
                assert(!way_open(cur, level, rules[i]));
            },
        }
    }
    if none_open(cur, level, rules) {
        if let Some(k) = first_enterable(cur, level, rules) {
            assert(way_open(cur, level, rules[k]));
        }
    }
}

} // verus!
