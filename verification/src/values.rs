//! The action value store: one typed accumulator per action, plus an optional
//! per-subaction-path breakdown held as an association list keyed by path id.
//!
//! Accumulators are reset to the neutral element of their kind exactly once
//! per tick, before any device evaluator runs; evaluators then only OR or add
//! into them.  A path accumulator is created, at its neutral value, the first
//! time something accumulates into it.

use vstd::prelude::*;

verus! {

/// The value a lookup in an association list of path accumulators yields:
/// the value of the first entry with the given key, if any.
pub open spec fn path_entry<V>(entries: Seq<(usize, V)>, id: usize) -> Option<V>
    decreases entries.len(),
{
    if entries.len() == 0 {
        None
    } else if entries[0].0 == id {
        Some(entries[0].1)
    } else {
        path_entry(entries.drop_first(), id)
    }
}

/// Each path id appears at most once among the entries.
pub open spec fn keys_unique<V>(entries: Seq<(usize, V)>) -> bool {
    forall|i: int, j: int|
        0 <= i < j < entries.len() ==> (#[trigger] entries[i]).0 != (#[trigger] entries[j]).0
}

/// A successful lookup names the value of some entry with the looked-up key.
pub proof fn lemma_path_entry_some_exists<V>(entries: Seq<(usize, V)>, id: usize)
    ensures
        path_entry(entries, id) matches Some(v) ==> exists|k: int|
            0 <= k < entries.len() && (#[trigger] entries[k]) == (id, v),
    decreases entries.len(),
{
    if entries.len() > 0 && entries[0].0 != id {
        lemma_path_entry_some_exists(entries.drop_first(), id);
        if let Some(v) = path_entry(entries, id) {
            let k = choose|k: int|
                0 <= k < entries.drop_first().len() && (#[trigger] entries.drop_first()[k]) == (
                id,
                v,
                );
            assert(entries[k + 1] == (id, v));
        }
    }
}

/// Looking up a key held by no entry yields nothing.
pub proof fn lemma_path_entry_absent<V>(entries: Seq<(usize, V)>, id: usize)
    requires
        forall|k: int| 0 <= k < entries.len() ==> (#[trigger] entries[k]).0 != id,
    ensures
        path_entry(entries, id) is None,
    decreases entries.len(),
{
    if entries.len() > 0 {
        lemma_path_entry_absent(entries.drop_first(), id);
    }
}

/// With unique keys, a lookup finds exactly the entry that holds its key.
pub proof fn lemma_path_entry_found<V>(entries: Seq<(usize, V)>, id: usize, k: int)
    requires
        keys_unique(entries),
        0 <= k < entries.len(),
        entries[k].0 == id,
    ensures
        path_entry(entries, id) == Some(entries[k].1),
    decreases entries.len(),
{
    if k == 0 {
    } else {
        assert(entries[0].0 != id);
        lemma_path_entry_found(entries.drop_first(), id, k - 1);
        assert(entries.drop_first()[k - 1] == entries[k]);
    }
}

/// Appending an entry changes only lookups of its key, and those only if the
/// key was absent.
pub proof fn lemma_path_entry_push<V>(entries: Seq<(usize, V)>, p: (usize, V), id: usize)
    ensures
        path_entry(entries.push(p), id) == (match path_entry(entries, id) {
            Some(v) => Some(v),
            None => if p.0 == id {
                Some(p.1)
            } else {
                None
            },
        }),
    decreases entries.len(),
{
    if entries.len() == 0 {
        assert(entries.push(p)[0] == p);
        assert(entries.push(p).drop_first() =~= Seq::<(usize, V)>::empty());
        assert(path_entry(Seq::<(usize, V)>::empty(), id) is None);
    } else {
        assert(entries.push(p).drop_first() =~= entries.drop_first().push(p));
        lemma_path_entry_push(entries.drop_first(), p, id);
    }
}

/// Overwriting the value of one entry changes only lookups of its key.
pub proof fn lemma_path_entry_update<V>(entries: Seq<(usize, V)>, k: int, v: V, id: usize)
    requires
        keys_unique(entries),
        0 <= k < entries.len(),
    ensures
        path_entry(entries.update(k, (entries[k].0, v)), id) == (if entries[k].0 == id {
            Some(v)
        } else {
            path_entry(entries, id)
        }),
        keys_unique(entries.update(k, (entries[k].0, v))),
    decreases entries.len(),
{
    let updated = entries.update(k, (entries[k].0, v));
    assert(forall|i: int| 0 <= i < entries.len() ==> (#[trigger] updated[i]).0 == entries[i].0);
    if k == 0 {
        assert(updated.drop_first() =~= entries.drop_first());
    } else {
        assert(updated.drop_first() =~= entries.drop_first().update(k - 1, (entries[k].0, v)));
        assert(entries.drop_first()[k - 1] == entries[k]);
        lemma_path_entry_update(entries.drop_first(), k - 1, v, id);
    }
}

/// Find the index of the entry holding `id`, if one exists.
fn assoc_find<V>(entries: &Vec<(usize, V)>, id: usize) -> (r: Option<usize>)
    ensures
        match r {
            Some(k) => k < entries@.len() && entries@[k as int].0 == id,
            None => forall|k: int| 0 <= k < entries@.len() ==> (#[trigger] entries@[k]).0 != id,
        },
{
    let mut k: usize = 0;
    while k < entries.len()
        invariant
            k <= entries@.len(),
            forall|j: int| 0 <= j < k ==> (#[trigger] entries@[j]).0 != id,
        decreases entries@.len() - k,
    {
        if entries[k].0 == id {
            return Some(k);
        }
        k += 1;
    }
    None
}

/// The accumulator of a boolean action: a tick-wide OR of its contributions.
#[derive(Clone, Debug)]
pub struct BoolActionValue {
    /// Whether any binding of the action fired this tick.
    pub any: bool,
    /// The per-subaction-path breakdown, keyed by path id.
    pub paths: Vec<(usize, bool)>,
}

/// The accumulator of a scalar action: a tick-wide sum, in fixed-point units.
#[derive(Clone, Debug)]
pub struct ScalarActionValue {
    /// The sum of every contribution this tick.
    pub total: i128,
    /// The per-subaction-path breakdown, keyed by path id.
    pub paths: Vec<(usize, i128)>,
}

/// The accumulator of a 2D-vector action.  +X is right, +Y is up.
#[derive(Clone, Debug)]
pub struct Vec2ActionValue {
    /// The X component of the sum of every contribution this tick.
    pub x: i128,
    /// The Y component of the sum of every contribution this tick.
    pub y: i128,
    /// The per-subaction-path breakdown, keyed by path id.
    pub paths: Vec<(usize, (i128, i128))>,
}

/// The value a boolean action's breakdown holds for a path: neutral (false)
/// while nothing has accumulated there.
pub open spec fn bool_at(v: BoolActionValue, id: usize) -> bool {
    match path_entry(v.paths@, id) {
        Some(b) => b,
        None => false,
    }
}

/// The value a scalar action's breakdown holds for a path: neutral (0) while
/// nothing has accumulated there.
pub open spec fn scalar_at(v: ScalarActionValue, id: usize) -> int {
    match path_entry(v.paths@, id) {
        Some(x) => x as int,
        None => 0,
    }
}

/// The value a vector action's breakdown holds for a path: neutral ((0, 0))
/// while nothing has accumulated there.
pub open spec fn vec2_at(v: Vec2ActionValue, id: usize) -> (int, int) {
    match path_entry(v.paths@, id) {
        Some(p) => (p.0 as int, p.1 as int),
        None => (0, 0),
    }
}

impl BoolActionValue {
    /// A fresh accumulator, neutral and with no breakdown entries.
    pub fn new() -> (r: BoolActionValue)
        ensures
            r.any == false,
            r.paths@ == Seq::<(usize, bool)>::empty(),
    {
        BoolActionValue { any: false, paths: Vec::new() }
    }

    /// Reset the total and every existing path accumulator to neutral.
    pub fn reset(&mut self)
        ensures
            final(self).any == false,
            final(self).paths@.len() == old(self).paths@.len(),
            forall|k: int|
                0 <= k < old(self).paths@.len() ==> (#[trigger] final(self).paths@[k]) == (
                old(self).paths@[k].0,
                false,
            ),
            forall|id: usize| #[trigger] bool_at(*final(self), id) == false,
            keys_unique(old(self).paths@) ==> keys_unique(final(self).paths@),
    {
        self.any = false;
        let n = self.paths.len();
        let mut k: usize = 0;
        while k < n
            invariant
                n == self.paths@.len(),
                n == old(self).paths@.len(),
                k <= n,
                forall|j: int| k <= j < n ==> #[trigger] self.paths@[j] == old(self).paths@[j],
                forall|j: int|
                    0 <= j < k ==> (#[trigger] self.paths@[j]) == (old(self).paths@[j].0, false),
                self.any == false,
            decreases n - k,
        {
            let id = self.paths[k].0;
            self.paths[k] = (id, false);
            k += 1;
        }
        proof {
            assert forall|id: usize| #[trigger] bool_at(*self, id) == false by {
                lemma_path_entry_some_exists(self.paths@, id);
            }
        }
    }

    /// OR a contribution into the total.
    pub fn accumulate(&mut self, b: bool)
        ensures
            final(self).any == (old(self).any || b),
            final(self).paths@ == old(self).paths@,
    {
        self.any = self.any || b;
    }

    /// OR a contribution into the accumulator of one path, creating it at
    /// neutral first if it does not exist yet.
    pub fn accumulate_at_path(&mut self, id: usize, b: bool)
        requires
            keys_unique(old(self).paths@),
        ensures
            keys_unique(final(self).paths@),
            final(self).any == old(self).any,
            bool_at(*final(self), id) == (bool_at(*old(self), id) || b),
            forall|id2: usize|
                id2 != id ==> #[trigger] bool_at(*final(self), id2) == bool_at(*old(self), id2),
    {
        match assoc_find(&self.paths, id) {
            Some(k) => {
                let cur = self.paths[k].1;
                self.paths[k] = (id, cur || b);
                proof {
                    lemma_path_entry_found(old(self).paths@, id, k as int);
                    assert(self.paths@ =~= old(self).paths@.update(
                        k as int,
                        (old(self).paths@[k as int].0, cur || b),
                    ));
                    assert forall|id2: usize| true implies #[trigger] path_entry(
                        self.paths@,
                        id2,
                    ) == (if id2 == id {
                        Some(cur || b)
                    } else {
                        path_entry(old(self).paths@, id2)
                    }) by {
                        lemma_path_entry_update(old(self).paths@, k as int, cur || b, id2);
                    }
                }
            },
            None => {
                self.paths.push((id, b));
                proof {
                    lemma_path_entry_absent(old(self).paths@, id);
                    assert forall|id2: usize| true implies #[trigger] path_entry(
                        self.paths@,
                        id2,
                    ) == (if id2 == id {
                        Some(b)
                    } else {
                        path_entry(old(self).paths@, id2)
                    }) by {
                        lemma_path_entry_push(old(self).paths@, (id, b), id2);
                    }
                    assert forall|i: int, j: int|
                        0 <= i < j < self.paths@.len() implies (#[trigger] self.paths@[i]).0 != (
                        #[trigger] self.paths@[j]).0 by {
                        if j + 1 == self.paths@.len() {
                            assert(self.paths@[i].0 == old(self).paths@[i].0);
                        }
                    }
                }
            },
        }
    }
}

impl ScalarActionValue {
    /// A fresh accumulator, neutral and with no breakdown entries.
    pub fn new() -> (r: ScalarActionValue)
        ensures
            r.total == 0,
            r.paths@ == Seq::<(usize, i128)>::empty(),
    {
        ScalarActionValue { total: 0, paths: Vec::new() }
    }

    /// Reset the total and every existing path accumulator to neutral.
    pub fn reset(&mut self)
        ensures
            final(self).total == 0,
            final(self).paths@.len() == old(self).paths@.len(),
            forall|k: int|
                0 <= k < old(self).paths@.len() ==> (#[trigger] final(self).paths@[k]) == (
                old(self).paths@[k].0,
                0i128,
            ),
            forall|id: usize| #[trigger] scalar_at(*final(self), id) == 0,
            keys_unique(old(self).paths@) ==> keys_unique(final(self).paths@),
    {
        self.total = 0;
        let n = self.paths.len();
        let mut k: usize = 0;
        while k < n
            invariant
                n == self.paths@.len(),
                n == old(self).paths@.len(),
                k <= n,
                forall|j: int| k <= j < n ==> #[trigger] self.paths@[j] == old(self).paths@[j],
                forall|j: int|
                    0 <= j < k ==> (#[trigger] self.paths@[j]) == (old(self).paths@[j].0, 0i128),
                self.total == 0,
            decreases n - k,
        {
            let id = self.paths[k].0;
            self.paths[k] = (id, 0i128);
            k += 1;
        }
        proof {
            assert forall|id: usize| #[trigger] scalar_at(*self, id) == 0 by {
                lemma_path_entry_some_exists(self.paths@, id);
            }
        }
    }

    /// Add a contribution to the total.
    pub fn accumulate(&mut self, d: i128)
        requires
            i128::MIN <= old(self).total + d <= i128::MAX,
        ensures
            final(self).total == old(self).total + d,
            final(self).paths@ == old(self).paths@,
    {
        self.total = self.total + d;
    }

    /// Add a contribution to the accumulator of one path, creating it at
    /// neutral first if it does not exist yet.
    pub fn accumulate_at_path(&mut self, id: usize, d: i128)
        requires
            keys_unique(old(self).paths@),
            i128::MIN <= scalar_at(*old(self), id) + d <= i128::MAX,
        ensures
            keys_unique(final(self).paths@),
            final(self).total == old(self).total,
            scalar_at(*final(self), id) == scalar_at(*old(self), id) + d,
            forall|id2: usize|
                id2 != id ==> #[trigger] scalar_at(*final(self), id2) == scalar_at(*old(self), id2),
    {
        match assoc_find(&self.paths, id) {
            Some(k) => {
                proof {
                    lemma_path_entry_found(old(self).paths@, id, k as int);
                }
                let cur = self.paths[k].1;
                self.paths[k] = (id, cur + d);
                proof {
                    assert(self.paths@ =~= old(self).paths@.update(
                        k as int,
                        (old(self).paths@[k as int].0, (cur + d) as i128),
                    ));
                    assert forall|id2: usize| true implies #[trigger] path_entry(
                        self.paths@,
                        id2,
                    ) == (if id2 == id {
                        Some((cur + d) as i128)
                    } else {
                        path_entry(old(self).paths@, id2)
                    }) by {
                        lemma_path_entry_update(
                            old(self).paths@,
                            k as int,
                            (cur + d) as i128,
                            id2,
                        );
                    }
                }
            },
            None => {
                proof {
                    lemma_path_entry_absent(old(self).paths@, id);
                }
                self.paths.push((id, d));
                proof {
                    assert forall|id2: usize| true implies #[trigger] path_entry(
                        self.paths@,
                        id2,
                    ) == (if id2 == id {
                        Some(d)
                    } else {
                        path_entry(old(self).paths@, id2)
                    }) by {
                        lemma_path_entry_push(old(self).paths@, (id, d), id2);
                    }
                    assert forall|i: int, j: int|
                        0 <= i < j < self.paths@.len() implies (#[trigger] self.paths@[i]).0 != (
                        #[trigger] self.paths@[j]).0 by {
                        if j + 1 == self.paths@.len() {
                            assert(self.paths@[i].0 == old(self).paths@[i].0);
                        }
                    }
                }
            },
        }
    }
}

impl Vec2ActionValue {
    /// A fresh accumulator, neutral and with no breakdown entries.
    pub fn new() -> (r: Vec2ActionValue)
        ensures
            r.x == 0,
            r.y == 0,
            r.paths@ == Seq::<(usize, (i128, i128))>::empty(),
    {
        Vec2ActionValue { x: 0, y: 0, paths: Vec::new() }
    }

    /// Reset the total and every existing path accumulator to neutral.
    pub fn reset(&mut self)
        ensures
            final(self).x == 0,
            final(self).y == 0,
            final(self).paths@.len() == old(self).paths@.len(),
            forall|k: int|
                0 <= k < old(self).paths@.len() ==> (#[trigger] final(self).paths@[k]) == (
                old(self).paths@[k].0,
                (0i128, 0i128),
            ),
            forall|id: usize| #[trigger] vec2_at(*final(self), id) == (0int, 0int),
            keys_unique(old(self).paths@) ==> keys_unique(final(self).paths@),
    {
        self.x = 0;
        self.y = 0;
        let n = self.paths.len();
        let mut k: usize = 0;
        while k < n
            invariant
                n == self.paths@.len(),
                n == old(self).paths@.len(),
                k <= n,
                forall|j: int| k <= j < n ==> #[trigger] self.paths@[j] == old(self).paths@[j],
                forall|j: int|
                    0 <= j < k ==> (#[trigger] self.paths@[j]) == (
                    old(self).paths@[j].0,
                    (0i128, 0i128),
                ),
                self.x == 0,
                self.y == 0,
            decreases n - k,
        {
            let id = self.paths[k].0;
            self.paths[k] = (id, (0i128, 0i128));
            k += 1;
        }
        proof {
            assert forall|id: usize| #[trigger] vec2_at(*self, id) == (0int, 0int) by {
                lemma_path_entry_some_exists(self.paths@, id);
            }
        }
    }

    /// Add a contribution to both components of the total.
    pub fn accumulate(&mut self, dx: i128, dy: i128)
        requires
            i128::MIN <= old(self).x + dx <= i128::MAX,
            i128::MIN <= old(self).y + dy <= i128::MAX,
        ensures
            final(self).x == old(self).x + dx,
            final(self).y == old(self).y + dy,
            final(self).paths@ == old(self).paths@,
    {
        self.x = self.x + dx;
        self.y = self.y + dy;
    }

    /// Add a contribution to the accumulator of one path, creating it at
    /// neutral first if it does not exist yet.
    pub fn accumulate_at_path(&mut self, id: usize, dx: i128, dy: i128)
        requires
            keys_unique(old(self).paths@),
            i128::MIN <= vec2_at(*old(self), id).0 + dx <= i128::MAX,
            i128::MIN <= vec2_at(*old(self), id).1 + dy <= i128::MAX,
        ensures
            keys_unique(final(self).paths@),
            final(self).x == old(self).x,
            final(self).y == old(self).y,
            vec2_at(*final(self), id) == (
                vec2_at(*old(self), id).0 + dx,
                vec2_at(*old(self), id).1 + dy,
            ),
            forall|id2: usize|
                id2 != id ==> #[trigger] vec2_at(*final(self), id2) == vec2_at(*old(self), id2),
    {
        match assoc_find(&self.paths, id) {
            Some(k) => {
                proof {
                    lemma_path_entry_found(old(self).paths@, id, k as int);
                }
                let cur = self.paths[k].1;
                self.paths[k] = (id, (cur.0 + dx, cur.1 + dy));
                proof {
                    let v = ((cur.0 + dx) as i128, (cur.1 + dy) as i128);
                    assert(self.paths@ =~= old(self).paths@.update(
                        k as int,
                        (old(self).paths@[k as int].0, v),
                    ));
                    assert forall|id2: usize| true implies #[trigger] path_entry(
                        self.paths@,
                        id2,
                    ) == (if id2 == id {
                        Some(v)
                    } else {
                        path_entry(old(self).paths@, id2)
                    }) by {
                        lemma_path_entry_update(old(self).paths@, k as int, v, id2);
                    }
                }
            },
            None => {
                proof {
                    lemma_path_entry_absent(old(self).paths@, id);
                }
                self.paths.push((id, (dx, dy)));
                proof {
                    assert forall|id2: usize| true implies #[trigger] path_entry(
                        self.paths@,
                        id2,
                    ) == (if id2 == id {
                        Some((dx, dy))
                    } else {
                        path_entry(old(self).paths@, id2)
                    }) by {
                        lemma_path_entry_push(old(self).paths@, (id, (dx, dy)), id2);
                    }
                    assert forall|i: int, j: int|
                        0 <= i < j < self.paths@.len() implies (#[trigger] self.paths@[i]).0 != (
                        #[trigger] self.paths@[j]).0 by {
                        if j + 1 == self.paths@.len() {
                            assert(self.paths@[i].0 == old(self).paths@[i].0);
                        }
                    }
                }
            },
        }
    }
}

impl Default for BoolActionValue {
    /// A fresh accumulator, neutral and with no breakdown entries.
    fn default() -> (r: BoolActionValue)
        ensures
            r.any == false,
            r.paths@ == Seq::<(usize, bool)>::empty(),
    {
        BoolActionValue::new()
    }
}

impl Default for ScalarActionValue {
    /// A fresh accumulator, neutral and with no breakdown entries.
    fn default() -> (r: ScalarActionValue)
        ensures
            r.total == 0,
            r.paths@ == Seq::<(usize, i128)>::empty(),
    {
        ScalarActionValue::new()
    }
}

impl Default for Vec2ActionValue {
    /// A fresh accumulator, neutral and with no breakdown entries.
    fn default() -> (r: Vec2ActionValue)
        ensures
            r.x == 0,
            r.y == 0,
            r.paths@ == Seq::<(usize, (i128, i128))>::empty(),
    {
        Vec2ActionValue::new()
    }
}

/// The typed accumulator attached to an action.  Its kind is fixed for the
/// action's lifetime.
#[derive(Clone, Debug)]
pub enum ActionValue {
    Bool(BoolActionValue),
    Scalar(ScalarActionValue),
    Vec2(Vec2ActionValue),
}

/// The three value kinds an action can carry.
#[derive(Clone, Copy, Debug, PartialEq, Eq, Structural)]
pub enum ActionKind {
    Bool,
    Scalar,
    Vec2,
}

impl ActionValue {
    /// The kind of this value.
    pub open spec fn kind(self) -> ActionKind {
        match self {
            ActionValue::Bool(_) => ActionKind::Bool,
            ActionValue::Scalar(_) => ActionKind::Scalar,
            ActionValue::Vec2(_) => ActionKind::Vec2,
        }
    }

    /// The breakdown entries hold each path id at most once.
    pub open spec fn wf(self) -> bool {
        match self {
            ActionValue::Bool(v) => keys_unique(v.paths@),
            ActionValue::Scalar(v) => keys_unique(v.paths@),
            ActionValue::Vec2(v) => keys_unique(v.paths@),
        }
    }

    /// The total and every path accumulator hold the neutral element.
    pub open spec fn is_neutral(self) -> bool {
        match self {
            ActionValue::Bool(v) => v.any == false && forall|id: usize|
                #[trigger] bool_at(v, id) == false,
            ActionValue::Scalar(v) => v.total == 0 && forall|id: usize|
                #[trigger] scalar_at(v, id) == 0,
            ActionValue::Vec2(v) => v.x == 0 && v.y == 0 && forall|id: usize|
                #[trigger] vec2_at(v, id) == (0int, 0int),
        }
    }

    /// A fresh accumulator of the given kind, neutral and without breakdown
    /// entries.
    pub fn new(kind: ActionKind) -> (r: ActionValue)
        ensures
            r.kind() == kind,
            r.wf(),
            r.is_neutral(),
    {
        let r = match kind {
            ActionKind::Bool => ActionValue::Bool(BoolActionValue::new()),
            ActionKind::Scalar => ActionValue::Scalar(ScalarActionValue::new()),
            ActionKind::Vec2 => ActionValue::Vec2(Vec2ActionValue::new()),
        };
        proof {
            match &r {
                ActionValue::Bool(v) => {
                    assert forall|id: usize| #[trigger] bool_at(*v, id) == false by {
                        lemma_path_entry_some_exists(v.paths@, id);
                    }
                },
                ActionValue::Scalar(v) => {
                    assert forall|id: usize| #[trigger] scalar_at(*v, id) == 0 by {
                        lemma_path_entry_some_exists(v.paths@, id);
                    }
                },
                ActionValue::Vec2(v) => {
                    assert forall|id: usize| #[trigger] vec2_at(*v, id) == (0int, 0int) by {
                        lemma_path_entry_some_exists(v.paths@, id);
                    }
                },
            }
        }
        r
    }

    /// Reset the total and every path accumulator to the neutral element of
    /// this value's kind.  The kind and the set of breakdown keys are kept.
    pub fn reset(&mut self)
        ensures
            final(self).kind() == old(self).kind(),
            final(self).is_neutral(),
            old(self).wf() ==> final(self).wf(),
    {
        match self {
            ActionValue::Bool(v) => v.reset(),
            ActionValue::Scalar(v) => v.reset(),
            ActionValue::Vec2(v) => v.reset(),
        }
    }
}


impl BoolActionValue {
    /// Read the breakdown value for one path: false while nothing has
    /// accumulated there.
    pub fn value_at_path(&self, id: usize) -> (r: bool)
        requires
            keys_unique(self.paths@),
        ensures
            r == bool_at(*self, id),
    {
        match assoc_find(&self.paths, id) {
            Some(k) => {
                proof {
                    lemma_path_entry_found(self.paths@, id, k as int);
                }
                self.paths[k].1
            },
            None => {
                proof {
                    lemma_path_entry_absent(self.paths@, id);
                }
                false
            },
        }
    }
}

impl ScalarActionValue {
    /// Read the breakdown value for one path: 0 while nothing has
    /// accumulated there.
    pub fn value_at_path(&self, id: usize) -> (r: i128)
        requires
            keys_unique(self.paths@),
        ensures
            r as int == scalar_at(*self, id),
    {
        match assoc_find(&self.paths, id) {
            Some(k) => {
                proof {
                    lemma_path_entry_found(self.paths@, id, k as int);
                }
                self.paths[k].1
            },
            None => {
                proof {
                    lemma_path_entry_absent(self.paths@, id);
                }
                0
            },
        }
    }
}

impl Vec2ActionValue {
    /// Read the breakdown value for one path: (0, 0) while nothing has
    /// accumulated there.
    pub fn value_at_path(&self, id: usize) -> (r: (i128, i128))
        requires
            keys_unique(self.paths@),
        ensures
            (r.0 as int, r.1 as int) == vec2_at(*self, id),
    {
        match assoc_find(&self.paths, id) {
            Some(k) => {
                proof {
                    lemma_path_entry_found(self.paths@, id, k as int);
                }
                self.paths[k].1
            },
            None => {
                proof {
                    lemma_path_entry_absent(self.paths@, id);
                }
                (0, 0)
            },
        }
    }
}

} // verus!
