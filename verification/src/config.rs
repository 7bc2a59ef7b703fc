//! Key/value generation settings for one component, and the fold that
//! fills gaps in them from the settings of direct dependencies.

use vstd::prelude::*;

verus! {

/// The value a configuration key holds: the first entry with that key,
/// scanning from the front.
pub open spec fn spec_config_get(
    entries: Seq<(Seq<char>, Seq<char>)>,
    key: Seq<char>,
) -> Option<Seq<char>>
    decreases entries.len(),
{
    if entries.len() == 0 {
        None
    } else if entries[0].0 == key {
        Some(entries[0].1)
    } else {
        spec_config_get(entries.drop_first(), key)
    }
}

/// Whether a configuration holds the key at all.
pub open spec fn spec_config_has_key(entries: Seq<(Seq<char>, Seq<char>)>, key: Seq<char>) -> bool {
    spec_config_get(entries, key) is Some
}

/// Setting a key that is absent appends it; a present key keeps its value.
pub open spec fn spec_set_if_absent(
    entries: Seq<(Seq<char>, Seq<char>)>,
    key: Seq<char>,
    value: Seq<char>,
) -> Seq<(Seq<char>, Seq<char>)> {
    if spec_config_has_key(entries, key) {
        entries
    } else {
        entries.push((key, value))
    }
}

/// Folding another configuration in as defaults: its entries, in order,
/// fill the keys that `entries` does not set; keys already set keep
/// their value.
pub open spec fn spec_merge_defaults(
    entries: Seq<(Seq<char>, Seq<char>)>,
    defaults: Seq<(Seq<char>, Seq<char>)>,
) -> Seq<(Seq<char>, Seq<char>)>
    decreases defaults.len(),
{
    if defaults.len() == 0 {
        entries
    } else {
        spec_merge_defaults(
            spec_set_if_absent(entries, defaults[0].0, defaults[0].1),
            defaults.drop_first(),
        )
    }
}

/// A key absent from the front scan stays what it is one entry further in.
pub proof fn lemma_config_get_step(entries: Seq<(Seq<char>, Seq<char>)>, i: int, key: Seq<char>)
    requires
        0 <= i < entries.len(),
        forall|j: int| 0 <= j < i ==> entries[j].0 != key,
    ensures
        spec_config_get(entries, key) == spec_config_get(
            entries.subrange(i, entries.len() as int),
            key,
        ),
    decreases i,
{
    if i > 0 {
        assert(entries.drop_first() =~= entries.subrange(1, entries.len() as int));
        lemma_config_get_step(entries.drop_first(), i - 1, key);
        assert(entries.drop_first().subrange(i - 1, entries.drop_first().len() as int)
            =~= entries.subrange(i, entries.len() as int));
    } else {
        assert(entries.subrange(0, entries.len() as int) =~= entries);
    }
}

/// A key is absent exactly when no entry carries it.
pub proof fn lemma_config_get_none(entries: Seq<(Seq<char>, Seq<char>)>, key: Seq<char>)
    ensures
        (spec_config_get(entries, key) is None) <==> (forall|j: int|
            0 <= j < entries.len() ==> entries[j].0 != key),
    decreases entries.len(),
{
    if entries.len() > 0 {
        let rest = entries.drop_first();
        lemma_config_get_none(rest, key);
        if spec_config_get(entries, key) is None {
            assert forall|j: int| 0 <= j < entries.len() implies entries[j].0 != key by {
                if j > 0 {
                    assert(entries[j] == rest[j - 1]);
                }
            }
        } else {
            if entries[0].0 != key {
                let j = choose|j: int| 0 <= j < rest.len() && rest[j].0 == key;
                assert(entries[j + 1].0 == key);
            }
        }
    }
}

/// What an appended entry does to a front scan: nothing when the key is
/// already set, otherwise it answers exactly for its own key.
pub proof fn lemma_config_get_push(
    entries: Seq<(Seq<char>, Seq<char>)>,
    k: Seq<char>,
    v: Seq<char>,
    key: Seq<char>,
)
    ensures
        spec_config_get(entries.push((k, v)), key) == if spec_config_has_key(entries, key) {
            spec_config_get(entries, key)
        } else if k == key {
            Some(v)
        } else {
            None
        },
    decreases entries.len(),
{
    if entries.len() == 0 {
        assert(entries.push((k, v)).drop_first() =~= entries);
    } else {
        assert(entries.push((k, v)).drop_first() =~= entries.drop_first().push((k, v)));
        lemma_config_get_push(entries.drop_first(), k, v, key);
    }
}

/// The configuration of one component: key/value generation settings,
/// in the order they were first set.
#[derive(Clone, Debug, PartialEq, Eq)]
pub struct ConfigurationObject {
    pub entries: Vec<(String, String)>,
}

impl View for ConfigurationObject {
    type V = Seq<(Seq<char>, Seq<char>)>;

    open spec fn view(&self) -> Seq<(Seq<char>, Seq<char>)> {
        self.entries.deep_view()
    }
}

impl DeepView for ConfigurationObject {
    type V = Seq<(Seq<char>, Seq<char>)>;

    open spec fn deep_view(&self) -> Seq<(Seq<char>, Seq<char>)> {
        self.view()
    }
}

impl ConfigurationObject {
    /// Keys are pairwise distinct: each was set at most once.
    pub open spec fn wf(&self) -> bool {
        forall|i: int, j: int|
            0 <= i < j < self@.len() ==> (#[trigger] self@[i].0) != (#[trigger] self@[j].0)
    }

    /// An empty configuration.
    pub fn new() -> (r: ConfigurationObject)
        ensures
            r@ == Seq::<(Seq<char>, Seq<char>)>::empty(),
            r.wf(),
    {
        let r = ConfigurationObject { entries: Vec::new() };
        proof {
            assert(r@ =~= Seq::<(Seq<char>, Seq<char>)>::empty());
        }
        r
    }

    /// A copy of the configuration, entry for entry.
    pub fn clone_config(&self) -> (r: ConfigurationObject)
        ensures
            r@ == self@,
    {
        let n: usize = self.entries.len();
        let mut entries: Vec<(String, String)> = Vec::new();
        let mut i: usize = 0;
        while i < n
            invariant
                0 <= i <= n,
                n == self.entries.len(),
                self@.len() == n,
                entries.deep_view() =~= self@.subrange(0, i as int),
            decreases n - i,
        {
            let ghost pre = entries.deep_view();
            entries.push((self.entries[i].0.clone(), self.entries[i].1.clone()));
            proof {
                let ghost e = self.entries@[i as int];
                assert(self@[i as int] == (e.0@, e.1@));
                assert(entries.deep_view() =~= pre.push(self@[i as int]));
                assert(entries.deep_view() =~= self@.subrange(0, i + 1));
            }
            i = i + 1;
        }
        proof {
            assert(self@.subrange(0, n as int) =~= self@);
        }
        let r = ConfigurationObject { entries };
        r
    }

    /// The value set for `key`, if any.
    pub fn get(&self, key: &String) -> (r: Option<String>)
        ensures
            r.deep_view() == spec_config_get(self@, key@),
    {
        let n: usize = self.entries.len();
        let mut i: usize = 0;
        while i < n
            invariant
                0 <= i <= n,
                n == self.entries.len(),
                self@.len() == n,
                forall|j: int| 0 <= j < i ==> self@[j].0 != key@,
            decreases n - i,
        {
            proof {
                let ghost e = self.entries@[i as int];
                assert(self@[i as int] == (e.0@, e.1@));
            }
            if self.entries[i].0.eq(key) {
                proof {
                    lemma_config_get_step(self@, i as int, key@);
                    assert(self@.subrange(i as int, self@.len() as int)[0] == self@[i as int]);
                }
                return Some(self.entries[i].1.clone());
            }
            i = i + 1;
        }
        proof {
            lemma_config_get_none(self@, key@);
        }
        None
    }

    /// Set `key` to `value` unless some value for `key` is already set.
    pub fn set_if_absent(&mut self, key: String, value: String)
        ensures
            final(self)@ == spec_set_if_absent(old(self)@, key@, value@),
            old(self).wf() ==> final(self).wf(),
    {
        let existing = self.get(&key);
        if existing.is_none() {
            proof {
                lemma_config_get_none(old(self)@, key@);
            }
            self.entries.push((key, value));
            proof {
                assert(self@ =~= old(self)@.push((key@, value@)));
            }
        }
    }

    /// Fold `defaults` in: its entries, in order, fill the keys this
    /// configuration does not set; keys already set keep their value.
    pub fn merge_defaults(&mut self, defaults: &ConfigurationObject)
        ensures
            final(self)@ == spec_merge_defaults(old(self)@, defaults@),
            old(self).wf() ==> final(self).wf(),
    {
        let n: usize = defaults.entries.len();
        proof {
            assert(defaults@.subrange(0, n as int) =~= defaults@);
        }
        let mut i: usize = 0;
        while i < n
            invariant
                0 <= i <= n,
                n == defaults.entries.len(),
                defaults@.len() == n,
                spec_merge_defaults(old(self)@, defaults@) == spec_merge_defaults(
                    self@,
                    defaults@.subrange(i as int, n as int),
                ),
                old(self).wf() ==> self.wf(),
            decreases n - i,
        {
            let ghost pre = self@;
            let ghost rest = defaults@.subrange(i as int, n as int);
            let entry = (defaults.entries[i].0.clone(), defaults.entries[i].1.clone());
            proof {
                assert(defaults@[i as int] == defaults.entries.deep_view()[i as int]);
                assert(rest[0] == defaults@[i as int]);
            }
            self.set_if_absent(entry.0, entry.1);
            proof {
                assert(rest.drop_first() =~= defaults@.subrange(i + 1, n as int));
                assert(spec_merge_defaults(pre, rest) == spec_merge_defaults(
                    self@,
                    defaults@.subrange(i + 1, n as int),
                ));
            }
            i = i + 1;
        }
        proof {
            assert(defaults@.subrange(n as int, n as int) =~= Seq::<(Seq<char>, Seq<char>)>::empty());
        }
    }
}

/// Configuration inheritance fills gaps and only gaps: after folding
/// `defaults` in, a key the component had set keeps the component's own
/// value, and a key it had not set carries the value `defaults` gives
/// it, if any.
pub proof fn lemma_merge_defaults_fills_gaps(
    entries: Seq<(Seq<char>, Seq<char>)>,
    defaults: Seq<(Seq<char>, Seq<char>)>,
    key: Seq<char>,
)
    ensures
        spec_config_has_key(entries, key) ==> spec_config_get(
            spec_merge_defaults(entries, defaults),
            key,
        ) == spec_config_get(entries, key),
        !spec_config_has_key(entries, key) ==> spec_config_get(
            spec_merge_defaults(entries, defaults),
            key,
        ) == spec_config_get(defaults, key),
    decreases defaults.len(),
{
    if defaults.len() > 0 {
        let k = defaults[0].0;
        let v = defaults[0].1;
        let stepped = spec_set_if_absent(entries, k, v);
        lemma_config_get_push(entries, k, v, key);
        lemma_merge_defaults_fills_gaps(stepped, defaults.drop_first(), key);
    }
}

} // verus!
