//! The durable store of the coordinator: structured round metadata,
//! the binary contribution artifacts addressed by locators, their file
//! signatures, and the aggregated round files. The store keeps two
//! copies of its state: the pending copy that operations mutate, and
//! the durable copy that `save` replaces atomically — exactly what
//! survives a restart.

use vstd::prelude::*;

use crate::locator::{ContributionLocator, ContributionSignatureLocator};
use crate::round::{Round, RoundV};
use crate::signature::{ContributionFileSignature, ContributionFileSignatureV};

verus! {

/// The finite map held by an association list, later entries shadowing
/// earlier ones with the same key.
pub open spec fn kv_map<K, V>(s: Seq<(K, V)>) -> Map<K, V>
    decreases s.len(),
{
    if s.len() == 0 {
        Map::empty()
    } else {
        kv_map(s.drop_last()).insert(s.last().0, s.last().1)
    }
}

/// True when no key occurs twice in the association list.
pub open spec fn kv_keys_unique<K, V>(s: Seq<(K, V)>) -> bool {
    forall|i: int, j: int| 0 <= i < j < s.len() ==> (#[trigger] s[i]).0 != (#[trigger] s[j]).0
}

/// A key is in the map exactly when some entry carries it.
pub proof fn lemma_kv_map_contains<K, V>(s: Seq<(K, V)>, k: K)
    ensures
        kv_map(s).dom().contains(k) <==> exists|i: int| 0 <= i < s.len() && (#[trigger] s[i]).0
            == k,
    decreases s.len(),
{
    if s.len() == 0 {
    } else {
        lemma_kv_map_contains(s.drop_last(), k);
        if s.last().0 == k {
            assert(s[s.len() - 1].0 == k);
        } else {
            if exists|i: int| 0 <= i < s.len() && (#[trigger] s[i]).0 == k {
                let i = choose|i: int| 0 <= i < s.len() && (#[trigger] s[i]).0 == k;
                assert(s.drop_last()[i] == s[i]);
            }
            assert forall|i: int| 0 <= i < s.len() - 1 && (#[trigger] s[i]).0 == k implies s.drop_last()[i].0
                == k by {
                assert(s.drop_last()[i] == s[i]);
            }
        }
    }
}

/// With unique keys, the entry at any index gives the map's value at
/// its key.
pub proof fn lemma_kv_map_lookup<K, V>(s: Seq<(K, V)>, i: int)
    requires
        kv_keys_unique(s),
        0 <= i < s.len(),
    ensures
        kv_map(s).dom().contains(s[i].0),
        kv_map(s)[s[i].0] == s[i].1,
    decreases s.len(),
{
    if i == s.len() - 1 {
        assert(s.last() == s[i]);
    } else {
        assert(s[s.len() - 1].0 != s[i].0);
        assert(s.drop_last()[i] == s[i]);
        assert(kv_keys_unique(s.drop_last())) by {
            assert forall|a: int, b: int|
                0 <= a < b < s.drop_last().len() implies (#[trigger] s.drop_last()[a]).0 != (
            #[trigger] s.drop_last()[b]).0 by {
                assert(s.drop_last()[a] == s[a]);
                assert(s.drop_last()[b] == s[b]);
            }
        }
        lemma_kv_map_lookup(s.drop_last(), i);
    }
}

/// Appending an entry with a fresh key inserts it into the map.
pub proof fn lemma_kv_map_push<K, V>(s: Seq<(K, V)>, k: K, v: V)
    ensures
        kv_map(s.push((k, v))) == kv_map(s).insert(k, v),
{
    assert(s.push((k, v)).drop_last() =~= s);
    assert(s.push((k, v)).last() == (k, v));
}

/// With unique keys, replacing the value at an index updates the map
/// at that entry's key.
pub proof fn lemma_kv_map_update<K, V>(s: Seq<(K, V)>, i: int, v: V)
    requires
        kv_keys_unique(s),
        0 <= i < s.len(),
    ensures
        kv_map(s.update(i, (s[i].0, v))) == kv_map(s).insert(s[i].0, v),
    decreases s.len(),
{
    let k = s[i].0;
    let t = s.update(i, (k, v));
    if i == s.len() - 1 {
        assert(t.drop_last() =~= s.drop_last());
        assert(t.last() == (k, v));
        assert(kv_map(t) == kv_map(s.drop_last()).insert(k, v));
        assert(kv_map(s.drop_last()).insert(s.last().0, s.last().1).insert(k, v) =~= kv_map(
            s.drop_last(),
        ).insert(k, v));
    } else {
        assert(s[s.len() - 1].0 != k);
        assert(s.drop_last()[i] == s[i]);
        assert(kv_keys_unique(s.drop_last())) by {
            assert forall|a: int, b: int|
                0 <= a < b < s.drop_last().len() implies (#[trigger] s.drop_last()[a]).0 != (
            #[trigger] s.drop_last()[b]).0 by {
                assert(s.drop_last()[a] == s[a]);
                assert(s.drop_last()[b] == s[b]);
            }
        }
        lemma_kv_map_update(s.drop_last(), i, v);
        assert(t.drop_last() =~= s.drop_last().update(i, (k, v)));
        assert(t.last() == s.last());
        assert(kv_map(t) == kv_map(s.drop_last()).insert(k, v).insert(s.last().0, s.last().1));
        assert(kv_map(s.drop_last()).insert(k, v).insert(s.last().0, s.last().1) =~= kv_map(
            s.drop_last(),
        ).insert(s.last().0, s.last().1).insert(k, v));
    }
}

/// With unique keys, removing the entry at an index removes its key
/// from the map.
pub proof fn lemma_kv_map_remove<K, V>(s: Seq<(K, V)>, i: int)
    requires
        kv_keys_unique(s),
        0 <= i < s.len(),
    ensures
        kv_map(s.remove(i)) == kv_map(s).remove(s[i].0),
    decreases s.len(),
{
    let k = s[i].0;
    let t = s.remove(i);
    if i == s.len() - 1 {
        assert(t =~= s.drop_last());
        lemma_kv_map_contains(s.drop_last(), k);
        assert forall|j: int| 0 <= j < s.drop_last().len() implies (#[trigger] s.drop_last()[j]).0
            != k by {
            assert(s.drop_last()[j] == s[j]);
        }
        assert(!kv_map(s.drop_last()).dom().contains(k));
        assert(kv_map(s.drop_last()).insert(k, s[i].1).remove(k) =~= kv_map(s.drop_last()));
    } else {
        assert(s[s.len() - 1].0 != k);
        assert(s.drop_last()[i] == s[i]);
        assert(kv_keys_unique(s.drop_last())) by {
            assert forall|a: int, b: int|
                0 <= a < b < s.drop_last().len() implies (#[trigger] s.drop_last()[a]).0 != (
            #[trigger] s.drop_last()[b]).0 by {
                assert(s.drop_last()[a] == s[a]);
                assert(s.drop_last()[b] == s[b]);
            }
        }
        lemma_kv_map_remove(s.drop_last(), i);
        assert(t.drop_last() =~= s.drop_last().remove(i));
        assert(t.last() == s.last());
        assert(kv_map(t) == kv_map(s.drop_last()).remove(k).insert(s.last().0, s.last().1));
        assert(kv_map(s.drop_last()).remove(k).insert(s.last().0, s.last().1) =~= kv_map(
            s.drop_last(),
        ).insert(s.last().0, s.last().1).remove(k));
    }
}

/// The mathematical value of one copy of the store.
pub struct StoreStateV {
    pub round_height: Option<u64>,
    pub rounds: Map<u64, RoundV>,
    pub blobs: Map<ContributionLocator, Seq<u8>>,
    pub signatures: Map<ContributionSignatureLocator, ContributionFileSignatureV>,
    pub round_files: Map<u64, Seq<u8>>,
}

/// One copy of the whole store: the recorded round height, the round
/// metadata, the contribution artifacts, their signatures, and the
/// aggregated round files.
#[derive(Debug)]
pub struct StoreState {
    pub round_height: Option<u64>,
    pub rounds: Vec<(u64, Round)>,
    pub blobs: Vec<(ContributionLocator, Vec<u8>)>,
    pub signatures: Vec<(ContributionSignatureLocator, ContributionFileSignature)>,
    pub round_files: Vec<(u64, Vec<u8>)>,
}

impl View for StoreState {
    type V = StoreStateV;

    open spec fn view(&self) -> StoreStateV {
        StoreStateV {
            round_height: self.round_height,
            rounds: kv_map(self.rounds.deep_view()),
            blobs: kv_map(self.blobs.deep_view()),
            signatures: kv_map(self.signatures.deep_view()),
            round_files: kv_map(self.round_files.deep_view()),
        }
    }
}

impl StoreState {
    /// Structural well-formedness: no key occurs twice in any of the
    /// association lists.
    pub open spec fn wf(self) -> bool {
        &&& kv_keys_unique(self.rounds.deep_view())
        &&& kv_keys_unique(self.blobs.deep_view())
        &&& kv_keys_unique(self.signatures.deep_view())
        &&& kv_keys_unique(self.round_files.deep_view())
    }

    /// An empty store copy.
    pub fn new() -> (r: StoreState)
        ensures
            r.wf(),
            r@ == (StoreStateV {
                round_height: None,
                rounds: Map::empty(),
                blobs: Map::empty(),
                signatures: Map::empty(),
                round_files: Map::empty(),
            }),
    {
        let r = StoreState {
            round_height: None,
            rounds: Vec::new(),
            blobs: Vec::new(),
            signatures: Vec::new(),
            round_files: Vec::new(),
        };
        proof {
            assert(r.rounds.deep_view() =~= Seq::<(u64, RoundV)>::empty());
            assert(r.blobs.deep_view() =~= Seq::<(ContributionLocator, Seq<u8>)>::empty());
            assert(r.signatures.deep_view() =~= Seq::<
                (ContributionSignatureLocator, ContributionFileSignatureV),
            >::empty());
            assert(r.round_files.deep_view() =~= Seq::<(u64, Seq<u8>)>::empty());
        }
        r
    }

    /// The index of the round entry with the given height, if any.
    fn find_round(&self, height: u64) -> (r: Option<usize>)
        ensures
            match r {
                Some(i) => i < self.rounds.len() && self.rounds.deep_view()[i as int].0 == height,
                None => forall|i: int|
                    0 <= i < self.rounds.len() ==> (#[trigger] self.rounds.deep_view()[i]).0
                        != height,
            },
    {
        let n = self.rounds.len();
        let mut i: usize = 0;
        while i < n
            invariant
                0 <= i <= n,
                n == self.rounds.len(),
                forall|j: int|
                    0 <= j < i ==> (#[trigger] self.rounds.deep_view()[j]).0 != height,
            decreases n - i,
        {
            if self.rounds[i].0 == height {
                proof {
                    assert(self.rounds.deep_view()[i as int].0 == height);
                }
                return Some(i);
            }
            i = i + 1;
        }
        None
    }

    /// True when a round is stored under the given height.
    pub fn contains_round(&self, height: u64) -> (r: bool)
        ensures
            r == self@.rounds.dom().contains(height),
    {
        proof {
            lemma_kv_map_contains(self.rounds.deep_view(), height);
        }
        self.find_round(height).is_some()
    }

    /// The round stored under the given height, if any.
    pub fn get_round(&self, height: u64) -> (r: Option<&Round>)
        requires
            self.wf(),
        ensures
            match r {
                Some(round) => self@.rounds.dom().contains(height) && round.deep_view()
                    == self@.rounds[height],
                None => !self@.rounds.dom().contains(height),
            },
    {
        proof {
            lemma_kv_map_contains(self.rounds.deep_view(), height);
        }
        match self.find_round(height) {
            Some(i) => {
                proof {
                    lemma_kv_map_lookup(self.rounds.deep_view(), i as int);
                }
                Some(&self.rounds[i].1)
            },
            None => None,
        }
    }

    /// Stores a round under the given height, replacing any previous
    /// round stored there.
    pub fn insert_round(&mut self, height: u64, round: Round)
        requires
            old(self).wf(),
        ensures
            final(self).wf(),
            final(self)@ == (StoreStateV {
                rounds: old(self)@.rounds.insert(height, round@),
                ..old(self)@
            }),
    {
        let ghost pre = self.rounds.deep_view();
        match self.find_round(height) {
            Some(i) => {
                self.rounds[i] = (height, round);
                proof {
                    assert(self.rounds.deep_view() =~= pre.update(i as int, (height, pre[i as int].1)).update(
                        i as int,
                        (height, self.rounds.deep_view()[i as int].1),
                    ));
                    assert(self.rounds.deep_view() =~= pre.update(
                        i as int,
                        (pre[i as int].0, self.rounds[i as int].1.deep_view()),
                    ));
                    lemma_kv_map_update(pre, i as int, self.rounds[i as int].1.deep_view());
                }
            },
            None => {
                self.rounds.push((height, round));
                proof {
                    assert(self.rounds.deep_view() =~= pre.push(
                        self.rounds[pre.len() as int].deep_view(),
                    ));
                    lemma_kv_map_push(pre, height, self.rounds[pre.len() as int].1.deep_view());
                    lemma_kv_map_contains(pre, height);
                }
            },
        }
    }

    /// The index of the blob entry with the given locator, if any.
    fn find_blob(&self, locator: ContributionLocator) -> (r: Option<usize>)
        ensures
            match r {
                Some(i) => i < self.blobs.len() && self.blobs.deep_view()[i as int].0 == locator,
                None => forall|i: int|
                    0 <= i < self.blobs.len() ==> (#[trigger] self.blobs.deep_view()[i]).0
                        != locator,
            },
    {
        let n = self.blobs.len();
        let mut i: usize = 0;
        while i < n
            invariant
                0 <= i <= n,
                n == self.blobs.len(),
                forall|j: int|
                    0 <= j < i ==> (#[trigger] self.blobs.deep_view()[j]).0 != locator,
            decreases n - i,
        {
            if self.blobs[i].0 == locator {
                proof {
                    assert(self.blobs.deep_view()[i as int].0 == locator);
                }
                return Some(i);
            }
            i = i + 1;
        }
        None
    }

    /// True when an artifact is stored under the given locator.
    pub fn contains_blob(&self, locator: ContributionLocator) -> (r: bool)
        ensures
            r == self@.blobs.dom().contains(locator),
    {
        proof {
            lemma_kv_map_contains(self.blobs.deep_view(), locator);
        }
        self.find_blob(locator).is_some()
    }

    /// The artifact stored under the given locator, if any.
    pub fn get_blob(&self, locator: ContributionLocator) -> (r: Option<&Vec<u8>>)
        requires
            self.wf(),
        ensures
            match r {
                Some(bytes) => self@.blobs.dom().contains(locator) && bytes@
                    == self@.blobs[locator],
                None => !self@.blobs.dom().contains(locator),
            },
    {
        proof {
            lemma_kv_map_contains(self.blobs.deep_view(), locator);
        }
        match self.find_blob(locator) {
            Some(i) => {
                proof {
                    lemma_kv_map_lookup(self.blobs.deep_view(), i as int);
                }
                Some(&self.blobs[i].1)
            },
            None => None,
        }
    }

    /// Stores an artifact under the given locator, replacing any bytes
    /// previously stored there.
    pub fn insert_blob(&mut self, locator: ContributionLocator, bytes: Vec<u8>)
        requires
            old(self).wf(),
        ensures
            final(self).wf(),
            final(self)@ == (StoreStateV {
                blobs: old(self)@.blobs.insert(locator, bytes@),
                ..old(self)@
            }),
    {
        proof {
            assert(bytes.deep_view() =~= bytes@);
        }
        let ghost pre = self.blobs.deep_view();
        match self.find_blob(locator) {
            Some(i) => {
                self.blobs[i] = (locator, bytes);
                proof {
                    assert(self.blobs.deep_view() =~= pre.update(
                        i as int,
                        (pre[i as int].0, self.blobs[i as int].1.deep_view()),
                    ));
                    lemma_kv_map_update(pre, i as int, self.blobs[i as int].1.deep_view());
                }
            },
            None => {
                self.blobs.push((locator, bytes));
                proof {
                    assert(self.blobs.deep_view() =~= pre.push(
                        self.blobs[pre.len() as int].deep_view(),
                    ));
                    lemma_kv_map_push(pre, locator, self.blobs[pre.len() as int].1.deep_view());
                    lemma_kv_map_contains(pre, locator);
                }
            },
        }
    }

    /// Removes the artifact stored under the given locator, if any.
    pub fn remove_blob(&mut self, locator: ContributionLocator)
        requires
            old(self).wf(),
        ensures
            final(self).wf(),
            final(self)@ == (StoreStateV {
                blobs: old(self)@.blobs.remove(locator),
                ..old(self)@
            }),
    {
        let ghost pre = self.blobs.deep_view();
        match self.find_blob(locator) {
            Some(i) => {
                self.blobs.remove(i);
                proof {
                    assert(self.blobs.deep_view() =~= pre.remove(i as int));
                    lemma_kv_map_remove(pre, i as int);
                    assert forall|a: int, b: int|
                        0 <= a < b < self.blobs.deep_view().len() implies (
                    #[trigger] self.blobs.deep_view()[a]).0 != (
                    #[trigger] self.blobs.deep_view()[b]).0 by {
                        if b < i as int {
                            assert(self.blobs.deep_view()[a] == pre[a]);
                            assert(self.blobs.deep_view()[b] == pre[b]);
                        } else if a < i as int {
                            assert(self.blobs.deep_view()[a] == pre[a]);
                            assert(self.blobs.deep_view()[b] == pre[b + 1]);
                        } else {
                            assert(self.blobs.deep_view()[a] == pre[a + 1]);
                            assert(self.blobs.deep_view()[b] == pre[b + 1]);
                        }
                    }
                }
            },
            None => {
                proof {
                    lemma_kv_map_contains(pre, locator);
                    assert(!kv_map(pre).dom().contains(locator));
                    assert(kv_map(pre).remove(locator) =~= kv_map(pre));
                }
            },
        }
    }

    /// The index of the signature entry with the given locator, if
    /// any.
    fn find_signature(&self, locator: ContributionSignatureLocator) -> (r: Option<usize>)
        ensures
            match r {
                Some(i) => i < self.signatures.len() && self.signatures.deep_view()[i as int].0
                    == locator,
                None => forall|i: int|
                    0 <= i < self.signatures.len() ==> (#[trigger] self.signatures.deep_view()[i]).0
                        != locator,
            },
    {
        let n = self.signatures.len();
        let mut i: usize = 0;
        while i < n
            invariant
                0 <= i <= n,
                n == self.signatures.len(),
                forall|j: int|
                    0 <= j < i ==> (#[trigger] self.signatures.deep_view()[j]).0 != locator,
            decreases n - i,
        {
            if self.signatures[i].0 == locator {
                proof {
                    assert(self.signatures.deep_view()[i as int].0 == locator);
                }
                return Some(i);
            }
            i = i + 1;
        }
        None
    }

    /// True when a signature is stored under the given locator.
    pub fn contains_signature(&self, locator: ContributionSignatureLocator) -> (r: bool)
        ensures
            r == self@.signatures.dom().contains(locator),
    {
        proof {
            lemma_kv_map_contains(self.signatures.deep_view(), locator);
        }
        self.find_signature(locator).is_some()
    }

    /// The signature stored under the given locator, if any.
    pub fn get_signature(&self, locator: ContributionSignatureLocator) -> (r: Option<
        &ContributionFileSignature,
    >)
        requires
            self.wf(),
        ensures
            match r {
                Some(sig) => self@.signatures.dom().contains(locator) && sig@
                    == self@.signatures[locator],
                None => !self@.signatures.dom().contains(locator),
            },
    {
        proof {
            lemma_kv_map_contains(self.signatures.deep_view(), locator);
        }
        match self.find_signature(locator) {
            Some(i) => {
                proof {
                    lemma_kv_map_lookup(self.signatures.deep_view(), i as int);
                }
                Some(&self.signatures[i].1)
            },
            None => None,
        }
    }

    /// Stores a signature under the given locator, replacing any
    /// previous one.
    pub fn insert_signature(
        &mut self,
        locator: ContributionSignatureLocator,
        signature: ContributionFileSignature,
    )
        requires
            old(self).wf(),
        ensures
            final(self).wf(),
            final(self)@ == (StoreStateV {
                signatures: old(self)@.signatures.insert(locator, signature@),
                ..old(self)@
            }),
    {
        let ghost pre = self.signatures.deep_view();
        match self.find_signature(locator) {
            Some(i) => {
                self.signatures[i] = (locator, signature);
                proof {
                    assert(self.signatures.deep_view() =~= pre.update(
                        i as int,
                        (pre[i as int].0, self.signatures[i as int].1.deep_view()),
                    ));
                    lemma_kv_map_update(pre, i as int, self.signatures[i as int].1.deep_view());
                }
            },
            None => {
                self.signatures.push((locator, signature));
                proof {
                    assert(self.signatures.deep_view() =~= pre.push(
                        self.signatures[pre.len() as int].deep_view(),
                    ));
                    lemma_kv_map_push(
                        pre,
                        locator,
                        self.signatures[pre.len() as int].1.deep_view(),
                    );
                    lemma_kv_map_contains(pre, locator);
                }
            },
        }
    }

    /// The index of the round file entry with the given height, if
    /// any.
    fn find_round_file(&self, height: u64) -> (r: Option<usize>)
        ensures
            match r {
                Some(i) => i < self.round_files.len() && self.round_files.deep_view()[i as int].0
                    == height,
                None => forall|i: int|
                    0 <= i < self.round_files.len() ==> (
                    #[trigger] self.round_files.deep_view()[i]).0 != height,
            },
    {
        let n = self.round_files.len();
        let mut i: usize = 0;
        while i < n
            invariant
                0 <= i <= n,
                n == self.round_files.len(),
                forall|j: int|
                    0 <= j < i ==> (#[trigger] self.round_files.deep_view()[j]).0 != height,
            decreases n - i,
        {
            if self.round_files[i].0 == height {
                proof {
                    assert(self.round_files.deep_view()[i as int].0 == height);
                }
                return Some(i);
            }
            i = i + 1;
        }
        None
    }

    /// True when an aggregated round file is stored for the given
    /// height.
    pub fn contains_round_file(&self, height: u64) -> (r: bool)
        ensures
            r == self@.round_files.dom().contains(height),
    {
        proof {
            lemma_kv_map_contains(self.round_files.deep_view(), height);
        }
        self.find_round_file(height).is_some()
    }

    /// Stores the aggregated round file for the given height.
    pub fn insert_round_file(&mut self, height: u64, bytes: Vec<u8>)
        requires
            old(self).wf(),
        ensures
            final(self).wf(),
            final(self)@ == (StoreStateV {
                round_files: old(self)@.round_files.insert(height, bytes@),
                ..old(self)@
            }),
    {
        proof {
            assert(bytes.deep_view() =~= bytes@);
        }
        let ghost pre = self.round_files.deep_view();
        match self.find_round_file(height) {
            Some(i) => {
                self.round_files[i] = (height, bytes);
                proof {
                    assert(self.round_files.deep_view() =~= pre.update(
                        i as int,
                        (pre[i as int].0, self.round_files[i as int].1.deep_view()),
                    ));
                    lemma_kv_map_update(pre, i as int, self.round_files[i as int].1.deep_view());
                }
            },
            None => {
                self.round_files.push((height, bytes));
                proof {
                    assert(self.round_files.deep_view() =~= pre.push(
                        self.round_files[pre.len() as int].deep_view(),
                    ));
                    lemma_kv_map_push(pre, height, self.round_files[pre.len() as int].1.deep_view());
                    lemma_kv_map_contains(pre, height);
                }
            },
        }
    }

    /// Records the current round height.
    pub fn set_round_height(&mut self, height: u64)
        requires
            old(self).wf(),
        ensures
            final(self).wf(),
            final(self)@ == (StoreStateV { round_height: Some(height), ..old(self)@ }),
    {
        self.round_height = Some(height);
    }
}

impl Clone for StoreState {
    fn clone(&self) -> (res: Self)
        ensures
            res.rounds.deep_view() == self.rounds.deep_view(),
            res.blobs.deep_view() == self.blobs.deep_view(),
            res.signatures.deep_view() == self.signatures.deep_view(),
            res.round_files.deep_view() == self.round_files.deep_view(),
            res.round_height == self.round_height,
            res@ == self@,
    {
        let mut rounds: Vec<(u64, Round)> = Vec::new();
        let mut i: usize = 0;
        while i < self.rounds.len()
            invariant
                0 <= i <= self.rounds.len(),
                rounds.len() == i,
                forall|j: int|
                    0 <= j < i ==> #[trigger] rounds.deep_view()[j]
                        == self.rounds.deep_view()[j],
            decreases self.rounds.len() - i,
        {
            let height = self.rounds[i].0;
            let round = self.rounds[i].1.clone();
            let ghost pre = rounds.deep_view();
            rounds.push((height, round));
            proof {
                assert(rounds.deep_view() =~= pre.push(rounds[i as int].deep_view()));
                assert(rounds.deep_view()[i as int] == self.rounds.deep_view()[i as int]);
            }
            i = i + 1;
        }
        let mut blobs: Vec<(ContributionLocator, Vec<u8>)> = Vec::new();
        let mut i: usize = 0;
        while i < self.blobs.len()
            invariant
                0 <= i <= self.blobs.len(),
                blobs.len() == i,
                forall|j: int|
                    0 <= j < i ==> #[trigger] blobs.deep_view()[j] == self.blobs.deep_view()[j],
            decreases self.blobs.len() - i,
        {
            let locator = self.blobs[i].0;
            let bytes = self.blobs[i].1.clone();
            proof {
                assert(bytes@ =~= self.blobs[i as int].1@);
            }
            let ghost pre = blobs.deep_view();
            blobs.push((locator, bytes));
            proof {
                assert(blobs.deep_view() =~= pre.push(blobs[i as int].deep_view()));
                assert(blobs.deep_view()[i as int] == self.blobs.deep_view()[i as int]);
            }
            i = i + 1;
        }
        let mut signatures: Vec<(ContributionSignatureLocator, ContributionFileSignature)> =
            Vec::new();
        let mut i: usize = 0;
        while i < self.signatures.len()
            invariant
                0 <= i <= self.signatures.len(),
                signatures.len() == i,
                forall|j: int|
                    0 <= j < i ==> #[trigger] signatures.deep_view()[j]
                        == self.signatures.deep_view()[j],
            decreases self.signatures.len() - i,
        {
            let locator = self.signatures[i].0;
            let signature = self.signatures[i].1.clone();
            let ghost pre = signatures.deep_view();
            signatures.push((locator, signature));
            proof {
                assert(signatures.deep_view() =~= pre.push(signatures[i as int].deep_view()));
                assert(signatures.deep_view()[i as int] == self.signatures.deep_view()[i as int]);
            }
            i = i + 1;
        }
        let mut round_files: Vec<(u64, Vec<u8>)> = Vec::new();
        let mut i: usize = 0;
        while i < self.round_files.len()
            invariant
                0 <= i <= self.round_files.len(),
                round_files.len() == i,
                forall|j: int|
                    0 <= j < i ==> #[trigger] round_files.deep_view()[j]
                        == self.round_files.deep_view()[j],
            decreases self.round_files.len() - i,
        {
            let height = self.round_files[i].0;
            let bytes = self.round_files[i].1.clone();
            proof {
                assert(bytes@ =~= self.round_files[i as int].1@);
            }
            let ghost pre = round_files.deep_view();
            round_files.push((height, bytes));
            proof {
                assert(round_files.deep_view() =~= pre.push(round_files[i as int].deep_view()));
                assert(round_files.deep_view()[i as int] == self.round_files.deep_view()[i as int]);
            }
            i = i + 1;
        }
        let res = StoreState {
            round_height: self.round_height,
            rounds,
            blobs,
            signatures,
            round_files,
        };
        proof {
            assert(res.rounds.deep_view() =~= self.rounds.deep_view());
            assert(res.blobs.deep_view() =~= self.blobs.deep_view());
            assert(res.signatures.deep_view() =~= self.signatures.deep_view());
            assert(res.round_files.deep_view() =~= self.round_files.deep_view());
        }
        res
    }
}

/// The store of the coordinator: the pending copy that operations
/// mutate, and the durable copy that `save` replaces atomically. Only
/// the durable copy survives a restart.
#[derive(Debug)]
pub struct Storage {
    pub pending: StoreState,
    pub durable: StoreState,
}

impl Storage {
    /// Both copies of the store are structurally well-formed.
    pub open spec fn wf(self) -> bool {
        &&& self.pending.wf()
        &&& self.durable.wf()
    }

    /// A fresh store: both copies empty.
    pub fn new() -> (r: Storage)
        ensures
            r.wf(),
            r.pending@ == (StoreStateV {
                round_height: None,
                rounds: Map::empty(),
                blobs: Map::empty(),
                signatures: Map::empty(),
                round_files: Map::empty(),
            }),
            r.durable@ == r.pending@,
    {
        Storage { pending: StoreState::new(), durable: StoreState::new() }
    }

    /// Atomically persists every prior mutation: the durable copy
    /// becomes exactly the pending copy. A partially-saved state is
    /// never observable.
    pub fn save(&mut self) -> (r: bool)
        requires
            old(self).wf(),
        ensures
            r == true,
            final(self).wf(),
            final(self).pending == old(self).pending,
            final(self).durable@ == old(self).pending@,
    {
        self.durable = self.pending.clone();
        true
    }

    /// Restores the pending copy from the durable one, as a restart
    /// does: every mutation after the last `save` is gone.
    pub fn recover(&mut self) -> (r: bool)
        requires
            old(self).wf(),
        ensures
            r == true,
            final(self).wf(),
            final(self).durable == old(self).durable,
            final(self).pending@ == old(self).durable@,
    {
        self.pending = self.durable.clone();
        true
    }
}

} // verus!
