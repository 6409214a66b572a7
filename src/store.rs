use vstd::prelude::*;

verus! {

/// A request to the store, without its reply channel.
#[derive(Clone, Debug)]
pub enum Request {
    Get { key: String },
    Put { key: String, val: String },
}

/// The one result produced for each command.
#[derive(Clone, Debug)]
pub enum CommandResult {
    Found { key: String, val: String },
    NotFound,
    Failed { msg: String },
}

/// Mathematical form of a request.
pub enum RequestModel {
    Get { key: Seq<char> },
    Put { key: Seq<char>, val: Seq<char> },
}

/// Mathematical form of a result.
pub enum ResultModel {
    Found { key: Seq<char>, val: Seq<char> },
    NotFound,
    Failed { msg: Seq<char> },
}

impl View for Request {
    type V = RequestModel;

    open spec fn view(&self) -> RequestModel {
        match self {
            Request::Get { key } => RequestModel::Get { key: key@ },
            Request::Put { key, val } => RequestModel::Put { key: key@, val: val@ },
        }
    }
}

impl View for CommandResult {
    type V = ResultModel;

    open spec fn view(&self) -> ResultModel {
        match self {
            CommandResult::Found { key, val } => ResultModel::Found { key: key@, val: val@ },
            CommandResult::NotFound => ResultModel::NotFound,
            CommandResult::Failed { msg } => ResultModel::Failed { msg: msg@ },
        }
    }
}

/// The contents of a store: each key maps to its current value.
pub type StoreModel = Map<Seq<char>, Seq<char>>;

/// What a `Get` of `k` answers on the contents `m`.
pub open spec fn lookup(m: StoreModel, k: Seq<char>) -> ResultModel {
    if m.contains_key(k) {
        ResultModel::Found { key: k, val: m[k] }
    } else {
        ResultModel::NotFound
    }
}

/// The contents after one request.
pub open spec fn next_contents(m: StoreModel, r: RequestModel) -> StoreModel {
    match r {
        RequestModel::Get { .. } => m,
        RequestModel::Put { key, val } => m.insert(key, val),
    }
}

/// The result of one request on the contents `m`.
pub open spec fn result_of(m: StoreModel, r: RequestModel) -> ResultModel {
    match r {
        RequestModel::Get { key } => lookup(m, key),
        RequestModel::Put { key, val } => ResultModel::Found { key, val },
    }
}

/// The contents after a sequence of requests, processed in order.
pub open spec fn run(m: StoreModel, log: Seq<RequestModel>) -> StoreModel
    decreases log.len(),
{
    if log.len() == 0 {
        m
    } else {
        next_contents(run(m, log.drop_last()), log.last())
    }
}

/// Whether `r` writes the key `k`.
pub open spec fn writes_key(r: RequestModel, k: Seq<char>) -> bool {
    r is Put && r->Put_key == k
}

/// The map itself, as owned by the store actor. Keys are unique.
pub struct Store {
    entries: Vec<(String, String)>,
    model: Ghost<StoreModel>,
}

impl View for Store {
    type V = StoreModel;

    closed spec fn view(&self) -> StoreModel {
        self.model@
    }
}

impl Store {
    /// Keys are unique, each entry is in the model, and the model holds
    /// nothing else.
    pub closed spec fn wf(&self) -> bool {
        &&& forall|i: int, j: int|
            0 <= i < j < self.entries@.len() ==> (#[trigger] self.entries@[i]).0@
                != (#[trigger] self.entries@[j]).0@
        &&& forall|i: int|
            0 <= i < self.entries@.len() ==> self.model@.contains_key(
                (#[trigger] self.entries@[i]).0@,
            ) && self.model@[self.entries@[i].0@] == self.entries@[i].1@
        &&& forall|k: Seq<char>|
            #[trigger] self.model@.contains_key(k) ==> exists|i: int|
                0 <= i < self.entries@.len() && (#[trigger] self.entries@[i]).0@ == k
    }

    /// An empty store.
    pub fn new() -> (s: Store)
        ensures
            s.wf(),
            s@ == Map::<Seq<char>, Seq<char>>::empty(),
    {
        Store { entries: Vec::new(), model: Ghost(Map::empty()) }
    }

    /// The number of keys held.
    pub fn len(&self) -> (n: usize)
        requires
            self.wf(),
        ensures
            n == self@.len(),
    {
        proof {
            self.lemma_dom_len();
        }
        self.entries.len()
    }

    proof fn lemma_dom_len(&self)
        requires
            self.wf(),
        ensures
            self@.dom().finite(),
            self@.len() == self.entries@.len(),
    {
        let keys = Seq::new(self.entries@.len(), |i: int| self.entries@[i].0@);
        assert(keys.no_duplicates()) by {
            assert forall|i: int, j: int|
                0 <= i < keys.len() && 0 <= j < keys.len() && i != j implies keys[i] != keys[j] by {
                if i < j {
                    assert(self.entries@[i].0@ != self.entries@[j].0@);
                } else {
                    assert(self.entries@[j].0@ != self.entries@[i].0@);
                }
            }
        }
        assert(keys.to_set() =~= self@.dom()) by {
            assert forall|k: Seq<char>| keys.to_set().contains(k) <==> self@.dom().contains(k) by {
                if self@.contains_key(k) {
                    let i = choose|i: int|
                        0 <= i < self.entries@.len() && (#[trigger] self.entries@[i]).0@ == k;
                    assert(keys[i] == k);
                }
                if keys.to_set().contains(k) {
                    let i = choose|i: int| 0 <= i < keys.len() && keys[i] == k;
                    assert(self.entries@[i].0@ == k);
                }
            }
        }
        keys.unique_seq_to_set();
    }

    /// The index of the entry for `key`, if there is one.
    fn find(&self, key: &String) -> (r: Option<usize>)
        requires
            self.wf(),
        ensures
            match r {
                Some(i) => i < self.entries@.len() && self.entries@[i as int].0@ == key@,
                None => !self@.contains_key(key@),
            },
    {
        let mut i: usize = 0;
        while i < self.entries.len()
            invariant
                self.wf(),
                i <= self.entries@.len(),
                forall|j: int| 0 <= j < i ==> (#[trigger] self.entries@[j]).0@ != key@,
            decreases self.entries@.len() - i,
        {
            if self.entries[i].0 == *key {
                return Some(i);
            }
            i = i + 1;
        }
        None
    }

    /// The value stored under `key`, if any. The store is not changed.
    pub fn get(&self, key: &String) -> (r: Option<String>)
        requires
            self.wf(),
        ensures
            match r {
                Some(v) => self@.contains_key(key@) && v@ == self@[key@],
                None => !self@.contains_key(key@),
            },
    {
        match self.find(key) {
            Some(i) => Some(self.entries[i].1.clone()),
            None => None,
        }
    }

    /// Stores `val` under `key`, replacing and returning any earlier value.
    pub fn insert(&mut self, key: String, val: String) -> (r: Option<String>)
        requires
            old(self).wf(),
        ensures
            final(self).wf(),
            final(self)@ == old(self)@.insert(key@, val@),
            match r {
                Some(v) => old(self)@.contains_key(key@) && v@ == old(self)@[key@],
                None => !old(self)@.contains_key(key@),
            },
    {
        let ghost k = key@;
        let ghost v = val@;
        let ghost pre = self.entries@;
        match self.find(&key) {
            Some(i) => {
                let prev = self.entries[i].1.clone();
                self.entries.set(i, (key, val));
                self.model = Ghost(self.model@.insert(k, v));
                proof {
                    assert forall|j: int| 0 <= j < self.entries@.len() && j != i implies
                        self.entries@[j] == pre[j] by {}
                    assert forall|kk: Seq<char>| #[trigger] self.model@.contains_key(kk) implies
                        exists|j: int| 0 <= j < self.entries@.len() && (#[trigger] self.entries@[j]).0@ == kk by {
                        if kk == k {
                            assert(self.entries@[i as int].0@ == kk);
                        } else {
                            let j = choose|j: int| 0 <= j < pre.len() && (#[trigger] pre[j]).0@ == kk;
                            assert(self.entries@[j].0@ == kk);
                        }
                    }
                }
                Some(prev)
            },
            None => {
                self.entries.push((key, val));
                self.model = Ghost(self.model@.insert(k, v));
                proof {
                    assert forall|j: int| 0 <= j < pre.len() implies self.entries@[j] == pre[j] by {}
                    assert(self.entries@[pre.len() as int].0@ == k);
                    assert forall|kk: Seq<char>| #[trigger] self.model@.contains_key(kk) implies
                        exists|j: int| 0 <= j < self.entries@.len() && (#[trigger] self.entries@[j]).0@ == kk by {
                        if kk == k {
                            assert(self.entries@[pre.len() as int].0@ == kk);
                        } else {
                            let j = choose|j: int| 0 <= j < pre.len() && (#[trigger] pre[j]).0@ == kk;
                            assert(self.entries@[j].0@ == kk);
                        }
                    }
                }
                None
            },
        }
    }

    /// Processes one request: a `Get` answers from the map and leaves it
    /// unchanged; a `Put` stores the value and echoes what was stored.
    pub fn apply(&mut self, req: Request) -> (r: CommandResult)
        requires
            old(self).wf(),
        ensures
            final(self).wf(),
            final(self)@ == next_contents(old(self)@, req@),
            r@ == result_of(old(self)@, req@),
    {
        match req {
            Request::Get { key } => match self.get(&key) {
                Some(val) => CommandResult::Found { key, val },
                None => CommandResult::NotFound,
            },
            Request::Put { key, val } => {
                let _ = self.insert(key.clone(), val.clone());
                CommandResult::Found { key, val }
            },
        }
    }
}

/// A key that no request of `log` writes reads as absent after `log` runs
/// on an empty store.
pub proof fn lemma_unwritten_key_not_found(log: Seq<RequestModel>, k: Seq<char>)
    requires
        forall|i: int| 0 <= i < log.len() ==> !writes_key(#[trigger] log[i], k),
    ensures
        lookup(run(Map::empty(), log), k) == ResultModel::NotFound,
    decreases log.len(),
{
    if log.len() > 0 {
        let prefix = log.drop_last();
        assert forall|i: int| 0 <= i < prefix.len() implies !writes_key(#[trigger] prefix[i], k) by {
            assert(prefix[i] == log[i]);
        }
        lemma_unwritten_key_not_found(prefix, k);
        assert(!writes_key(log[log.len() - 1], k));
    }
}

/// Once `Put(k, v)` has been processed, a `Get(k)` that follows it answers
/// `Found(k, v)`, whatever the store held before.
pub proof fn lemma_get_after_put(m: StoreModel, k: Seq<char>, v: Seq<char>)
    ensures
        result_of(
            next_contents(m, RequestModel::Put { key: k, val: v }),
            RequestModel::Get { key: k },
        ) == (ResultModel::Found { key: k, val: v }),
{
}

/// Repeating `Put(k, v)` any positive number of times leaves the same
/// contents as a single `Put(k, v)`, and `Get(k)` then answers `Found(k, v)`.
pub proof fn lemma_repeated_put(m: StoreModel, k: Seq<char>, v: Seq<char>, n: nat)
    requires
        n > 0,
    ensures
        run(m, Seq::new(n, |i: int| RequestModel::Put { key: k, val: v })) == m.insert(k, v),
        lookup(run(m, Seq::new(n, |i: int| RequestModel::Put { key: k, val: v })), k)
            == (ResultModel::Found { key: k, val: v }),
    decreases n,
{
    let log = Seq::new(n, |i: int| RequestModel::Put { key: k, val: v });
    let prefix = Seq::new((n - 1) as nat, |i: int| RequestModel::Put { key: k, val: v });
    assert(log.drop_last() =~= prefix);
    assert(log.last() == (RequestModel::Put { key: k, val: v }));
    assert(run(m, log) == run(m, prefix).insert(k, v));
    if n > 1 {
        lemma_repeated_put(m, k, v, (n - 1) as nat);
        assert(m.insert(k, v).insert(k, v) =~= m.insert(k, v));
    } else {
        assert(prefix =~= Seq::<RequestModel>::empty());
        assert(run(m, prefix) == m);
    }
}

/// Requests that do not write `k` leave its entry as it was.
pub proof fn lemma_other_requests_keep_key(m: StoreModel, log: Seq<RequestModel>, k: Seq<char>)
    requires
        forall|i: int| 0 <= i < log.len() ==> !writes_key(#[trigger] log[i], k),
    ensures
        lookup(run(m, log), k) == lookup(m, k),
    decreases log.len(),
{
    if log.len() > 0 {
        let prefix = log.drop_last();
        assert forall|i: int| 0 <= i < prefix.len() implies !writes_key(#[trigger] prefix[i], k) by {
            assert(prefix[i] == log[i]);
        }
        lemma_other_requests_keep_key(m, prefix, k);
        assert(!writes_key(log[log.len() - 1], k));
    }
}

/// Running `a` and then `b` is running their concatenation.
pub proof fn lemma_run_concat(m: StoreModel, a: Seq<RequestModel>, b: Seq<RequestModel>)
    ensures
        run(m, a + b) == run(run(m, a), b),
    decreases b.len(),
{
    if b.len() > 0 {
        assert((a + b).drop_last() =~= a + b.drop_last());
        lemma_run_concat(m, a, b.drop_last());
    }
}

/// Last writer wins: when `Put(k, v1)` is processed before `Put(k, v2)`,
/// and nothing after the second writes `k`, a `Get(k)` processed after
/// both answers `Found(k, v2)`, never `v1` unless the two values agree.
pub proof fn lemma_last_writer_wins(
    m: StoreModel,
    before: Seq<RequestModel>,
    k: Seq<char>,
    v1: Seq<char>,
    between: Seq<RequestModel>,
    v2: Seq<char>,
    after: Seq<RequestModel>,
)
    requires
        forall|i: int| 0 <= i < after.len() ==> !writes_key(#[trigger] after[i], k),
    ensures
        ({
            let log = before + seq![RequestModel::Put { key: k, val: v1 }] + between + seq![
                RequestModel::Put { key: k, val: v2 },
            ] + after;
            &&& lookup(run(m, log), k) == (ResultModel::Found { key: k, val: v2 })
            &&& v1 != v2 ==> lookup(run(m, log), k) != (ResultModel::Found { key: k, val: v1 })
        }),
{
    let first = before + seq![RequestModel::Put { key: k, val: v1 }] + between;
    let second = seq![RequestModel::Put { key: k, val: v2 }];
    lemma_run_concat(m, first + second, after);
    lemma_run_concat(m, first, second);
    assert(second.drop_last() =~= Seq::<RequestModel>::empty());
    lemma_other_requests_keep_key(run(m, first + second), after, k);
}

/// Whichever `Put` of `k` was processed last decides: when `log[i]` is
/// `Put(k, v)` and no later request of `log` writes `k`, a `Get(k)` after
/// `log` answers `Found(k, v)`, however the other requests interleave.
pub proof fn lemma_get_sees_last_put(m: StoreModel, log: Seq<RequestModel>, i: int, k: Seq<char>, v: Seq<char>)
    requires
        0 <= i < log.len(),
        log[i] == (RequestModel::Put { key: k, val: v }),
        forall|j: int| i < j < log.len() ==> !writes_key(#[trigger] log[j], k),
    ensures
        lookup(run(m, log), k) == (ResultModel::Found { key: k, val: v }),
{
    let upto = log.subrange(0, i + 1);
    let after = log.subrange(i + 1, log.len() as int);
    assert(log =~= upto + after);
    lemma_run_concat(m, upto, after);
    assert forall|j: int| 0 <= j < after.len() implies !writes_key(#[trigger] after[j], k) by {
        assert(after[j] == log[i + 1 + j]);
    }
    lemma_other_requests_keep_key(run(m, upto), after, k);
    assert(upto.last() == log[i]);
}

} // verus!
