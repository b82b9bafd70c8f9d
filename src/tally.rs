use vstd::prelude::*;

verus! {

/// The character sequences of a sequence of strings.
pub open spec fn texts(v: Seq<String>) -> Seq<Seq<char>> {
    v.map_values(|s: String| s@)
}

/// The sum of a sequence of counts.
pub open spec fn sum_of(s: Seq<usize>) -> int
    decreases s.len(),
{
    if s.len() == 0 {
        0
    } else {
        sum_of(s.drop_last()) + s.last()
    }
}

proof fn lemma_sum_update(s: Seq<usize>, i: int, v: usize)
    requires
        0 <= i < s.len(),
    ensures
        sum_of(s.update(i, v)) == sum_of(s) - s[i] + v,
    decreases s.len(),
{
    let t = s.update(i, v);
    if i == s.len() - 1 {
        assert(t.drop_last() =~= s.drop_last());
    } else {
        assert(t.drop_last() =~= s.drop_last().update(i, v));
        lemma_sum_update(s.drop_last(), i, v);
    }
}

proof fn lemma_sum_bounds_each(s: Seq<usize>, i: int)
    requires
        0 <= i < s.len(),
    ensures
        0 <= s[i] <= sum_of(s),
    decreases s.len(),
{
    lemma_sum_nonneg(s.drop_last());
    if i < s.len() - 1 {
        lemma_sum_bounds_each(s.drop_last(), i);
    }
}

proof fn lemma_sum_nonneg(s: Seq<usize>)
    ensures
        sum_of(s) >= 0,
    decreases s.len(),
{
    if s.len() > 0 {
        lemma_sum_nonneg(s.drop_last());
    }
}

proof fn lemma_sum_push(s: Seq<usize>, v: usize)
    ensures
        sum_of(s.push(v)) == sum_of(s) + v,
{
    assert(s.push(v).drop_last() =~= s);
}

proof fn lemma_contains_push(s: Seq<Seq<char>>, x: Seq<char>, k: Seq<char>)
    ensures
        s.push(x).contains(k) <==> (s.contains(k) || k == x),
{
    if s.contains(k) {
        let j = choose|j: int| 0 <= j < s.len() && s[j] == k;
        assert(s.push(x)[j] == k);
    }
    if k == x {
        assert(s.push(x)[s.len() as int] == x);
    }
    if s.push(x).contains(k) {
        let j = choose|j: int| 0 <= j < s.len() + 1 && s.push(x)[j] == k;
        if j < s.len() {
            assert(s[j] == k);
        }
    }
}

/// Whether two strings hold the same text.
pub fn same_text(a: &String, b: &String) -> (r: bool)
    ensures
        r == (a@ == b@),
{
    a.eq(b)
}

/// A tally: for each distinct option label, the number of votes it received.
#[derive(Debug, Clone)]
pub struct VoteCounts {
    /// The distinct option labels.
    pub labels: Vec<String>,
    /// The votes of each label, at the same position.
    pub counts: Vec<usize>,
}

impl View for VoteCounts {
    type V = Map<Seq<char>, nat>;

    /// Each label mapped to its count.
    open spec fn view(&self) -> Map<Seq<char>, nat> {
        Map::new(
            |k: Seq<char>| texts(self.labels@).contains(k),
            |k: Seq<char>| self.counts@[texts(self.labels@).index_of(k)] as nat,
        )
    }
}

impl VoteCounts {
    /// Labels are distinct and each has exactly one count.
    pub open spec fn wf(&self) -> bool {
        &&& self.labels@.len() == self.counts@.len()
        &&& texts(self.labels@).no_duplicates()
    }

    /// The number of votes over all labels.
    pub open spec fn total(&self) -> int {
        sum_of(self.counts@)
    }

    /// The tally that gives each of `options` zero votes; a repeated label appears once.
    pub fn zeroed(options: &Vec<String>) -> (r: VoteCounts)
        ensures
            r.wf(),
            r.total() == 0,
            r@ == Map::new(|k: Seq<char>| texts(options@).contains(k), |k: Seq<char>| 0nat),
    {
        let mut r = VoteCounts { labels: Vec::new(), counts: Vec::new() };
        let mut i: usize = 0;
        while i < options.len()
            invariant
                i <= options@.len(),
                r.wf(),
                r.total() == 0,
                forall|j: int| 0 <= j < r.counts@.len() ==> r.counts@[j] == 0,
                forall|k: Seq<char>|
                    texts(r.labels@).contains(k) <==> texts(options@.take(i as int)).contains(k),
            decreases options@.len() - i,
        {
            let label = &options[i];
            let found = r.position(label);
            let ghost before = texts(r.labels@);
            proof {
                assert(options@.take(i as int + 1) =~= options@.take(i as int).push(options@[i as int]));
                assert(texts(options@.take(i as int + 1)) =~= texts(options@.take(i as int)).push(
                    label@,
                ));
            }
            if let Some(j) = found {
                assert(texts(r.labels@)[j as int] == label@);
            } else {
                r.labels.push(label.clone());
                proof {
                    lemma_sum_push(r.counts@, 0);
                    assert(texts(r.labels@) =~= before.push(label@));
                }
                r.counts.push(0);
            }
            proof {
                assert forall|k: Seq<char>|
                    texts(r.labels@).contains(k) <==> texts(
                        options@.take(i as int + 1),
                    ).contains(k) by {
                    lemma_contains_push(texts(options@.take(i as int)), label@, k);
                    lemma_contains_push(before, label@, k);
                }
            }
            i = i + 1;
        }
        proof {
            assert(options@.take(options@.len() as int) =~= options@);
            let m = Map::new(|k: Seq<char>| texts(options@).contains(k), |k: Seq<char>| 0nat);
            assert forall|k: Seq<char>| r@.contains_key(k) implies r@[k] == 0nat by {
                let j = texts(r.labels@).index_of(k);
                assert(0 <= j < r.counts@.len());
            }
            assert(r@ =~= m);
        }
        r
    }

    /// Where `label` stands among the labels, if it does.
    fn position(&self, label: &String) -> (r: Option<usize>)
        requires
            self.wf(),
        ensures
            match r {
                Some(i) => i < self.labels@.len() && self.labels@[i as int]@ == label@,
                None => !texts(self.labels@).contains(label@),
            },
    {
        let mut i: usize = 0;
        while i < self.labels.len()
            invariant
                i <= self.labels@.len(),
                forall|j: int| 0 <= j < i ==> self.labels@[j]@ != label@,
            decreases self.labels@.len() - i,
        {
            if same_text(&self.labels[i], label) {
                return Some(i);
            }
            i = i + 1;
        }
        proof {
            assert forall|j: int| 0 <= j < texts(self.labels@).len() implies texts(
                self.labels@,
            )[j] != label@ by {}
        }
        None
    }

    /// The number of votes that `label` received, or `None` where it is no label of the tally.
    pub fn get(&self, label: &str) -> (r: Option<usize>)
        requires
            self.wf(),
        ensures
            match r {
                Some(c) => self@.contains_key(label@) && c as nat == self@[label@],
                None => !self@.contains_key(label@),
            },
    {
        let key = label.to_string();
        proof {
            vstd::string::to_string_from_display_ensures_for_str(label, key);
        }
        match self.position(&key) {
            Some(i) => {
                proof {
                    let t = texts(self.labels@);
                    assert(t[i as int] == key@);
                    assert(t.contains(key@));
                    assert(t.index_of(key@) == i) by {
                        let j = t.index_of(key@);
                        assert(t[j] == t[i as int]);
                    }
                }
                Some(self.counts[i])
            },
            None => None,
        }
    }

    /// Adds one vote to `label`.
    pub fn increment(&mut self, label: &String)
        requires
            old(self).wf(),
            old(self)@.contains_key(label@),
            old(self).total() < usize::MAX,
        ensures
            final(self).wf(),
            final(self)@ == old(self)@.insert(label@, old(self)@[label@] + 1),
            final(self).total() == old(self).total() + 1,
    {
        let ghost t = texts(self.labels@);
        let i = match self.position(label) {
            Some(i) => i,
            None => {
                proof {
                    assert(false);
                }
                return ;
            },
        };
        proof {
            assert(t[i as int] == label@);
            assert(t.index_of(label@) == i) by {
                let j = t.index_of(label@);
                assert(t[j] == t[i as int]);
            }
            lemma_sum_bounds_each(self.counts@, i as int);
            lemma_sum_update(self.counts@, i as int, (self.counts@[i as int] + 1) as usize);
        }
        let c = self.counts[i];
        self.counts.set(i, c + 1);
        proof {
            assert(texts(self.labels@) == t);
            let m = old(self)@.insert(label@, old(self)@[label@] + 1);
            assert forall|k: Seq<char>| #[trigger] self@.contains_key(k) implies self@[k] == m[k] by {
                let j = t.index_of(k);
                if k != label@ {
                    assert(j != i);
                }
            }
            assert(self@ =~= m);
        }
    }

    /// A copy of this tally that later votes do not reach.
    pub fn snapshot(&self) -> (r: VoteCounts)
        requires
            self.wf(),
        ensures
            r.wf(),
            r@ == self@,
            r.total() == self.total(),
    {
        let mut labels: Vec<String> = Vec::new();
        let mut counts: Vec<usize> = Vec::new();
        let mut i: usize = 0;
        while i < self.labels.len()
            invariant
                self.wf(),
                i <= self.labels@.len(),
                labels@ == self.labels@.take(i as int),
                counts@ == self.counts@.take(i as int),
            decreases self.labels@.len() - i,
        {
            labels.push(self.labels[i].clone());
            counts.push(self.counts[i]);
            proof {
                assert(labels@ =~= self.labels@.take(i as int + 1));
                assert(counts@ =~= self.counts@.take(i as int + 1));
            }
            i = i + 1;
        }
        proof {
            assert(labels@ =~= self.labels@);
            assert(counts@ =~= self.counts@);
        }
        VoteCounts { labels, counts }
    }
}

} // verus!
