//! The synonym filter: replaces a registered synonym by its canonical word.
//!
//! A configuration has one group per line: the first word of a line is the
//! canonical word and the others are its synonyms. No word may appear twice.

use vstd::prelude::*;

use crate::text::{lines, lines_of, split_whitespace, views, words_of};

verus! {

/// The word groups of a configuration, one per line.
pub open spec fn groups_of(config: Seq<char>) -> Seq<Seq<Seq<char>>> {
    lines_of(config).map_values(|l: Seq<char>| words_of(l))
}

/// The `(synonym, canonical)` pairs of one group.
pub open spec fn group_pairs(group: Seq<Seq<char>>) -> Seq<(Seq<char>, Seq<char>)> {
    if group.len() == 0 {
        Seq::empty()
    } else {
        Seq::new((group.len() - 1) as nat, |k: int| (group[k + 1], group[0]))
    }
}

/// The pairs of all groups, in order.
pub open spec fn all_pairs(groups: Seq<Seq<Seq<char>>>) -> Seq<(Seq<char>, Seq<char>)>
    decreases groups.len(),
{
    if groups.len() == 0 {
        Seq::empty()
    } else {
        all_pairs(groups.drop_last()) + group_pairs(groups.last())
    }
}

/// Every word of all groups, in order.
pub open spec fn all_words(groups: Seq<Seq<Seq<char>>>) -> Seq<Seq<char>>
    decreases groups.len(),
{
    if groups.len() == 0 {
        Seq::empty()
    } else {
        all_words(groups.drop_last()) + groups.last()
    }
}

/// No word is the synonym of two entries.
pub open spec fn keys_distinct(pairs: Seq<(Seq<char>, Seq<char>)>) -> bool {
    forall|a: int, b: int| 0 <= a < b < pairs.len() ==> pairs[a].0 != pairs[b].0
}

/// The token after replacement: the canonical word of its last entry, or the
/// token itself when it is no synonym.
pub open spec fn rewrite(pairs: Seq<(Seq<char>, Seq<char>)>, token: Seq<char>) -> Seq<char>
    decreases pairs.len(),
{
    if pairs.len() == 0 {
        token
    } else if pairs.last().0 == token {
        pairs.last().1
    } else {
        rewrite(pairs.drop_last(), token)
    }
}

pub open spec fn pair_views(v: Seq<(String, String)>) -> Seq<(Seq<char>, Seq<char>)> {
    v.map_values(|p: (String, String)| (p.0@, p.1@))
}

/// Why a synonym configuration was refused.
#[derive(Clone, Debug, PartialEq, Eq)]
pub enum SynonymError {
    /// This word appears more than once.
    Duplicate(String),
}

/// A synonym set.
pub struct SynonymTokenFilter {
    synonyms: Vec<(String, String)>,
}

proof fn lemma_all_words_append(a: Seq<Seq<Seq<char>>>, b: Seq<Seq<Seq<char>>>)
    ensures
        all_words(a + b) == all_words(a) + all_words(b),
    decreases b.len(),
{
    if b.len() == 0 {
        assert(a + b =~= a);
    } else {
        lemma_all_words_append(a, b.drop_last());
        assert((a + b).drop_last() =~= a + b.drop_last());
    }
}

proof fn lemma_prefix_step(groups: Seq<Seq<Seq<char>>>, i: int)
    requires
        0 <= i < groups.len(),
    ensures
        all_words(groups.subrange(0, i + 1)) == all_words(groups.subrange(0, i)) + groups[i],
        all_pairs(groups.subrange(0, i + 1)) == all_pairs(groups.subrange(0, i)) + group_pairs(
            groups[i],
        ),
{
    assert(groups.subrange(0, i + 1).drop_last() =~= groups.subrange(0, i));
}

/// A duplicate within the words read so far is a duplicate of the whole.
proof fn lemma_duplicate_in_prefix(
    groups: Seq<Seq<Seq<char>>>,
    i: int,
    k: int,
    seen: Seq<Seq<char>>,
    w: Seq<char>,
)
    requires
        0 <= i < groups.len(),
        0 <= k < groups[i].len(),
        seen == all_words(groups.subrange(0, i)) + groups[i].subrange(0, k),
        seen.contains(w),
        groups[i][k] == w,
    ensures
        !all_words(groups).no_duplicates(),
        all_words(groups).contains(w),
{
    let before = all_words(groups.subrange(0, i));
    let rest = groups.subrange(i + 1, groups.len() as int);
    lemma_all_words_append(groups.subrange(0, i + 1), rest);
    assert(groups.subrange(0, i + 1) + rest =~= groups);
    lemma_prefix_step(groups, i);
    let whole = all_words(groups);
    let p = choose|p: int| 0 <= p < seen.len() && seen[p] == w;
    let q = before.len() + k;
    assert(whole[q] == w);
    assert(whole[p] == seen[p]);
}

impl SynonymTokenFilter {
    #[verifier::type_invariant]
    spec fn well_formed(self) -> bool {
        keys_distinct(pair_views(self.synonyms@))
    }

    /// The `(synonym, canonical)` pairs, in the order of the configuration.
    pub closed spec fn spec_pairs(self) -> Seq<(Seq<char>, Seq<char>)> {
        pair_views(self.synonyms@)
    }

    pub open spec fn spec_apply(self, token: Seq<char>) -> Seq<Seq<char>> {
        seq![rewrite(self.spec_pairs(), token)]
    }

    /// Reads a synonym set; refuses a configuration in which a word appears
    /// twice.
    pub fn build(config: &str) -> (r: Result<Self, SynonymError>)
        ensures
            r is Ok <==> all_words(groups_of(config@)).no_duplicates(),
            r matches Ok(f) ==> f.spec_pairs() == all_pairs(groups_of(config@)) && keys_distinct(
                f.spec_pairs(),
            ),
            r matches Err(SynonymError::Duplicate(w)) ==> all_words(groups_of(config@)).contains(
                w@,
            ),
    {
        let ls = lines(config);
        let ghost groups = groups_of(config@);
        let mut seen: Vec<String> = Vec::new();
        let mut synonyms: Vec<(String, String)> = Vec::new();
        let n = ls.len();
        let mut i: usize = 0;
        assert(groups.subrange(0, 0) =~= Seq::<Seq<Seq<char>>>::empty());
        while i < n
            invariant
                i <= n,
                n == ls@.len(),
                views(ls@) == lines_of(config@),
                groups == groups_of(config@),
                groups.len() == n,
                views(seen@) == all_words(groups.subrange(0, i as int)),
                views(seen@).no_duplicates(),
                pair_views(synonyms@) == all_pairs(groups.subrange(0, i as int)),
                keys_distinct(pair_views(synonyms@)),
                forall|a: int|
                    0 <= a < synonyms@.len() ==> #[trigger] views(seen@).contains(
                        synonyms@[a].0@,
                    ),
            decreases n - i,
        {
            let words = split_whitespace(ls[i].as_str());
            assert(views(words@) == groups[i as int]);
            proof {
                lemma_prefix_step(groups, i as int);
            }
            let ghost seen0 = views(seen@);
            let ghost pairs0 = pair_views(synonyms@);
            let m = words.len();
            let mut k: usize = 0;
            while k < m
                invariant
                    k <= m,
                    m == words@.len(),
                    i < n,
                    groups.len() == n,
                    groups == groups_of(config@),
                    views(words@) == groups[i as int],
                    seen0 == all_words(groups.subrange(0, i as int)),
                    views(seen@) == seen0 + views(words@).subrange(0, k as int),
                    views(seen@).no_duplicates(),
                    pair_views(synonyms@) == pairs0 + group_pairs(views(words@)).subrange(
                        0,
                        if k == 0 {
                            0
                        } else {
                            k - 1
                        },
                    ),
                    keys_distinct(pair_views(synonyms@)),
                    forall|a: int|
                        0 <= a < synonyms@.len() ==> #[trigger] views(seen@).contains(
                            synonyms@[a].0@,
                        ),
                decreases m - k,
            {
                let mut j: usize = 0;
                while j < seen.len()
                    invariant
                        j <= seen@.len(),
                        k < m,
                        m == words@.len(),
                        i < n,
                        groups.len() == n,
                        groups == groups_of(config@),
                        views(words@) == groups[i as int],
                        seen0 == all_words(groups.subrange(0, i as int)),
                        views(seen@) == seen0 + views(words@).subrange(0, k as int),
                        forall|b: int| 0 <= b < j ==> seen@[b]@ != words@[k as int]@,
                    decreases seen@.len() - j,
                {
                    if seen[j] == words[k] {
                        proof {
                            assert(views(seen@)[j as int] == words@[k as int]@);
                            lemma_duplicate_in_prefix(
                                groups,
                                i as int,
                                k as int,
                                views(seen@),
                                words@[k as int]@,
                            );
                        }
                        return Err(SynonymError::Duplicate(words[k].clone()));
                    }
                    j = j + 1;
                }
                let ghost w = words@[k as int]@;
                proof {
                    assert(!views(seen@).contains(w)) by {
                        if views(seen@).contains(w) {
                            let b = choose|b: int| 0 <= b < views(seen@).len() && views(seen@)[b] == w;
                            assert(seen@[b]@ == w);
                        }
                    }
                }
                if k > 0 {
                    let ghost before = pair_views(synonyms@);
                    synonyms.push((words[k].clone(), words[0].clone()));
                    proof {
                        assert(pair_views(synonyms@) =~= before.push((w, words@[0]@)));
                        assert(pair_views(synonyms@) =~= pairs0 + group_pairs(views(words@)).subrange(0, k as int));
                        assert forall|a: int, b: int| 0 <= a < b < pair_views(synonyms@).len() implies pair_views(synonyms@)[a].0 != pair_views(synonyms@)[b].0 by {
                            if b == synonyms@.len() - 1 {
                                assert(views(seen@).contains(synonyms@[a].0@));
                            } else {
                                assert(pair_views(synonyms@)[a] == before[a]);
                                assert(pair_views(synonyms@)[b] == before[b]);
                            }
                        }
                    }
                }
                let ghost seen_before = views(seen@);
                seen.push(words[k].clone());
                proof {
                    assert(views(seen@) =~= seen_before.push(w));
                    assert(views(seen@) =~= seen0 + views(words@).subrange(0, k as int + 1));
                    assert forall|a: int, b: int| 0 <= a < views(seen@).len() && 0 <= b < views(seen@).len() && a != b implies views(seen@)[a] != views(seen@)[b] by {
                        if a == seen@.len() - 1 {
                            assert(seen_before.contains(views(seen@)[b]));
                        } else if b == seen@.len() - 1 {
                            assert(seen_before.contains(views(seen@)[a]));
                        }
                    }
                    assert forall|a: int| 0 <= a < synonyms@.len() implies #[trigger] views(seen@).contains(synonyms@[a].0@) by {
                        if synonyms@[a].0@ == w {
                            assert(views(seen@)[seen@.len() - 1] == w);
                        } else {
                            assert(seen_before.contains(synonyms@[a].0@));
                            let b = choose|b: int| 0 <= b < seen_before.len() && seen_before[b] == synonyms@[a].0@;
                            assert(views(seen@)[b] == synonyms@[a].0@);
                        }
                    }
                }
                k = k + 1;
            }
            assert(views(words@).subrange(0, m as int) =~= views(words@));
            proof {
                if m > 0 {
                    assert(group_pairs(views(words@)).subrange(0, m - 1) =~= group_pairs(views(words@)));
                } else {
                    assert(group_pairs(views(words@)) =~= Seq::<(Seq<char>, Seq<char>)>::empty());
                    assert(pair_views(synonyms@) =~= pairs0 + group_pairs(views(words@)));
                }
            }
            i = i + 1;
        }
        assert(groups.subrange(0, n as int) =~= groups);
        Ok(SynonymTokenFilter { synonyms })
    }

    /// Replaces a registered synonym by its canonical word.
    pub fn apply(&self, token: String) -> (r: Vec<String>)
        ensures
            views(r@) == self.spec_apply(token@),
    {
        let mut i: usize = self.synonyms.len();
        assert(self.spec_pairs().subrange(0, i as int) =~= self.spec_pairs());
        while i > 0
            invariant
                i <= self.synonyms@.len(),
                rewrite(self.spec_pairs(), token@) == rewrite(
                    self.spec_pairs().subrange(0, i as int),
                    token@,
                ),
            decreases i,
        {
            assert(self.spec_pairs().subrange(0, i as int).drop_last() =~= self.spec_pairs().subrange(
                0,
                i as int - 1,
            ));
            if self.synonyms[i - 1].0 == token {
                let canonical = self.synonyms[i - 1].1.clone();
                let ghost c = canonical@;
                let r = vec![canonical];
                assert(views(r@) =~= seq![c]);
                return r;
            }
            i = i - 1;
        }
        assert(self.spec_pairs().subrange(0, 0) =~= Seq::<(Seq<char>, Seq<char>)>::empty());
        let ghost t = token@;
        let r = vec![token];
        assert(views(r@) =~= seq![t]);
        r
    }
}

/// A registered synonym is replaced by its canonical word; a token that is no
/// synonym stays as it is.
pub proof fn lemma_synonym_rewrite(
    pairs: Seq<(Seq<char>, Seq<char>)>,
    token: Seq<char>,
    canonical: Seq<char>,
)
    requires
        keys_distinct(pairs),
    ensures
        pairs.contains((token, canonical)) ==> rewrite(pairs, token) == canonical,
        (forall|c: Seq<char>| !pairs.contains((token, c))) ==> rewrite(pairs, token) == token,
    decreases pairs.len(),
{
    if pairs.len() > 0 {
        let init = pairs.drop_last();
        assert(keys_distinct(init));
        lemma_synonym_rewrite(init, token, canonical);
        if pairs.contains((token, canonical)) && pairs.last().0 != token {
            let j = choose|j: int| 0 <= j < pairs.len() && pairs[j] == (token, canonical);
            assert(init[j] == (token, canonical));
        }
        if pairs.contains((token, canonical)) && pairs.last().0 == token {
            let j = choose|j: int| 0 <= j < pairs.len() && pairs[j] == (token, canonical);
            if j < pairs.len() - 1 {
                assert(pairs[j].0 != pairs[pairs.len() - 1].0);
            }
        }
        if forall|c: Seq<char>| !pairs.contains((token, c)) {
            assert(pairs.last().0 != token) by {
                if pairs.last().0 == token {
                    assert(pairs.contains((token, pairs.last().1)));
                }
            }
            assert forall|c: Seq<char>| !init.contains((token, c)) by {
                if init.contains((token, c)) {
                    let j = choose|j: int| 0 <= j < init.len() && init[j] == (token, c);
                    assert(pairs[j] == (token, c));
                    assert(pairs.contains((token, c)));
                }
            }
        }
    }
}

} // verus!
